//! What a payload says about the request that carries it.

use vstd::prelude::*;
use crate::error::ApiResult;
use crate::http::{default_body_format, method_body_format, BodyFormat, HeaderMap, Method, RequestSpec};

verus! {

/// A payload that an `ApiCaller` turns into a request: it fixes the
/// method, the path, the headers it adds, how its own fields travel, and
/// what is done to the response's body before it is deserialized.
///
/// The contracts that use a payload speak of what its methods return
/// (`call_ensures`): an implementation verified here says in its own
/// `ensures` what that is, and one written outside the verifier (such as
/// the derive's) is held to what it does. A payload that says nothing adds
/// no headers and no path, takes the body format of its method
/// (`method_body_format`: GET the query string, POST JSON, other methods
/// not supported) and hands the body on as it is.
pub trait Payload: Sized {
    /// The method of the API.
    fn method() -> (m: Method);

    /// The headers for the API: by default none.
    fn headers(&self) -> (h: Option<HeaderMap>)
        default_ensures
            h is None,
    {
        None
    }

    /// The path for the API: by default none.
    fn path(&self) -> (p: Option<String>)
        default_ensures
            p is None,
    {
        None
    }

    /// How the payload's fields are attached: query string, JSON or form;
    /// `None` when the payload is not supported. By default the format of
    /// the method.
    fn body_format() -> (f: Option<BodyFormat>)
        default_ensures
            exists|m: Method| #[trigger] call_ensures(Self::method, (), m) && f == method_body_format(m),
    {
        default_body_format(Self::method())
    }

    /// Adds the options of the payload to a request: first its headers,
    /// then its fields in its body format. A payload without a body format
    /// (a method other than GET and POST that chose none) is not supported.
    fn req_option(&self, req: RequestSpec) -> (r: RequestSpec)
        requires
            forall|f: Option<BodyFormat>| #[trigger] call_ensures(Self::body_format, (), f) ==> f is Some,
        ensures
            r.method == req.method,
            r.url == req.url,
            exists|h: Option<HeaderMap>| #[trigger] call_ensures(Self::headers, (self,), h)
                && r.headers@ == added_headers(req.headers@, h),
            exists|f: Option<BodyFormat>| #[trigger] call_ensures(Self::body_format, (), f) && r.body == f,
    {
        let mut req = req;
        let h = self.headers();
        let ghost given = h;
        let ghost before = req.headers@;
        if let Some(headers) = h {
            req = req.headers(headers);
        }
        assert(req.headers@ == added_headers(before, given));
        let f = Self::body_format();
        req.with_body(f.unwrap())
    }

    /// Runs before the response's body is deserialized: gives the text to
    /// deserialize, or the error that ends the call. By default the body
    /// as it is.
    fn before_deserialize(body: String) -> (r: ApiResult<String>)
        default_ensures
            r matches Ok(b) && b == body,
    {
        Ok(body)
    }
}

/// The headers of a request after the payload's `h` are added: those of
/// `h` replace the values of the names they share.
pub open spec fn added_headers(base: Map<Seq<char>, Seq<char>>, h: Option<HeaderMap>) -> Map<Seq<char>, Seq<char>> {
    match h {
        Some(m) => base.union_prefer_right(m@),
        None => base,
    }
}

} // verus!
