//! A caller and a payload of an authentication API.

use vstd::prelude::*;
use vstd::string::StringExecFns;
use crate::api_caller::{ApiCaller, ClientConfig, RedirectPolicy};
use crate::error::{before_deserialize_failed, before_deserialize_message, ApiResult, ErrView};
use crate::http::{BodyFormat, HeaderMap, Method};
use crate::payload::Payload;
use crate::text::{ascii_lower, strip_prefix};

verus! {

/// The API at `https://api.micoapi.com`: it sends a browser's user agent
/// and does not follow redirects.
#[derive(Debug)]
pub struct Api {}

impl ApiCaller for Api {
    fn base_url() -> (s: String)
        ensures
            s@ == "https://api.micoapi.com"@,
    {
        String::from_str("https://api.micoapi.com")
    }

    fn client() -> (c: ClientConfig)
        ensures
            c.redirect == RedirectPolicy::NoFollow,
            c.default_headers@ == Map::<Seq<char>, Seq<char>>::empty().insert(ascii_lower("user-agent"@), "Mozilla/5.0"@),
    {
        let mut default_headers = HeaderMap::new();
        default_headers.insert(String::from_str("user-agent"), String::from_str("Mozilla/5.0"));
        ClientConfig { redirect: RedirectPolicy::NoFollow, default_headers }
    }
}

/// Logs in: a form with the email and the password is posted to
/// `/v2/auth/{id}`, with the password as the `authorization` header. The
/// response starts with `&&&START&&&`, which is cut off before the rest is
/// deserialized.
#[derive(Debug)]
pub struct LoginPayload {
    /// Goes into the path; not part of the form.
    pub id: String,
    pub email: String,
    pub password: String,
}

/// The marker the login response starts with.
pub open spec fn login_marker() -> Seq<char> {
    "&&&START&&&"@
}

/// What the login payload's step before deserializing gives for a body:
/// the rest after the marker, or `Before deserialize failed:` and the body.
pub open spec fn login_before_deserialize(body: Seq<char>) -> Result<Seq<char>, ErrView> {
    if login_marker().is_prefix_of(body) {
        Ok(body.skip(login_marker().len() as int))
    } else {
        Err(ErrView::Other(before_deserialize_message(body)))
    }
}

impl Payload for LoginPayload {
    fn method() -> (m: Method)
        ensures
            m == Method::POST,
    {
        Method::POST
    }

    fn headers(&self) -> (h: Option<HeaderMap>)
        ensures
            h matches Some(m) && m@ == Map::<Seq<char>, Seq<char>>::empty().insert(ascii_lower("authorization"@), self.password@),
    {
        let mut headers = HeaderMap::new();
        headers.insert(String::from_str("authorization"), self.password.clone());
        Some(headers)
    }

    fn path(&self) -> (p: Option<String>)
        ensures
            p matches Some(s) && s@ == "/v2/auth/"@ + self.id@,
    {
        Some(String::from_str("/v2/auth/").concat(self.id.as_str()))
    }

    fn body_format() -> (f: Option<BodyFormat>)
        ensures
            f == Some(BodyFormat::Form),
    {
        Some(BodyFormat::Form)
    }

    fn before_deserialize(body: String) -> (r: ApiResult<String>)
        ensures
            match login_before_deserialize(body@) {
                Ok(b) => r matches Ok(s) && s@ == b,
                Err(e) => r matches Err(x) && x@ == e,
            },
    {
        match strip_prefix(body.as_str(), "&&&START&&&") {
            Some(rest) => Ok(rest),
            None => Err(before_deserialize_failed(body.as_str())),
        }
    }
}


/// The step before deserializing a login response undoes the marker: a body
/// made of the marker and a text gives back that text.
pub proof fn law_marker_round_trip(text: Seq<char>)
    ensures
        login_before_deserialize(login_marker() + text) == Ok::<Seq<char>, ErrView>(text),
{
    let body = login_marker() + text;
    assert(body.subrange(0, login_marker().len() as int) =~= login_marker());
    assert(body.skip(login_marker().len() as int) =~= text);
}

/// A login response that does not start with the marker is refused with
/// `Before deserialize failed:` and the body.
pub proof fn law_missing_marker_refused(body: Seq<char>)
    requires
        !login_marker().is_prefix_of(body),
    ensures
        login_before_deserialize(body) == Err::<Seq<char>, ErrView>(ErrView::Other(before_deserialize_message(body))),
{
}

} // verus!
