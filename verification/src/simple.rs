//! The simple form of the API: the method is a name, the URL is the base
//! URL followed by the path, GET sends the payload as the query string
//! and POST as a JSON body; no other method is supported.

use vstd::prelude::*;
use vstd::string::StringExecFns;
use crate::api_caller::{ClientConfig, RedirectPolicy};
use crate::error::ApiErr;
use crate::http::{BodyFormat, HeaderMap, Method, RequestSpec};
use crate::text::equals;
use crate::url::{option_view, path_or_empty};

verus! {

/// A character that may stand in a method name (an HTTP token character).
pub open spec fn is_method_char(c: char) -> bool {
    ||| ('0' <= c && c <= '9')
    ||| ('A' <= c && c <= 'Z')
    ||| ('a' <= c && c <= 'z')
    ||| c == '!' || c == '#' || c == '$' || c == '%' || c == '&' || c == '\'' || c == '*'
    ||| c == '+' || c == '-' || c == '.' || c == '^' || c == '_' || c == '`' || c == '|'
    ||| c == '~'
}

/// A text that names a method: not empty, token characters only.
pub open spec fn is_method_name(s: Seq<char>) -> bool {
    s.len() > 0 && forall|i: int| 0 <= i < s.len() ==> #[trigger] is_method_char(s[i])
}

/// Converts a name into a method with `http::Method::from_bytes` (what
/// `TryFrom<&str>` for `reqwest::Method` does) and gives the method's
/// name back. The source accepts exactly the non-empty names made of token
/// characters and keeps the name as it is (standard methods are matched
/// case-sensitively, any other valid name becomes an extension method).
#[verifier::external_body]
fn parse_method(name: &str) -> (r: Option<String>)
    ensures
        match r {
            Some(m) => is_method_name(name@) && m@ == name@,
            None => !is_method_name(name@),
        },
{
    match reqwest::Method::from_bytes(name.as_bytes()) {
        Ok(m) => Some(m.as_str().to_string()),
        Err(_) => None,
    }
}

/// A payload of the simple form. As in the other form, the contracts speak
/// of what its methods return (`call_ensures`); a payload that says
/// nothing adds no headers and no path.
pub trait Payload: Sized {
    /// The name of the method of the API (`"GET"` or `"POST"`).
    fn method() -> (m: &'static str);

    /// The headers for the API: by default none.
    fn headers(&self) -> (h: Option<HeaderMap>)
        default_ensures
            h is None,
    {
        None
    }

    /// The path for the API: by default none.
    fn path(&self) -> (p: Option<String>)
        default_ensures
            p is None,
    {
        None
    }
}

/// A caller of the simple form. Its requests carry the base URL that
/// `base_url()` returns and a client that `client()` returns; a caller that
/// keeps the default `client()` sends with the client's own defaults.
pub trait ApiCaller {
    /// The base URL of the API.
    fn base_url() -> (s: String);

    /// The client requests are sent with: by default one with the client's
    /// own redirect policy and no added header
    /// (`ClientConfig::client_defaults()`).
    fn client() -> (c: ClientConfig)
        default_ensures
            c.redirect == RedirectPolicy::ClientDefault,
            c.default_headers@ == Map::<Seq<char>, Seq<char>>::empty(),
    {
        ClientConfig::client_defaults()
    }

    /// A request that carries `payload` to this API, not started yet.
    fn request<P: Payload>(payload: P) -> (r: Request<P>)
        ensures
            r.payload == Some(payload),
            r.stage == Stage::Ready,
            r.pending is None,
            call_ensures(Self::base_url, (), r.base_url),
            call_ensures(Self::client, (), r.client),
    {
        Request::new(payload, Self::base_url(), Self::client())
    }
}

/// Where a request stands.
#[derive(Clone, Copy, Debug, PartialEq, Eq, Structural)]
pub enum Stage {
    /// Not polled yet.
    Ready,
    /// A GET request waits for its payload's query string.
    Encoding,
    /// Handed out to be sent.
    Sending,
    /// Waits for the body of the response.
    Reading,
    /// Finished.
    Done,
}

/// The order of the stages.
pub open spec fn stage_rank(s: Stage) -> int {
    match s {
        Stage::Ready => 0,
        Stage::Encoding => 1,
        Stage::Sending => 2,
        Stage::Reading => 3,
        Stage::Done => 4,
    }
}

/// What the outside world reports.
pub enum Event {
    /// The request is polled for the first time.
    Poll,
    /// The payload encoded as a query string.
    Query(String),
    /// The outcome of sending the request.
    Sent(Result<(), reqwest::Error>),
    /// The outcome of reading the body as text.
    Body(Result<String, reqwest::Error>),
}

/// What the request asks the outside world to do.
pub enum Action<P> {
    /// Encode the payload as a query string (it must encode).
    EncodeQuery(P),
    /// Send this request; the payload, when given, goes as its JSON body.
    Send(RequestSpec, Option<P>),
    /// Read the body of the response as text.
    ReadBody,
    /// Deserialize this text as JSON; when it does not deserialize, the call
    /// fails with `ApiErr::Serde` holding the text.
    Deserialize(String),
    /// The call failed.
    Fail(ApiErr),
}

/// A request of the simple form.
pub struct Request<P> {
    pub client: ClientConfig,
    pub base_url: String,
    pub payload: Option<P>,
    /// A GET request, built while its query string is encoded.
    pub pending: Option<RequestSpec>,
    pub stage: Stage,
}

/// The URL of a request: the base URL followed by the path (none: empty).
pub open spec fn plain_url(base: Seq<char>, path: Option<Seq<char>>) -> Seq<char> {
    base + path_or_empty(path)
}

/// The URL with the query string added: `?query` when it is not empty.
pub open spec fn with_query(url: Seq<char>, query: Seq<char>) -> Seq<char> {
    if query.len() == 0 {
        url
    } else {
        url + "?"@ + query
    }
}

/// The headers a payload adds, as a map (none: empty).
pub open spec fn headers_or_empty(h: Option<HeaderMap>) -> Map<Seq<char>, Seq<char>> {
    match h {
        Some(m) => m@,
        None => Map::empty(),
    }
}

/// The message for a method name that names no method.
pub open spec fn invalid_method(name: Seq<char>) -> Seq<char> {
    "Invalid method: "@ + name
}

/// The message for a method other than GET and POST.
pub open spec fn unsupported_method(name: Seq<char>) -> Seq<char> {
    "Unsupported method: "@ + name
}

impl<P: Payload> Request<P> {
    /// A new request, not started.
    pub fn new(payload: P, base_url: String, client: ClientConfig) -> (r: Request<P>)
        ensures
            r.payload == Some(payload),
            r.base_url == base_url,
            r.client == client,
            r.pending is None,
            r.stage == Stage::Ready,
    {
        Request { client, base_url, payload: Some(payload), pending: None, stage: Stage::Ready }
    }

    /// Whether the request takes `event` where it stands.
    pub open spec fn accepts(&self, event: &Event) -> bool {
        match event {
            Event::Poll => self.stage == Stage::Ready && self.payload is Some,
            Event::Query(_) => self.stage == Stage::Encoding && self.pending is Some,
            Event::Sent(_) => self.stage == Stage::Sending,
            Event::Body(_) => self.stage == Stage::Reading,
        }
    }

    /// Takes one event and says what to do next.
    ///
    /// The first poll reads the method's name: a name that is no method
    /// fails with `Invalid method: {name}`, a method other than GET and POST
    /// with `Unsupported method: {name}`. The URL is the base URL followed
    /// by the path. A POST request is handed out with the payload as its JSON
    /// body; a GET request first has its payload encoded, and the query
    /// string, unless empty, follows the URL after a `?`. Both carry the
    /// payload's headers.
    pub fn step(&mut self, event: Event) -> (a: Action<P>)
        requires
            old(self).accepts(&event),
        ensures
            stage_rank(final(self).stage) > stage_rank(old(self).stage),
            (final(self).stage == Stage::Done) <==> (a is Fail || a is Deserialize),
            final(self).client == old(self).client,
            old(self).stage != Stage::Ready ==> final(self).payload == old(self).payload,
            match event {
                Event::Poll => {
                    let payload = old(self).payload->0;
                    &&& final(self).payload is None
                    &&& match a {
                        Action::Fail(e) => e is Other && final(self).stage == Stage::Done,
                        Action::Send(_, p) => p == Some(payload) && final(self).stage == Stage::Sending,
                        Action::EncodeQuery(p) => p == payload && final(self).stage == Stage::Encoding
                            && final(self).pending is Some,
                        _ => false,
                    }
                    &&& exists|name: &'static str| #[trigger] call_ensures(P::method, (), name) && {
                        if !is_method_name(name@) {
                            final(self).stage == Stage::Done
                                && (a matches Action::Fail(ApiErr::Other(m)) && m@ == invalid_method(name@))
                        } else if name@ != "POST"@ && name@ != "GET"@ {
                            final(self).stage == Stage::Done
                                && (a matches Action::Fail(ApiErr::Other(m)) && m@ == unsupported_method(name@))
                        } else {
                            exists|path: Option<String>, h: Option<HeaderMap>|
                                #![trigger call_ensures(P::path, (&payload,), path), call_ensures(P::headers, (&payload,), h)]
                                call_ensures(P::path, (&payload,), path) && call_ensures(P::headers, (&payload,), h) && {
                                let url = plain_url(old(self).base_url@, option_view(path));
                                let headers = headers_or_empty(h);
                                if name@ == "POST"@ {
                                    &&& final(self).stage == Stage::Sending
                                    &&& a matches Action::Send(req, p)
                                    &&& p == Some(payload)
                                    &&& req.method == Method::POST
                                    &&& req.url@ == url
                                    &&& req.headers@ == headers
                                    &&& req.body == Some(BodyFormat::Json)
                                } else {
                                    &&& final(self).stage == Stage::Encoding
                                    &&& a matches Action::EncodeQuery(p)
                                    &&& p == payload
                                    &&& final(self).pending matches Some(req)
                                    &&& req.method == Method::GET
                                    &&& req.url@ == url
                                    &&& req.headers@ == headers
                                    &&& req.body is None
                                }
                            }
                        }
                    }
                },
                Event::Query(q) => {
                    let pending = old(self).pending->0;
                    &&& final(self).stage == Stage::Sending
                    &&& final(self).pending is None
                    &&& a matches Action::Send(req, p)
                    &&& p is None
                    &&& req.method == pending.method
                    &&& req.url@ == with_query(pending.url@, q@)
                    &&& req.headers@ == pending.headers@
                    &&& req.body == pending.body
                },
                Event::Sent(Ok(())) => final(self).stage == Stage::Reading && a is ReadBody,
                Event::Sent(Err(e)) => a matches Action::Fail(ApiErr::Reqwest(x)) && x == e,
                Event::Body(Err(e)) => a matches Action::Fail(ApiErr::Reqwest(x)) && x == e,
                Event::Body(Ok(body)) => a matches Action::Deserialize(t) && t@ == body@,
            },
    {
        match event {
            Event::Poll => {
                let payload = self.payload.take().unwrap();
                let name = P::method();
                let parsed = parse_method(name);
                let m = match parsed {
                    None => {
                        self.stage = Stage::Done;
                        return Action::Fail(ApiErr::Other(String::from_str("Invalid method: ").concat(name)));
                    },
                    Some(m) => m,
                };
                let is_post = equals(m.as_str(), "POST");
                let is_get = equals(m.as_str(), "GET");
                if !is_post && !is_get {
                    self.stage = Stage::Done;
                    return Action::Fail(ApiErr::Other(String::from_str("Unsupported method: ").concat(name)));
                }
                let path = payload.path();
                let ghost given_path = path;
                let url = match path {
                    Some(p) => self.base_url.clone().concat(p.as_str()),
                    None => self.base_url.clone(),
                };
                let h = payload.headers();
                let ghost given_headers = h;
                let headers = match h {
                    Some(h) => h,
                    None => HeaderMap::new(),
                };
                assert(call_ensures(P::path, (&payload,), given_path) && call_ensures(P::headers, (&payload,), given_headers));
                assert(Map::<Seq<char>, Seq<char>>::empty().union_prefer_right(headers_or_empty(given_headers))
                    =~= headers_or_empty(given_headers));
                if is_post {
                    let req = RequestSpec::new(Method::POST, url).json().headers(headers);
                    self.stage = Stage::Sending;
                    Action::Send(req, Some(payload))
                } else {
                    let req = RequestSpec::new(Method::GET, url).headers(headers);
                    self.pending = Some(req);
                    self.stage = Stage::Encoding;
                    Action::EncodeQuery(payload)
                }
            },
            Event::Query(q) => {
                let mut req = self.pending.take().unwrap();
                if q.unicode_len() != 0 {
                    let mut url = String::new();
                    std::mem::swap(&mut url, &mut req.url);
                    req.url = url.concat("?").concat(q.as_str());
                }
                self.stage = Stage::Sending;
                Action::Send(req, None)
            },
            Event::Sent(Ok(())) => {
                self.stage = Stage::Reading;
                Action::ReadBody
            },
            Event::Sent(Err(e)) => {
                self.stage = Stage::Done;
                Action::Fail(ApiErr::Reqwest(e))
            },
            Event::Body(Err(e)) => {
                self.stage = Stage::Done;
                Action::Fail(ApiErr::Reqwest(e))
            },
            Event::Body(Ok(body)) => {
                self.stage = Stage::Done;
                Action::Deserialize(body)
            },
        }
    }
}

/// The simple form's URL is the base URL followed by the path, character
/// for character: the base is kept whole (a trailing `/` too) and the path
/// follows it; a payload without a path goes to the base URL itself.
pub proof fn law_plain_url_is_concatenation(base: Seq<char>, path: Seq<char>)
    ensures
        plain_url(base, Some(path)).len() == base.len() + path.len(),
        base.is_prefix_of(plain_url(base, Some(path))),
        plain_url(base, Some(path)).skip(base.len() as int) == path,
        plain_url(base, None) == base,
{
    assert(plain_url(base, Some(path)).subrange(0, base.len() as int) =~= base);
    assert(plain_url(base, Some(path)).skip(base.len() as int) =~= path);
    assert(plain_url(base, None) =~= base);
}

} // verus!
