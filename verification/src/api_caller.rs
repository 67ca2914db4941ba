//! The caller of an API: its base URL and the client that sends requests.

use vstd::prelude::*;
use crate::derive::pairs_view;
use crate::http::{lower_pairs, pairs_to_map, HeaderMap};
use crate::payload::Payload;
use crate::request::{Output, Request, Stage};

verus! {

/// How the client follows redirects.
#[derive(Clone, Copy, Debug, PartialEq, Eq, Structural)]
pub enum RedirectPolicy {
    /// Redirects are not followed.
    NoFollow,
    /// At most this many redirects are followed.
    Limited(usize),
    /// The client's own default.
    ClientDefault,
}

impl RedirectPolicy {
    /// Redirects are not followed.
    pub fn none() -> (p: RedirectPolicy)
        ensures
            p == RedirectPolicy::NoFollow,
    {
        RedirectPolicy::NoFollow
    }

    /// At most `max` redirects are followed.
    pub fn limited(max: usize) -> (p: RedirectPolicy)
        ensures
            p == RedirectPolicy::Limited(max),
    {
        RedirectPolicy::Limited(max)
    }
}

/// What the client of a caller is built with.
#[derive(Debug)]
pub struct ClientConfig {
    /// How redirects are followed.
    pub redirect: RedirectPolicy,
    /// Headers sent with every request that does not set them itself.
    pub default_headers: HeaderMap,
}

impl Clone for ClientConfig {
    /// A configuration with the same redirect policy and the same headers.
    fn clone(&self) -> (c: ClientConfig)
        ensures
            c.redirect == self.redirect,
            c.default_headers@ == self.default_headers@,
    {
        ClientConfig { redirect: self.redirect, default_headers: self.default_headers.clone() }
    }
}

impl ClientConfig {
    /// The client a caller has unless it says otherwise: redirects are not
    /// followed and no header is added.
    pub fn new() -> (c: ClientConfig)
        ensures
            c.redirect == RedirectPolicy::NoFollow,
            c.default_headers@ == Map::<Seq<char>, Seq<char>>::empty(),
    {
        ClientConfig { redirect: RedirectPolicy::NoFollow, default_headers: HeaderMap::new() }
    }

    /// A client with the client's own defaults: its default redirect policy
    /// and no added header.
    pub fn client_defaults() -> (c: ClientConfig)
        ensures
            c.redirect == RedirectPolicy::ClientDefault,
            c.default_headers@ == Map::<Seq<char>, Seq<char>>::empty(),
    {
        ClientConfig { redirect: RedirectPolicy::ClientDefault, default_headers: HeaderMap::new() }
    }
}

/// A caller of an API.
///
/// The base URL is the root URL of the API in `protocol://domain[:port]/api/`
/// form: a path joined onto `https://example.com/api` replaces `api`, so
/// write `https://example.com/api/` to keep it.
///
/// A request of a caller carries the base URL that its `base_url()`
/// returns and a client that its `client()` returns (`call_ensures`): an
/// implementation verified here says in its own `ensures` what they are,
/// and one written outside the verifier (such as the derive's) is held to
/// what it does. A caller that keeps the default `client()` sends with a
/// client that follows no redirect and adds no header.
pub trait ApiCaller {
    /// The base URL of the API, mostly the domain.
    fn base_url() -> (s: String);

    /// The client requests are sent with: by default one that follows no
    /// redirect and adds no header (`ClientConfig::new()`).
    fn client() -> (c: ClientConfig)
        default_ensures
            c.redirect == RedirectPolicy::NoFollow,
            c.default_headers@ == Map::<Seq<char>, Seq<char>>::empty(),
    {
        ClientConfig::new()
    }

    /// A request that carries `payload` to this API, not started yet: it is
    /// sent to the URL that `base_url()` returns with a client that
    /// `client()` returns.
    fn request<P: Payload>(payload: P) -> (r: Request<P>)
        ensures
            r.payload == Some(payload),
            r.output == Output::Text,
            r.stage == Stage::Ready,
            call_ensures(Self::base_url, (), r.base_url),
            call_ensures(Self::client, (), r.client),
    {
        Request::new(payload, Self::base_url(), Self::client())
    }

    /// A request that carries `payload` to this API and hands the body of
    /// the response out as a stream of bytes, not started yet.
    fn stream<P: Payload>(payload: P) -> (r: Request<P>)
        ensures
            r.payload == Some(payload),
            r.output == Output::Stream,
            r.stage == Stage::Ready,
            call_ensures(Self::base_url, (), r.base_url),
            call_ensures(Self::client, (), r.client),
    {
        Request::new_stream(payload, Self::base_url(), Self::client())
    }
}


/// The pairs whose value is known, in order.
pub open spec fn known_pairs(s: Seq<(String, Option<String>)>) -> Seq<(Seq<char>, Seq<char>)>
    decreases s.len(),
{
    if s.len() == 0 {
        Seq::empty()
    } else {
        match s.last().1 {
            Some(v) => known_pairs(s.drop_last()).push((s.last().0@, v@)),
            None => known_pairs(s.drop_last()),
        }
    }
}

/// The client of a caller made by the derive: the redirect policy it names
/// (none: the client's default), and the default headers set in this
/// order, a later value replacing an earlier one for the same name: the
/// fixed ones, those whose value was read from a required environment
/// variable, and those read from an optional one that is set (`None`: the
/// variable is unset and the header is left out).
pub fn derived_client(
    redirect: Option<RedirectPolicy>,
    fixed: Vec<(String, String)>,
    required: Vec<(String, String)>,
    optional: Vec<(String, Option<String>)>,
) -> (c: ClientConfig)
    ensures
        c.redirect == match redirect {
            Some(p) => p,
            None => RedirectPolicy::ClientDefault,
        },
        c.default_headers@ == pairs_to_map(lower_pairs(pairs_view(fixed@) + pairs_view(required@) + known_pairs(optional@))),
{
    let mut pairs = fixed;
    let ghost fixed_view = pairs_view(pairs@);
    let mut required = required;
    let ghost required_view = pairs_view(required@);
    pairs.append(&mut required);
    assert(pairs_view(pairs@) =~= fixed_view + required_view);
    let ghost base = pairs_view(pairs@);
    let n = optional.len();
    let mut i: usize = 0;
    assert(optional@.take(0) =~= Seq::<(String, Option<String>)>::empty());
    assert(base + known_pairs(optional@.take(0)) =~= base);
    while i < n
        invariant
            n == optional@.len(),
            i <= n,
            pairs_view(pairs@) == base + known_pairs(optional@.take(i as int)),
        decreases n - i,
    {
        assert(optional@.take(i + 1).drop_last() =~= optional@.take(i as int));
        assert(optional@.take(i + 1).last() == optional@[i as int]);
        match &optional[i].1 {
            Some(v) => {
                let ghost before = pairs@;
                pairs.push((optional[i].0.clone(), v.clone()));
                assert(pairs_view(pairs@) =~= pairs_view(before).push((optional@[i as int].0@, v@)));
            },
            None => {},
        }
        i = i + 1;
    }
    assert(optional@.take(n as int) =~= optional@);
    let policy = match redirect {
        Some(p) => p,
        None => RedirectPolicy::ClientDefault,
    };
    ClientConfig { redirect: policy, default_headers: HeaderMap::from_pairs(pairs) }
}

} // verus!
