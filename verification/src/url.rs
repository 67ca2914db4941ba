//! Where a request goes: the base URL of the API joined with the path of
//! the payload.

use vstd::prelude::*;
use crate::error::ApiErr;

verus! {

/// What `Url::parse(base)` followed by `Url::join(path)` on the parsed URL
/// gives: the serialized URL, or the text of the parse error.
pub uninterp spec fn spec_join_url(base: Seq<char>, path: Seq<char>) -> Result<Seq<char>, Seq<char>>;

/// Parses `base` with `url::Url::parse` and resolves `path` against it with
/// `url::Url::join` (an absolute path replaces the base's path, a relative
/// one replaces its last segment). Claims only that the serialized result,
/// or the error's text, is the one `spec_join_url` names for these two
/// strings: both functions depend on their arguments alone.
#[verifier::external_body]
fn join_url(base: &str, path: &str) -> (r: Result<String, String>)
    ensures
        match r {
            Ok(u) => spec_join_url(base@, path@) == Ok::<Seq<char>, Seq<char>>(u@),
            Err(e) => spec_join_url(base@, path@) == Err::<Seq<char>, Seq<char>>(e@),
        },
{
    match reqwest::Url::parse(base) {
        Ok(parsed) => match parsed.join(path) {
            Ok(joined) => Ok(String::from(joined)),
            Err(e) => Err(e.to_string()),
        },
        Err(e) => Err(e.to_string()),
    }
}

/// The path of a payload, or the empty path when it has none.
pub open spec fn path_or_empty(path: Option<Seq<char>>) -> Seq<char> {
    match path {
        Some(p) => p,
        None => Seq::empty(),
    }
}

/// An optional string taken by its view.
pub open spec fn option_view(s: Option<String>) -> Option<Seq<char>> {
    match s {
        Some(v) => Some(v@),
        None => None,
    }
}

/// The URL a request goes to, given what joining gave: the URL itself, or
/// `ApiErr::Other` with the error's text.
pub fn url_outcome(joined: Result<String, String>) -> (r: Result<String, ApiErr>)
    ensures
        match joined {
            Ok(u) => r matches Ok(v) && v == u,
            Err(e) => r matches Err(ApiErr::Other(m)) && m == e,
        },
{
    match joined {
        Ok(u) => Ok(u),
        Err(e) => Err(ApiErr::Other(e)),
    }
}

/// The URL of a request: the payload's path (empty when it has none)
/// resolved against the base URL of the API. A base or path that does not
/// make a URL gives `ApiErr::Other` with the parser's message.
pub fn request_url(base_url: &str, path: Option<String>) -> (r: Result<String, ApiErr>)
    ensures
        match spec_join_url(base_url@, path_or_empty(option_view(path))) {
            Ok(u) => r matches Ok(v) && v@ == u,
            Err(e) => r matches Err(ApiErr::Other(m)) && m@ == e,
        },
{
    let p = match path {
        Some(p) => p,
        None => String::new(),
    };
    assert(p@ == path_or_empty(option_view(path)));
    url_outcome(join_url(base_url, p.as_str()))
}

/// A payload without a path is sent to the base URL itself: the URL for
/// no path is the URL for the empty path, whatever the base.
pub proof fn law_no_path_is_empty_path(
    base_url: &str,
    empty: String,
    r_none: Result<String, ApiErr>,
    r_empty: Result<String, ApiErr>,
)
    requires
        empty@.len() == 0,
        call_ensures(request_url, (base_url, None::<String>), r_none),
        call_ensures(request_url, (base_url, Some(empty)), r_empty),
    ensures
        r_none matches Ok(u) ==> (r_empty matches Ok(v) && u@ == v@),
        r_none matches Err(ApiErr::Other(m)) ==> (r_empty matches Err(ApiErr::Other(n)) && m@ == n@),
        r_none is Ok <==> r_empty is Ok,
{
    assert(empty@ =~= Seq::<char>::empty());
}

} // verus!
