//! Errors of an API call.

use vstd::prelude::*;
use vstd::string::StringExecFns;

verus! {

/// The error type that `reqwest` reports for a failed send or read.
#[verifier::external_type_specification]
#[verifier::external_body]
pub struct ExReqwestError(reqwest::Error);

/// Error type for API calls.
#[derive(Debug)]
pub enum ApiErr {
    /// The HTTP client failed (connecting, sending or reading the body).
    Reqwest(reqwest::Error),
    /// The body could not be deserialized into the expected type; holds
    /// the body that was returned.
    Serde(String),
    /// Any other failure, with its message.
    Other(String),
}

/// An error taken by its view: the texts as sequences of characters.
pub enum ErrView {
    Reqwest(reqwest::Error),
    Serde(Seq<char>),
    Other(Seq<char>),
}

impl View for ApiErr {
    type V = ErrView;

    open spec fn view(&self) -> ErrView {
        match self {
            ApiErr::Reqwest(e) => ErrView::Reqwest(*e),
            ApiErr::Serde(b) => ErrView::Serde(b@),
            ApiErr::Other(m) => ErrView::Other(m@),
        }
    }
}

/// Result type for API calls.
pub type ApiResult<T> = Result<T, ApiErr>;

/// The text of a client error (its `Display` output). What the text
/// holds is left unsaid: it depends on the error's inner state, which is
/// not visible here.
#[verifier::external_body]
fn reqwest_error_text(e: &reqwest::Error) -> String {
    e.to_string()
}

impl ApiErr {
    /// The error's message, led by its kind.
    pub fn message(&self) -> (s: String)
        ensures
            match self {
                ApiErr::Reqwest(_) => "Reqwest error: "@.is_prefix_of(s@),
                ApiErr::Serde(body) => s@ == "Serde error: "@ + body@,
                ApiErr::Other(m) => s@ == "Other error: "@ + m@,
            },
    {
        match self {
            ApiErr::Reqwest(e) => {
                let r = String::from_str("Reqwest error: ");
                let t = reqwest_error_text(e);
                let ghost prefix = r@;
                let s = r.concat(t.as_str());
                assert(s@.subrange(0, prefix.len() as int) =~= prefix);
                s
            },
            ApiErr::Serde(body) => String::from_str("Serde error: ").concat(body.as_str()),
            ApiErr::Other(m) => String::from_str("Other error: ").concat(m.as_str()),
        }
    }
}

impl From<reqwest::Error> for ApiErr {
    fn from(e: reqwest::Error) -> (r: ApiErr) {
        ApiErr::Reqwest(e)
    }
}

impl vstd::std_specs::convert::FromSpecImpl<reqwest::Error> for ApiErr {
    open spec fn obeys_from_spec() -> bool {
        true
    }

    open spec fn from_spec(e: reqwest::Error) -> ApiErr {
        ApiErr::Reqwest(e)
    }
}


/// The outcome of deserializing a response's body: the value the
/// deserializer gave, or, when it refused the body, `ApiErr::Serde`
/// holding that body.
pub fn deserialized<O>(body: String, value: Option<O>) -> (r: ApiResult<O>)
    ensures
        match value {
            Some(v) => r == Ok::<O, ApiErr>(v),
            None => r matches Err(ApiErr::Serde(b)) && b@ == body@,
        },
{
    match value {
        Some(v) => Ok(v),
        None => Err(ApiErr::Serde(body)),
    }
}

/// The message of a failed step before deserializing.
pub open spec fn before_deserialize_message(reason: Seq<char>) -> Seq<char> {
    "Before deserialize failed:\n"@ + reason
}

/// The error of a failed step before deserializing: `ApiErr::Other` with
/// the reason after a fixed lead.
pub fn before_deserialize_failed(reason: &str) -> (e: ApiErr)
    ensures
        e matches ApiErr::Other(m) && m@ == before_deserialize_message(reason@),
{
    ApiErr::Other(String::from_str("Before deserialize failed:\n").concat(reason))
}

} // verus!
