//! Describe HTTP API calls as data: a payload says how it is sent, a caller
//! says where, and a request walks through the steps of one call.

pub mod error;
pub mod http;
pub mod url;
pub mod payload;
pub mod api_caller;
pub mod request;
pub mod macros;
pub mod text;
pub mod template;
pub mod derive;
pub mod attr_input;
pub mod simple;

pub use api_caller::{ApiCaller, RedirectPolicy};
pub use error::{ApiErr, ApiResult};
pub use http::{BodyFormat, HeaderMap, Method, RequestSpec};
pub use payload::Payload;
pub use request::Request;
