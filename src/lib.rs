//! Request construction, parameter parsing and session persistence for a
//! command-line HTTP client.
pub mod app;
pub mod client;
pub mod config;
pub mod directories;
pub mod errors;
pub mod pairs;
pub mod parameter;
pub mod request;
pub mod session;
pub mod text;

pub use app::{App, Method, MethodData};
pub use client::{build_request, default_verb, parse, parse_auth};
pub use config::{config_file, Config};
pub use directories::Directories;
pub use errors::{classify_client_error, Error, HurlResult};
pub use parameter::{gather_escapes, parse_param, Parameter, Separator, Token};
pub use request::{Body, BodyValue, Credentials, FileInput, Part, RequestSpec, Verb};
pub use session::{make_safe_pathname, Session};
