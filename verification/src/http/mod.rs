pub mod method;
pub mod parse_error;
pub mod query_string;
pub mod request;
pub mod request_handler;
pub mod response;
pub mod server;
pub mod status_code;
pub mod text;

pub use method::Method;
pub use parse_error::ParseError;
pub use query_string::QueryString;
pub use request::Request;
pub use request_handler::RequestHandler;
pub use response::Response;
pub use status_code::StatusCode;
