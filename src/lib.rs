//! A strict parser for HTTP/1.x request text: a request line (method, target with
//! query pairs, version), a header block ended by the first empty line, and a body.
pub mod error;
pub mod header;
pub mod laws;
pub mod method;
pub mod path;
pub mod query;
pub mod request;
pub mod text;
pub mod version;

pub use header::{HttpHeader, HttpHeaderList};
pub use method::HttpMethod;
pub use path::HttpPath;
pub use query::{HttpQuery, HttpQueryList};
pub use request::{HttpRequest, HttpRequestLine};
pub use version::HttpVersion;
