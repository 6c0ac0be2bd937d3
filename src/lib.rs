//! Query construction for OData-style REST APIs: option sets, percent-encoded
//! paths with canonical query strings, typed request descriptors, and the
//! verified parts of issuing a request and decoding its response.

pub mod filter;
pub mod options;
pub mod path;
pub mod request;
pub mod source;
pub mod text;

pub use path::{Comparison, Direction, Format, InlineCount, PathBuilder};
pub use request::{GetRequest, ListRequest};
pub use source::{decoded, Endpoint, Error, Page};
