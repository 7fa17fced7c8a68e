//! A small, verified client library for a hastebin-style paste service.
//!
//! The library covers everything the client decides or computes: resolving
//! command-line arguments into a configuration, recognising URL-shaped
//! arguments, parsing the service's JSON response, and deriving the share
//! link. The surrounding process (file reading, the HTTP request itself,
//! printing) lives outside the library and hands it plain values.

mod chars;
pub mod errors;
pub mod json;
pub mod options;
pub mod replace;
pub mod transfer;
pub mod url_shape;

pub use errors::HasteError;
pub use options::Mode;
pub use options::Options;
pub use transfer::create_share_link;
pub use transfer::download;
pub use transfer::finish_upload;
pub use transfer::parse_response;
pub use transfer::PostOutcome;
