//! An HTTP/1.1 message library: it parses raw connection bytes into
//! structured requests and responses and serializes them back, over
//! zero-copy views of the connection buffer. The field-value grammar —
//! tokens, quoted strings with escapes, nested comments, comma lists — is
//! checked byte by byte by a verified state machine, and parsing and
//! serialization are proved to invert each other on well-formed fields.

pub mod advance;
pub mod buffer;
pub mod chars;
pub mod field;
pub mod laws;
pub mod method;
pub mod request;
pub mod response;
pub mod scan;
pub mod serve;
pub mod slices;
pub mod transcode;
pub mod version;

pub use field::Fields;
pub use method::Method;
pub use request::Request;
pub use response::Response;
pub use version::Version;


