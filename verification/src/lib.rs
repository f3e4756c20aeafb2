//! A verified HTTP response synthesis engine.
//!
//! The engine turns an inbound request's path and query string into a fully
//! assembled HTTP response: the query string selects the status code, the
//! headers (through an alias table), the body (literal text, base64 bytes, or
//! the content of a remote gist), and whether permissive CORS headers are
//! attached.  The one network fetch a gist needs is performed by the caller;
//! everything the engine decides is specified and proved here.

pub mod body;
pub mod content_type;
pub mod engine;
pub mod errors;
pub mod gist;
pub mod headers;
pub mod laws;
pub mod query;
pub mod text;

pub use body::BodyOutcome;
pub use engine::{synthesize, FetchOutcome, HttpResponse, SynthStep};
pub use errors::SynthError;
pub use gist::normalize_gist_url;
pub use query::{parse_query, Response};
