//! Client core for a locally hosted text-generation server that streams its
//! answer as back-to-back JSON objects.
//!
//! The library decodes each transport chunk into one of two message shapes,
//! accumulates the incremental text fragments in arrival order, and assembles
//! the final answer, tolerating malformed fragments along the way. The
//! transport itself (one HTTP request per completion call) is a collaborator
//! outside this crate and hands the library plain bytes.

pub mod json;
pub mod message;
pub mod stream;
pub mod request;
pub mod client;
pub mod framing;
pub mod laws;
