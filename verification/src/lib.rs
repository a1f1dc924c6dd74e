//! Token-gated range-streaming proxy logic and audio decode accounting.
//!
//! The library holds the decision logic of a small media service. For the
//! stream proxy: parsing and bounds-checking HTTP byte-range requests,
//! formatting `Content-Range`, verifying the access token, and planning the
//! response — status, headers, fixed error bodies, and which backend calls
//! may be made — for one `GET /stream` request. For the decoder: deciding
//! how a decode session is constructed from a container probe and
//! accounting exactly for the mono samples a downmix emits. The network
//! and codec plumbing around these decisions lives outside the library and
//! hands it plain values.

pub mod auth;
pub mod decode;
pub mod proxy;
pub mod range;
