//! Core of a TLS-terminating reverse proxy.
//!
//! Each listening port forwards to one fixed upstream target. The library
//! holds the request/response forwarding engine: URI rewriting, the
//! header-normalization pipeline (cookie merging, forwarding headers,
//! hop-by-hop stripping), WebSocket upgrade detection and handshake, the
//! relay decisions of a WebSocket tunnel, and the upstream trust policy.
//! The network shell (listeners, TLS identity, the HTTP client, the async
//! relay tasks) lives outside and calls into these functions with plain
//! values.

pub mod chars;
pub mod config;
pub mod forward;
pub mod handshake;
pub mod headers;
pub mod response;
pub mod transform;
pub mod trust;
pub mod tunnel;
pub mod uri;
