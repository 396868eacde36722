//! Core logic of a single-user, password-gated media gallery.
//!
//! The library covers the authentication-and-dispatch core: a session
//! token codec, the per-request auth gate, the route dispatcher, the
//! gallery listing (descending sort, truncated to a display count), and
//! the validation that guards file deletion against path traversal.
//! HTTP transport, template rendering and filesystem access stay outside
//! and hand the library plain values.

pub mod auth;
pub mod files;
pub mod gallery;
pub mod routes;
pub mod settings;
pub mod token;
