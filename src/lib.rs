//! The native side of a narrow call boundary to a host script runtime.
//!
//! Native values are marshalled into machine words that an arena keeps valid for one
//! call ([`interop`]); a call is a NUL-terminated script plus those words, optionally
//! guarded so that a host exception becomes a fatal error ([`call`]); the host names
//! its objects by handles into an append-only table ([`handle`]); and native closures
//! are kept in per-shape registries of a session, which the host calls back by index
//! ([`callback`], [`document`]). The remaining modules build the calls of the DOM,
//! socket and storage wrappers.

pub mod api;
pub mod call;
pub mod callback;
pub mod document;
pub mod handle;
pub mod html_node;
pub mod interop;
pub mod websocket;
