//! Request handling for the ringdrop daemon: the wire protocol's types, the
//! text the daemon answers with, and the per-request state machine that
//! decides which events a request produces.

pub mod text;
pub mod error;
pub mod peer;
pub mod outside;
pub mod registry;
pub mod protocol;
pub mod rings;
pub mod blobs;
pub mod receive;
pub mod session;
pub mod server;
