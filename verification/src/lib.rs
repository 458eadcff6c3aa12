//! Core of an editor-tooling language server offering one capability:
//! full-document formatting.
//!
//! The library keeps a versioned, registry-owned view of the documents a
//! client has opened, enforces the protocol's version-ordering policy on
//! incremental changes, and turns a formatter's output into the edit list
//! the wire protocol expects.  Transport, file reading and the formatter
//! itself live outside the library; every decision the server takes is a
//! verified function in here.

pub mod text;
pub mod document;
pub mod vfs;
pub mod history;
pub mod server;
