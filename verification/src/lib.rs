//! Version-aware plugin-chaining shim library.
//!
//! The host loads a shim through a single entry point; the shim detects the
//! embedded Python runtime's version, resolves the downstream plugin file
//! whose name encodes that version, and chains one lifecycle callback.
//! This crate holds the verified logic of that pipeline: version detection,
//! configuration parsing, plugin path resolution, and the initialization
//! and callback-chaining decisions.

pub mod cfg;
pub mod init;
pub mod path;
pub mod text;
pub mod version;

pub use cfg::Config;
pub use version::PyVersion;
