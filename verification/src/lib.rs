//! A local package manager core: manifest parsing, registry resolution,
//! a package-store view, and the dependency install/update engine.
//!
//! All text is handled as bytes. The modules hold no I/O: a host program
//! reads files, runs the version-control transport, and feeds the results
//! back in as plain values.

pub mod text;
pub mod registry;
pub mod manifest;
pub mod store;
pub mod engine;
