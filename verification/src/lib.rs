//! Tooling for supervising a child process with transparent I/O relay and
//! graceful shutdown, bumping a pubspec version with git tagging, and
//! generating platform build files from a declarative configuration.
//!
//! The decision logic of every tool lives here, verified; the thin shells
//! that perform file, console and process I/O live outside the library and
//! drive these functions.

pub mod cli;
pub mod config;
pub mod expand;
pub mod gradle;
pub mod logbook;
pub mod properties;
pub mod resolve;
pub mod supervisor;
pub mod tag;
pub mod version;
pub mod text;
