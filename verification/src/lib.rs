//! A workspace-aware command runner: resolves which packages of a
//! multi-package workspace should receive a build/test invocation,
//! optionally rewrites each package's manifest to strip its
//! dev-dependency tables before the invocation, and guarantees the
//! manifest's original bytes are written back afterward.
//!
//! All file and process I/O stays outside this crate: the library
//! computes selections, command lines and the exact write operations,
//! and a thin driver performs them.

pub mod bytes;
pub mod cli;
pub mod manifest;
pub mod metadata;
pub mod package;
pub mod process;
pub mod remove_dev_deps;
pub mod restore;
pub mod run;
pub mod select;
