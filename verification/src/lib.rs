//! Dependency sessions for a package tool.
//!
//! A session interns dependency descriptors and paths, resolves locked
//! package names, names the on-disk mirror and checkout directories of
//! version-controlled dependencies, plans the steps that bring a mirror up
//! to date, and ranks the tagged versions that a mirror reports.

pub mod config;
pub mod constraint;
pub mod digest;
pub mod error;
pub mod io;
pub mod mirror;
pub mod refs;
pub mod session;
pub mod table;
pub mod text;
pub mod version;
