//! Installing and rendering terminal colour patterns.
//!
//! The crate holds the rules of the tool: how a repository reference becomes
//! a URL, which directory of a clone is installed, which files of it are
//! copied, and how an installed pattern is rendered.
pub mod download;
pub mod listing;
pub mod merge;
pub mod patterns;
pub mod text;
