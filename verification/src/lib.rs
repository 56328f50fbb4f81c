//! A local file-tree snapshot manager: named branches, each an ordered
//! sequence of integer-numbered versions, where a version is an immutable
//! copy of a working directory filtered by inclusion/ignore glob patterns.
//!
//! The crate holds the snapshot and filtering engine: the glob-based path
//! filter, the copy planning (which files survive the filter and which
//! destination directories must be created), and the branch/version state
//! machine that governs when snapshots are created, restored, or switched.
//! File-system access, JSON persistence and the command-line surface live
//! outside, in a thin unverified shell that calls into this crate.

pub mod args;
pub mod branch;
pub mod file_filter;
pub mod file_handler;
pub mod mod_info;
pub mod models;
pub mod workspace;
pub mod workspace_handler;
