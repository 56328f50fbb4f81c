//! Record types of the branch registry: a branch (name and next version to
//! write) and the workspace metadata.

pub mod branch;
pub mod mod_info;
