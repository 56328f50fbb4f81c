use vstd::prelude::*;

verus! {

/// Workspace metadata as persisted at the workspace root: identity fields,
/// the optionally selected current branch, and the two copy-mode knobs
/// (top-level-only copying and a file-name suffix filter).
#[derive(Debug)]
pub struct ModInfo {
    pub name: String,
    pub author: String,
    pub description: String,
    pub current_branch: Option<String>,
    pub top_files_only: bool,
    pub file_type: Option<String>,
}

impl ModInfo {
    /// A fresh metadata record: both copy-mode knobs start disabled.
    pub fn new(name: String, author: String, description: String, current_branch: Option<String>)
        -> (r: ModInfo)
        ensures
            r.name == name,
            r.author == author,
            r.description == description,
            r.current_branch == current_branch,
            r.top_files_only == false,
            r.file_type is None,
    {
        ModInfo { name, author, description, current_branch, top_files_only: false, file_type: None }
    }
}

} // verus!
