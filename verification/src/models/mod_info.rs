use vstd::prelude::*;

verus! {

/// Descriptive metadata of a workspace, together with the name of the branch
/// whose snapshot currently occupies the working directory.
#[derive(Debug)]
pub struct ModInfo {
    pub name: String,
    pub description: String,
    pub version: String,
    pub current_branch: String,
}

impl ModInfo {
    pub fn new(name: String, description: String, version: String, current_branch: String) -> (r:
        ModInfo)
        ensures
            r.name == name,
            r.description == description,
            r.version == version,
            r.current_branch == current_branch,
    {
        ModInfo { name, description, version, current_branch }
    }
}

} // verus!
