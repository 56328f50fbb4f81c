use vstd::prelude::*;

verus! {

/// A branch record as kept by the lifecycle workspace: name, free-form
/// description, and the next version number to be written. The latest
/// completed snapshot of the branch is `version - 1`, meaningful only when
/// `version >= 1`.
#[derive(Debug, Clone)]
pub struct Branch {
    pub name: String,
    pub description: String,
    pub version: i32,
}

impl Branch {
    pub fn new(name: String, description: String, version: i32) -> (r: Branch)
        ensures
            r.name == name,
            r.description == description,
            r.version == version,
    {
        Branch { name, description, version }
    }
}

} // verus!
