use vstd::prelude::*;

verus! {

/// A named line of snapshots. `version` is the next version number to be
/// written, not the latest completed one; the latest completed snapshot is
/// `version - 1`, meaningful only when `version >= 1`.
#[derive(Debug, Clone)]
pub struct Branch {
    pub name: String,
    pub version: i32,
}

impl Branch {
    pub fn new(name: String, version: i32) -> (r: Branch)
        ensures
            r.name == name,
            r.version == version,
    {
        Branch { name, version }
    }
}

/// Two branches are the same record exactly when they carry the same name;
/// the version does not identify a branch.
impl PartialEq for Branch {
    fn eq(&self, other: &Self) -> (r: bool) {
        self.name == other.name
    }
}

impl vstd::std_specs::cmp::PartialEqSpecImpl for Branch {
    open spec fn obeys_eq_spec() -> bool {
        true
    }

    open spec fn eq_spec(&self, other: &Branch) -> bool {
        self.name@ == other.name@
    }
}

} // verus!
