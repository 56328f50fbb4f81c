use vstd::prelude::*;

verus! {

/// A single positional argument, as used by actions that take one bare name.
#[derive(Debug)]
pub struct Value {
    pub value: String,
}

} // verus!
