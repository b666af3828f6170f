use vstd::prelude::*;

verus! {

/// A runtime boolean value.
#[derive(Debug, Clone, Copy, PartialEq, Eq)]
pub struct JSBool {
    pub bool_value: bool,
}

impl JSBool {
    pub fn bool_value(&self) -> (r: bool)
        ensures
            r == self.bool_value,
    {
        self.bool_value
    }

    pub fn new(bool_value: bool) -> (r: JSBool)
        ensures
            r.bool_value == bool_value,
    {
        JSBool { bool_value }
    }
}

} // verus!
