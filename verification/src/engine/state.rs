use vstd::prelude::*;

use crate::values::value_variant::{value_wf, JSValueVariant, ValueModel};

verus! {

/// A binding: a runtime value plus its mutability flag. `mutable == false`
/// models a `const` declaration, `mutable == true` a `let`.
#[derive(Debug, PartialEq)]
pub struct State {
    pub value: JSValueVariant,
    pub mutable: bool,
}

/// Mathematical model of a binding.
pub struct StateModel {
    pub value: ValueModel,
    pub mutable: bool,
}

pub open spec fn state_view(s: State) -> StateModel {
    StateModel { value: s.value@, mutable: s.mutable }
}

impl View for State {
    type V = StateModel;

    open spec fn view(&self) -> StateModel {
        state_view(*self)
    }
}

/// Well-formedness of a binding: its value is well formed.
pub open spec fn state_wf(m: StateModel) -> bool {
    value_wf(m.value)
}

impl State {
    /// The bound value.
    pub fn value(&self) -> (r: &JSValueVariant)
        ensures
            r == &self.value,
    {
        &self.value
    }

    /// Whether assignments to the binding are allowed.
    pub fn is_mutable(&self) -> (r: bool)
        ensures
            r == self.mutable,
    {
        self.mutable
    }

    pub fn new(value: JSValueVariant, mutable: bool) -> (r: State)
        ensures
            r.value == value,
            r.mutable == mutable,
    {
        State { value, mutable }
    }
}

impl Clone for State {
    /// The clone has the same model as the original.
    fn clone(&self) -> (r: State)
        ensures
            r@ == self@,
    {
        State { value: self.value.clone(), mutable: self.mutable }
    }
}

} // verus!
