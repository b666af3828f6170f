use vstd::prelude::*;

use crate::values::value_variant::{value_wf, JSValueVariant, ValueModel};

verus! {

/// The addressable store behind reference-semantic values: a mapping from
/// opaque integer handles to runtime values. Handles are generated fresh
/// per allocation and stay valid for the lifetime of the run; looking up an
/// unknown handle is a defined outcome, never undefined behaviour.
///
/// A heap is constructed once per interpreter run and owned by that run's
/// evaluation context: there is no process-wide instance, so independent
/// interpreters never share state.
#[derive(Debug)]
pub struct Heap {
    pub slots: Vec<JSValueVariant>,
}

pub open spec fn heap_view(h: Heap) -> Seq<ValueModel> {
    Seq::new(h.slots@.len(), |i: int| h.slots@[i]@)
}

impl View for Heap {
    type V = Seq<ValueModel>;

    open spec fn view(&self) -> Seq<ValueModel> {
        heap_view(*self)
    }
}

/// Well-formedness of a heap: every slot holds a well-formed value.
pub open spec fn heap_wf(h: Seq<ValueModel>) -> bool {
    forall|i: int| 0 <= i < h.len() ==> value_wf(#[trigger] h[i])
}

impl Heap {
    /// An empty heap.
    pub fn new() -> (r: Heap)
        ensures
            r@ == Seq::<ValueModel>::empty(),
    {
        let r = Heap { slots: Vec::new() };
        proof {
            assert(r@ =~= Seq::<ValueModel>::empty());
        }
        r
    }

    /// Stores a value under a fresh handle and returns the handle. The
    /// handle is distinct from every handle this heap handed out before.
    pub fn allocate_ptr(&mut self, value: JSValueVariant) -> (h: u64)
        ensures
            h as int == old(self)@.len(),
            final(self)@ == old(self)@.push(value@),
    {
        let h = self.slots.len() as u64;
        self.slots.push(value);
        proof {
            assert(final(self)@ =~= old(self)@.push(value@));
        }
        h
    }

    /// The value stored under `ptr`, or `None` for a handle this heap never
    /// produced.
    pub fn get_ptr(&self, ptr: u64) -> (r: Option<&JSValueVariant>)
        ensures
            ptr < self@.len() ==> (r matches Some(v) && v@ == self@[ptr as int]),
            ptr >= self@.len() ==> r is None,
    {
        if ptr < self.slots.len() as u64 {
            Some(&self.slots[ptr as usize])
        } else {
            None
        }
    }

    /// Stores `value` in the slot under `ptr`, so that every binding
    /// holding that handle observes the new payload; reports whether the
    /// handle was known. An unknown handle changes nothing.
    pub fn set_ptr(&mut self, ptr: u64, value: JSValueVariant) -> (ok: bool)
        ensures
            ok == (ptr < old(self)@.len()),
            ok ==> final(self)@ == old(self)@.update(ptr as int, value@),
            !ok ==> final(self)@ == old(self)@,
    {
        if ptr < self.slots.len() as u64 {
            self.slots.set(ptr as usize, value);
            proof {
                assert(final(self)@ =~= old(self)@.update(ptr as int, value@));
            }
            true
        } else {
            false
        }
    }

    /// How many slots have been allocated.
    pub fn size(&self) -> (r: usize)
        ensures
            r == self@.len(),
    {
        self.slots.len()
    }
}

} // verus!
