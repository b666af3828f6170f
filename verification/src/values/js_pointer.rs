use vstd::prelude::*;

verus! {

/// A reference-semantic value: an opaque handle addressing a heap slot.
/// Copying a pointer copies the handle, never the payload, which is how
/// strings and other reference types alias across bindings.
#[derive(Debug, Clone, Copy, PartialEq, Eq)]
pub struct JSPointer {
    pub ptr: u64,
}

impl JSPointer {
    /// The heap handle this pointer addresses.
    pub fn ptr(&self) -> (r: u64)
        ensures
            r == self.ptr,
    {
        self.ptr
    }

    pub fn from(ptr: u64) -> (r: JSPointer)
        ensures
            r.ptr == ptr,
    {
        JSPointer { ptr }
    }
}

} // verus!
