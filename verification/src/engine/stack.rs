use vstd::prelude::*;

verus! {

/// A last-in, first-out stack over a growable vector.
#[derive(Debug)]
pub struct Stack<T> {
    pub items: Vec<T>,
}

impl<T> View for Stack<T> {
    type V = Seq<T>;

    open spec fn view(&self) -> Seq<T> {
        self.items@
    }
}

impl<T> Stack<T> {
    /// Removes and returns the most recently pushed item, or `None` on an
    /// empty stack.
    pub fn pop(&mut self) -> (r: Option<T>)
        ensures
            old(self)@.len() == 0 ==> r is None && final(self)@ == old(self)@,
            old(self)@.len() > 0 ==> (r matches Some(x) && x == old(self)@.last()
                && final(self)@ == old(self)@.drop_last()),
    {
        self.items.pop()
    }

    /// Pushes an item on top.
    pub fn push(&mut self, item: T)
        ensures
            final(self)@ == old(self)@.push(item),
    {
        self.items.push(item);
    }

    /// The most recently pushed item, or `None` on an empty stack.
    pub fn peek(&self) -> (r: Option<&T>)
        ensures
            self@.len() == 0 ==> r is None,
            self@.len() > 0 ==> (r matches Some(x) && *x == self@.last()),
    {
        self.items.last()
    }

    /// The item at `index`, counted from the bottom, or `None` out of range.
    pub fn peek_at(&self, index: usize) -> (r: Option<&T>)
        ensures
            index < self@.len() ==> (r matches Some(x) && *x == self@[index as int]),
            index >= self@.len() ==> r is None,
    {
        if index < self.items.len() {
            Some(&self.items[index])
        } else {
            None
        }
    }

    /// Whether the stack holds nothing.
    pub fn is_empty(&self) -> (r: bool)
        ensures
            r == (self@.len() == 0),
    {
        self.items.len() == 0
    }

    /// How many items the stack holds.
    pub fn size(&self) -> (r: usize)
        ensures
            r == self@.len(),
    {
        self.items.len()
    }

    /// An empty stack.
    pub fn new() -> (r: Stack<T>)
        ensures
            r@ == Seq::<T>::empty(),
    {
        Stack { items: Vec::new() }
    }
}

} // verus!
