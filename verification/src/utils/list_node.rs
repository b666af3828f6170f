use vstd::prelude::*;

verus! {

/// A node of a singly linked list: a value and an optional next node.
#[derive(Debug)]
pub struct ListNode<T> {
    pub val: T,
    pub next: Option<Box<ListNode<T>>>,
}

/// The values held from this node onward, in order.
pub open spec fn node_view<T>(n: ListNode<T>) -> Seq<T>
    decreases n,
{
    match n.next {
        Some(b) => seq![n.val] + node_view(*b),
        None => seq![n.val],
    }
}

impl<T> View for ListNode<T> {
    type V = Seq<T>;

    open spec fn view(&self) -> Seq<T> {
        node_view(*self)
    }
}

impl<T> ListNode<T> {
    /// A node holding `val` with nothing after it.
    pub fn new(val: T) -> (r: ListNode<T>)
        ensures
            r@ == seq![val],
    {
        ListNode { val, next: None }
    }

    /// Makes `next_node` follow this node, replacing whatever followed.
    pub fn chain(&mut self, next_node: ListNode<T>)
        ensures
            final(self)@ == seq![old(self).val] + next_node@,
            final(self).val == old(self).val,
    {
        self.next = Some(Box::new(next_node));
    }

    /// The value held in this node.
    pub fn val(&self) -> (r: &T)
        ensures
            r == &self.val,
    {
        &self.val
    }

    /// The node after this one, if any.
    pub fn next(&self) -> (r: Option<&ListNode<T>>)
        ensures
            match r {
                Some(n) => (self.next matches Some(b) && *n == *b),
                None => self.next is None,
            },
    {
        match &self.next {
            Some(b) => Some(&**b),
            None => None,
        }
    }
}

} // verus!
