//! A last-in, first-out stack.

use vstd::prelude::*;

verus! {

/// A stack. Its view is the sequence of its elements from the bottom to the
/// top.
pub struct Stack<T> {
    elements: Vec<T>,
}

impl<T> View for Stack<T> {
    type V = Seq<T>;

    closed spec fn view(&self) -> Seq<T> {
        self.elements@
    }
}

impl<T> Stack<T> {
    /// An empty stack.
    pub fn new() -> (stack: Stack<T>)
        ensures
            stack@ == Seq::<T>::empty(),
    {
        Stack { elements: Vec::<T>::new() }
    }

    /// The element on top, which stays where it is; `None` on an empty stack.
    pub fn peek(&self) -> (top: Option<&T>)
        ensures
            match top {
                Some(elem) => self@.len() > 0 && *elem == self@.last(),
                None => self@.len() == 0,
            },
    {
        self.elements.last()
    }

    /// Puts `elem` on top.
    pub fn push(&mut self, elem: T)
        ensures
            final(self)@ == old(self)@.push(elem),
    {
        self.elements.push(elem);
    }

    /// Takes the element on top off the stack; `None` on an empty stack,
    /// which stays empty.
    pub fn pop(&mut self) -> (top: Option<T>)
        ensures
            match top {
                Some(elem) => old(self)@.len() > 0 && elem == old(self)@.last() && final(self)@
                    == old(self)@.drop_last(),
                None => old(self)@.len() == 0 && final(self)@ == old(self)@,
            },
    {
        self.elements.pop()
    }
}

} // verus!
