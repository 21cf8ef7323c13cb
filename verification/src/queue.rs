//! A first-in, first-out queue.

use vstd::prelude::*;

verus! {

/// A queue. Its view is the sequence of its elements from the front to the
/// back.
pub struct Queue<T> {
    elements: Vec<T>,
}

impl<T> View for Queue<T> {
    type V = Seq<T>;

    closed spec fn view(&self) -> Seq<T> {
        self.elements@
    }
}

impl<T> Queue<T> {
    /// An empty queue.
    pub fn new() -> (queue: Queue<T>)
        ensures
            queue@ == Seq::<T>::empty(),
    {
        Queue { elements: Vec::<T>::new() }
    }

    /// The element at the front, which stays where it is; `None` on an empty
    /// queue.
    pub fn peek(&self) -> (front: Option<&T>)
        ensures
            match front {
                Some(elem) => self@.len() > 0 && *elem == self@.first(),
                None => self@.len() == 0,
            },
    {
        self.elements.first()
    }

    /// Puts `elem` at the back.
    pub fn enqueue(&mut self, elem: T)
        ensures
            final(self)@ == old(self)@.push(elem),
    {
        self.elements.push(elem)
    }

    /// Takes the element at the front out of the queue; `None` on an empty
    /// queue, which stays empty.
    pub fn dequeue(&mut self) -> (front: Option<T>)
        ensures
            match front {
                Some(elem) => old(self)@.len() > 0 && elem == old(self)@.first() && final(self)@
                    == old(self)@.drop_first(),
                None => old(self)@.len() == 0 && final(self)@ == old(self)@,
            },
    {
        if self.elements.is_empty() {
            None
        } else {
            Some(self.elements.remove(0))
        }
    }
}

} // verus!
