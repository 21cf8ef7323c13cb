//! A list that grows and shrinks at both ends.

use vstd::prelude::*;

verus! {

/// A list. Its view is the sequence of its elements from the first to the
/// last.
pub struct List<T> {
    elements: Vec<T>,
    length: usize,
}

impl<T> View for List<T> {
    type V = Seq<T>;

    closed spec fn view(&self) -> Seq<T> {
        self.elements@
    }
}

impl<T> List<T> {
    /// The recorded length is the number of elements held.
    pub closed spec fn wf(&self) -> bool {
        self.length == self.elements@.len()
    }

    /// An empty list.
    pub fn new() -> (list: List<T>)
        ensures
            list.wf(),
            list@ == Seq::<T>::empty(),
    {
        List { elements: Vec::<T>::new(), length: 0 }
    }

    /// The number of elements.
    pub fn len(&self) -> (length: usize)
        requires
            self.wf(),
        ensures
            length == self@.len(),
    {
        self.length
    }

    /// The element at position `n`, counted from 0.
    pub fn get(&self, n: usize) -> (elem: &T)
        requires
            n < self@.len(),
        ensures
            *elem == self@[n as int],
    {
        &self.elements[n]
    }

    /// Appends `elem` after the last element.
    pub fn push(&mut self, elem: T)
        requires
            old(self).wf(),
            old(self)@.len() < usize::MAX,
        ensures
            final(self).wf(),
            final(self)@ == old(self)@.push(elem),
    {
        self.elements.push(elem);
        self.length += 1;
    }

    /// Takes the last element off the list.
    pub fn pop(&mut self) -> (elem: T)
        requires
            old(self).wf(),
            old(self)@.len() > 0,
        ensures
            final(self).wf(),
            elem == old(self)@.last(),
            final(self)@ == old(self)@.drop_last(),
    {
        self.length -= 1;
        self.elements.remove(self.length)
    }

    /// Inserts `elem` before the first element. Every element moves one
    /// place towards the end.
    pub fn unshift(&mut self, elem: T)
        requires
            old(self).wf(),
            old(self)@.len() < usize::MAX,
        ensures
            final(self).wf(),
            final(self)@ == seq![elem] + old(self)@,
    {
        let mut previous = elem;
        let mut i: usize = 0;
        while i < self.length
            invariant
                self.wf(),
                self.length == old(self).length,
                i <= self.length,
                self@.len() == old(self)@.len(),
                previous == if i == 0 {
                    elem
                } else {
                    old(self)@[i - 1]
                },
                forall|k: int| 0 <= k < i ==> self@[k] == (seq![elem] + old(self)@)[k],
                forall|k: int| i <= k < self@.len() ==> self@[k] == old(self)@[k],
            decreases self.length - i,
        {
            core::mem::swap(&mut self.elements[i], &mut previous);
            i += 1;
        }
        self.elements.push(previous);
        self.length += 1;
    }

    /// Takes the first element off the list. Every other element moves one
    /// place towards the front.
    pub fn shift(&mut self) -> (elem: T)
        requires
            old(self).wf(),
            old(self)@.len() > 0,
        ensures
            final(self).wf(),
            elem == old(self)@.first(),
            final(self)@ == old(self)@.drop_first(),
    {
        self.length -= 1;
        self.elements.remove(0)
    }
}

} // verus!
