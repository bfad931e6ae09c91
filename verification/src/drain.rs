//! The iterator that a drained buffer turns into.

use vstd::prelude::*;
use vstd::std_specs::iter::IteratorSpecImpl;
use crate::model::{after_pop, front};

verus! {

/// What is left of a drained buffer. It yields each element once, oldest
/// first, and then `None` for good.
///
/// Its view is the sequence of the elements still to come. They are kept
/// newest first, so that the oldest comes off the back of the vector.
pub struct IntoIter<T>(Vec<T>);

impl<T> IntoIter<T> {
    /// Wraps the elements of a drained buffer, given newest first.
    pub(crate) fn from_newest_first(elements: Vec<T>) -> (iter: IntoIter<T>)
        ensures
            iter@ == elements@.reverse(),
    {
        IntoIter(elements)
    }
}

impl<T> View for IntoIter<T> {
    type V = Seq<T>;

    /// The elements still to come, oldest first.
    closed spec fn view(&self) -> Seq<T> {
        self.0@.reverse()
    }
}

impl<T> Iterator for IntoIter<T> {
    type Item = T;

    /// Yields the oldest element that is left, as a pop of the buffer would
    /// have done; `None` once nothing is left.
    fn next(&mut self) -> (ret: Option<T>)
        ensures
            ret == front(old(self)@),
            final(self)@ == after_pop(old(self)@),
    {
        self.0.pop()
    }
}

impl<T> IteratorSpecImpl for IntoIter<T> {
    open spec fn obeys_prophetic_iter_laws(&self) -> bool {
        true
    }

    /// The items that the iterator will yield are its view.
    open spec fn remaining(&self) -> Seq<T> {
        self@
    }

    open spec fn will_return_none(&self) -> bool {
        true
    }

    open spec fn decrease(&self) -> Option<nat> {
        Some(self@.len())
    }

    open spec fn initial_value_relation(&self, init: &Self) -> bool {
        true
    }

    open spec fn peek(&self, index: int) -> Option<T> {
        if 0 <= index < self@.len() {
            Some(self@[index])
        } else {
            None
        }
    }
}

} // verus!
