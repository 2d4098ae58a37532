//! The counter: one signed integer, changed and read in one step.
//!
//! Both operations take the counter by `&mut`, which is exclusive access for
//! the length of the call: the value returned is the one that the call left,
//! whoever else is waiting for the counter.

use vstd::prelude::*;

verus! {

/// Whether `v` can be held by the counter.
pub open spec fn in_range(v: int) -> bool {
    i32::MIN <= v <= i32::MAX
}

/// A signed counter. Its view is the value it holds.
pub struct Counter {
    value: i32,
}

impl View for Counter {
    type V = int;

    closed spec fn view(&self) -> int {
        self.value as int
    }
}

impl Counter {
    /// A counter that holds zero.
    pub fn new() -> (c: Counter)
        ensures
            c@ == 0,
    {
        Counter { value: 0 }
    }

    /// The value held now.
    pub fn get(&self) -> (v: i32)
        ensures
            v == self@,
    {
        self.value
    }

    /// Whether `delta` can be added without leaving the range of the counter.
    pub fn can_add(&self, delta: i32) -> (fits: bool)
        ensures
            fits == in_range(self@ + delta),
    {
        self.value.checked_add(delta).is_some()
    }

    /// Adds one and returns the new value.
    pub fn increment_and_read(&mut self) -> (v: i32)
        requires
            in_range(old(self)@ + 1),
        ensures
            final(self)@ == old(self)@ + 1,
            v == final(self)@,
    {
        self.value = self.value + 1;
        self.value
    }

    /// Adds `delta`, which may be negative, and returns the new value.
    pub fn add_and_read(&mut self, delta: i32) -> (v: i32)
        requires
            in_range(old(self)@ + delta),
        ensures
            final(self)@ == old(self)@ + delta,
            v == final(self)@,
    {
        self.value = self.value + delta;
        self.value
    }
}

/// Every counter holds a value of the counter's range.
pub proof fn lemma_counter_in_range(c: Counter)
    ensures
        in_range(c@),
{
}

} // verus!
