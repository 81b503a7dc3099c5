//! A single-owner container whose content is replaced as a whole.

use vstd::prelude::*;

verus! {

/// Owns one value. The value is observed with `get` and changed with `set`;
/// there is no other path to it.
pub struct Cell<T> {
    value: T,
}

impl<T> View for Cell<T> {
    type V = T;

    /// The value the cell currently holds.
    closed spec fn view(&self) -> T {
        self.value
    }
}

impl<T> Cell<T> {
    /// A cell holding `value`.
    pub fn new(value: T) -> (cell: Self)
        ensures
            cell@ == value,
    {
        Cell { value }
    }

    /// Overwrites the stored value.
    pub fn set(&mut self, value: T)
        ensures
            final(self)@ == value,
    {
        self.value = value;
    }

    /// A copy of the stored value; the cell keeps its own.
    pub fn get(&self) -> (value: T) where T: Copy
        ensures
            value == self@,
    {
        self.value
    }
}

/// Reading right after writing gives back what was written: if `written` is
/// a cell as `set(v)` leaves it and `read` is what `get` then returns on it,
/// then `read` is `v`, whatever the cell held before.
pub proof fn lemma_get_after_set<T>(written: Cell<T>, v: T, read: T)
    requires
        written@ == v,
        read == written@,
    ensures
        read == v,
{
}

} // verus!
