//! A cell that checks the aliasing rule when access is asked for, and the
//! guards that stand for the access it has granted.

use vstd::prelude::*;
use vstd::pervasive::unreached;
use core::marker::PhantomData;
use crate::borrow_state::BorrowState;
use crate::cell::Cell;

verus! {

/// The borrow state as the cell stores it, with a machine-sized counter.
#[derive(Clone, Copy)]
pub enum RefState {
    /// No guard is live.
    Unshared,
    /// Shared guards are live; the counter says how many.
    Shared(isize),
    /// One exclusive guard is live.
    Exclusive,
}

impl View for RefState {
    type V = BorrowState;

    open spec fn view(&self) -> BorrowState {
        match *self {
            RefState::Unshared => BorrowState::Unshared,
            RefState::Shared(n) => BorrowState::Shared(
                if n >= 1 {
                    n as nat
                } else {
                    0
                },
            ),
            RefState::Exclusive => BorrowState::Exclusive,
        }
    }
}

/// Owns one value and the record of the access to it that is outstanding.
/// The value is reached only through a guard: `borrow` and `borrow_mut` hand
/// guards out, and a guard's `release` gives the access back.
///
/// Besides the stored state the cell keeps, for proofs only, the list of the
/// guards that it has handed out and not yet taken back. `wf` says that the
/// two agree.
pub struct RefCell<T> {
    value: T,
    state: Cell<RefState>,
    id: Ghost<int>,
    issued: Ghost<nat>,
    shared: Ghost<Set<nat>>,
    exclusive: Ghost<Option<nat>>,
}

/// Stands for one grant of shared access to the value of a `RefCell<T>`.
/// A guard that is dropped without `release` keeps its access counted.
#[must_use]
pub struct Ref<T> {
    cell: Ghost<int>,
    serial: Ghost<nat>,
    grant: PhantomData<T>,
}

/// Stands for the grant of exclusive access to the value of a `RefCell<T>`.
/// A guard that is dropped without `release` keeps its access counted.
#[must_use]
pub struct RefMut<T> {
    cell: Ghost<int>,
    serial: Ghost<nat>,
    grant: PhantomData<T>,
}

impl<T> View for RefCell<T> {
    type V = T;

    /// The guarded value.
    closed spec fn view(&self) -> T {
        self.value
    }
}

impl<T> RefCell<T> {
    /// What access is outstanding, as the cell has stored it.
    pub closed spec fn state(&self) -> BorrowState {
        self.state@@
    }

    /// What tells this cell's guards from those of other cells.
    pub closed spec fn id(&self) -> int {
        self.id@
    }

    /// The serial numbers of the shared guards that are live: handed out by
    /// this cell and not yet released.
    pub closed spec fn live_shared(&self) -> Set<nat> {
        self.shared@
    }

    /// The serial number of the exclusive guard that is live, if one is.
    pub closed spec fn live_exclusive(&self) -> Option<nat> {
        self.exclusive@
    }

    /// `guard` is one of this cell's live shared guards.
    pub open spec fn holds_shared(&self, guard: &Ref<T>) -> bool {
        guard.cell_id() == self.id() && self.live_shared().contains(guard.serial())
    }

    /// `guard` is this cell's live exclusive guard.
    pub open spec fn holds_exclusive(&self, guard: &RefMut<T>) -> bool {
        guard.cell_id() == self.id() && self.live_exclusive() == Some(guard.serial())
    }

    /// The state that records exactly the guards that are live.
    pub open spec fn state_of_guards(&self) -> BorrowState {
        if self.live_exclusive() is Some {
            BorrowState::Exclusive
        } else if self.live_shared().len() == 0 {
            BorrowState::Unshared
        } else {
            BorrowState::Shared(self.live_shared().len())
        }
    }

    /// The stored state records exactly the guards that are live, shared and
    /// exclusive guards are never live together, and the counter has not
    /// left its range.
    pub closed spec fn wf(&self) -> bool {
        &&& self.shared@.finite()
        &&& self.shared@.len() <= isize::MAX
        &&& !(self.exclusive@ is Some && self.shared@.len() > 0)
        &&& self.state@ == match self.state_of_guards() {
            BorrowState::Unshared => RefState::Unshared,
            BorrowState::Shared(n) => RefState::Shared(n as isize),
            BorrowState::Exclusive => RefState::Exclusive,
        }
        &&& forall|serial: nat| self.shared@.contains(serial) ==> serial < self.issued@
        &&& self.exclusive@ matches Some(serial) ==> serial < self.issued@
    }

    /// In every well-formed cell the aliasing rule holds of the live guards:
    /// at most one exclusive guard, never together with a shared guard, and
    /// the stored state says which of the three cases it is.
    pub proof fn lemma_aliasing_rule(&self)
        requires
            self.wf(),
        ensures
            self.live_shared().finite(),
            !(self.live_exclusive() is Some && self.live_shared().len() > 0),
            self.state() == self.state_of_guards(),
            self.state().wf(),
            self.state().exclusive_guards() == (if self.live_exclusive() is Some {
                1nat
            } else {
                0nat
            }),
            self.state().shared_guards() == self.live_shared().len(),
    {
    }

    /// A cell that guards `value`, with no guard live.
    pub fn new(value: T) -> (cell: Self)
        ensures
            cell.wf(),
            cell@ == value,
            cell.state() == BorrowState::Unshared,
            cell.live_shared() == Set::<nat>::empty(),
            cell.live_exclusive() is None,
    {
        RefCell {
            value,
            state: Cell::new(RefState::Unshared),
            id: Ghost(arbitrary()),
            issued: Ghost(0),
            shared: Ghost(Set::empty()),
            exclusive: Ghost(None),
        }
    }

    /// Asks for shared access. It is granted, and counted, unless an
    /// exclusive guard is live; a refusal changes nothing.
    pub fn borrow(&mut self) -> (guard: Option<Ref<T>>)
        requires
            old(self).wf(),
            old(self).live_shared().len() < isize::MAX,
        ensures
            final(self).wf(),
            final(self)@ == old(self)@,
            final(self).id() == old(self).id(),
            final(self).live_exclusive() == old(self).live_exclusive(),
            final(self).state() == old(self).state().after_borrow(),
            guard is Some <==> old(self).state().grants_shared(),
            match guard {
                Some(granted) => {
                    &&& old(self).live_exclusive() is None
                    &&& !old(self).live_shared().contains(granted.serial())
                    &&& final(self).live_shared() == old(self).live_shared().insert(
                        granted.serial(),
                    )
                    &&& final(self).holds_shared(&granted)
                },
                None => {
                    &&& old(self).live_exclusive() is Some
                    &&& final(self).live_shared() == old(self).live_shared()
                },
            },
    {
        match self.state.get() {
            RefState::Unshared => {
                self.state.set(RefState::Shared(1));
                Some(self.grant_shared())
            },
            RefState::Shared(num) => {
                self.state.set(RefState::Shared(num + 1));
                Some(self.grant_shared())
            },
            RefState::Exclusive => None,
        }
    }

    /// Asks for exclusive access. It is granted only when no guard at all is
    /// live; a refusal changes nothing.
    pub fn borrow_mut(&mut self) -> (guard: Option<RefMut<T>>)
        requires
            old(self).wf(),
        ensures
            final(self).wf(),
            final(self)@ == old(self)@,
            final(self).id() == old(self).id(),
            final(self).live_shared() == old(self).live_shared(),
            final(self).state() == old(self).state().after_borrow_mut(),
            guard is Some <==> old(self).state().grants_exclusive(),
            match guard {
                Some(granted) => {
                    &&& old(self).live_exclusive() is None
                    &&& old(self).live_shared().len() == 0
                    &&& final(self).live_exclusive() == Some(granted.serial())
                    &&& final(self).holds_exclusive(&granted)
                },
                None => {
                    &&& old(self).live_exclusive() is Some || old(self).live_shared().len() > 0
                    &&& final(self).live_exclusive() == old(self).live_exclusive()
                },
            },
    {
        match self.state.get() {
            RefState::Unshared => {
                self.state.set(RefState::Exclusive);
                let guard = RefMut {
                    cell: Ghost(self.id@),
                    serial: Ghost(self.issued@),
                    grant: PhantomData,
                };
                proof {
                    self.exclusive@ = Some(self.issued@);
                    self.issued@ = self.issued@ + 1;
                }
                Some(guard)
            },
            _ => None,
        }
    }

    /// Enters a new shared guard in the list of live guards.
    fn grant_shared(&mut self) -> (guard: Ref<T>)
        ensures
            final(self).value == old(self).value,
            final(self).state == old(self).state,
            final(self).id == old(self).id,
            final(self).exclusive == old(self).exclusive,
            final(self).issued@ == old(self).issued@ + 1,
            guard.serial() == old(self).issued@,
            guard.cell_id() == old(self).id@,
            final(self).shared@ == old(self).shared@.insert(old(self).issued@),
    {
        let guard = Ref {
            cell: Ghost(self.id@),
            serial: Ghost(self.issued@),
            grant: PhantomData,
        };
        proof {
            self.shared@ = self.shared@.insert(self.issued@);
            self.issued@ = self.issued@ + 1;
        }
        guard
    }
}

impl<T> Ref<T> {
    /// The cell that handed this guard out.
    pub closed spec fn cell_id(&self) -> int {
        self.cell@
    }

    /// What tells this guard from the other guards of its cell.
    pub closed spec fn serial(&self) -> nat {
        self.serial@
    }

    /// Read access to the value that `cell` guards.
    pub fn read<'a>(&self, cell: &'a RefCell<T>) -> (value: &'a T)
        requires
            cell.wf(),
            cell.holds_shared(self),
        ensures
            *value == cell@,
    {
        &cell.value
    }

    /// Gives the shared access back: one shared guard less, and no guard
    /// live if this was the last.
    pub fn release(self, cell: &mut RefCell<T>)
        requires
            old(cell).wf(),
            old(cell).holds_shared(&self),
        ensures
            final(cell).wf(),
            final(cell)@ == old(cell)@,
            final(cell).id() == old(cell).id(),
            final(cell).live_exclusive() == old(cell).live_exclusive(),
            final(cell).live_shared() == old(cell).live_shared().remove(self.serial()),
            final(cell).state() == old(cell).state().after_release_shared(),
    {
        match cell.state.get() {
            RefState::Shared(n) => {
                if n == 1 {
                    cell.state.set(RefState::Unshared);
                } else {
                    cell.state.set(RefState::Shared(n - 1));
                }
                proof {
                    cell.shared@ = cell.shared@.remove(self.serial@);
                }
            },
            RefState::Exclusive | RefState::Unshared => unreached(),
        }
    }
}

impl<T> RefMut<T> {
    /// The cell that handed this guard out.
    pub closed spec fn cell_id(&self) -> int {
        self.cell@
    }

    /// What tells this guard from the guards that its cell handed out
    /// before and after it.
    pub closed spec fn serial(&self) -> nat {
        self.serial@
    }

    /// Read access to the value that `cell` guards.
    pub fn read<'a>(&self, cell: &'a RefCell<T>) -> (value: &'a T)
        requires
            cell.wf(),
            cell.holds_exclusive(self),
        ensures
            *value == cell@,
    {
        &cell.value
    }

    /// Write access to the value that `cell` guards: what is written through
    /// the returned reference is the cell's new value, and the record of
    /// outstanding access stays as it is.
    pub fn write<'a>(&mut self, cell: &'a mut RefCell<T>) -> (value: &'a mut T)
        requires
            old(cell).wf(),
            old(cell).holds_exclusive(old(self)),
        ensures
            *value == old(cell)@,
            final(cell)@ == *final(value),
            final(cell).wf(),
            final(cell).id() == old(cell).id(),
            final(cell).state() == old(cell).state(),
            final(cell).live_shared() == old(cell).live_shared(),
            final(cell).live_exclusive() == old(cell).live_exclusive(),
            *final(self) == *old(self),
    {
        &mut cell.value
    }

    /// Gives the exclusive access back: no guard is live afterwards.
    pub fn release(self, cell: &mut RefCell<T>)
        requires
            old(cell).wf(),
            old(cell).holds_exclusive(&self),
        ensures
            final(cell).wf(),
            final(cell)@ == old(cell)@,
            final(cell).id() == old(cell).id(),
            final(cell).live_exclusive() is None,
            final(cell).live_shared() == old(cell).live_shared(),
            final(cell).state() == old(cell).state().after_release_exclusive(),
    {
        match cell.state.get() {
            RefState::Exclusive => {
                cell.state.set(RefState::Unshared);
                proof {
                    cell.exclusive@ = None;
                }
            },
            RefState::Shared(_) | RefState::Unshared => unreached(),
        }
    }
}

} // verus!
