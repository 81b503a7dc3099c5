//! The aliasing rule as a state machine: what kind of access to a guarded
//! value currently exists, and how each request and each release changes it.

use vstd::prelude::*;

verus! {

/// What access to a guarded value exists right now.
pub enum BorrowState {
    /// No guard is live.
    Unshared,
    /// This many shared guards are live; the number is at least one.
    Shared(nat),
    /// One exclusive guard is live.
    Exclusive,
}

/// One call on a guarded cell.
pub enum Operation {
    /// A request for shared access.
    Borrow,
    /// A request for exclusive access.
    BorrowMut,
    /// The release of a shared guard.
    ReleaseShared,
    /// The release of the exclusive guard.
    ReleaseExclusive,
}

impl BorrowState {
    /// `Shared` never counts zero guards.
    pub open spec fn wf(self) -> bool {
        self matches BorrowState::Shared(n) ==> n >= 1
    }

    /// The number of live shared guards that the state records.
    pub open spec fn shared_guards(self) -> nat {
        match self {
            BorrowState::Shared(n) => n,
            _ => 0,
        }
    }

    /// The number of live exclusive guards that the state records.
    pub open spec fn exclusive_guards(self) -> nat {
        match self {
            BorrowState::Exclusive => 1,
            _ => 0,
        }
    }

    /// Shared access is granted unless an exclusive guard is live.
    pub open spec fn grants_shared(self) -> bool {
        !(self is Exclusive)
    }

    /// Exclusive access is granted only when no guard at all is live.
    pub open spec fn grants_exclusive(self) -> bool {
        self is Unshared
    }

    /// The state after a request for shared access: one more shared guard
    /// where it is granted, no change where it is refused.
    pub open spec fn after_borrow(self) -> BorrowState {
        match self {
            BorrowState::Unshared => BorrowState::Shared(1),
            BorrowState::Shared(n) => BorrowState::Shared(n + 1),
            BorrowState::Exclusive => BorrowState::Exclusive,
        }
    }

    /// The state after a request for exclusive access: `Exclusive` where it
    /// is granted, no change where it is refused.
    pub open spec fn after_borrow_mut(self) -> BorrowState {
        match self {
            BorrowState::Unshared => BorrowState::Exclusive,
            other => other,
        }
    }

    /// A shared guard can be released only while shared guards are live.
    pub open spec fn releases_shared(self) -> bool {
        self is Shared
    }

    /// The exclusive guard can be released only while it is live.
    pub open spec fn releases_exclusive(self) -> bool {
        self is Exclusive
    }

    /// The state after the release of one shared guard. Meaningful where
    /// `releases_shared` holds.
    pub open spec fn after_release_shared(self) -> BorrowState {
        match self {
            BorrowState::Shared(n) => if n <= 1 {
                BorrowState::Unshared
            } else {
                BorrowState::Shared((n - 1) as nat)
            },
            other => other,
        }
    }

    /// The state after the release of the exclusive guard. Meaningful where
    /// `releases_exclusive` holds.
    pub open spec fn after_release_exclusive(self) -> BorrowState {
        match self {
            BorrowState::Exclusive => BorrowState::Unshared,
            other => other,
        }
    }

    /// The state after one operation.
    pub open spec fn step(self, op: Operation) -> BorrowState {
        match op {
            Operation::Borrow => self.after_borrow(),
            Operation::BorrowMut => self.after_borrow_mut(),
            Operation::ReleaseShared => self.after_release_shared(),
            Operation::ReleaseExclusive => self.after_release_exclusive(),
        }
    }
}

/// The state of a cell that started without guards and then saw `ops`, first
/// to last.
pub open spec fn state_after(ops: Seq<Operation>) -> BorrowState
    decreases ops.len(),
{
    if ops.len() == 0 {
        BorrowState::Unshared
    } else {
        state_after(ops.drop_last()).step(ops.last())
    }
}

/// The number of shared guards that are live after `ops` on a cell that
/// started without guards: those handed out less those released. This counts
/// guards, it does not read the state's own counter.
pub open spec fn live_shared(ops: Seq<Operation>) -> int
    decreases ops.len(),
{
    if ops.len() == 0 {
        0
    } else {
        let earlier = ops.drop_last();
        match ops.last() {
            Operation::Borrow => if state_after(earlier).grants_shared() {
                live_shared(earlier) + 1
            } else {
                live_shared(earlier)
            },
            Operation::ReleaseShared => live_shared(earlier) - 1,
            _ => live_shared(earlier),
        }
    }
}

/// The number of exclusive guards that are live after `ops` on a cell that
/// started without guards: those handed out less those released.
pub open spec fn live_exclusive(ops: Seq<Operation>) -> int
    decreases ops.len(),
{
    if ops.len() == 0 {
        0
    } else {
        let earlier = ops.drop_last();
        match ops.last() {
            Operation::BorrowMut => if state_after(earlier).grants_exclusive() {
                live_exclusive(earlier) + 1
            } else {
                live_exclusive(earlier)
            },
            Operation::ReleaseExclusive => live_exclusive(earlier) - 1,
            _ => live_exclusive(earlier),
        }
    }
}

/// The release discipline: every release in `ops` gives back a guard that
/// was handed out earlier and is still live.
pub open spec fn disciplined(ops: Seq<Operation>) -> bool {
    forall|i: int|
        0 <= i < ops.len() ==> match #[trigger] ops[i] {
            Operation::ReleaseShared => live_shared(ops.take(i)) > 0,
            Operation::ReleaseExclusive => live_exclusive(ops.take(i)) > 0,
            _ => true,
        }
}

/// A disciplined sequence stays disciplined when its last operation is left
/// out.
proof fn lemma_disciplined_prefix(ops: Seq<Operation>)
    requires
        disciplined(ops),
        ops.len() > 0,
    ensures
        disciplined(ops.drop_last()),
{
    let earlier = ops.drop_last();
    assert forall|i: int| 0 <= i < earlier.len() implies match #[trigger] earlier[i] {
        Operation::ReleaseShared => live_shared(earlier.take(i)) > 0,
        Operation::ReleaseExclusive => live_exclusive(earlier.take(i)) > 0,
        _ => true,
    } by {
        assert(earlier.take(i) =~= ops.take(i));
        assert(earlier[i] == ops[i]);
    }
}

/// The aliasing rule holds after every disciplined sequence of requests and
/// releases on a cell that started without guards.
///
/// The state records exactly the guards that are live, so at no point are
/// there two exclusive guards, or a shared and an exclusive guard together,
/// while shared guards may be as many as were asked for.
pub proof fn lemma_shared_xor_exclusive(ops: Seq<Operation>)
    requires
        disciplined(ops),
    ensures
        state_after(ops).wf(),
        live_shared(ops) == state_after(ops).shared_guards(),
        live_exclusive(ops) == state_after(ops).exclusive_guards(),
        0 <= live_exclusive(ops) <= 1,
        0 <= live_shared(ops),
        !(live_shared(ops) > 0 && live_exclusive(ops) > 0),
    decreases ops.len(),
{
    if ops.len() > 0 {
        let earlier = ops.drop_last();
        lemma_disciplined_prefix(ops);
        lemma_shared_xor_exclusive(earlier);
        assert(ops.take(ops.len() - 1) =~= earlier);
        assert(ops[ops.len() - 1] == ops.last());
    }
}

/// Shared access is never limited by shared access: after any number of
/// granted requests in a row on a cell without guards, that many shared
/// guards are live and the next request is granted too.
pub proof fn lemma_shared_guards_unbounded(n: nat)
    ensures
        disciplined(Seq::new(n, |i: int| Operation::Borrow)),
        live_shared(Seq::new(n, |i: int| Operation::Borrow)) == n,
        state_after(Seq::new(n, |i: int| Operation::Borrow)).grants_shared(),
    decreases n,
{
    let ops = Seq::new(n, |i: int| Operation::Borrow);
    if n > 0 {
        lemma_shared_guards_unbounded((n - 1) as nat);
        assert(ops.drop_last() =~= Seq::new((n - 1) as nat, |i: int| Operation::Borrow));
        lemma_shared_xor_exclusive(ops.drop_last());
    }
}

/// Releasing the last shared guard leaves the cell without guards, and a
/// request for exclusive access is then granted.
pub proof fn lemma_last_shared_release(state: BorrowState)
    requires
        state == BorrowState::Shared(1),
    ensures
        state.releases_shared(),
        state.after_release_shared() == BorrowState::Unshared,
        state.after_release_shared().grants_exclusive(),
        state.after_release_shared().after_borrow_mut() == BorrowState::Exclusive,
{
}

/// Releasing the exclusive guard leaves the cell without guards, and a
/// request for shared access is then granted.
pub proof fn lemma_exclusive_release(state: BorrowState)
    requires
        state == BorrowState::Exclusive,
    ensures
        state.releases_exclusive(),
        state.after_release_exclusive() == BorrowState::Unshared,
        state.after_release_exclusive().grants_shared(),
        state.after_release_exclusive().after_borrow() == BorrowState::Shared(1),
{
}

} // verus!
