//! Walking a list of lists as one list, from either end.

use vstd::prelude::*;
use std::collections::VecDeque;

verus! {

/// The items of all `parts`, in order, as one sequence.
pub open spec fn concat<T>(parts: Seq<Vec<T>>) -> Seq<T>
    decreases parts.len(),
{
    if parts.len() == 0 {
        Seq::empty()
    } else {
        parts.first()@ + concat(parts.drop_first())
    }
}

/// The items of a list that may be absent.
spec fn items_of<T>(part: Option<VecDeque<T>>) -> Seq<T> {
    match part {
        Some(items) => items@,
        None => Seq::empty(),
    }
}

/// `concat` can be taken apart at the last list as well as at the first.
pub proof fn lemma_concat_last<T>(parts: Seq<Vec<T>>)
    requires
        parts.len() > 0,
    ensures
        concat(parts) == concat(parts.drop_last()) + parts.last()@,
    decreases parts.len(),
{
    if parts.len() == 1 {
        assert(parts.drop_first() =~= parts.drop_last());
        assert(concat(parts.drop_last()) =~= Seq::<T>::empty());
        assert(concat(parts) =~= parts.last()@);
    } else {
        let rest = parts.drop_first();
        lemma_concat_last(rest);
        assert(rest.drop_last() =~= parts.drop_last().drop_first());
        assert(parts.drop_last().first() == parts.first());
        assert(concat(parts) =~= concat(parts.drop_last()) + parts.last()@);
    }
}

/// Moves the items of a vector into a double-ended queue, keeping their
/// order.
pub fn into_deque<T>(items: Vec<T>) -> (queue: VecDeque<T>)
    ensures
        queue@ == items@,
{
    let mut rest = items;
    let mut queue: VecDeque<T> = VecDeque::new();
    loop
        invariant
            rest@ + queue@ == items@,
        decreases rest@.len(),
    {
        match rest.pop() {
            Some(item) => {
                queue.push_front(item);
                assert(rest@ + queue@ =~= items@);
            },
            None => {
                assert(queue@ =~= items@);
                return queue;
            },
        }
    }
}

/// Walks the items of a list of lists in order, from the front and from the
/// back, without building the joined list.
pub struct Flatten<T> {
    outer: VecDeque<Vec<T>>,
    front_iter: Option<VecDeque<T>>,
    back_iter: Option<VecDeque<T>>,
}

impl<T> View for Flatten<T> {
    type V = Seq<T>;

    /// The items that are still to come, front to back.
    closed spec fn view(&self) -> Seq<T> {
        items_of(self.front_iter) + concat(self.outer@) + items_of(self.back_iter)
    }
}

/// A walk over the items of `iter`'s lists, first list first.
pub fn flatten<T>(iter: Vec<Vec<T>>) -> (walk: Flatten<T>)
    ensures
        walk@ == concat(iter@),
{
    Flatten::new(into_deque(iter))
}

impl<T> Flatten<T> {
    /// A walk over the items of the lists in `iter`, first list first.
    pub fn new(iter: VecDeque<Vec<T>>) -> (walk: Self)
        ensures
            walk@ == concat(iter@),
    {
        let walk = Flatten { outer: iter, front_iter: None, back_iter: None };
        assert(walk@ =~= concat(iter@));
        walk
    }

    /// Takes the first of the remaining items, if there is one.
    pub fn next(&mut self) -> (item: Option<T>)
        ensures
            match item {
                Some(x) => old(self)@.len() > 0 && x == old(self)@.first() && final(self)@
                    == old(self)@.drop_first(),
                None => old(self)@.len() == 0 && final(self)@.len() == 0,
            },
    {
        loop
            invariant
                self@ == old(self)@,
            decreases self.outer@.len(), (if self.front_iter is Some { 1int } else { 0int }),
        {
            if let Some(front) = &mut self.front_iter {
                if let Some(item) = front.pop_front() {
                    assert(self@ =~= old(self)@.drop_first());
                    return Some(item);
                }
                self.front_iter = None;
                assert(self@ =~= old(self)@);
            }
            if let Some(next_inner) = self.outer.pop_front() {
                self.front_iter = Some(into_deque(next_inner));
                assert(self@ =~= old(self)@);
            } else {
                assert(concat(self.outer@) =~= Seq::<T>::empty());
                match &mut self.back_iter {
                    Some(back) => {
                        let item = back.pop_front();
                        assert(item is Some ==> self@ =~= old(self)@.drop_first());
                        return item;
                    },
                    None => {
                        return None;
                    },
                }
            }
        }
    }

    /// Takes the last of the remaining items, if there is one.
    pub fn next_back(&mut self) -> (item: Option<T>)
        ensures
            match item {
                Some(x) => old(self)@.len() > 0 && x == old(self)@.last() && final(self)@
                    == old(self)@.drop_last(),
                None => old(self)@.len() == 0 && final(self)@.len() == 0,
            },
    {
        loop
            invariant
                self@ == old(self)@,
            decreases self.outer@.len(), (if self.back_iter is Some { 1int } else { 0int }),
        {
            if let Some(back) = &mut self.back_iter {
                if let Some(item) = back.pop_back() {
                    assert(self@ =~= old(self)@.drop_last());
                    return Some(item);
                }
                self.back_iter = None;
                assert(self@ =~= old(self)@);
            }
            proof {
                if self.outer@.len() > 0 {
                    lemma_concat_last(self.outer@);
                }
            }
            if let Some(next_back_inner) = self.outer.pop_back() {
                self.back_iter = Some(into_deque(next_back_inner));
                assert(self@ =~= old(self)@);
            } else {
                assert(concat(self.outer@) =~= Seq::<T>::empty());
                match &mut self.front_iter {
                    Some(front) => {
                        let item = front.pop_back();
                        assert(item is Some ==> self@ =~= old(self)@.drop_last());
                        return item;
                    },
                    None => {
                        return None;
                    },
                }
            }
        }
    }

    /// The number of remaining items. They are gathered and then counted, so
    /// the count always fits.
    pub fn count(self) -> (n: usize)
        ensures
            n == self@.len(),
    {
        self.collect().len()
    }

    /// The remaining items, front to back.
    pub fn collect(self) -> (items: Vec<T>)
        ensures
            items@ == self@,
    {
        let mut walk = self;
        let mut items: Vec<T> = Vec::new();
        loop
            invariant
                items@ + walk@ == self@,
            decreases walk@.len(),
        {
            match walk.next() {
                Some(item) => {
                    items.push(item);
                    assert(items@ + walk@ =~= self@);
                },
                None => {
                    assert(items@ =~= self@);
                    return items;
                },
            }
        }
    }

    /// The remaining items, back to front.
    pub fn collect_rev(self) -> (items: Vec<T>)
        ensures
            items@ == self@.reverse(),
    {
        let mut walk = self;
        let mut items: Vec<T> = Vec::new();
        loop
            invariant
                items@.len() + walk@.len() == self@.len(),
                walk@ == self@.take(walk@.len() as int),
                forall|i: int| 0 <= i < items@.len() ==> items@[i] == self@[self@.len() - 1 - i],
            decreases walk@.len(),
        {
            match walk.next_back() {
                Some(item) => {
                    items.push(item);
                    assert(walk@ =~= self@.take(walk@.len() as int));
                },
                None => {
                    assert(items@ =~= self@.reverse());
                    return items;
                },
            }
        }
    }
}

/// Lists of lists that can be walked as one list.
pub trait IteratorExt<T>: Sized {
    /// The lists, in order.
    spec fn parts(&self) -> Seq<Vec<T>>;

    /// A walk over the items of the lists, first list first.
    fn our_flatten(self) -> (walk: Flatten<T>)
        ensures
            walk@ == concat(self.parts()),
    ;
}

impl<T> IteratorExt<T> for Vec<Vec<T>> {
    open spec fn parts(&self) -> Seq<Vec<T>> {
        self@
    }

    fn our_flatten(self) -> (walk: Flatten<T>) {
        flatten(self)
    }
}

} // verus!
