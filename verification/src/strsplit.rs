//! Splitting a string at each occurrence of a delimiter. Positions count
//! characters, not bytes.

use vstd::prelude::*;
use vstd::pervasive::unreached;
use vstd::string::StrSliceExecFns;

verus! {

/// `pat` stands in `hay` at position `at`.
pub open spec fn occurs_at(hay: Seq<char>, pat: Seq<char>, at: int) -> bool {
    0 <= at && at + pat.len() <= hay.len() && hay.subrange(at, at + pat.len()) == pat
}

/// The first position at or after `from` at which `pat` stands in `hay`.
pub open spec fn first_occurrence(hay: Seq<char>, pat: Seq<char>, from: int) -> Option<int>
    decreases hay.len() + 1 - from,
{
    if from < 0 || from + pat.len() > hay.len() {
        None
    } else if occurs_at(hay, pat, from) {
        Some(from)
    } else {
        first_occurrence(hay, pat, from + 1)
    }
}

/// What `first_occurrence` finds is an occurrence at or after `from` with
/// none between `from` and it; and it finds nothing only if there is none.
pub proof fn lemma_first_occurrence(hay: Seq<char>, pat: Seq<char>, from: int)
    requires
        0 <= from,
    ensures
        match first_occurrence(hay, pat, from) {
            Some(at) => from <= at && occurs_at(hay, pat, at) && forall|j: int|
                from <= j < at ==> !occurs_at(hay, pat, j),
            None => forall|j: int| from <= j ==> !occurs_at(hay, pat, j),
        },
    decreases hay.len() + 1 - from,
{
    if from + pat.len() <= hay.len() && !occurs_at(hay, pat, from) {
        lemma_first_occurrence(hay, pat, from + 1);
    }
}

/// The characters of a string, as a vector.
fn chars_of(s: &str) -> (chars: Vec<char>)
    ensures
        chars@ == s@,
{
    let mut chars: Vec<char> = Vec::new();
    for c in it: s.chars()
        invariant
            it.seq() == s@,
            chars@ == s@.take(it.index()),
    {
        chars.push(c);
    }
    chars
}

/// Whether `pat` stands in `hay` at position `at`.
fn stands_at(hay: &Vec<char>, pat: &Vec<char>, at: usize) -> (found: bool)
    requires
        at + pat@.len() <= hay@.len(),
    ensures
        found == occurs_at(hay@, pat@, at as int),
{
    let len: usize = hay.len();
    let mut k: usize = 0;
    while k < pat.len()
        invariant
            k <= pat@.len(),
            at + pat@.len() <= hay@.len() == len,
            forall|j: int| 0 <= j < k ==> hay@[at + j] == pat@[j],
        decreases pat@.len() - k,
    {
        if hay[at + k] != pat[k] {
            assert(hay@.subrange(at as int, at + pat@.len())[k as int] == hay@[at + k]);
            return false;
        }
        k = k + 1;
    }
    assert(hay@.subrange(at as int, at + pat@.len()) =~= pat@);
    true
}

/// The first position at which `pat` stands in `hay`.
fn find_chars(hay: &Vec<char>, pat: &Vec<char>) -> (found: Option<usize>)
    ensures
        match found {
            Some(at) => first_occurrence(hay@, pat@, 0) == Some(at as int),
            None => first_occurrence(hay@, pat@, 0) is None,
        },
{
    if pat.len() > hay.len() {
        return None;
    }
    let last: usize = hay.len() - pat.len();
    let mut at: usize = 0;
    loop
        invariant
            last == hay@.len() - pat@.len(),
            at <= last,
            first_occurrence(hay@, pat@, 0) == first_occurrence(hay@, pat@, at as int),
        decreases last - at,
    {
        if stands_at(hay, pat, at) {
            return Some(at);
        }
        if at == last {
            assert(first_occurrence(hay@, pat@, at + 1) is None);
            return None;
        }
        at = at + 1;
    }
}

/// Something that a string is split at.
pub trait Delimiter {
    /// Where the delimiter next occurs in `s`: the position of its first
    /// character and the position after its last. A delimiter that does not
    /// say where it occurs occurs nowhere.
    open spec fn next_match(&self, s: Seq<char>) -> Option<(int, int)> {
        None
    }

    /// Finds the next occurrence of the delimiter in `s`: the position of
    /// its first character and the position after its last, both counted in
    /// characters of `s`.
    fn find_next(&self, s: &str) -> (found: Option<(usize, usize)>)
        ensures
            match found {
                Some((start, end)) => self.next_match(s@) == Some((start as int, end as int))
                    && start <= end <= s@.len(),
                None => self.next_match(s@) is None,
            },
    ;
}

/// Where `pat` first occurs in `s`, as a delimiter's match.
pub open spec fn pattern_match(s: Seq<char>, pat: Seq<char>) -> Option<(int, int)> {
    match first_occurrence(s, pat, 0) {
        Some(at) => Some((at, at + pat.len())),
        None => None,
    }
}

/// Finds where `pat` first occurs in `s`.
fn find_pattern(s: &str, pat: Vec<char>) -> (found: Option<(usize, usize)>)
    ensures
        match found {
            Some((start, end)) => pattern_match(s@, pat@) == Some((start as int, end as int))
                && start <= end <= s@.len(),
            None => pattern_match(s@, pat@) is None,
        },
{
    let hay = chars_of(s);
    proof {
        lemma_first_occurrence(hay@, pat@, 0);
    }
    match find_chars(&hay, &pat) {
        Some(start) => {
            let len: usize = hay.len();
            assert(start + pat@.len() <= len) by {
                assert(occurs_at(hay@, pat@, start as int));
            }
            Some((start, start + pat.len()))
        },
        None => None,
    }
}

impl Delimiter for &str {
    /// A string delimiter matches where its characters first occur.
    open spec fn next_match(&self, s: Seq<char>) -> Option<(int, int)> {
        pattern_match(s, (*self)@)
    }

    fn find_next(&self, s: &str) -> (found: Option<(usize, usize)>) {
        find_pattern(s, chars_of(*self))
    }
}

impl Delimiter for char {
    /// A character delimiter matches where the character first occurs.
    open spec fn next_match(&self, s: Seq<char>) -> Option<(int, int)> {
        pattern_match(s, seq![*self])
    }

    fn find_next(&self, s: &str) -> (found: Option<(usize, usize)>) {
        let mut pat: Vec<char> = Vec::new();
        pat.push(*self);
        assert(pat@ =~= seq![*self]);
        find_pattern(s, pat)
    }
}

/// Every match of the delimiter ends after at least one character of the
/// string it was found in, so that cutting at it makes the string shorter.
pub open spec fn advances<D: Delimiter>(delimiter: D) -> bool {
    forall|s: Seq<char>|
        match #[trigger] delimiter.next_match(s) {
            Some((start, end)) => 0 < end,
            None => true,
        }
}

/// The pieces that `rest` falls into when it is cut at each occurrence of
/// the delimiter in turn: at least one, and one more than there are cuts.
pub open spec fn pieces<D: Delimiter>(delimiter: D, rest: Seq<char>) -> Seq<Seq<char>>
    decreases rest.len(),
{
    match delimiter.next_match(rest) {
        Some((start, end)) => if 0 < end <= rest.len() {
            seq![rest.subrange(0, start)] + pieces(
                delimiter,
                rest.subrange(end, rest.len() as int),
            )
        } else {
            seq![rest.subrange(0, start)]
        },
        None => seq![rest],
    }
}

/// A pattern of at least one character advances.
pub proof fn lemma_pattern_advances(pat: Seq<char>)
    requires
        pat.len() > 0,
    ensures
        forall|s: Seq<char>|
            match #[trigger] pattern_match(s, pat) {
                Some((start, end)) => 0 < end,
                None => true,
            },
{
    assert forall|s: Seq<char>|
        match #[trigger] pattern_match(s, pat) {
            Some((start, end)) => 0 < end,
            None => true,
        } by {
        lemma_first_occurrence(s, pat, 0);
    }
}

/// Walks the pieces of a string that lie between the occurrences of a
/// delimiter.
pub struct StrSplit<'haystack, D> {
    remainder: Option<&'haystack str>,
    delimiter: D,
}

impl<'haystack, D> StrSplit<'haystack, D> {
    /// The part of the string that is still to be split; `None` once the
    /// last piece has been handed out.
    pub closed spec fn remainder(&self) -> Option<Seq<char>> {
        match self.remainder {
            Some(rest) => Some(rest@),
            None => None,
        }
    }

    /// The delimiter that the string is split at.
    pub closed spec fn delimiter(&self) -> D {
        self.delimiter
    }

    /// A walk over the pieces of `haystack` between occurrences of
    /// `delimiter`.
    pub fn new(haystack: &'haystack str, delimiter: D) -> (split: Self)
        ensures
            split.remainder() == Some(haystack@),
            split.delimiter() == delimiter,
    {
        StrSplit { remainder: Some(haystack), delimiter }
    }
}

impl<'haystack, D: Delimiter> StrSplit<'haystack, D> {
    /// Hands out the next piece: what lies before the delimiter's next
    /// occurrence in the remainder, which then starts after that occurrence;
    /// or the whole remainder, as the last piece, if the delimiter does not
    /// occur in it.
    pub fn next(&mut self) -> (piece: Option<&'haystack str>)
        ensures
            final(self).delimiter() == old(self).delimiter(),
            match old(self).remainder() {
                Some(rest) => match old(self).delimiter().next_match(rest) {
                    Some((start, end)) => 0 <= start <= end <= rest.len() && piece is Some
                        && piece->0@ == rest.subrange(0, start) && final(self).remainder()
                        == Some(rest.subrange(end, rest.len() as int)),
                    None => piece is Some && piece->0@ == rest && final(self).remainder() is None,
                },
                None => piece is None && final(self).remainder() is None,
            },
    {
        match self.remainder {
            Some(remainder) => {
                match self.delimiter.find_next(remainder) {
                    Some((delim_start, delim_end)) => {
                        let until_delim = remainder.substring_char(0, delim_start);
                        self.remainder = Some(
                            remainder.substring_char(delim_end, remainder.unicode_len()),
                        );
                        Some(until_delim)
                    },
                    None => {
                        self.remainder = None;
                        Some(remainder)
                    },
                }
            },
            None => None,
        }
    }
}

impl<'haystack, D: Delimiter> StrSplit<'haystack, D> {
    /// All the pieces that are still to come, in order.
    pub fn collect(self) -> (items: Vec<&'haystack str>)
        requires
            advances(self.delimiter()),
        ensures
            items@.map_values(|piece: &str| piece@) == match self.remainder() {
                Some(rest) => pieces(self.delimiter(), rest),
                None => Seq::empty(),
            },
    {
        let mut split = self;
        let mut items: Vec<&'haystack str> = Vec::new();
        let ghost all = match self.remainder() {
            Some(rest) => pieces(self.delimiter(), rest),
            None => Seq::empty(),
        };
        assert(items@.map_values(|piece: &str| piece@) =~= Seq::<Seq<char>>::empty());
        loop
            invariant
                split.delimiter() == self.delimiter(),
                advances(self.delimiter()),
                all == match self.remainder() {
                    Some(rest) => pieces(self.delimiter(), rest),
                    None => Seq::empty(),
                },
                all == items@.map_values(|piece: &str| piece@) + match split.remainder() {
                    Some(rest) => pieces(self.delimiter(), rest),
                    None => Seq::empty(),
                },
            decreases
                    match split.remainder() {
                        Some(rest) => rest.len() + 1,
                        None => 0,
                    },
        {
            let ghost before = items@.map_values(|piece: &str| piece@);
            let ghost rest = split.remainder();
            match split.next() {
                Some(piece) => {
                    items.push(piece);
                    proof {
                        let after = items@.map_values(|piece: &str| piece@);
                        assert(after =~= before.push(piece@));
                        match self.delimiter().next_match(rest->0) {
                            Some((start, end)) => {
                                let later = pieces(
                                    self.delimiter(),
                                    (rest->0).subrange(end, (rest->0).len() as int),
                                );
                                assert(0 < end);
                                assert(before + (seq![piece@] + later) =~= after + later);
                            },
                            None => {
                                assert(before + seq![piece@] =~= after + Seq::<Seq<char>>::empty());
                            },
                        }
                    }
                },
                None => {
                    assert(items@.map_values(|piece: &str| piece@) + Seq::<Seq<char>>::empty()
                        =~= items@.map_values(|piece: &str| piece@));
                    return items;
                },
            }
        }
    }
}

/// The part of `s` before the first occurrence of `c`; all of `s` if `c`
/// does not occur.
pub fn until_char(s: &str, c: char) -> (prefix: &str)
    ensures
        prefix@ == match first_occurrence(s@, seq![c], 0) {
            Some(at) => s@.subrange(0, at),
            None => s@,
        },
{
    let mut split = StrSplit::new(s, c);
    match split.next() {
        Some(piece) => piece,
        None => unreached(),
    }
}

} // verus!
