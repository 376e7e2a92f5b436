//! The table of open pull requests, by number.

use crate::state::{PullRequestState, PullView};
use vstd::prelude::*;

verus! {

/// The open pull requests, in the order in which they came to the table.
/// No number occurs twice.
#[derive(Debug, PartialEq, Eq)]
pub struct PullTable {
    pub entries: Vec<PullRequestState>,
}

/// Whether `s` holds a pull request with number `n` at place `i`.
pub open spec fn at(s: Seq<PullRequestState>, n: u64, i: int) -> bool {
    0 <= i < s.len() && s[i].number == n
}

/// The pull requests of `s` by number.
pub open spec fn table_of(s: Seq<PullRequestState>) -> Map<u64, PullView> {
    Map::new(
        |n: u64| exists|i: int| at(s, n, i),
        |n: u64| s[choose|i: int| at(s, n, i)]@,
    )
}

/// The place of pull request `n` in `s`.
pub open spec fn place_of(s: Seq<PullRequestState>, n: u64) -> int {
    choose|i: int| at(s, n, i)
}

/// Whether no number occurs twice in `s`.
pub open spec fn distinct(s: Seq<PullRequestState>) -> bool {
    forall|i: int, j: int| 0 <= i < j < s.len() ==> s[i].number != s[j].number
}

/// Every pull request of a table stands under its own number.
pub proof fn lemma_table_entry(s: Seq<PullRequestState>, i: int)
    requires
        distinct(s),
        0 <= i < s.len(),
    ensures
        table_of(s).contains_key(s[i].number),
        table_of(s)[s[i].number] == s[i]@,
        place_of(s, s[i].number) == i,
{
    let n = s[i].number;
    assert(at(s, n, i));
    let j = choose|j: int| at(s, n, j);
    assert(j == i);
}

/// Changing the pull request at place `i`, but not its number, changes the
/// table under that number and nowhere else.
pub proof fn lemma_table_update(s: Seq<PullRequestState>, i: int, p: PullRequestState)
    requires
        distinct(s),
        0 <= i < s.len(),
        p.number == s[i].number,
    ensures
        distinct(s.update(i, p)),
        table_of(s.update(i, p)) == table_of(s).insert(p.number, p@),
{
    let t = s.update(i, p);
    assert(distinct(t)) by {
        assert forall|a: int, b: int| 0 <= a < b < t.len() implies t[a].number != t[b].number by {
            assert(s[a].number != s[b].number);
        }
    }
    assert forall|n: u64| #[trigger]
        table_of(t).contains_key(n) == table_of(s).insert(p.number, p@).contains_key(n) by {
        if table_of(t).contains_key(n) {
            let j = choose|j: int| at(t, n, j);
            assert(at(s, n, j));
        }
        if table_of(s).contains_key(n) {
            let j = choose|j: int| at(s, n, j);
            assert(at(t, n, j));
        }
        if n == p.number {
            assert(at(t, n, i));
        }
    }
    assert forall|n: u64| table_of(t).contains_key(n) implies #[trigger] table_of(t)[n]
        == table_of(s).insert(p.number, p@)[n] by {
        let j = choose|j: int| at(t, n, j);
        lemma_table_entry(t, j);
        if n != p.number {
            assert(at(s, n, j));
            lemma_table_entry(s, j);
        }
    }
    assert(table_of(t) =~= table_of(s).insert(p.number, p@));
}

impl View for PullTable {
    type V = Map<u64, PullView>;

    open spec fn view(&self) -> Map<u64, PullView> {
        table_of(self.entries@)
    }
}

impl PullTable {
    /// Whether no number occurs twice among the entries.
    pub open spec fn wf(&self) -> bool {
        distinct(self.entries@)
    }

    pub fn new() -> (r: Self)
        ensures
            r.wf(),
            r@ == Map::<u64, PullView>::empty(),
    {
        let r = PullTable { entries: Vec::new() };
        assert(r@ =~= Map::<u64, PullView>::empty());
        r
    }

    pub fn len(&self) -> (r: usize)
        ensures
            r == self.entries@.len(),
    {
        self.entries.len()
    }

    /// The place of pull request `number` among the entries.
    pub fn position(&self, number: u64) -> (r: Option<usize>)
        requires
            self.wf(),
        ensures
            match r {
                Some(i) => at(self.entries@, number, i as int) && self@.contains_key(number)
                    && self@[number] == self.entries@[i as int]@,
                None => !self@.contains_key(number),
            },
    {
        let mut i: usize = 0;
        while i < self.entries.len()
            invariant
                i <= self.entries.len(),
                self.wf(),
                forall|k: int| 0 <= k < i ==> self.entries@[k].number != number,
            decreases self.entries.len() - i,
        {
            if self.entries[i].number == number {
                proof {
                    lemma_table_entry(self.entries@, i as int);
                }
                return Some(i);
            }
            i = i + 1;
        }
        None
    }

    pub fn contains(&self, number: u64) -> (r: bool)
        requires
            self.wf(),
        ensures
            r == self@.contains_key(number),
    {
        self.position(number).is_some()
    }

    /// The record of pull request `number`.
    pub fn get(&self, number: u64) -> (r: Option<&PullRequestState>)
        requires
            self.wf(),
        ensures
            match r {
                Some(p) => self@.contains_key(number) && self@[number] == p@ && p.number == number,
                None => !self@.contains_key(number),
            },
    {
        match self.position(number) {
            Some(i) => Some(&self.entries[i]),
            None => None,
        }
    }

    /// Puts `pull` under its number, in place of the pull request that stood
    /// there; the result says whether one did.
    pub fn insert(&mut self, pull: PullRequestState) -> (replaced: bool)
        requires
            old(self).wf(),
        ensures
            final(self).wf(),
            final(self)@ == old(self)@.insert(pull.number, pull@),
            replaced == old(self)@.contains_key(pull.number),
    {
        match self.position(pull.number) {
            Some(i) => {
                proof {
                    lemma_table_update(self.entries@, i as int, pull);
                }
                self.entries[i] = pull;
                assert(self.entries@ =~= old(self).entries@.update(i as int, pull));
                true
            },
            None => {
                let ghost s = self.entries@;
                self.entries.push(pull);
                proof {
                    let t = self.entries@;
                    assert(distinct(t)) by {
                        assert forall|a: int, b: int| 0 <= a < b < t.len() implies t[a].number
                            != t[b].number by {
                            if b == s.len() {
                                assert(at(s, pull.number, a) ==> table_of(s).contains_key(
                                    pull.number,
                                ));
                            } else {
                                assert(s[a].number != s[b].number);
                            }
                        }
                    }
                    assert forall|n: u64| #[trigger]
                        table_of(t).contains_key(n) == table_of(s).insert(
                            pull.number,
                            pull@,
                        ).contains_key(n) by {
                        if table_of(t).contains_key(n) {
                            let j = choose|j: int| at(t, n, j);
                            if j < s.len() {
                                assert(at(s, n, j));
                            }
                        }
                        if table_of(s).contains_key(n) {
                            let j = choose|j: int| at(s, n, j);
                            assert(at(t, n, j));
                        }
                        if n == pull.number {
                            assert(at(t, n, s.len() as int));
                        }
                    }
                    assert forall|n: u64| table_of(t).contains_key(n) implies #[trigger] table_of(
                        t,
                    )[n] == table_of(s).insert(pull.number, pull@)[n] by {
                        let j = choose|j: int| at(t, n, j);
                        lemma_table_entry(t, j);
                        if n != pull.number {
                            assert(at(s, n, j));
                            lemma_table_entry(s, j);
                        }
                    }
                    assert(table_of(t) =~= table_of(s).insert(pull.number, pull@));
                }
                false
            },
        }
    }

    /// Takes pull request `number` out of the table.
    pub fn remove(&mut self, number: u64) -> (r: Option<PullRequestState>)
        requires
            old(self).wf(),
        ensures
            final(self).wf(),
            final(self)@ == old(self)@.remove(number),
            match r {
                Some(p) => old(self)@.contains_key(number) && old(self)@[number] == p@,
                None => !old(self)@.contains_key(number),
            },
    {
        match self.position(number) {
            Some(i) => {
                let ghost s = self.entries@;
                let p = self.entries.remove(i);
                proof {
                    let t = self.entries@;
                    assert(distinct(t)) by {
                        assert forall|a: int, b: int| 0 <= a < b < t.len() implies t[a].number
                            != t[b].number by {
                            let a0 = if a < i { a } else { a + 1 };
                            let b0 = if b < i { b } else { b + 1 };
                            assert(s[a0].number != s[b0].number);
                        }
                    }
                    assert forall|n: u64| #[trigger]
                        table_of(t).contains_key(n) == table_of(s).remove(number).contains_key(
                            n,
                        ) by {
                        if table_of(t).contains_key(n) {
                            let j = choose|j: int| at(t, n, j);
                            let j0 = if j < i { j } else { j + 1 };
                            assert(at(s, n, j0));
                            assert(s[j0].number != s[i as int].number);
                        }
                        if table_of(s).contains_key(n) && n != number {
                            let j = choose|j: int| at(s, n, j);
                            let j1 = if j < i { j } else { j - 1 };
                            assert(at(t, n, j1));
                        }
                    }
                    assert forall|n: u64| table_of(t).contains_key(n) implies #[trigger] table_of(
                        t,
                    )[n] == table_of(s).remove(number)[n] by {
                        let j = choose|j: int| at(t, n, j);
                        lemma_table_entry(t, j);
                        let j0 = if j < i { j } else { j + 1 };
                        assert(at(s, n, j0));
                        lemma_table_entry(s, j0);
                    }
                    assert(table_of(t) =~= table_of(s).remove(number));
                }
                Some(p)
            },
            None => {
                assert(self@ =~= old(self)@.remove(number));
                None
            },
        }
    }

    /// Whether no number occurs twice among the entries.
    pub fn is_wf(&self) -> (r: bool)
        ensures
            r == self.wf(),
    {
        let mut i: usize = 0;
        while i < self.entries.len()
            invariant
                i <= self.entries.len(),
                forall|a: int, b: int|
                    0 <= a < b < i ==> self.entries@[a].number != self.entries@[b].number,
            decreases self.entries.len() - i,
        {
            let mut j: usize = 0;
            while j < i
                invariant
                    j <= i,
                    i < self.entries.len(),
                    forall|a: int| 0 <= a < j ==> self.entries@[a].number != self.entries@[i as int].number,
                decreases i - j,
            {
                if self.entries[j].number == self.entries[i].number {
                    return false;
                }
                j = j + 1;
            }
            i = i + 1;
        }
        true
    }

    pub fn clear(&mut self)
        ensures
            final(self).wf(),
            final(self)@ == Map::<u64, PullView>::empty(),
    {
        self.entries.clear();
        assert(self@ =~= Map::<u64, PullView>::empty());
    }

    /// A copy of the table, pull request by pull request.
    pub fn duplicate(&self) -> (r: Self)
        requires
            self.wf(),
        ensures
            r.wf(),
            r@ == self@,
    {
        let mut copy = PullTable { entries: Vec::new() };
        let mut i: usize = 0;
        while i < self.entries.len()
            invariant
                i <= self.entries.len(),
                self.wf(),
                copy.entries@.len() == i,
                forall|k: int| 0 <= k < i ==> copy.entries@[k]@ == self.entries@[k]@,
            decreases self.entries.len() - i,
        {
            copy.entries.push(self.entries[i].duplicate());
            i = i + 1;
        }
        proof {
            let s = self.entries@;
            let t = copy.entries@;
            assert forall|k: int| 0 <= k < s.len() implies #[trigger] t[k].number
                == s[k].number by {
                assert(t[k]@ == s[k]@);
            }
            assert forall|n: u64| #[trigger] table_of(t).contains_key(n) == table_of(
                s,
            ).contains_key(n) by {
                if table_of(t).contains_key(n) {
                    let j = choose|j: int| at(t, n, j);
                    assert(at(s, n, j));
                }
                if table_of(s).contains_key(n) {
                    let j = choose|j: int| at(s, n, j);
                    assert(at(t, n, j));
                }
            }
            assert forall|n: u64| table_of(t).contains_key(n) implies #[trigger] table_of(t)[n]
                == table_of(s)[n] by {
                let j = choose|j: int| at(t, n, j);
                lemma_table_entry(t, j);
                assert(at(s, n, j));
                lemma_table_entry(s, j);
            }
            assert(table_of(t) =~= table_of(s));
        }
        copy
    }
}

} // verus!
