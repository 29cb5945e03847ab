//! Counting how often each string occurs among many.
use crate::text::str_equal;
use vstd::prelude::*;

verus! {

/// How often `key` occurs in `items`.
pub open spec fn occurrences(items: Seq<Seq<char>>, key: Seq<char>) -> nat
    decreases items.len(),
{
    if items.len() == 0 {
        0
    } else {
        occurrences(items.drop_last(), key) + if items.last() == key {
            1nat
        } else {
            0nat
        }
    }
}

/// The views of a sequence of strings, element by element.
pub open spec fn texts<'a>(items: Seq<&'a str>) -> Seq<Seq<char>> {
    Seq::new(items.len(), |i: int| items[i]@)
}

/// A string never occurs more often than there are items.
pub proof fn lemma_occurrences_bound(items: Seq<Seq<char>>, key: Seq<char>)
    ensures
        occurrences(items, key) <= items.len(),
    decreases items.len(),
{
    if items.len() > 0 {
        lemma_occurrences_bound(items.drop_last(), key);
    }
}

/// The distinct strings of a list, each with the number of its occurrences,
/// in the order in which they first occur.
pub struct Counts<'a> {
    entries: Vec<(&'a str, u64)>,
}

impl<'a> View for Counts<'a> {
    type V = Seq<(Seq<char>, u64)>;

    closed spec fn view(&self) -> Seq<(Seq<char>, u64)> {
        Seq::new(self.entries@.len(), |i: int| (self.entries@[i].0@, self.entries@[i].1))
    }
}

/// The count that `entries` hold for `key`; zero where they hold none.
pub open spec fn count_of(entries: Seq<(Seq<char>, u64)>, key: Seq<char>) -> nat
    decreases entries.len(),
{
    if entries.len() == 0 {
        0
    } else if entries.last().0 == key {
        entries.last().1 as nat
    } else {
        count_of(entries.drop_last(), key)
    }
}

/// No string has two entries, and no entry counts zero.
pub open spec fn distinct(entries: Seq<(Seq<char>, u64)>) -> bool {
    &&& forall|i: int, j: int|
        0 <= i < j < entries.len() ==> (#[trigger] entries[i]).0 != (#[trigger] entries[j]).0
    &&& forall|i: int| 0 <= i < entries.len() ==> (#[trigger] entries[i]).1 > 0
}

/// The count of the string at position `i` is the count that its entry holds.
pub proof fn lemma_count_at(entries: Seq<(Seq<char>, u64)>, i: int)
    requires
        distinct(entries),
        0 <= i < entries.len(),
    ensures
        count_of(entries, entries[i].0) == entries[i].1,
    decreases entries.len(),
{
    if i < entries.len() - 1 {
        assert(entries[i].0 != entries[entries.len() - 1].0);
        let p = entries.drop_last();
        assert forall|a: int, b: int| 0 <= a < b < p.len() implies (#[trigger] p[a]).0 != (
        #[trigger] p[b]).0 by {
            assert(entries[a].0 != entries[b].0);
        }
        assert forall|a: int| 0 <= a < p.len() implies (#[trigger] p[a]).1 > 0 by {
            assert(entries[a].1 > 0);
        }
        lemma_count_at(p, i);
    }
}

/// A string without an entry counts zero.
pub proof fn lemma_count_absent(entries: Seq<(Seq<char>, u64)>, key: Seq<char>)
    requires
        forall|i: int| 0 <= i < entries.len() ==> (#[trigger] entries[i]).0 != key,
    ensures
        count_of(entries, key) == 0,
    decreases entries.len(),
{
    if entries.len() > 0 {
        let p = entries.drop_last();
        assert(entries[entries.len() - 1].0 != key);
        assert forall|i: int| 0 <= i < p.len() implies (#[trigger] p[i]).0 != key by {
            assert(entries[i].0 != key);
        }
        lemma_count_absent(p, key);
    }
}

/// Changing the count of one string leaves the counts of the others.
pub proof fn lemma_count_update(entries: Seq<(Seq<char>, u64)>, i: int, n: u64, key: Seq<char>)
    requires
        0 <= i < entries.len(),
        key != entries[i].0,
    ensures
        count_of(entries.update(i, (entries[i].0, n)), key) == count_of(entries, key),
    decreases entries.len(),
{
    let u = entries.update(i, (entries[i].0, n));
    if i == entries.len() - 1 {
        assert(u.drop_last() =~= entries.drop_last());
    } else {
        assert(u.drop_last() =~= entries.drop_last().update(i, (entries[i].0, n)));
        lemma_count_update(entries.drop_last(), i, n, key);
    }
}

impl<'a> Counts<'a> {
    /// The invariant of the counts.
    pub open spec fn wf(&self) -> bool {
        distinct(self@)
    }

    /// The number of distinct strings.
    pub fn len(&self) -> (n: usize)
        ensures
            n == self@.len(),
    {
        self.entries.len()
    }

    /// Whether nothing was counted.
    pub fn is_empty(&self) -> (b: bool)
        ensures
            b == (self@.len() == 0),
    {
        self.entries.len() == 0
    }

    /// Position of the entry for `key`.
    fn find(&self, key: &str) -> (pos: Option<usize>)
        ensures
            match pos {
                Some(i) => i < self@.len() && self@[i as int].0 == key@,
                None => forall|i: int| 0 <= i < self@.len() ==> (#[trigger] self@[i]).0 != key@,
            },
    {
        let mut i: usize = 0;
        while i < self.entries.len()
            invariant
                i <= self.entries.len(),
                forall|k: int| 0 <= k < i ==> (#[trigger] self@[k]).0 != key@,
            decreases self.entries.len() - i,
        {
            if str_equal(self.entries[i].0, key) {
                return Some(i);
            }
            i = i + 1;
        }
        None
    }

    /// How often `key` was counted; `None` for a string that never occurred.
    pub fn get(&self, key: &str) -> (n: Option<&u64>)
        requires
            self.wf(),
        ensures
            match n {
                Some(n) => *n > 0 && *n == count_of(self@, key@),
                None => count_of(self@, key@) == 0,
            },
    {
        match self.find(key) {
            Some(i) => {
                proof {
                    lemma_count_at(self@, i as int);
                }
                Some(&self.entries[i].1)
            },
            None => {
                proof {
                    lemma_count_absent(self@, key@);
                }
                None
            },
        }
    }
}

/// Counts how often each string occurs in `items`.
pub fn count<'a>(items: &[&'a str]) -> (counts: Counts<'a>)
    ensures
        counts.wf(),
        forall|key: Seq<char>| #[trigger] count_of(counts@, key) == occurrences(texts(items@), key),
{
    let mut counts = Counts { entries: Vec::new() };
    let ghost all = texts(items@);
    let mut i: usize = 0;
    assert(all.take(0) =~= Seq::<Seq<char>>::empty());
    while i < items.len()
        invariant
            i <= items.len(),
            all == texts(items@),
            counts.wf(),
            forall|k: int| 0 <= k < counts@.len() ==> (#[trigger] counts@[k]).1 <= i,
            forall|key: Seq<char>| #[trigger]
                count_of(counts@, key) == occurrences(all.take(i as int), key),
        decreases items.len() - i,
    {
        let item = items[i];
        let ghost before = counts@;
        proof {
            assert(all.take(i + 1).drop_last() =~= all.take(i as int));
            assert(all.take(i + 1).last() == item@);
        }
        match counts.find(item) {
            Some(p) => {
                let (key, n) = counts.entries[p];
                proof {
                    lemma_count_at(before, p as int);
                }
                counts.entries.set(p, (key, n + 1));
                proof {
                    assert(counts@ =~= before.update(p as int, (before[p as int].0, (n + 1) as u64)));
                    assert forall|a: int, b: int| 0 <= a < b < counts@.len() implies (
                    #[trigger] counts@[a]).0 != (#[trigger] counts@[b]).0 by {
                        assert(before[a].0 != before[b].0);
                    }
                    assert forall|a: int| 0 <= a < counts@.len() implies (#[trigger] counts@[a]).1
                        > 0 by {
                        assert(before[a].1 > 0);
                    }
                    lemma_count_at(counts@, p as int);
                    assert forall|key: Seq<char>| #[trigger]
                        count_of(counts@, key) == occurrences(all.take(i + 1), key) by {
                        assert(count_of(before, key) == occurrences(all.take(i as int), key));
                        if key != item@ {
                            lemma_count_update(before, p as int, (n + 1) as u64, key);
                        }
                    }
                    assert forall|k: int| 0 <= k < counts@.len() implies (#[trigger] counts@[k]).1
                        <= i + 1 by {
                        assert(before[k].1 <= i);
                    }
                }
            },
            None => {
                proof {
                    lemma_count_absent(before, item@);
                }
                counts.entries.push((item, 1));
                proof {
                    assert(counts@ =~= before.push((item@, 1u64)));
                    assert(counts@.drop_last() =~= before);
                    assert forall|a: int, b: int| 0 <= a < b < counts@.len() implies (
                    #[trigger] counts@[a]).0 != (#[trigger] counts@[b]).0 by {
                        if b < before.len() {
                            assert(before[a].0 != before[b].0);
                        } else {
                            assert(before[a].0 != item@);
                        }
                    }
                    assert forall|a: int| 0 <= a < counts@.len() implies (#[trigger] counts@[a]).1
                        > 0 by {
                        if a < before.len() {
                            assert(before[a].1 > 0);
                        }
                    }
                    assert forall|k: int| 0 <= k < counts@.len() implies (#[trigger] counts@[k]).1
                        <= i + 1 by {
                        if k < before.len() {
                            assert(before[k].1 <= i);
                        }
                    }
                    assert forall|key: Seq<char>| #[trigger]
                        count_of(counts@, key) == occurrences(all.take(i + 1), key) by {
                        assert(count_of(before, key) == occurrences(all.take(i as int), key));
                        assert(counts@.last() == (item@, 1u64));
                    }
                }
            },
        }
        i = i + 1;
    }
    assert(all.take(items@.len() as int) =~= all);
    counts
}

} // verus!
