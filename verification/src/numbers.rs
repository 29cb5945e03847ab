//! Small algorithms on numbers and sequences of numbers.
use vstd::prelude::*;
use vstd::seq_lib::{to_multiset_contains, to_multiset_update};

verus! {

/// The product `1 * 2 * ... * n`; 1 for `n == 0`.
pub open spec fn spec_factorial(n: nat) -> nat
    decreases n,
{
    if n == 0 {
        1
    } else {
        n * spec_factorial((n - 1) as nat)
    }
}

/// Factorials are positive and never shrink.
pub proof fn lemma_factorial_grows(i: nat, j: nat)
    requires
        i <= j,
    ensures
        1 <= spec_factorial(i) <= spec_factorial(j),
    decreases j,
{
    if j == 0 {
    } else if i == j {
        lemma_factorial_grows((i - 1) as nat, (i - 1) as nat);
        assert(spec_factorial(i) >= 1) by (nonlinear_arith)
            requires
                spec_factorial(i) == i * spec_factorial((i - 1) as nat),
                i >= 1,
                spec_factorial((i - 1) as nat) >= 1,
        ;
    } else {
        lemma_factorial_grows(i, (j - 1) as nat);
        assert(spec_factorial(j) >= spec_factorial((j - 1) as nat)) by (nonlinear_arith)
            requires
                spec_factorial(j) == j * spec_factorial((j - 1) as nat),
                j >= 1,
                spec_factorial((j - 1) as nat) >= 1,
        ;
    }
}

/// `n!`, or `None` when that does not fit in 64 bits.
pub fn checked_factorial(n: u64) -> (r: Option<u64>)
    ensures
        r is Some <==> spec_factorial(n as nat) <= u64::MAX,
        r matches Some(v) ==> v == spec_factorial(n as nat),
{
    let mut acc: u64 = 1;
    let mut i: u64 = 0;
    while i < n
        invariant
            i <= n,
            acc == spec_factorial(i as nat),
        decreases n - i,
    {
        i = i + 1;
        assert(spec_factorial(i as nat) == acc * i) by (nonlinear_arith)
            requires
                spec_factorial(i as nat) == i * spec_factorial((i - 1) as nat),
                acc == spec_factorial((i - 1) as nat),
        ;
        match acc.checked_mul(i) {
            Some(v) => {
                acc = v;
            },
            None => {
                proof {
                    lemma_factorial_grows(i as nat, n as nat);
                }
                return None;
            },
        }
    }
    Some(acc)
}

/// `n!`.
pub fn factorial(n: u64) -> (r: u64)
    requires
        spec_factorial(n as nat) <= u64::MAX,
    ensures
        r == spec_factorial(n as nat),
{
    match checked_factorial(n) {
        Some(v) => v,
        None => 0,
    }
}

/// The largest of ten numbers.
pub fn find_largest(values: [i32; 10]) -> (largest: i32)
    ensures
        forall|i: int| 0 <= i < 10 ==> values@[i] <= largest,
        exists|i: int| 0 <= i < 10 && values@[i] == largest,
{
    let mut largest: i32 = values[0];
    let mut i: usize = 1;
    while i < 10
        invariant
            1 <= i <= 10,
            forall|k: int| 0 <= k < i ==> values@[k] <= largest,
            exists|k: int| 0 <= k < i && values@[k] == largest,
        decreases 10 - i,
    {
        if values[i] > largest {
            largest = values[i];
        }
        i = i + 1;
    }
    largest
}

/// The Fibonacci numbers: 0, 1, and from there on the sum of the two before.
pub open spec fn fib(n: nat) -> nat
    decreases n,
{
    if n == 0 {
        0
    } else if n == 1 {
        1
    } else {
        fib((n - 1) as nat) + fib((n - 2) as nat)
    }
}

/// `x` as a 64-bit number, if it is one.
pub open spec fn fits(x: nat) -> Option<u64> {
    if x <= u64::MAX {
        Some(x as u64)
    } else {
        None
    }
}

/// Fibonacci numbers never shrink.
pub proof fn lemma_fib_grows(n: nat)
    ensures
        fib(n) <= fib(n + 1),
{
    if n >= 1 {
        assert(fib(n + 1) == fib(n) + fib((n - 1) as nat));
    }
}

/// Walks through the Fibonacci numbers, from 0 on, as far as 64 bits reach.
pub struct Fibonacci {
    current: Option<u64>,
    following: Option<u64>,
    index: Ghost<nat>,
}

impl Fibonacci {
    /// How many numbers were taken so far.
    pub closed spec fn position(&self) -> nat {
        self.index@
    }

    /// The walker's invariant: it holds the number at its position and the one after.
    pub closed spec fn wf(&self) -> bool {
        &&& self.current == fits(fib(self.index@))
        &&& self.following == fits(fib(self.index@ + 1))
    }

    /// A walker at the first Fibonacci number.
    pub fn new() -> (f: Fibonacci)
        ensures
            f.wf(),
            f.position() == 0,
    {
        Fibonacci { current: Some(0), following: Some(1), index: Ghost(0) }
    }

    /// The next Fibonacci number; `None` from the first one on that does not
    /// fit in 64 bits.
    pub fn next(&mut self) -> (r: Option<u64>)
        requires
            old(self).wf(),
        ensures
            final(self).wf(),
            final(self).position() == old(self).position() + 1,
            r == fits(fib(old(self).position())),
    {
        let r = self.current;
        let ghost n = self.index@;
        proof {
            lemma_fib_grows(n);
            lemma_fib_grows(n + 1);
            assert(fib(n + 2) == fib(n + 1) + fib(n));
        }
        let after = match (self.current, self.following) {
            (Some(a), Some(b)) => a.checked_add(b),
            _ => None,
        };
        self.current = self.following;
        self.following = after;
        self.index = Ghost(n + 1);
        r
    }
}

impl Default for Fibonacci {
    fn default() -> (f: Fibonacci)
        ensures
            f.wf(),
            f.position() == 0,
    {
        Fibonacci::new()
    }
}

/// `n` as a size, capped at the largest size that can be represented.
pub open spec fn capped(n: nat) -> usize {
    if n <= usize::MAX {
        n as usize
    } else {
        usize::MAX
    }
}

/// Counts down from a number to one.
pub struct Range {
    /// The number that comes next; zero when the count is over.
    pub value: u32,
}

impl Range {
    /// The next number of the countdown.
    pub fn next(&mut self) -> (r: Option<u32>)
        ensures
            match r {
                Some(v) => old(self).value > 0 && v == old(self).value && final(self).value == v - 1,
                None => old(self).value == 0 && final(self).value == 0,
            },
    {
        if self.value == 0 {
            None
        } else {
            let value = self.value;
            self.value = self.value - 1;
            Some(value)
        }
    }
}

/// The differences of neighbours: each number minus the one before it.
pub open spec fn differences(s: Seq<i64>) -> Seq<int> {
    Seq::new(
        if s.len() == 0 {
            0
        } else {
            (s.len() - 1) as nat
        },
        |i: int| s[i + 1] - s[i],
    )
}

/// Every difference of neighbours fits in 64 bits.
pub open spec fn differences_fit(s: Seq<i64>) -> bool {
    forall|i: int| 0 <= i < differences(s).len() ==> i64::MIN <= #[trigger] differences(s)[i] <= i64::MAX
}

/// The differences of neighbouring numbers.
pub fn adjacent_diff(items: &[i64]) -> (diffs: Vec<i64>)
    requires
        differences_fit(items@),
    ensures
        diffs@.len() == differences(items@).len(),
        forall|i: int| 0 <= i < diffs@.len() ==> diffs@[i] == differences(items@)[i],
{
    let mut diffs: Vec<i64> = Vec::new();
    if items.len() == 0 {
        return diffs;
    }
    let mut i: usize = 0;
    while i + 1 < items.len()
        invariant
            i < items.len(),
            differences_fit(items@),
            diffs@.len() == i,
            forall|k: int| 0 <= k < i ==> diffs@[k] == differences(items@)[k],
        decreases items.len() - i,
    {
        assert(i64::MIN <= differences(items@)[i as int] <= i64::MAX);
        diffs.push(items[i + 1] - items[i]);
        i = i + 1;
    }
    diffs
}

/// How often 42 occurs in `s`.
pub open spec fn count_42(s: Seq<i64>) -> nat
    decreases s.len(),
{
    if s.len() == 0 {
        0
    } else {
        count_42(s.drop_last()) + if s.last() == 42 {
            1nat
        } else {
            0nat
        }
    }
}

/// The number of occurrences never shrinks when more is looked at.
pub proof fn lemma_count_42_grows(s: Seq<i64>, k: int)
    requires
        0 <= k <= s.len(),
    ensures
        count_42(s.take(k)) <= count_42(s),
    decreases s.len() - k,
{
    if k < s.len() {
        lemma_count_42_grows(s, k + 1);
        assert(s.take(k + 1).drop_last() =~= s.take(k));
    } else {
        assert(s.take(k) =~= s);
    }
}

/// Position of the third 42.
pub fn find_third_42(items: &[i64]) -> (res: Option<usize>)
    ensures
        match res {
            Some(i) => i < items@.len() && items@[i as int] == 42 && count_42(items@.take(i as int))
                == 2,
            None => count_42(items@) < 3,
        },
{
    let mut seen: u8 = 0;
    let mut i: usize = 0;
    assert(items@.take(0) =~= Seq::<i64>::empty());
    while i < items.len()
        invariant
            i <= items.len(),
            seen == count_42(items@.take(i as int)),
            seen < 3,
        decreases items.len() - i,
    {
        proof {
            assert(items@.take(i + 1).drop_last() =~= items@.take(i as int));
        }
        if items[i] == 42 {
            if seen == 2 {
                return Some(i);
            }
            seen = seen + 1;
        }
        i = i + 1;
    }
    assert(items@.take(items@.len() as int) =~= items@);
    None
}

/// The items at the even positions: the first, the third, and so on.
pub open spec fn evens<T>(s: Seq<T>) -> Seq<T> {
    Seq::new(((s.len() + 1) / 2) as nat, |i: int| s[2 * i])
}

/// Keeps every second item, starting with the first.
pub fn keep_even<T>(items: Vec<T>) -> (kept: Vec<T>)
    ensures
        kept@ == evens(items@),
{
    let ghost s = items@;
    let mut kept: Vec<T> = Vec::new();
    let mut keep: bool = true;
    assert(kept@ =~= evens(s.take(0)));
    for x in it: items
        invariant
            it.seq() == s,
            keep == (it.index() % 2 == 0),
            kept@ == evens(s.take(it.index() as int)),
    {
        let ghost before = kept@;
        if keep {
            kept.push(x);
        }
        proof {
            let k = it.index() as int;
            assert(kept@ =~= evens(s.take(k + 1)));
        }
        keep = !keep;
    }
    assert(s.take(s.len() as int) =~= s);
    kept
}

/// The sum of the first `k` numbers of `s`.
pub open spec fn prefix_sum(s: Seq<u32>, k: nat) -> nat
    decreases k,
{
    if k == 0 {
        0
    } else {
        prefix_sum(s, (k - 1) as nat) + s[k - 1] as nat
    }
}

/// Walks through the running totals of a list of numbers.
pub struct CumulativeSum {
    items: Vec<u32>,
    position: usize,
    sum: u32,
}

impl CumulativeSum {
    /// The numbers that are summed up.
    pub closed spec fn numbers(&self) -> Seq<u32> {
        self.items@
    }

    /// How many totals were taken so far.
    pub closed spec fn position(&self) -> nat {
        self.position as nat
    }

    /// The walker's invariant: it holds the total of the numbers it has passed.
    pub closed spec fn wf(&self) -> bool {
        &&& self.position <= self.items@.len()
        &&& self.sum == prefix_sum(self.items@, self.position as nat)
    }

    /// A walker before the first number of `items`.
    pub fn new(items: Vec<u32>) -> (c: CumulativeSum)
        ensures
            c.wf(),
            c.numbers() == items@,
            c.position() == 0,
    {
        CumulativeSum { items, position: 0, sum: 0 }
    }

    /// The total up to and including the next number. `None` when no number
    /// is left, or when the total does not fit in 32 bits; the walker then
    /// stays where it is.
    pub fn next(&mut self) -> (r: Option<u32>)
        requires
            old(self).wf(),
        ensures
            final(self).wf(),
            final(self).numbers() == old(self).numbers(),
            r == if old(self).position() < old(self).numbers().len() && prefix_sum(
                old(self).numbers(),
                old(self).position() + 1,
            ) <= u32::MAX {
                Some(prefix_sum(old(self).numbers(), old(self).position() + 1) as u32)
            } else {
                None
            },
            final(self).position() == if r is Some {
                old(self).position() + 1
            } else {
                old(self).position()
            },
    {
        if self.position >= self.items.len() {
            return None;
        }
        match self.sum.checked_add(self.items[self.position]) {
            Some(total) => {
                self.sum = total;
                self.position = self.position + 1;
                Some(total)
            },
            None => None,
        }
    }
}

/// `s` is in ascending order.
pub open spec fn sorted(s: Seq<i64>) -> bool {
    forall|i: int, j: int| 0 <= i <= j < s.len() ==> s[i] <= s[j]
}

/// Swapping two items keeps what a sequence holds.
pub proof fn lemma_swap_keeps_items(s: Seq<i64>, i: int, j: int)
    requires
        0 <= i < s.len(),
        0 <= j < s.len(),
    ensures
        s.update(i, s[j]).update(j, s[i]).to_multiset() == s.to_multiset(),
{
    let t = s.update(i, s[j]);
    to_multiset_update(s, i, s[j]);
    to_multiset_update(t, j, s[i]);
    to_multiset_contains(s, s[i]);
    to_multiset_contains(s, s[j]);
    assert(s.contains(s[i]));
    assert(s.contains(s[j]));
    if i == j {
        assert(t =~= s);
        assert(t.update(j, s[i]) =~= s);
    } else {
        assert(t[j] == s[j]);
        assert(s.to_multiset().insert(s[j]).remove(s[i]).insert(s[i]).remove(s[j]) =~= s.to_multiset());
    }
}

/// Sorts the numbers in place, in ascending order.
pub fn bubble_sort(items: &mut [i64])
    ensures
        sorted(final(items)@),
        final(items)@.to_multiset() == old(items)@.to_multiset(),
{
    let n = items.len();
    let mut end: usize = n;
    while end > 1
        invariant
            n == items@.len(),
            end <= n,
            items@.to_multiset() == old(items)@.to_multiset(),
            forall|i: int, j: int| end <= i <= j < n ==> items@[i] <= items@[j],
            forall|i: int, j: int| 0 <= i < end <= j < n ==> items@[i] <= items@[j],
        decreases end,
    {
        let mut k: usize = 0;
        while k + 1 < end
            invariant
                n == items@.len(),
                1 < end <= n,
                k < end,
                items@.to_multiset() == old(items)@.to_multiset(),
                forall|i: int, j: int| end <= i <= j < n ==> items@[i] <= items@[j],
                forall|i: int, j: int| 0 <= i < end <= j < n ==> items@[i] <= items@[j],
                forall|i: int| 0 <= i <= k ==> items@[i] <= items@[k as int],
            decreases end - k,
        {
            if items[k] > items[k + 1] {
                let a = items[k];
                let b = items[k + 1];
                proof {
                    lemma_swap_keeps_items(items@, k as int, k + 1);
                }
                items[k] = b;
                items[k + 1] = a;
            }
            k = k + 1;
        }
        end = end - 1;
    }
}

} // verus!
