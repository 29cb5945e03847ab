//! Ranges of 64-bit numbers with both ends included.
use vstd::prelude::*;
use vstd::string::StringExecFns;

verus! {

/// A range of numbers from `start` to `end`, both included. It is never empty.
#[derive(Debug, Clone, Copy, PartialEq, Eq, Structural)]
pub struct Range1D {
    start: u64,
    end: u64,
}

/// Walks through the numbers of a range.
pub struct RangeIter {
    next: u64,
    end: u64,
    done: bool,
}

impl Range1D {
    /// The first number.
    pub closed spec fn first(&self) -> u64 {
        self.start
    }

    /// The last number.
    pub closed spec fn last(&self) -> u64 {
        self.end
    }

    /// The range's invariant: it is not empty.
    pub open spec fn wf(&self) -> bool {
        self.first() <= self.last()
    }

    /// Whether `point` lies in the range.
    pub open spec fn holds(&self, point: u64) -> bool {
        self.first() <= point <= self.last()
    }

    /// How many numbers the range holds.
    pub open spec fn count(&self) -> nat {
        (self.last() - self.first() + 1) as nat
    }

    /// The range from `start` to `end`; an error when `start` is larger than `end`.
    pub fn new(start: u64, end: u64) -> (res: Result<Range1D, String>)
        ensures
            match res {
                Ok(r) => start <= end && r.wf() && r.first() == start && r.last() == end,
                Err(msg) => start > end && msg@ == "Start must not be larger than end"@,
            },
    {
        if start > end {
            Err(String::from_str("Start must not be larger than end"))
        } else {
            Ok(Range1D { start, end })
        }
    }

    /// The first number.
    pub fn start(&self) -> (s: u64)
        ensures
            s == self.first(),
    {
        self.start
    }

    /// The last number.
    pub fn end(&self) -> (e: u64)
        ensures
            e == self.last(),
    {
        self.end
    }

    /// How many numbers the range holds, capped at the largest size that can
    /// be represented.
    pub fn len(&self) -> (n: usize)
        requires
            self.wf(),
        ensures
            n == if self.count() <= usize::MAX {
                self.count()
            } else {
                usize::MAX as nat
            },
    {
        let span: u64 = self.end - self.start;
        if span >= usize::MAX as u64 {
            usize::MAX
        } else {
            span as usize + 1
        }
    }

    /// Whether `point` lies in the range.
    pub fn contains(&self, point: u64) -> (b: bool)
        ensures
            b == self.holds(point),
    {
        self.start <= point && point <= self.end
    }

    /// The numbers that lie in both ranges; `None` when there are none.
    pub fn intersect(&self, other: Range1D) -> (res: Option<Range1D>)
        requires
            self.wf(),
            other.wf(),
        ensures
            match res {
                Some(r) => r.wf() && forall|p: u64| r.holds(p) <==> self.holds(p) && other.holds(p),
                None => forall|p: u64| !(self.holds(p) && other.holds(p)),
            },
    {
        let start = if self.start >= other.start {
            self.start
        } else {
            other.start
        };
        let end = if self.end <= other.end {
            self.end
        } else {
            other.end
        };
        if start <= end {
            Some(Range1D { start, end })
        } else {
            None
        }
    }

    /// A walker at the first number of the range.
    pub fn iter(&self) -> (it: RangeIter)
        requires
            self.wf(),
        ensures
            it.left() == self.count(),
            it.upcoming() == self.first(),
    {
        RangeIter { next: self.start, end: self.end, done: false }
    }
}

impl RangeIter {
    /// How many numbers are still to come.
    pub closed spec fn left(&self) -> nat {
        if self.done || self.next > self.end {
            0
        } else {
            (self.end - self.next + 1) as nat
        }
    }

    /// The number that comes next, where one is left.
    pub closed spec fn upcoming(&self) -> u64 {
        self.next
    }

    /// The next number of the range.
    pub fn next(&mut self) -> (r: Option<u64>)
        ensures
            match r {
                Some(v) => old(self).left() > 0 && v == old(self).upcoming() && final(self).left()
                    == old(self).left() - 1 && (final(self).left() > 0 ==> final(self).upcoming()
                    == v + 1),
                None => old(self).left() == 0 && final(self).left() == 0,
            },
    {
        if self.done || self.next > self.end {
            return None;
        }
        let v = self.next;
        if v == self.end {
            self.done = true;
        } else {
            self.next = v + 1;
        }
        Some(v)
    }
}

} // verus!
