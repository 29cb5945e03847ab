//! A calculator with three operations on one number.
use vstd::prelude::*;

verus! {

/// What to do with a number.
#[derive(Debug, Clone, Copy, PartialEq, Eq, Structural)]
pub enum Op {
    /// Add this number.
    Add(i32),
    /// Subtract this number.
    Sub(i32),
    /// Bring the number into the interval from `low` to `high`, both included.
    Clamp { low: i32, high: i32 },
}

/// `value` brought into the interval from `low` to `high`.
pub open spec fn clamped(value: int, low: int, high: int) -> int {
    if value < low {
        low
    } else if value > high {
        high
    } else {
        value
    }
}

/// What `op` makes of `value`.
pub open spec fn calculation(value: i32, op: Op) -> int {
    match op {
        Op::Add(n) => value + n,
        Op::Sub(n) => value - n,
        Op::Clamp { low, high } => clamped(value as int, low as int, high as int),
    }
}

/// Whether `op` can be performed on `value`: the result fits the number
/// type, and an interval to clamp to is not empty.
pub open spec fn can_perform(value: i32, op: Op) -> bool {
    &&& i32::MIN <= calculation(value, op) <= i32::MAX
    &&& (op matches Op::Clamp { low, high } ==> low <= high)
}

/// A clamped number lies in the interval, and stays as it is when it lay there before.
pub proof fn lemma_clamped(value: int, low: int, high: int)
    requires
        low <= high,
    ensures
        low <= clamped(value, low, high) <= high,
        low <= value <= high ==> clamped(value, low, high) == value,
{
}

/// Performs `op` on `value`.
pub fn perform_calculation(value: i32, op: Op) -> (res: i32)
    requires
        can_perform(value, op),
    ensures
        res == calculation(value, op),
{
    match op {
        Op::Add(n) => value + n,
        Op::Sub(n) => value - n,
        Op::Clamp { low, high } => {
            if value < low {
                low
            } else if value > high {
                high
            } else {
                value
            }
        },
    }
}

/// Performs `op` on `value` where that is possible.
pub fn try_calculation(value: i32, op: Op) -> (res: Option<i32>)
    ensures
        res is Some <==> can_perform(value, op),
        res matches Some(r) ==> r == calculation(value, op),
{
    match op {
        Op::Add(n) => value.checked_add(n),
        Op::Sub(n) => value.checked_sub(n),
        Op::Clamp { low, high } => {
            if low <= high {
                Some(perform_calculation(value, op))
            } else {
                None
            }
        },
    }
}

} // verus!
