//! Strings that are compared without regard to the case of English letters.
use crate::text::{folded_compare, folded_order};
use std::cmp::Ordering;
use vstd::prelude::*;
use vstd::std_specs::cmp::{PartialEqSpecImpl, PartialOrdSpecImpl};

verus! {

/// A string slice that compares as if all its English letters were in lower
/// case. Nothing is copied and the string itself is not changed.
#[derive(Debug, Clone, Copy)]
pub struct CaseInsensitive<'a>(pub &'a str);

impl<'a> PartialEq for CaseInsensitive<'a> {
    fn eq(&self, other: &Self) -> (r: bool) {
        folded_compare(self.0, other.0) == 0
    }
}

impl<'a> PartialEqSpecImpl for CaseInsensitive<'a> {
    open spec fn obeys_eq_spec() -> bool {
        true
    }

    open spec fn eq_spec(&self, other: &Self) -> bool {
        folded_order(self.0@, other.0@) == 0
    }
}

impl<'a> PartialOrd for CaseInsensitive<'a> {
    fn partial_cmp(&self, other: &Self) -> (r: Option<Ordering>) {
        let c = folded_compare(self.0, other.0);
        if c < 0 {
            Some(Ordering::Less)
        } else if c > 0 {
            Some(Ordering::Greater)
        } else {
            Some(Ordering::Equal)
        }
    }
}

impl<'a> PartialOrdSpecImpl for CaseInsensitive<'a> {
    open spec fn obeys_partial_cmp_spec() -> bool {
        true
    }

    open spec fn partial_cmp_spec(&self, other: &Self) -> Option<Ordering> {
        if folded_order(self.0@, other.0@) < 0 {
            Some(Ordering::Less)
        } else if folded_order(self.0@, other.0@) > 0 {
            Some(Ordering::Greater)
        } else {
            Some(Ordering::Equal)
        }
    }
}

} // verus!
