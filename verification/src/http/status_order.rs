//! Statuses are ordered by their codes.

use crate::http::status::Status;
use core::cmp::Ordering;
use vstd::prelude::*;
use vstd::std_specs::cmp::PartialOrdSpecImpl;

verus! {

/// How two codes compare.
pub open spec fn compare_codes(a: u16, b: u16) -> Option<Ordering> {
    if a < b {
        Some(Ordering::Less)
    } else if a == b {
        Some(Ordering::Equal)
    } else {
        Some(Ordering::Greater)
    }
}

impl PartialOrd for Status {
    /// Compares the codes of the two statuses.
    fn partial_cmp(&self, other: &Status) -> (r: Option<Ordering>) {
        let a = self.code();
        let b = other.code();
        if a < b {
            Some(Ordering::Less)
        } else if a == b {
            Some(Ordering::Equal)
        } else {
            Some(Ordering::Greater)
        }
    }
}

impl PartialOrdSpecImpl for Status {
    open spec fn obeys_partial_cmp_spec() -> bool {
        true
    }

    open spec fn partial_cmp_spec(&self, other: &Status) -> Option<Ordering> {
        compare_codes(self.spec_code(), other.spec_code())
    }
}

} // verus!
