//! The order of Unix timestamps: by their seconds.

use vstd::prelude::*;
use core::cmp::Ordering;
use crate::clock::UnixSeconds;
use vstd::std_specs::cmp::PartialOrdSpec;

verus! {

impl PartialOrd for UnixSeconds {
    fn partial_cmp(&self, other: &Self) -> (result: Option<Ordering>) {
        if self.0 < other.0 {
            Some(Ordering::Less)
        } else if self.0 == other.0 {
            Some(Ordering::Equal)
        } else {
            Some(Ordering::Greater)
        }
    }
}

impl vstd::std_specs::cmp::PartialOrdSpecImpl for UnixSeconds {
    open spec fn obeys_partial_cmp_spec() -> bool {
        true
    }

    open spec fn partial_cmp_spec(&self, other: &Self) -> Option<Ordering> {
        if self.0 < other.0 {
            Some(Ordering::Less)
        } else if self.0 == other.0 {
            Some(Ordering::Equal)
        } else {
            Some(Ordering::Greater)
        }
    }
}

/// Timestamps compare as their seconds do: `a` comes before `b`, equals
/// it or comes after it exactly as `a.as_i64()` does with `b.as_i64()`.
pub proof fn law_unix_seconds_order(a: UnixSeconds, b: UnixSeconds)
    ensures
        (a.partial_cmp_spec(&b) == Some(Ordering::Less)) <==> a.0 < b.0,
        (a.partial_cmp_spec(&b) == Some(Ordering::Equal)) <==> a.0 == b.0,
        (a.partial_cmp_spec(&b) == Some(Ordering::Greater)) <==> a.0 > b.0,
        (a.partial_cmp_spec(&b) matches Some(Ordering::Less | Ordering::Equal)) <==> a.0 <= b.0,
{
}

} // verus!
