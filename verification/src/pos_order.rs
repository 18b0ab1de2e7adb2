//! The order of positions: by the sum of their coordinates.

use vstd::prelude::*;
use core::cmp::Ordering;
use crate::pos::Pos;

verus! {

impl vstd::std_specs::cmp::PartialOrdSpecImpl for Pos {
    open spec fn obeys_partial_cmp_spec() -> bool {
        true
    }

    /// Positions are compared by the sum of their coordinates; positions
    /// with the same sum rank as equal.
    open spec fn partial_cmp_spec(&self, other: &Pos) -> Option<Ordering> {
        if self.spec_weight() < other.spec_weight() {
            Some(Ordering::Less)
        } else if self.spec_weight() > other.spec_weight() {
            Some(Ordering::Greater)
        } else {
            Some(Ordering::Equal)
        }
    }
}

impl PartialOrd for Pos {
    fn partial_cmp(&self, other: &Pos) -> (r: Option<Ordering>) {
        let self_w = self.weight();
        let other_w = other.weight();
        if self_w < other_w {
            Some(Ordering::Less)
        } else if self_w > other_w {
            Some(Ordering::Greater)
        } else {
            Some(Ordering::Equal)
        }
    }
}

} // verus!
