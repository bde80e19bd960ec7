//! Equality and order of entries: equal by id, ordered by start time.

use vstd::prelude::*;
use core::cmp::Ordering;
use vstd::std_specs::cmp::{PartialEqSpecImpl, PartialOrdSpecImpl};
use crate::entries::Entry;

verus! {

impl PartialEq for Entry {
    /// Two entries are equal if they have the same id.
    fn eq(&self, other: &Entry) -> (equal: bool) {
        self.id() == other.id()
    }
}

impl PartialEqSpecImpl for Entry {
    open spec fn obeys_eq_spec() -> bool {
        true
    }

    open spec fn eq_spec(&self, other: &Entry) -> bool {
        self@.id == other@.id
    }
}

impl Eq for Entry {

}

impl PartialOrd for Entry {
    /// Entries are ordered by their start time alone.
    fn partial_cmp(&self, other: &Entry) -> (order: Option<Ordering>) {
        let start = self.start_time().nanos();
        let other_start = other.start_time().nanos();
        if start < other_start {
            Some(Ordering::Less)
        } else if start == other_start {
            Some(Ordering::Equal)
        } else {
            Some(Ordering::Greater)
        }
    }
}

impl PartialOrdSpecImpl for Entry {
    open spec fn obeys_partial_cmp_spec() -> bool {
        true
    }

    open spec fn partial_cmp_spec(&self, other: &Entry) -> Option<Ordering> {
        if self@.start_time < other@.start_time {
            Some(Ordering::Less)
        } else if self@.start_time == other@.start_time {
            Some(Ordering::Equal)
        } else {
            Some(Ordering::Greater)
        }
    }
}

} // verus!
