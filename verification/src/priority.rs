//! The order of queued entries: by priority, then by payload.
use core::cmp::Ordering;
use vstd::prelude::*;
use vstd::std_specs::cmp::PartialOrdSpecImpl;

use crate::runner::Prioritized;

verus! {

/// How two queued entries compare: by priority, and of equal priorities by
/// payload.
pub open spec fn entry_order(a: Prioritized<usize>, b: Prioritized<usize>) -> Option<Ordering> {
    if a.priority < b.priority {
        Some(Ordering::Less)
    } else if a.priority > b.priority {
        Some(Ordering::Greater)
    } else if a.payload < b.payload {
        Some(Ordering::Less)
    } else if a.payload > b.payload {
        Some(Ordering::Greater)
    } else {
        Some(Ordering::Equal)
    }
}

impl PartialOrd for Prioritized<usize> {
    fn partial_cmp(&self, other: &Self) -> (r: Option<Ordering>) {
        if self.priority < other.priority {
            Some(Ordering::Less)
        } else if self.priority > other.priority {
            Some(Ordering::Greater)
        } else if self.payload < other.payload {
            Some(Ordering::Less)
        } else if self.payload > other.payload {
            Some(Ordering::Greater)
        } else {
            Some(Ordering::Equal)
        }
    }
}

impl PartialOrdSpecImpl for Prioritized<usize> {
    open spec fn obeys_partial_cmp_spec() -> bool {
        true
    }

    open spec fn partial_cmp_spec(&self, other: &Self) -> Option<Ordering> {
        entry_order(*self, *other)
    }
}

/// A higher priority comes after a lower one, and of equal priorities a
/// higher payload after a lower one.
pub proof fn law_entry_order(a: Prioritized<usize>, b: Prioritized<usize>)
    ensures
        a.priority > b.priority ==> entry_order(a, b) == Some(Ordering::Greater),
        a.priority == b.priority && a.payload > b.payload ==> entry_order(a, b) == Some(Ordering::Greater),
        entry_order(a, b) == Some(Ordering::Equal) <==> a == b,
{
}

} // verus!
