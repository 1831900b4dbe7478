//! The ternary priority carried by every event, and its total order.

use vstd::prelude::*;
use core::cmp::Ordering;
use vstd::std_specs::cmp::PartialOrdSpec;

verus! {

/// Ternary event priority, ordered `Low < Normal < Critical`.
#[derive(Debug, Clone, Copy, PartialEq, Eq, Structural, Hash, Ord)]
pub enum Priority {
    Low,
    Normal,
    Critical,
}

impl Priority {
    /// The position of a priority in the order `Low < Normal < Critical`.
    pub open spec fn level(self) -> int {
        match self {
            Priority::Low => 0,
            Priority::Normal => 1,
            Priority::Critical => 2,
        }
    }

    /// Executable counterpart of [`Priority::level`].
    pub fn rank(&self) -> (r: u8)
        ensures
            r == self.level(),
    {
        match self {
            Priority::Low => 0,
            Priority::Normal => 1,
            Priority::Critical => 2,
        }
    }

    /// Whether `self` is at least `min` in the priority order.
    pub open spec fn at_least(self, min: Priority) -> bool {
        min.level() <= self.level()
    }
}

/// Three-way comparison of two priority levels.
pub open spec fn compare_levels(a: int, b: int) -> Ordering {
    if a < b {
        Ordering::Less
    } else if a == b {
        Ordering::Equal
    } else {
        Ordering::Greater
    }
}

impl PartialOrd for Priority {
    fn partial_cmp(&self, other: &Self) -> (r: Option<Ordering>) {
        let a = self.rank();
        let b = other.rank();
        if a < b {
            Some(Ordering::Less)
        } else if a == b {
            Some(Ordering::Equal)
        } else {
            Some(Ordering::Greater)
        }
    }
}

impl vstd::std_specs::cmp::PartialOrdSpecImpl for Priority {
    open spec fn obeys_partial_cmp_spec() -> bool {
        true
    }

    open spec fn partial_cmp_spec(&self, other: &Self) -> Option<Ordering> {
        Some(compare_levels(self.level(), other.level()))
    }
}

/// The priorities are totally ordered by `<`: any two are comparable, they
/// compare `Equal` exactly when they are the same priority, the order is
/// antisymmetric and transitive, and it is the order `Low < Normal < Critical`
/// given by [`Priority::level`].
pub proof fn lemma_priority_total_order(a: Priority, b: Priority, c: Priority)
    ensures
        a.partial_cmp_spec(&b) is Some,
        a.partial_cmp_spec(&b) == Some(Ordering::Less) <==> a.level() < b.level(),
        a.partial_cmp_spec(&b) == Some(Ordering::Equal) <==> a == b,
        a.partial_cmp_spec(&b) == Some(Ordering::Less) <==> b.partial_cmp_spec(&a) == Some(
            Ordering::Greater,
        ),
        a.partial_cmp_spec(&b) == Some(Ordering::Less) && b.partial_cmp_spec(&c) == Some(
            Ordering::Less,
        ) ==> a.partial_cmp_spec(&c) == Some(Ordering::Less),
        !(a.partial_cmp_spec(&b) == Some(Ordering::Less)) <==> a.at_least(b),
{
}

} // verus!
