//! How far an entity's values can be trusted, and the order merges go by.

use vstd::prelude::*;
use vstd::std_specs::cmp::PartialOrdSpecImpl;
use core::cmp::Ordering;

verus! {

/// How far an entity's values can be trusted. A total order --
/// `Unknown < Low < High` -- so that whichever layer merges values can take
/// the lower one, and never raises it: a value that entered low never
/// leaves high. Finer grades and numeric scores are not part of the model.
#[derive(Debug, Clone, Copy, PartialEq, Eq, Structural, Ord)]
pub enum Confidence {
    /// Nothing is known about how far the values can be trusted.
    Unknown,
    /// The values may be wrong; a consumer presents them as such.
    Low,
    /// The values are what the source states.
    High,
}

impl Confidence {
    /// The grade's place in the order: `Unknown` 0, `Low` 1, `High` 2.
    pub open spec fn rank(self) -> int {
        match self {
            Confidence::Unknown => 0,
            Confidence::Low => 1,
            Confidence::High => 2,
        }
    }
}

/// How two grades compare: by their place in the order.
pub open spec fn compare_confidence(a: Confidence, b: Confidence) -> Ordering {
    if a.rank() < b.rank() {
        Ordering::Less
    } else if a.rank() > b.rank() {
        Ordering::Greater
    } else {
        Ordering::Equal
    }
}

impl PartialOrd for Confidence {
    fn partial_cmp(&self, other: &Confidence) -> (r: Option<Ordering>) {
        let a: u8 = match self {
            Confidence::Unknown => 0,
            Confidence::Low => 1,
            Confidence::High => 2,
        };
        let b: u8 = match other {
            Confidence::Unknown => 0,
            Confidence::Low => 1,
            Confidence::High => 2,
        };
        if a < b {
            Some(Ordering::Less)
        } else if a > b {
            Some(Ordering::Greater)
        } else {
            Some(Ordering::Equal)
        }
    }
}

impl PartialOrdSpecImpl for Confidence {
    open spec fn obeys_partial_cmp_spec() -> bool {
        true
    }

    open spec fn partial_cmp_spec(&self, other: &Confidence) -> Option<Ordering> {
        Some(compare_confidence(*self, *other))
    }
}

/// Confidence is a total order with `Unknown < Low < High`: any two grades
/// compare, in one way only, the comparison is transitive, and equal grades
/// are the same grade -- so the lower of two values' grades is well defined,
/// and a merge that takes it never raises one.
pub proof fn confidence_is_a_total_order(a: Confidence, b: Confidence, c: Confidence)
    ensures
        compare_confidence(Confidence::Unknown, Confidence::Low) == Ordering::Less,
        compare_confidence(Confidence::Low, Confidence::High) == Ordering::Less,
        compare_confidence(a, b) == Ordering::Less <==> compare_confidence(b, a)
            == Ordering::Greater,
        compare_confidence(a, b) == Ordering::Equal <==> a == b,
        compare_confidence(a, b) == Ordering::Less && compare_confidence(b, c) == Ordering::Less
            ==> compare_confidence(a, c) == Ordering::Less,
{
}

} // verus!
