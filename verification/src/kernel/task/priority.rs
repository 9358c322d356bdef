use vstd::prelude::*;
use core::cmp::Ordering;

verus! {

/// Task priority; a larger number is a higher priority.
#[derive(Debug, Clone, Copy, PartialEq, Eq, Ord, Hash, Structural)]
pub enum Priority {
    /// Lowest priority, reserved for the idle task.
    Idle,
    /// Background work.
    Low,
    /// The default priority.
    Normal,
    /// Work that needs a quick response.
    High,
    /// Highest priority.
    Critical,
}

impl Priority {
    /// The number of a priority: Idle 0, Low 1, Normal 2, High 3, Critical 4.
    pub open spec fn spec_as_u8(self) -> u8 {
        match self {
            Priority::Idle => 0,
            Priority::Low => 1,
            Priority::Normal => 2,
            Priority::High => 3,
            Priority::Critical => 4,
        }
    }

    /// The priority whose number is `value`, if there is one.
    pub open spec fn spec_from_u8(value: u8) -> Option<Priority> {
        if value == 0 {
            Some(Priority::Idle)
        } else if value == 1 {
            Some(Priority::Low)
        } else if value == 2 {
            Some(Priority::Normal)
        } else if value == 3 {
            Some(Priority::High)
        } else if value == 4 {
            Some(Priority::Critical)
        } else {
            None
        }
    }

    /// The priority's number.
    pub fn as_u8(self) -> (r: u8)
        ensures
            r == self.spec_as_u8(),
            r < 5,
    {
        match self {
            Priority::Idle => 0,
            Priority::Low => 1,
            Priority::Normal => 2,
            Priority::High => 3,
            Priority::Critical => 4,
        }
    }

    /// The priority with number `value`; `None` for a number above 4.
    pub fn from_u8(value: u8) -> (r: Option<Priority>)
        ensures
            r == Self::spec_from_u8(value),
            r is Some <==> value < 5,
    {
        match value {
            0 => Some(Priority::Idle),
            1 => Some(Priority::Low),
            2 => Some(Priority::Normal),
            3 => Some(Priority::High),
            4 => Some(Priority::Critical),
            _ => None,
        }
    }

    /// Whether this is the idle priority.
    pub fn is_idle(self) -> (r: bool)
        ensures
            r <==> self == Priority::Idle,
    {
        match self {
            Priority::Idle => true,
            _ => false,
        }
    }

    /// Whether this is the critical priority.
    pub fn is_critical(self) -> (r: bool)
        ensures
            r <==> self == Priority::Critical,
    {
        match self {
            Priority::Critical => true,
            _ => false,
        }
    }

    /// Whether `self` is strictly higher than `other`.
    pub fn is_higher_than(self, other: Priority) -> (r: bool)
        ensures
            r <==> self.spec_as_u8() > other.spec_as_u8(),
    {
        self.as_u8() > other.as_u8()
    }
}

impl PartialOrd for Priority {
    /// Priorities compare by their numbers.
    fn partial_cmp(&self, other: &Priority) -> (r: Option<Ordering>) {
        let a = self.as_u8();
        let b = other.as_u8();
        if a < b {
            Some(Ordering::Less)
        } else if a == b {
            Some(Ordering::Equal)
        } else {
            Some(Ordering::Greater)
        }
    }
}

impl vstd::std_specs::cmp::PartialOrdSpecImpl for Priority {
    open spec fn obeys_partial_cmp_spec() -> bool {
        true
    }

    open spec fn partial_cmp_spec(&self, other: &Priority) -> Option<Ordering> {
        if self.spec_as_u8() < other.spec_as_u8() {
            Some(Ordering::Less)
        } else if self.spec_as_u8() == other.spec_as_u8() {
            Some(Ordering::Equal)
        } else {
            Some(Ordering::Greater)
        }
    }
}

/// Priorities are ordered by their numbers: `p < q` exactly when `p`'s
/// number is below `q`'s, and `p > q` exactly when it is above.
pub proof fn law_priority_order_follows_numbers(p: Priority, q: Priority)
    ensures
        (vstd::std_specs::cmp::PartialOrdSpec::partial_cmp_spec(&p, &q) == Some(Ordering::Less)) <==> p.spec_as_u8() < q.spec_as_u8(),
        (vstd::std_specs::cmp::PartialOrdSpec::partial_cmp_spec(&p, &q) == Some(Ordering::Equal)) <==> p == q,
        (vstd::std_specs::cmp::PartialOrdSpec::partial_cmp_spec(&p, &q) == Some(Ordering::Greater)) <==> p.spec_as_u8() > q.spec_as_u8(),
{
}

impl Default for Priority {
    /// The default priority is `Normal`.
    fn default() -> (r: Priority)
        ensures
            r == Priority::Normal,
    {
        Priority::Normal
    }
}

/// A priority's number names it: `from_u8` undoes `as_u8`.
pub proof fn law_priority_round_trip(p: Priority)
    ensures
        Priority::spec_from_u8(p.spec_as_u8()) == Some(p),
{
}

/// `as_u8` undoes `from_u8` on the numbers that name a priority.
pub proof fn law_priority_number_round_trip(value: u8)
    requires
        value < 5,
    ensures
        Priority::spec_from_u8(value) is Some,
        Priority::spec_from_u8(value).unwrap().spec_as_u8() == value,
{
}

} // verus!
