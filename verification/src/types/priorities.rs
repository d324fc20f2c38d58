use vstd::prelude::*;

verus! {

/// Urgency ranking of a warning, independent of its category. Determined
/// once at parse time from the diagnostic level and keyword heuristics and
/// immutable afterward.
#[derive(Debug, Clone, Copy, PartialEq, Eq, Hash, Structural)]
pub enum Priority {
    Critical,
    High,
    Medium,
    Low,
    Trivial,
}

impl Priority {
    /// The fixed severity score: Critical 5 down to Trivial 1. A pure
    /// function of the variant.
    pub open spec fn spec_severity_score(self) -> u8 {
        match self {
            Priority::Critical => 5,
            Priority::High => 4,
            Priority::Medium => 3,
            Priority::Low => 2,
            Priority::Trivial => 1,
        }
    }

    pub fn severity_score(&self) -> (r: u8)
        ensures
            r == self.spec_severity_score(),
    {
        match self {
            Priority::Critical => 5,
            Priority::High => 4,
            Priority::Medium => 3,
            Priority::Low => 2,
            Priority::Trivial => 1,
        }
    }

    /// The human description of the urgency level.
    pub open spec fn spec_description(self) -> Seq<char> {
        match self {
            Priority::Critical => "Critical: Must be fixed immediately"@,
            Priority::High => "High: Should be fixed soon"@,
            Priority::Medium => "Medium: Should be fixed when possible"@,
            Priority::Low => "Low: Consider fixing when convenient"@,
            Priority::Trivial => "Trivial: Optional fixes"@,
        }
    }

    pub fn description(&self) -> (r: &'static str)
        ensures
            r@ == self.spec_description(),
    {
        match self {
            Priority::Critical => "Critical: Must be fixed immediately",
            Priority::High => "High: Should be fixed soon",
            Priority::Medium => "Medium: Should be fixed when possible",
            Priority::Low => "Low: Consider fixing when convenient",
            Priority::Trivial => "Trivial: Optional fixes",
        }
    }

    /// Display name of the variant, used wherever the priority appears in
    /// rendered text.
    pub open spec fn spec_name(self) -> Seq<char> {
        match self {
            Priority::Critical => "Critical"@,
            Priority::High => "High"@,
            Priority::Medium => "Medium"@,
            Priority::Low => "Low"@,
            Priority::Trivial => "Trivial"@,
        }
    }

    pub fn name(&self) -> (r: &'static str)
        ensures
            r@ == self.spec_name(),
    {
        match self {
            Priority::Critical => "Critical",
            Priority::High => "High",
            Priority::Medium => "Medium",
            Priority::Low => "Low",
            Priority::Trivial => "Trivial",
        }
    }
}

} // verus!
