use vstd::prelude::*;
use crate::counts::LabelCounts;
use crate::types::warnings::Warning;
use crate::text::contains_sub;
use crate::text::spec_contains;

verus! {

/// Performance-related drill-down: per-message frequency of allocation,
/// clone and lock mentions. The three checks are independent, so one
/// warning can land in more than one map.
#[derive(Debug)]
pub struct PerformanceStatistics {
    pub total_issues: usize,
    pub allocation_patterns: LabelCounts,
    pub clone_patterns: LabelCounts,
    pub lock_patterns: LabelCounts,
}

impl PerformanceStatistics {
    pub open spec fn wf(self) -> bool {
        self.allocation_patterns.wf() && self.clone_patterns.wf() && self.lock_patterns.wf()
    }

    pub fn new() -> (r: Self)
        ensures
            r.wf(),
            r.total_issues == 0,
            forall|m: Seq<char>| r.allocation_patterns.spec_count(m) == 0,
            forall|m: Seq<char>| r.clone_patterns.spec_count(m) == 0,
            forall|m: Seq<char>| r.lock_patterns.spec_count(m) == 0,
    {
        PerformanceStatistics {
            total_issues: 0,
            allocation_patterns: LabelCounts::new(),
            clone_patterns: LabelCounts::new(),
            lock_patterns: LabelCounts::new(),
        }
    }

    /// Counts one warning: the total always grows, and the message joins
    /// each per-pattern frequency map whose keyword it mentions.
    pub fn update(&mut self, warning: &Warning)
        requires
            old(self).wf(),
            old(self).total_issues < usize::MAX,
            old(self).allocation_patterns.spec_count(warning.message@) < usize::MAX,
            old(self).clone_patterns.spec_count(warning.message@) < usize::MAX,
            old(self).lock_patterns.spec_count(warning.message@) < usize::MAX,
        ensures
            final(self).wf(),
            final(self).total_issues == old(self).total_issues + 1,
            forall|m: Seq<char>|
                final(self).allocation_patterns.spec_count(m) == old(
                    self,
                ).allocation_patterns.spec_count(m) + (if m == warning.message@ && spec_contains(
                    m,
                    "allocation"@,
                ) {
                    1int
                } else {
                    0
                }),
            forall|m: Seq<char>|
                final(self).clone_patterns.spec_count(m) == old(self).clone_patterns.spec_count(
                    m,
                ) + (if m == warning.message@ && spec_contains(m, "clone"@) {
                    1int
                } else {
                    0
                }),
            forall|m: Seq<char>|
                final(self).lock_patterns.spec_count(m) == old(self).lock_patterns.spec_count(m)
                    + (if m == warning.message@ && spec_contains(m, "lock"@) {
                    1int
                } else {
                    0
                }),
    {
        self.total_issues = self.total_issues + 1;
        if contains_sub(warning.message.as_str(), "allocation") {
            self.allocation_patterns.increment(warning.message.as_str());
        }
        if contains_sub(warning.message.as_str(), "clone") {
            self.clone_patterns.increment(warning.message.as_str());
        }
        if contains_sub(warning.message.as_str(), "lock") {
            self.lock_patterns.increment(warning.message.as_str());
        }
    }
}

} // verus!
