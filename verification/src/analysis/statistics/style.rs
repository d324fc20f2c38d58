use vstd::prelude::*;
use crate::counts::LabelCounts;
use crate::types::warnings::Warning;
use crate::text::contains_sub;
use crate::text::spec_contains;

verus! {

/// Style-related drill-down: per-message frequency of naming, unused-code
/// and complexity mentions. The three checks are independent.
#[derive(Debug)]
pub struct StyleStatistics {
    pub total_issues: usize,
    pub naming_issues: LabelCounts,
    pub unused_patterns: LabelCounts,
    pub complexity_issues: LabelCounts,
}

impl StyleStatistics {
    pub open spec fn wf(self) -> bool {
        self.naming_issues.wf() && self.unused_patterns.wf() && self.complexity_issues.wf()
    }

    pub fn new() -> (r: Self)
        ensures
            r.wf(),
            r.total_issues == 0,
            forall|m: Seq<char>| r.naming_issues.spec_count(m) == 0,
            forall|m: Seq<char>| r.unused_patterns.spec_count(m) == 0,
            forall|m: Seq<char>| r.complexity_issues.spec_count(m) == 0,
    {
        StyleStatistics {
            total_issues: 0,
            naming_issues: LabelCounts::new(),
            unused_patterns: LabelCounts::new(),
            complexity_issues: LabelCounts::new(),
        }
    }

    /// Counts one warning, filing its message under each style keyword it
    /// mentions.
    pub fn update(&mut self, warning: &Warning)
        requires
            old(self).wf(),
            old(self).total_issues < usize::MAX,
            old(self).naming_issues.spec_count(warning.message@) < usize::MAX,
            old(self).unused_patterns.spec_count(warning.message@) < usize::MAX,
            old(self).complexity_issues.spec_count(warning.message@) < usize::MAX,
        ensures
            final(self).wf(),
            final(self).total_issues == old(self).total_issues + 1,
            forall|m: Seq<char>|
                final(self).naming_issues.spec_count(m) == old(self).naming_issues.spec_count(m)
                    + (if m == warning.message@ && spec_contains(m, "naming"@) {
                    1int
                } else {
                    0
                }),
            forall|m: Seq<char>|
                final(self).unused_patterns.spec_count(m) == old(
                    self,
                ).unused_patterns.spec_count(m) + (if m == warning.message@ && spec_contains(
                    m,
                    "unused"@,
                ) {
                    1int
                } else {
                    0
                }),
            forall|m: Seq<char>|
                final(self).complexity_issues.spec_count(m) == old(
                    self,
                ).complexity_issues.spec_count(m) + (if m == warning.message@ && spec_contains(
                    m,
                    "complex"@,
                ) {
                    1int
                } else {
                    0
                }),
    {
        self.total_issues = self.total_issues + 1;
        if contains_sub(warning.message.as_str(), "naming") {
            self.naming_issues.increment(warning.message.as_str());
        }
        if contains_sub(warning.message.as_str(), "unused") {
            self.unused_patterns.increment(warning.message.as_str());
        }
        if contains_sub(warning.message.as_str(), "complex") {
            self.complexity_issues.increment(warning.message.as_str());
        }
    }
}

} // verus!
