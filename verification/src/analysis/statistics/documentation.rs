use vstd::prelude::*;
use crate::counts::LabelCounts;
use crate::types::warnings::Warning;
use crate::text::contains_sub;
use crate::text::spec_contains;

verus! {

/// Documentation-related drill-down: per-message frequency of missing-doc
/// and quality mentions, and a plain count of link mentions.
#[derive(Debug)]
pub struct DocStatistics {
    pub total_issues: usize,
    pub missing_docs: LabelCounts,
    pub quality_issues: LabelCounts,
    pub link_issues: usize,
}

impl DocStatistics {
    pub open spec fn wf(self) -> bool {
        self.missing_docs.wf() && self.quality_issues.wf()
    }

    pub fn new() -> (r: Self)
        ensures
            r.wf(),
            r.total_issues == 0,
            r.link_issues == 0,
            forall|m: Seq<char>| r.missing_docs.spec_count(m) == 0,
            forall|m: Seq<char>| r.quality_issues.spec_count(m) == 0,
    {
        DocStatistics {
            total_issues: 0,
            missing_docs: LabelCounts::new(),
            quality_issues: LabelCounts::new(),
            link_issues: 0,
        }
    }

    /// Counts one warning, filing its message under each documentation
    /// keyword it mentions; link mentions only bump a scalar counter.
    pub fn update(&mut self, warning: &Warning)
        requires
            old(self).wf(),
            old(self).total_issues < usize::MAX,
            old(self).link_issues < usize::MAX,
            old(self).missing_docs.spec_count(warning.message@) < usize::MAX,
            old(self).quality_issues.spec_count(warning.message@) < usize::MAX,
        ensures
            final(self).wf(),
            final(self).total_issues == old(self).total_issues + 1,
            final(self).link_issues == old(self).link_issues + (if spec_contains(
                warning.message@,
                "link"@,
            ) {
                1int
            } else {
                0
            }),
            forall|m: Seq<char>|
                final(self).missing_docs.spec_count(m) == old(self).missing_docs.spec_count(m)
                    + (if m == warning.message@ && spec_contains(m, "missing"@) {
                    1int
                } else {
                    0
                }),
            forall|m: Seq<char>|
                final(self).quality_issues.spec_count(m) == old(self).quality_issues.spec_count(
                    m,
                ) + (if m == warning.message@ && spec_contains(m, "quality"@) {
                    1int
                } else {
                    0
                }),
    {
        self.total_issues = self.total_issues + 1;
        if contains_sub(warning.message.as_str(), "missing") {
            self.missing_docs.increment(warning.message.as_str());
        }
        if contains_sub(warning.message.as_str(), "quality") {
            self.quality_issues.increment(warning.message.as_str());
        }
        if contains_sub(warning.message.as_str(), "link") {
            self.link_issues = self.link_issues + 1;
        }
    }
}

} // verus!
