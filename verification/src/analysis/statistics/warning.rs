use vstd::prelude::*;
use crate::counts::CategoryCounts;
use crate::counts::LabelCounts;
use crate::counts::PriorityCounts;
use crate::types::categories::CategoryType;
use crate::types::priorities::Priority;
use crate::types::warnings::Warning;
use crate::text::spec_contains;
use crate::text::spec_first_token;
use crate::analysis::statistics::safety::SafetyStatistics;
use crate::analysis::statistics::performance::PerformanceStatistics;
use crate::analysis::statistics::style::StyleStatistics;
use crate::analysis::statistics::documentation::DocStatistics;

verus! {

/// How many warnings of the collection satisfy the predicate.
pub open spec fn count_matching(ws: Seq<Warning>, pred: spec_fn(Warning) -> bool) -> int
    decreases ws.len(),
{
    if ws.len() == 0 {
        0
    } else {
        count_matching(ws.drop_last(), pred) + (if pred(ws.last()) {
            1int
        } else {
            0
        })
    }
}

/// A count never exceeds the collection's size.
pub proof fn lemma_count_matching_le(ws: Seq<Warning>, pred: spec_fn(Warning) -> bool)
    ensures
        0 <= count_matching(ws, pred) <= ws.len(),
    decreases ws.len(),
{
    if ws.len() > 0 {
        lemma_count_matching_le(ws.drop_last(), pred);
    }
}

/// The warning belongs to category `c`.
pub open spec fn pred_cat(c: CategoryType) -> spec_fn(Warning) -> bool {
    |w: Warning| w.category.category_type == c
}

/// The warning has priority `p`.
pub open spec fn pred_pri(p: Priority) -> spec_fn(Warning) -> bool {
    |w: Warning| w.priority == p
}

/// The warning carries subcategory label `s`.
pub open spec fn pred_sub(s: Seq<char>) -> spec_fn(Warning) -> bool {
    |w: Warning| w.category.subcategory@ == s
}

/// The warning's message begins with token `tok`.
pub open spec fn pred_tok(tok: Seq<char>) -> spec_fn(Warning) -> bool {
    |w: Warning| spec_first_token(w.message@) == tok
}

/// The warning's message begins with `tok` and mentions `pat`.
pub open spec fn pred_tok_with(tok: Seq<char>, pat: Seq<char>) -> spec_fn(Warning) -> bool {
    |w: Warning| spec_first_token(w.message@) == tok && spec_contains(w.message@, pat)
}

/// The warning's message begins with `tok` and mentions `p1` or `p2`.
pub open spec fn pred_tok_with_either(tok: Seq<char>, p1: Seq<char>, p2: Seq<char>) -> spec_fn(
    Warning,
) -> bool {
    |w: Warning|
        spec_first_token(w.message@) == tok && (spec_contains(w.message@, p1) || spec_contains(
            w.message@,
            p2,
        ))
}

/// The warning's message mentions `pat`.
pub open spec fn pred_with(pat: Seq<char>) -> spec_fn(Warning) -> bool {
    |w: Warning| spec_contains(w.message@, pat)
}

/// The warning's message is exactly `m`, and `m` mentions `pat`.
pub open spec fn pred_msg_with(m: Seq<char>, pat: Seq<char>) -> spec_fn(Warning) -> bool {
    |w: Warning| w.message@ == m && spec_contains(m, pat)
}

/// The warning's message is exactly `m`, and `m` begins with token `tok`.
pub open spec fn pred_msg_tok(m: Seq<char>, tok: Seq<char>) -> spec_fn(Warning) -> bool {
    |w: Warning| w.message@ == m && spec_first_token(m) == tok
}

/// Every warning falls in exactly one category, so the four per-category
/// counts partition any warning collection: they sum to its size.
pub proof fn lemma_category_counts_partition(ws: Seq<Warning>)
    ensures
        count_matching(ws, pred_cat(CategoryType::Safety)) + count_matching(
            ws,
            pred_cat(CategoryType::Performance),
        ) + count_matching(ws, pred_cat(CategoryType::Style)) + count_matching(
            ws,
            pred_cat(CategoryType::Documentation),
        ) == ws.len(),
    decreases ws.len(),
{
    if ws.len() > 0 {
        lemma_category_counts_partition(ws.drop_last());
    }
}

/// Every warning carries exactly one priority, so the five per-priority
/// counts partition any warning collection: they sum to its size.
pub proof fn lemma_priority_counts_partition(ws: Seq<Warning>)
    ensures
        count_matching(ws, pred_pri(Priority::Critical)) + count_matching(
            ws,
            pred_pri(Priority::High),
        ) + count_matching(ws, pred_pri(Priority::Medium)) + count_matching(
            ws,
            pred_pri(Priority::Low),
        ) + count_matching(ws, pred_pri(Priority::Trivial)) == ws.len(),
    decreases ws.len(),
{
    if ws.len() > 0 {
        lemma_priority_counts_partition(ws.drop_last());
    }
}

/// Aggregate statistics over one warning collection.
#[derive(Debug)]
pub struct WarningStatistics {
    pub total_warnings: usize,
    pub total_input_warnings: usize,
    pub files_affected: usize,
    pub by_priority: PriorityCounts,
    pub by_category: CategoryCounts,
    pub by_subcategory: LabelCounts,
    pub safety_details: SafetyStatistics,
    pub performance_details: PerformanceStatistics,
    pub style_details: StyleStatistics,
    pub doc_details: DocStatistics,
}

impl WarningStatistics {
    pub open spec fn wf(self) -> bool {
        self.by_subcategory.wf() && self.safety_details.wf() && self.performance_details.wf()
            && self.style_details.wf() && self.doc_details.wf()
    }

    /// Counts every warning exactly once per dimension, and runs all four
    /// domain drill-downs over every warning regardless of its category.
    /// The totals, the per-category counts and the per-priority counts all
    /// refer to the same single pass, so the two count partitions
    /// (`lemma_category_counts_partition`, `lemma_priority_counts_partition`)
    /// make the aggregate consistent by construction.
    pub fn from_warnings(warnings: &[Warning], total_files: usize) -> (r: WarningStatistics)
        ensures
            r.wf(),
            r.total_warnings == warnings@.len(),
            r.total_input_warnings == warnings@.len(),
            r.files_affected == total_files,
            forall|c: CategoryType| #[trigger]
                r.by_category.spec_get(c) == count_matching(warnings@, pred_cat(c)),
            forall|p: Priority| #[trigger]
                r.by_priority.spec_get(p) == count_matching(warnings@, pred_pri(p)),
            forall|s: Seq<char>| #[trigger]
                r.by_subcategory.spec_count(s) == count_matching(warnings@, pred_sub(s)),
            r.safety_details.total_issues == warnings@.len(),
            r.safety_details.casting_details.total_casts == count_matching(
                warnings@,
                pred_tok("Type"@),
            ),
            forall|m: Seq<char>| #[trigger]
                r.safety_details.casting_details.by_type.spec_count(m) == count_matching(
                    warnings@,
                    pred_msg_tok(m, "Type"@),
                ),
            forall|m: Seq<char>| #[trigger]
                r.safety_details.casting_details.risky_patterns.spec_count(m) == 0,
            r.safety_details.unsafe_details.total_unsafe == count_matching(
                warnings@,
                pred_tok("Unsafe"@),
            ),
            r.safety_details.unsafe_details.raw_pointers == count_matching(
                warnings@,
                pred_tok_with("Unsafe"@, "raw pointer"@),
            ),
            r.safety_details.unsafe_details.ffi_calls == count_matching(
                warnings@,
                pred_tok_with("Unsafe"@, "FFI"@),
            ),
            r.safety_details.unsafe_details.mutable_statics == count_matching(
                warnings@,
                pred_tok_with("Unsafe"@, "static mut"@),
            ),
            r.safety_details.thread_safety_details.total_issues == count_matching(
                warnings@,
                pred_tok("Thread"@),
            ),
            r.safety_details.thread_safety_details.send_sync_violations == count_matching(
                warnings@,
                pred_tok_with_either("Thread"@, "Send"@, "Sync"@),
            ),
            r.safety_details.thread_safety_details.data_races == count_matching(
                warnings@,
                pred_tok_with("Thread"@, "data race"@),
            ),
            r.safety_details.thread_safety_details.lock_issues == count_matching(
                warnings@,
                pred_tok_with("Thread"@, "lock"@),
            ),
            r.performance_details.total_issues == warnings@.len(),
            forall|m: Seq<char>| #[trigger]
                r.performance_details.allocation_patterns.spec_count(m) == count_matching(
                    warnings@,
                    pred_msg_with(m, "allocation"@),
                ),
            forall|m: Seq<char>| #[trigger]
                r.performance_details.clone_patterns.spec_count(m) == count_matching(
                    warnings@,
                    pred_msg_with(m, "clone"@),
                ),
            forall|m: Seq<char>| #[trigger]
                r.performance_details.lock_patterns.spec_count(m) == count_matching(
                    warnings@,
                    pred_msg_with(m, "lock"@),
                ),
            r.style_details.total_issues == warnings@.len(),
            forall|m: Seq<char>| #[trigger]
                r.style_details.naming_issues.spec_count(m) == count_matching(
                    warnings@,
                    pred_msg_with(m, "naming"@),
                ),
            forall|m: Seq<char>| #[trigger]
                r.style_details.unused_patterns.spec_count(m) == count_matching(
                    warnings@,
                    pred_msg_with(m, "unused"@),
                ),
            forall|m: Seq<char>| #[trigger]
                r.style_details.complexity_issues.spec_count(m) == count_matching(
                    warnings@,
                    pred_msg_with(m, "complex"@),
                ),
            r.doc_details.total_issues == warnings@.len(),
            r.doc_details.link_issues == count_matching(warnings@, pred_with("link"@)),
            forall|m: Seq<char>| #[trigger]
                r.doc_details.missing_docs.spec_count(m) == count_matching(
                    warnings@,
                    pred_msg_with(m, "missing"@),
                ),
            forall|m: Seq<char>| #[trigger]
                r.doc_details.quality_issues.spec_count(m) == count_matching(
                    warnings@,
                    pred_msg_with(m, "quality"@),
                ),
    {
        let n = warnings.len();
        let mut by_category = CategoryCounts::new();
        let mut by_priority = PriorityCounts::new();
        let mut by_subcategory = LabelCounts::new();
        let mut safety_details = SafetyStatistics::new();
        let mut performance_details = PerformanceStatistics::new();
        let mut style_details = StyleStatistics::new();
        let mut doc_details = DocStatistics::new();
        let ghost ws = warnings@;
        let mut i: usize = 0;
        proof {
            assert(ws.take(0) =~= Seq::empty());
        }
        while i < n
            invariant
                i <= n,
                n == ws.len(),
                warnings@ == ws,
                by_subcategory.wf(),
                safety_details.wf(),
                performance_details.wf(),
                style_details.wf(),
                doc_details.wf(),
                forall|c: CategoryType| #[trigger]
                    by_category.spec_get(c) == count_matching(ws.take(i as int), pred_cat(c)),
                forall|p: Priority| #[trigger]
                    by_priority.spec_get(p) == count_matching(ws.take(i as int), pred_pri(p)),
                forall|s: Seq<char>| #[trigger]
                    by_subcategory.spec_count(s) == count_matching(
                        ws.take(i as int),
                        pred_sub(s),
                    ),
                safety_details.total_issues == i,
                safety_details.casting_details.total_casts == count_matching(
                    ws.take(i as int),
                    pred_tok("Type"@),
                ),
                forall|m: Seq<char>| #[trigger]
                    safety_details.casting_details.by_type.spec_count(m) == count_matching(
                        ws.take(i as int),
                        pred_msg_tok(m, "Type"@),
                    ),
                forall|m: Seq<char>| #[trigger]
                    safety_details.casting_details.risky_patterns.spec_count(m) == 0,
                safety_details.unsafe_details.total_unsafe == count_matching(
                    ws.take(i as int),
                    pred_tok("Unsafe"@),
                ),
                safety_details.unsafe_details.raw_pointers == count_matching(
                    ws.take(i as int),
                    pred_tok_with("Unsafe"@, "raw pointer"@),
                ),
                safety_details.unsafe_details.ffi_calls == count_matching(
                    ws.take(i as int),
                    pred_tok_with("Unsafe"@, "FFI"@),
                ),
                safety_details.unsafe_details.mutable_statics == count_matching(
                    ws.take(i as int),
                    pred_tok_with("Unsafe"@, "static mut"@),
                ),
                safety_details.thread_safety_details.total_issues == count_matching(
                    ws.take(i as int),
                    pred_tok("Thread"@),
                ),
                safety_details.thread_safety_details.send_sync_violations == count_matching(
                    ws.take(i as int),
                    pred_tok_with_either("Thread"@, "Send"@, "Sync"@),
                ),
                safety_details.thread_safety_details.data_races == count_matching(
                    ws.take(i as int),
                    pred_tok_with("Thread"@, "data race"@),
                ),
                safety_details.thread_safety_details.lock_issues == count_matching(
                    ws.take(i as int),
                    pred_tok_with("Thread"@, "lock"@),
                ),
                performance_details.total_issues == i,
                forall|m: Seq<char>| #[trigger]
                    performance_details.allocation_patterns.spec_count(m) == count_matching(
                        ws.take(i as int),
                        pred_msg_with(m, "allocation"@),
                    ),
                forall|m: Seq<char>| #[trigger]
                    performance_details.clone_patterns.spec_count(m) == count_matching(
                        ws.take(i as int),
                        pred_msg_with(m, "clone"@),
                    ),
                forall|m: Seq<char>| #[trigger]
                    performance_details.lock_patterns.spec_count(m) == count_matching(
                        ws.take(i as int),
                        pred_msg_with(m, "lock"@),
                    ),
                style_details.total_issues == i,
                forall|m: Seq<char>| #[trigger]
                    style_details.naming_issues.spec_count(m) == count_matching(
                        ws.take(i as int),
                        pred_msg_with(m, "naming"@),
                    ),
                forall|m: Seq<char>| #[trigger]
                    style_details.unused_patterns.spec_count(m) == count_matching(
                        ws.take(i as int),
                        pred_msg_with(m, "unused"@),
                    ),
                forall|m: Seq<char>| #[trigger]
                    style_details.complexity_issues.spec_count(m) == count_matching(
                        ws.take(i as int),
                        pred_msg_with(m, "complex"@),
                    ),
                doc_details.total_issues == i,
                doc_details.link_issues == count_matching(ws.take(i as int), pred_with("link"@)),
                forall|m: Seq<char>| #[trigger]
                    doc_details.missing_docs.spec_count(m) == count_matching(
                        ws.take(i as int),
                        pred_msg_with(m, "missing"@),
                    ),
                forall|m: Seq<char>| #[trigger]
                    doc_details.quality_issues.spec_count(m) == count_matching(
                        ws.take(i as int),
                        pred_msg_with(m, "quality"@),
                    ),
            decreases n - i,
        {
            let w = &warnings[i];
            proof {
                assert(ws.take(i + 1).drop_last() =~= ws.take(i as int));
                assert(ws.take(i + 1).last() == ws[i as int]);
                lemma_count_matching_le(ws.take(i as int), pred_cat(w.category.category_type));
                lemma_count_matching_le(ws.take(i as int), pred_pri(w.priority));
                lemma_count_matching_le(
                    ws.take(i as int),
                    pred_sub(w.category.subcategory@),
                );
                lemma_count_matching_le(ws.take(i as int), pred_tok("Type"@));
                lemma_count_matching_le(ws.take(i as int), pred_msg_tok(w.message@, "Type"@));
                lemma_count_matching_le(ws.take(i as int), pred_tok("Unsafe"@));
                lemma_count_matching_le(
                    ws.take(i as int),
                    pred_tok_with("Unsafe"@, "raw pointer"@),
                );
                lemma_count_matching_le(ws.take(i as int), pred_tok_with("Unsafe"@, "FFI"@));
                lemma_count_matching_le(
                    ws.take(i as int),
                    pred_tok_with("Unsafe"@, "static mut"@),
                );
                lemma_count_matching_le(ws.take(i as int), pred_tok("Thread"@));
                lemma_count_matching_le(
                    ws.take(i as int),
                    pred_tok_with_either("Thread"@, "Send"@, "Sync"@),
                );
                lemma_count_matching_le(
                    ws.take(i as int),
                    pred_tok_with("Thread"@, "data race"@),
                );
                lemma_count_matching_le(ws.take(i as int), pred_tok_with("Thread"@, "lock"@));
                lemma_count_matching_le(
                    ws.take(i as int),
                    pred_msg_with(w.message@, "allocation"@),
                );
                lemma_count_matching_le(ws.take(i as int), pred_msg_with(w.message@, "clone"@));
                lemma_count_matching_le(ws.take(i as int), pred_msg_with(w.message@, "lock"@));
                lemma_count_matching_le(ws.take(i as int), pred_msg_with(w.message@, "naming"@));
                lemma_count_matching_le(ws.take(i as int), pred_msg_with(w.message@, "unused"@));
                lemma_count_matching_le(
                    ws.take(i as int),
                    pred_msg_with(w.message@, "complex"@),
                );
                lemma_count_matching_le(ws.take(i as int), pred_with("link"@));
                lemma_count_matching_le(ws.take(i as int), pred_msg_with(w.message@, "missing"@));
                lemma_count_matching_le(ws.take(i as int), pred_msg_with(w.message@, "quality"@));
            }
            by_category.increment(w.category.category_type);
            by_priority.increment(w.priority);
            by_subcategory.increment(w.category.subcategory.as_str());
            safety_details.update(w);
            performance_details.update(w);
            style_details.update(w);
            doc_details.update(w);
            i += 1;
        }
        proof {
            assert(ws.take(n as int) =~= ws);
        }
        WarningStatistics {
            total_warnings: n,
            total_input_warnings: n,
            files_affected: total_files,
            by_priority,
            by_category,
            by_subcategory,
            safety_details,
            performance_details,
            style_details,
            doc_details,
        }
    }

    /// The four domain drill-downs, for callers that only read them.
    pub fn get_detailed_stats(&self) -> (r: (
        &SafetyStatistics,
        &PerformanceStatistics,
        &StyleStatistics,
        &DocStatistics,
    ))
        ensures
            *r.0 == self.safety_details,
            *r.1 == self.performance_details,
            *r.2 == self.style_details,
            *r.3 == self.doc_details,
    {
        (&self.safety_details, &self.performance_details, &self.style_details, &self.doc_details)
    }
}

/// The aggregate a single pass builds is consistent: the category counts
/// and the priority counts each sum to the total warning count.
pub proof fn lemma_statistics_consistent(stats: WarningStatistics, ws: Seq<Warning>)
    requires
        stats.total_warnings == ws.len(),
        forall|c: CategoryType| #[trigger]
            stats.by_category.spec_get(c) == count_matching(ws, pred_cat(c)),
        forall|p: Priority| #[trigger]
            stats.by_priority.spec_get(p) == count_matching(ws, pred_pri(p)),
    ensures
        stats.by_category.spec_total() == stats.total_warnings,
        stats.by_priority.spec_total() == stats.total_warnings,
{
    lemma_category_counts_partition(ws);
    lemma_priority_counts_partition(ws);
    assert(stats.by_category.spec_get(CategoryType::Safety) == stats.by_category.safety);
    assert(stats.by_category.spec_get(CategoryType::Performance)
        == stats.by_category.performance);
    assert(stats.by_category.spec_get(CategoryType::Style) == stats.by_category.style);
    assert(stats.by_category.spec_get(CategoryType::Documentation)
        == stats.by_category.documentation);
    assert(stats.by_priority.spec_get(Priority::Critical) == stats.by_priority.critical);
    assert(stats.by_priority.spec_get(Priority::High) == stats.by_priority.high);
    assert(stats.by_priority.spec_get(Priority::Medium) == stats.by_priority.medium);
    assert(stats.by_priority.spec_get(Priority::Low) == stats.by_priority.low);
    assert(stats.by_priority.spec_get(Priority::Trivial) == stats.by_priority.trivial);
}

} // verus!
