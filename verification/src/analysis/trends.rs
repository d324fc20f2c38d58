use vstd::prelude::*;
use vstd::string::StringExecFns;
use crate::counts::CategoryCounts;
use crate::counts::LabelCounts;
use crate::counts::PriorityCounts;
use crate::types::categories::CategoryType;
use crate::types::priorities::Priority;
use crate::clock::local_date_string;
use crate::text::spec_dec;
use crate::text::u128_to_string;
use crate::text::usize_to_string;

verus! {

/// An exact fraction, standing in for the floating-point rates the
/// reports print: `num / den`.
#[derive(Debug, Clone, Copy, PartialEq, Eq, Structural)]
pub struct Ratio {
    pub num: i128,
    pub den: u128,
}

/// The aggregate record one analysis run leaves behind, compared against
/// the records of past runs.
#[derive(Debug)]
pub struct TrendAnalysis {
    pub dates: Vec<String>,
    pub total_warnings: usize,
    pub by_category: CategoryCounts,
    pub by_priority: PriorityCounts,
    pub improvement_rate: Ratio,
    pub recurring_issues: LabelCounts,
}

impl Default for TrendAnalysis {
    /// An empty record: no dates, zero counts, a zero rate.
    fn default() -> (r: Self)
        ensures
            r.dates@.len() == 0,
            r.total_warnings == 0,
            forall|c: CategoryType| r.by_category.spec_get(c) == 0,
            forall|p: Priority| r.by_priority.spec_get(p) == 0,
            r.improvement_rate == (Ratio { num: 0, den: 1 }),
            r.recurring_issues.wf(),
            forall|k: Seq<char>| r.recurring_issues.spec_count(k) == 0,
    {
        TrendAnalysis {
            dates: Vec::new(),
            total_warnings: 0,
            by_category: CategoryCounts::new(),
            by_priority: PriorityCounts::new(),
            improvement_rate: Ratio { num: 0, den: 1 },
            recurring_issues: LabelCounts::new(),
        }
    }
}

/// The sum of a sequence of machine-sized counts.
pub open spec fn spec_sum_usizes(h: Seq<usize>) -> int
    decreases h.len(),
{
    if h.len() == 0 {
        0
    } else {
        spec_sum_usizes(h.drop_last()) + h.last()
    }
}

proof fn lemma_sum_usizes_le(h: Seq<usize>)
    ensures
        0 <= spec_sum_usizes(h) <= h.len() * (usize::MAX as int),
    decreases h.len(),
{
    if h.len() > 0 {
        lemma_sum_usizes_le(h.drop_last());
        assert((h.len() - 1) * (usize::MAX as int) + (usize::MAX as int) == h.len() * (
        usize::MAX as int)) by (nonlinear_arith);
    }
}

/// The improvement-rate numerator: zero for an empty or all-zero history,
/// else the historical sum less the current total scaled by the history
/// length. Positive means fewer warnings than the historical average.
pub open spec fn spec_rate_num(total: int, history: Seq<usize>) -> int {
    if history.len() == 0 || spec_sum_usizes(history) == 0 {
        0
    } else {
        spec_sum_usizes(history) - total * history.len()
    }
}

/// The improvement-rate denominator: the historical sum, or 1 in the
/// degenerate cases.
pub open spec fn spec_rate_den(total: int, history: Seq<usize>) -> int {
    if history.len() == 0 || spec_sum_usizes(history) == 0 {
        1
    } else {
        spec_sum_usizes(history)
    }
}

impl TrendAnalysis {
    /// A record of the current run, dated today. The improvement rate
    /// starts at zero: it needs historical data to be computed.
    pub fn new(
        total_warnings: usize,
        by_category: CategoryCounts,
        by_priority: PriorityCounts,
        recurring_issues: LabelCounts,
    ) -> (r: Self)
        ensures
            r.dates@.len() == 1,
            r.total_warnings == total_warnings,
            r.by_category == by_category,
            r.by_priority == by_priority,
            r.improvement_rate == (Ratio { num: 0, den: 1 }),
            r.recurring_issues == recurring_issues,
    {
        let mut dates: Vec<String> = Vec::new();
        dates.push(local_date_string());
        TrendAnalysis {
            dates,
            total_warnings,
            by_category,
            by_priority,
            improvement_rate: Ratio { num: 0, den: 1 },
            recurring_issues,
        }
    }

    /// Computes `(historical average - current total) / historical
    /// average` as an exact fraction, stores it and returns it. When the
    /// history is empty or averages zero, the rate is zero and the record
    /// is left completely untouched: a previously stored rate survives.
    pub fn calculate_improvement_rate(&mut self, historical_warnings: &[usize]) -> (r: Ratio)
        requires
            spec_sum_usizes(historical_warnings@) <= i128::MAX as int,
            (old(self).total_warnings as int) * historical_warnings@.len() <= i128::MAX as int,
        ensures
            r.num as int == spec_rate_num(old(self).total_warnings as int, historical_warnings@),
            r.den as int == spec_rate_den(old(self).total_warnings as int, historical_warnings@),
            (historical_warnings@.len() == 0 || spec_sum_usizes(historical_warnings@) == 0)
                ==> *final(self) == *old(self),
            (historical_warnings@.len() > 0 && spec_sum_usizes(historical_warnings@) != 0) ==> {
                &&& final(self).improvement_rate == r
                &&& final(self).dates == old(self).dates
                &&& final(self).total_warnings == old(self).total_warnings
                &&& final(self).by_category == old(self).by_category
                &&& final(self).by_priority == old(self).by_priority
                &&& final(self).recurring_issues == old(self).recurring_issues
            },
    {
        let ghost hist = historical_warnings@;
        let n = historical_warnings.len();
        let mut sum: u128 = 0;
        let mut k: usize = 0;
        proof {
            assert(hist.take(0) =~= Seq::<usize>::empty());
            lemma_sum_usizes_le(hist);
        }
        while k < n
            invariant
                k <= n,
                n == hist.len(),
                historical_warnings@ == hist,
                sum == spec_sum_usizes(hist.take(k as int)),
                spec_sum_usizes(hist.take(k as int)) <= (k as int) * (usize::MAX as int),
            decreases n - k,
        {
            proof {
                assert(hist.take(k + 1).drop_last() =~= hist.take(k as int));
                assert(hist.take(k + 1).last() == hist[k as int]);
                assert((k as int) * (usize::MAX as int) + (usize::MAX as int) == ((k + 1) as int)
                    * (usize::MAX as int)) by (nonlinear_arith);
                assert((k as int) * (usize::MAX as int) <= (u128::MAX as int) - (
                usize::MAX as int)) by (nonlinear_arith)
                    requires
                        0 <= k as int <= usize::MAX as int,
                ;
            }
            let v = historical_warnings[k];
            sum = sum + (v as u128);
            k += 1;
        }
        proof {
            assert(hist.take(n as int) =~= hist);
        }
        if n == 0 || sum == 0 {
            return Ratio { num: 0, den: 1 };
        }
        let scaled = (self.total_warnings as i128) * (n as i128);
        let num = (sum as i128) - scaled;
        let r = Ratio { num, den: sum };
        self.improvement_rate = r;
        r
    }
}

/// Index of the first entry with the greatest count.
pub open spec fn spec_first_max(s: Seq<(Seq<char>, usize)>) -> int
    decreases s.len(),
{
    if s.len() <= 1 {
        0
    } else {
        let b = spec_first_max(s.drop_last());
        if s.last().1 > s[b].1 {
            s.len() - 1
        } else {
            b
        }
    }
}

pub proof fn lemma_first_max(s: Seq<(Seq<char>, usize)>)
    requires
        s.len() > 0,
    ensures
        0 <= spec_first_max(s) < s.len(),
        forall|j: int| 0 <= j < s.len() ==> (#[trigger] s[j]).1 <= s[spec_first_max(s)].1,
    decreases s.len(),
{
    if s.len() > 1 {
        lemma_first_max(s.drop_last());
        assert forall|j: int| 0 <= j < s.len() - 1 implies s.drop_last()[j] == s[j] by {}
    }
}

/// The entries ordered by descending count: repeatedly the first entry
/// with the greatest count. Entries with equal counts keep their relative
/// order.
pub open spec fn spec_sort_desc(s: Seq<(Seq<char>, usize)>) -> Seq<(Seq<char>, usize)>
    decreases s.len(),
    via spec_sort_desc_decreases
{
    if s.len() == 0 {
        Seq::empty()
    } else {
        seq![s[spec_first_max(s)]] + spec_sort_desc(s.remove(spec_first_max(s)))
    }
}

#[via_fn]
proof fn spec_sort_desc_decreases(s: Seq<(Seq<char>, usize)>) {
    if s.len() > 0 {
        lemma_first_max(s);
    }
}

/// The top `limit` entries by count.
pub open spec fn spec_top_issues(s: Seq<(Seq<char>, usize)>, limit: int) -> Seq<(Seq<char>, usize)> {
    if limit <= spec_sort_desc(s).len() {
        spec_sort_desc(s).take(limit)
    } else {
        spec_sort_desc(s)
    }
}

fn first_max_index(v: &Vec<(String, usize)>) -> (r: usize)
    requires
        v@.len() > 0,
    ensures
        r as int == spec_first_max(v.deep_view()),
{
    let ghost dv = v.deep_view();
    let n = v.len();
    let mut best: usize = 0;
    let mut i: usize = 1;
    proof {
        assert(dv.take(1) =~= seq![dv[0]]);
    }
    while i < n
        invariant
            1 <= i <= n,
            best < i,
            n == v@.len(),
            dv == v.deep_view(),
            dv.len() == n,
            best as int == spec_first_max(dv.take(i as int)),
        decreases n - i,
    {
        proof {
            assert(dv.take(i + 1).drop_last() =~= dv.take(i as int));
            assert(dv.take(i + 1).last() == dv[i as int]);
            assert(dv[i as int] == (v@[i as int].0@, v@[i as int].1));
            assert(forall|j: int| 0 <= j < i ==> dv.take(i as int)[j] == dv[j]);
            assert(dv.take(i + 1)[spec_first_max(dv.take(i as int))] == dv.take(i as int)[
                spec_first_max(dv.take(i as int))]);
        }
        if v[i].1 > v[best].1 {
            proof {
                assert(dv[best as int] == (v@[best as int].0@, v@[best as int].1));
            }
            best = i;
        } else {
            proof {
                assert(dv[best as int] == (v@[best as int].0@, v@[best as int].1));
            }
        }
        i += 1;
    }
    proof {
        assert(dv.take(n as int) =~= dv);
    }
    best
}

/// Sorts labeled counts by descending count, stably.
pub(crate) fn sorted_by_count_desc(entries: &Vec<(String, usize)>) -> (r: Vec<(String, usize)>)
    ensures
        r.deep_view() == spec_sort_desc(entries.deep_view()),
{
    let mut work: Vec<(String, usize)> = Vec::new();
    let n = entries.len();
    let mut i: usize = 0;
    while i < n
        invariant
            i <= n,
            n == entries@.len(),
            work@.len() == i,
            forall|j: int| 0 <= j < i ==> work.deep_view()[j] == entries.deep_view()[j],
        decreases n - i,
    {
        let k = entries[i].0.clone();
        let c = entries[i].1;
        proof {
            assert(entries.deep_view()[i as int] == (entries@[i as int].0@, entries@[i as int].1));
        }
        work.push((k, c));
        proof {
            assert forall|j: int|
                0 <= j < i + 1 implies work.deep_view()[j] == entries.deep_view()[j] by {
                assert(work.deep_view()[j] == work@[j].deep_view());
                if j == i {
                    assert(work@[j] == (k, c));
                }
            }
        }
        i += 1;
    }
    proof {
        assert(work.deep_view() =~= entries.deep_view());
    }
    let mut out: Vec<(String, usize)> = Vec::new();
    proof {
        assert(out.deep_view() + spec_sort_desc(work.deep_view()) =~= spec_sort_desc(
            entries.deep_view(),
        ));
    }
    while work.len() > 0
        invariant
            out.deep_view() + spec_sort_desc(work.deep_view()) == spec_sort_desc(
                entries.deep_view(),
            ),
        decreases work@.len(),
    {
        let ghost pre_out = out.deep_view();
        let ghost pre_work = work.deep_view();
        let idx = first_max_index(&work);
        proof {
            lemma_first_max(pre_work);
        }
        let p = work.remove(idx);
        out.push(p);
        proof {
            assert(work.deep_view() =~= pre_work.remove(idx as int));
            assert(p.deep_view() == pre_work[idx as int]);
            assert(out.deep_view() =~= pre_out.push(pre_work[idx as int]));
            assert(spec_sort_desc(pre_work) == seq![pre_work[spec_first_max(pre_work)]]
                + spec_sort_desc(pre_work.remove(spec_first_max(pre_work))));
            assert(out.deep_view() + spec_sort_desc(work.deep_view()) =~= pre_out + (seq![
                pre_work[idx as int]] + spec_sort_desc(pre_work.remove(idx as int))));
        }
    }
    proof {
        assert(spec_sort_desc(work.deep_view()) =~= Seq::<(Seq<char>, usize)>::empty());
        assert(out.deep_view() + Seq::<(Seq<char>, usize)>::empty() =~= out.deep_view());
    }
    out
}

impl TrendAnalysis {
    /// The `limit` most frequent recurring issues, most frequent first;
    /// labels with equal counts stay in insertion order.
    pub fn get_top_issues(&self, limit: usize) -> (r: Vec<(String, usize)>)
        ensures
            r.deep_view() == spec_top_issues(self.recurring_issues.entries_view(), limit as int),
    {
        let pairs = self.recurring_issues.pairs();
        let mut sorted = sorted_by_count_desc(&pairs);
        let ghost full = sorted.deep_view();
        if limit <= sorted.len() {
            sorted.truncate(limit);
            proof {
                assert(sorted.deep_view() =~= full.take(limit as int));
            }
        }
        sorted
    }

    /// The share of each category, as an exact percentage of the category
    /// total, in fixed category order.
    pub fn get_category_distribution(&self) -> (r: Vec<(CategoryType, Ratio)>)
        ensures
            r@.len() == 4,
            ({
                let t = self.by_category.spec_total();
                &&& r@[0].0 == CategoryType::Safety
                &&& r@[0].1.num as int == (self.by_category.safety as int) * 100
                &&& r@[0].1.den as int == t
                &&& r@[1].0 == CategoryType::Performance
                &&& r@[1].1.num as int == (self.by_category.performance as int) * 100
                &&& r@[1].1.den as int == t
                &&& r@[2].0 == CategoryType::Style
                &&& r@[2].1.num as int == (self.by_category.style as int) * 100
                &&& r@[2].1.den as int == t
                &&& r@[3].0 == CategoryType::Documentation
                &&& r@[3].1.num as int == (self.by_category.documentation as int) * 100
                &&& r@[3].1.den as int == t
            }),
    {
        let total: u128 = (self.by_category.safety as u128) + (self.by_category.performance
            as u128) + (self.by_category.style as u128) + (self.by_category.documentation
            as u128);
        let mut r: Vec<(CategoryType, Ratio)> = Vec::new();
        r.push(
            (
                CategoryType::Safety,
                Ratio { num: (self.by_category.safety as i128) * 100, den: total },
            ),
        );
        r.push(
            (
                CategoryType::Performance,
                Ratio { num: (self.by_category.performance as i128) * 100, den: total },
            ),
        );
        r.push(
            (
                CategoryType::Style,
                Ratio { num: (self.by_category.style as i128) * 100, den: total },
            ),
        );
        r.push(
            (
                CategoryType::Documentation,
                Ratio { num: (self.by_category.documentation as i128) * 100, den: total },
            ),
        );
        r
    }

    /// The share of each priority, as an exact percentage of the priority
    /// total, in fixed priority order.
    pub fn get_priority_distribution(&self) -> (r: Vec<(Priority, Ratio)>)
        ensures
            r@.len() == 5,
            ({
                let t = self.by_priority.spec_total();
                &&& r@[0].0 == Priority::Critical
                &&& r@[0].1.num as int == (self.by_priority.critical as int) * 100
                &&& r@[0].1.den as int == t
                &&& r@[1].0 == Priority::High
                &&& r@[1].1.num as int == (self.by_priority.high as int) * 100
                &&& r@[1].1.den as int == t
                &&& r@[2].0 == Priority::Medium
                &&& r@[2].1.num as int == (self.by_priority.medium as int) * 100
                &&& r@[2].1.den as int == t
                &&& r@[3].0 == Priority::Low
                &&& r@[3].1.num as int == (self.by_priority.low as int) * 100
                &&& r@[3].1.den as int == t
                &&& r@[4].0 == Priority::Trivial
                &&& r@[4].1.num as int == (self.by_priority.trivial as int) * 100
                &&& r@[4].1.den as int == t
            }),
    {
        let total: u128 = (self.by_priority.critical as u128) + (self.by_priority.high as u128)
            + (self.by_priority.medium as u128) + (self.by_priority.low as u128)
            + (self.by_priority.trivial as u128);
        let mut r: Vec<(Priority, Ratio)> = Vec::new();
        r.push(
            (
                Priority::Critical,
                Ratio { num: (self.by_priority.critical as i128) * 100, den: total },
            ),
        );
        r.push(
            (Priority::High, Ratio { num: (self.by_priority.high as i128) * 100, den: total }),
        );
        r.push(
            (
                Priority::Medium,
                Ratio { num: (self.by_priority.medium as i128) * 100, den: total },
            ),
        );
        r.push((Priority::Low, Ratio { num: (self.by_priority.low as i128) * 100, den: total }));
        r.push(
            (
                Priority::Trivial,
                Ratio { num: (self.by_priority.trivial as i128) * 100, den: total },
            ),
        );
        r
    }
}

/// The historical totals, in order.
pub open spec fn spec_totals(hs: Seq<TrendAnalysis>) -> Seq<usize> {
    hs.map_values(|t: TrendAnalysis| t.total_warnings)
}

/// `num / den` rounded to the nearest integer, ties to the even neighbor
/// (the rounding the report formatting uses).
pub open spec fn spec_round_half_even(num: int, den: int) -> int {
    let q = num / den;
    let r = num % den;
    if 2 * r > den {
        q + 1
    } else if 2 * r < den {
        q
    } else if q % 2 == 0 {
        q
    } else {
        q + 1
    }
}

/// A count of tenths rendered with one decimal place: `123` is "12.3".
pub open spec fn spec_one_decimal(t: int) -> Seq<char> {
    spec_dec(t / 10) + "."@ + spec_dec(t % 10)
}

/// A share in tenths of a percent: `count / total * 100`, rounded to one
/// decimal place.
pub open spec fn spec_share_tenths(count: int, total: int) -> int {
    spec_round_half_even(count * 1000, total)
}

/// The insight emitted when the current run exceeds the historical
/// average by more than a fifth.
pub open spec fn spec_increase_line(cur: int, sum: int, len: int) -> Seq<char> {
    let t = if sum > 0 {
        spec_round_half_even((cur * len - sum) * 1000, sum)
    } else {
        0
    };
    "Warning count increased by "@ + spec_one_decimal(t)
        + "% compared to historical average"@
}

/// The insight emitted for a category holding a large share of a run.
pub open spec fn spec_cat_line(c: CategoryType, tenths: int) -> Seq<char> {
    "High concentration of "@ + c.spec_name() + " issues ("@ + spec_one_decimal(tenths) + "%)"@
}

/// The insight emitted for a heavy top-priority share.
pub open spec fn spec_pri_line(p: Priority, tenths: int) -> Seq<char> {
    "Significant number of "@ + p.spec_name() + " priority issues ("@ + spec_one_decimal(tenths)
        + "%)"@
}

/// The insight naming one frequently recurring issue.
pub open spec fn spec_issue_line(label: Seq<char>, count: int) -> Seq<char> {
    "Frequently occurring issue: "@ + label + " ("@ + spec_dec(count) + " occurrences)"@
}

/// The category insights: one line per category whose share of the run
/// exceeds 30 percent, in fixed category order.
pub open spec fn spec_cat_insights(t: TrendAnalysis) -> Seq<Seq<char>> {
    let total = t.by_category.spec_total();
    (if t.by_category.safety * 10 > 3 * total {
        seq![
            spec_cat_line(
                CategoryType::Safety,
                spec_share_tenths(t.by_category.safety as int, total),
            ),
        ]
    } else {
        Seq::empty()
    }) + (if t.by_category.performance * 10 > 3 * total {
        seq![
            spec_cat_line(
                CategoryType::Performance,
                spec_share_tenths(t.by_category.performance as int, total),
            ),
        ]
    } else {
        Seq::empty()
    }) + (if t.by_category.style * 10 > 3 * total {
        seq![
            spec_cat_line(
                CategoryType::Style,
                spec_share_tenths(t.by_category.style as int, total),
            ),
        ]
    } else {
        Seq::empty()
    }) + (if t.by_category.documentation * 10 > 3 * total {
        seq![
            spec_cat_line(
                CategoryType::Documentation,
                spec_share_tenths(t.by_category.documentation as int, total),
            ),
        ]
    } else {
        Seq::empty()
    })
}

/// The priority insights: one line per top priority (Critical, High)
/// whose share of the run exceeds 20 percent.
pub open spec fn spec_pri_insights(t: TrendAnalysis) -> Seq<Seq<char>> {
    let total = t.by_priority.spec_total();
    (if t.by_priority.critical * 5 > total {
        seq![
            spec_pri_line(
                Priority::Critical,
                spec_share_tenths(t.by_priority.critical as int, total),
            ),
        ]
    } else {
        Seq::empty()
    }) + (if t.by_priority.high * 5 > total {
        seq![
            spec_pri_line(Priority::High, spec_share_tenths(t.by_priority.high as int, total)),
        ]
    } else {
        Seq::empty()
    })
}

/// The recurring-issue insights, one per top issue.
pub open spec fn spec_top_insight_lines(top: Seq<(Seq<char>, usize)>) -> Seq<Seq<char>>
    decreases top.len(),
{
    if top.len() == 0 {
        Seq::empty()
    } else {
        spec_top_insight_lines(top.drop_last()) + seq![
            spec_issue_line(top.last().0, top.last().1 as int),
        ]
    }
}

/// All insights of a run against its history, in the order the report
/// shows them: the increase warning, the heavy categories, the heavy top
/// priorities, then the three most frequent recurring issues.
pub open spec fn spec_insights(cur: TrendAnalysis, hist: Seq<TrendAnalysis>) -> Seq<Seq<char>> {
    let sum = spec_sum_usizes(spec_totals(hist));
    (if hist.len() > 0 && 5 * (cur.total_warnings as int) * hist.len() > 6 * sum {
        seq![spec_increase_line(cur.total_warnings as int, sum, hist.len() as int)]
    } else {
        Seq::empty()
    }) + spec_cat_insights(cur) + spec_pri_insights(cur) + spec_top_insight_lines(
        spec_top_issues(cur.recurring_issues.entries_view(), 3),
    )
}

/// `num / den` rounded to the nearest integer, ties to even.
pub(crate) fn round_half_even_u128(num: u128, den: u128) -> (r: u128)
    requires
        den > 0,
    ensures
        r as int == spec_round_half_even(num as int, den as int),
{
    let q = num / den;
    let r = num % den;
    let diff = den - r;
    if r > diff {
        proof {
            assert((num as int) / (den as int) <= (num as int) / 2) by (nonlinear_arith)
                requires
                    den as int >= 2,
                    num as int >= 0,
            ;
        }
        q + 1
    } else if r < diff {
        q
    } else if q % 2 == 0 {
        q
    } else {
        proof {
            assert((num as int) / (den as int) <= (num as int) / 2) by (nonlinear_arith)
                requires
                    den as int >= 2,
                    num as int >= 0,
            ;
        }
        q + 1
    }
}

/// Renders a count of tenths with one decimal place.
pub(crate) fn one_decimal_string(t: u128) -> (r: String)
    ensures
        r@ == spec_one_decimal(t as int),
{
    let mut s = u128_to_string(t / 10);
    s.append(".");
    let frac = u128_to_string(t % 10);
    s.append(frac.as_str());
    s
}

/// One category's concentration insight.
fn category_share_line(c: CategoryType, count: usize, total: u128) -> (r: String)
    requires
        count as int <= total as int,
        (count as int) * 10 > 3 * (total as int),
    ensures
        r@ == spec_cat_line(c, spec_share_tenths(count as int, total as int)),
{
    let tenths = round_half_even_u128((count as u128) * 1000, total);
    let mut s = "High concentration of ".to_owned();
    s.append(c.name());
    s.append(" issues (");
    let d = one_decimal_string(tenths);
    s.append(d.as_str());
    s.append("%)");
    s
}

/// One priority's share insight.
fn priority_share_line(p: Priority, count: usize, total: u128) -> (r: String)
    requires
        count as int <= total as int,
        (count as int) * 5 > total as int,
    ensures
        r@ == spec_pri_line(p, spec_share_tenths(count as int, total as int)),
{
    let tenths = round_half_even_u128((count as u128) * 1000, total);
    let mut s = "Significant number of ".to_owned();
    s.append(p.name());
    s.append(" priority issues (");
    let d = one_decimal_string(tenths);
    s.append(d.as_str());
    s.append("%)");
    s
}


/// The warning-count increase insight for a run against its history.
fn increase_line(cur: usize, n: usize, hsum: u128) -> (r: String)
    requires
        n > 0,
        5 * (cur as int) * (n as int) > 6 * (hsum as int),
        (cur as int) * (n as int) * 1000 <= u128::MAX as int,
    ensures
        r@ == spec_increase_line(cur as int, hsum as int, n as int),
{
    proof {
        assert((cur as int) * (n as int) <= (cur as int) * (n as int) * 1000)
            by (nonlinear_arith)
            requires
                (cur as int) * (n as int) >= 0,
        ;
        assert(5 * ((cur as int) * (n as int)) > 6 * (hsum as int)) by (nonlinear_arith)
            requires
                5 * (cur as int) * (n as int) > 6 * (hsum as int),
        ;
    }
    let cl = (cur as u128) * (n as u128);
    let t: u128 = if hsum > 0 {
        round_half_even_u128((cl - hsum) * 1000, hsum)
    } else {
        0
    };
    let mut line = "Warning count increased by ".to_owned();
    let d = one_decimal_string(t);
    line.append(d.as_str());
    line.append("% compared to historical average");
    line
}

/// Derives the ordered textual insights of the current run against its
/// history, per `spec_insights`. The two bounds keep the percentage
/// arithmetic within machine range.
#[verifier::rlimit(100)]
pub fn analyze_trends(current: &TrendAnalysis, historical: &[TrendAnalysis]) -> (r: Vec<String>)
    requires
        (current.total_warnings as int) * historical@.len() * 1000 <= u128::MAX as int,
        spec_sum_usizes(spec_totals(historical@)) * 1000 <= u128::MAX as int,
    ensures
        r.deep_view() == spec_insights(*current, historical@),
{
    let ghost totals = spec_totals(historical@);
    let n = historical.len();
    let mut hsum: u128 = 0;
    let mut k: usize = 0;
    proof {
        assert(totals.take(0) =~= Seq::<usize>::empty());
        lemma_sum_usizes_le(totals);
    }
    while k < n
        invariant
            k <= n,
            n == historical@.len(),
            totals == spec_totals(historical@),
            totals.len() == n,
            hsum == spec_sum_usizes(totals.take(k as int)),
            spec_sum_usizes(totals.take(k as int)) <= (k as int) * (usize::MAX as int),
        decreases n - k,
    {
        proof {
            assert(totals.take(k + 1).drop_last() =~= totals.take(k as int));
            assert(totals.take(k + 1).last() == totals[k as int]);
            assert(totals[k as int] == historical@[k as int].total_warnings);
            assert((k as int) * (usize::MAX as int) + (usize::MAX as int) == ((k + 1) as int) * (
            usize::MAX as int)) by (nonlinear_arith);
            assert((k as int) * (usize::MAX as int) <= (u128::MAX as int) - (usize::MAX as int))
                by (nonlinear_arith)
                requires
                    0 <= k as int <= usize::MAX as int,
            ;
        }
        let v = historical[k].total_warnings;
        hsum = hsum + (v as u128);
        k += 1;
    }
    proof {
        assert(totals.take(n as int) =~= totals);
    }
    let ghost gsum = spec_sum_usizes(totals);
    let mut insights: Vec<String> = Vec::new();
    let ghost part_increase = (if historical@.len() > 0 && 5 * (current.total_warnings as int)
        * historical@.len() > 6 * gsum {
        seq![
            spec_increase_line(current.total_warnings as int, gsum, historical@.len() as int),
        ]
    } else {
        Seq::<Seq<char>>::empty()
    });
    if n > 0 {
        proof {
            assert((current.total_warnings as int) * (n as int) <= (current.total_warnings as int)
                * (n as int) * 1000) by (nonlinear_arith)
                requires
                    (current.total_warnings as int) * (n as int) >= 0,
            ;
            assert(5 * ((current.total_warnings as int) * (n as int)) <= (
            current.total_warnings as int) * (n as int) * 1000) by (nonlinear_arith)
                requires
                    (current.total_warnings as int) * (n as int) >= 0,
            ;
        }
        let cl = (current.total_warnings as u128) * (n as u128);
        proof {
            assert(5 * (current.total_warnings as int) * (n as int) == 5 * ((
            current.total_warnings as int) * (n as int))) by (nonlinear_arith);
        }
        if 5 * cl > 6 * hsum {
            let line = increase_line(current.total_warnings, n, hsum);
            proof {
                assert(line@ == spec_increase_line(current.total_warnings as int, gsum,
                    n as int));
            }
            insights.push(line);
        }
    }
    proof {
        assert(insights.deep_view() =~= part_increase);
    }
    let ghost part_cats = spec_cat_insights(*current);
    let cat_total: u128 = (current.by_category.safety as u128) + (current.by_category.performance
        as u128) + (current.by_category.style as u128) + (current.by_category.documentation
        as u128);
    if 10 * (current.by_category.safety as u128) > 3 * cat_total {
        let line = category_share_line(
            CategoryType::Safety,
            current.by_category.safety,
            cat_total,
        );
        insights.push(line);
    }
    if 10 * (current.by_category.performance as u128) > 3 * cat_total {
        let line = category_share_line(
            CategoryType::Performance,
            current.by_category.performance,
            cat_total,
        );
        insights.push(line);
    }
    if 10 * (current.by_category.style as u128) > 3 * cat_total {
        let line = category_share_line(CategoryType::Style, current.by_category.style, cat_total);
        insights.push(line);
    }
    if 10 * (current.by_category.documentation as u128) > 3 * cat_total {
        let line = category_share_line(
            CategoryType::Documentation,
            current.by_category.documentation,
            cat_total,
        );
        insights.push(line);
    }
    proof {
        assert(insights.deep_view() =~= part_increase + part_cats);
    }
    let ghost part_pris = spec_pri_insights(*current);
    let pri_total: u128 = (current.by_priority.critical as u128) + (current.by_priority.high
        as u128) + (current.by_priority.medium as u128) + (current.by_priority.low as u128) + (
    current.by_priority.trivial as u128);
    if 5 * (current.by_priority.critical as u128) > pri_total {
        let line = priority_share_line(
            Priority::Critical,
            current.by_priority.critical,
            pri_total,
        );
        insights.push(line);
    }
    if 5 * (current.by_priority.high as u128) > pri_total {
        let line = priority_share_line(Priority::High, current.by_priority.high, pri_total);
        insights.push(line);
    }
    proof {
        assert(insights.deep_view() =~= part_increase + part_cats + part_pris);
    }
    let top = current.get_top_issues(3);
    let ghost top_view = spec_top_issues(current.recurring_issues.entries_view(), 3);
    let m = top.len();
    let mut j: usize = 0;
    proof {
        assert(top_view.take(0) =~= Seq::<(Seq<char>, usize)>::empty());
        assert(insights.deep_view() + spec_top_insight_lines(top_view.take(0))
            =~= part_increase + part_cats + part_pris);
    }
    while j < m
        invariant
            j <= m,
            m == top@.len(),
            top.deep_view() == top_view,
            top_view.len() == m,
            insights.deep_view() == part_increase + part_cats + part_pris
                + spec_top_insight_lines(top_view.take(j as int)),
        decreases m - j,
    {
        proof {
            assert(top_view.take(j + 1).drop_last() =~= top_view.take(j as int));
            assert(top_view.take(j + 1).last() == top_view[j as int]);
            assert(top_view[j as int] == (top@[j as int].0@, top@[j as int].1));
        }
        let mut line = "Frequently occurring issue: ".to_owned();
        line.append(top[j].0.as_str());
        line.append(" (");
        let c = usize_to_string(top[j].1);
        line.append(c.as_str());
        line.append(" occurrences)");
        proof {
            assert(line@ =~= spec_issue_line(top_view[j as int].0, top_view[j as int].1 as int));
        }
        let ghost pre_insights = insights.deep_view();
        insights.push(line);
        proof {
            assert(insights.deep_view() =~= pre_insights.push(line@));
            assert(spec_top_insight_lines(top_view.take(j + 1)) =~= spec_top_insight_lines(
                top_view.take(j as int),
            ) + seq![spec_issue_line(top_view[j as int].0, top_view[j as int].1 as int)]);
            assert(insights.deep_view() =~= part_increase + part_cats + part_pris
                + spec_top_insight_lines(top_view.take(j + 1)));
        }
        j += 1;
    }
    proof {
        assert(top_view.take(m as int) =~= top_view);
        assert(insights.deep_view() =~= spec_insights(*current, historical@));
    }
    insights
}

} // verus!
