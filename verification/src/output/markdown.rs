use vstd::prelude::*;
use vstd::string::StringExecFns;
use crate::types::categories::CategoryType;
use crate::analysis::statistics::warning::WarningStatistics;
use crate::analysis::charts::ChartConfig;
use crate::analysis::charts::ChartStyle;
use crate::analysis::charts::create_enhanced_chart;
use crate::analysis::charts::spec_chart;
use crate::analysis::charts::spec_sum;
use crate::analysis::charts::data_view;
use crate::analysis::trends::TrendAnalysis;
use crate::analysis::trends::analyze_trends;
use crate::analysis::trends::spec_insights;
use crate::analysis::trends::spec_totals;
use crate::analysis::trends::spec_sum_usizes;
use crate::analysis::trends::spec_top_issues;
use crate::analysis::trends::spec_sort_desc;
use crate::analysis::trends::sorted_by_count_desc;
use crate::analysis::trends::spec_one_decimal;
use crate::analysis::trends::spec_share_tenths;
use crate::analysis::trends::spec_round_half_even;
use crate::analysis::trends::round_half_even_u128;
use crate::analysis::trends::one_decimal_string;
use crate::parser::warning_parser::AnalysisContext;
use crate::clock::local_timestamp_string;
use crate::text::spec_dec;
use crate::text::usize_to_string;

verus! {

/// The per-row percentage lines under a chart.
pub open spec fn spec_md_pct_lines(data: Seq<(Seq<char>, usize)>, total: int) -> Seq<char>
    decreases data.len(),
{
    if data.len() == 0 {
        Seq::empty()
    } else {
        spec_md_pct_lines(data.drop_last(), total) + "- "@ + data.last().0 + ": "@ + spec_dec(
            data.last().1 as int,
        ) + " ("@ + spec_one_decimal(spec_share_tenths(data.last().1 as int, total)) + "%)\n"@
    }
}

/// One titled chart block: the fenced chart and the detailed percentage
/// of every row.
#[verifier::opaque]
pub open spec fn spec_md_chart(title: Seq<char>, data: Seq<(Seq<char>, usize)>) -> Seq<char> {
    "#### "@ + title + "\n\n```\n"@ + spec_chart(data, ChartStyle::Blocks, 60, true)
        + "\n```\n\n"@ + spec_md_pct_lines(data, spec_sum(data)) + "\n"@
}

/// The severity rows of the summary: the categories mapped onto severity
/// labels, every row present.
pub open spec fn spec_severity_rows(st: WarningStatistics) -> Seq<(Seq<char>, usize)> {
    seq![
        ("Critical"@, st.by_category.safety),
        ("High"@, st.by_category.performance),
        ("Medium"@, st.by_category.documentation),
        ("Low"@, st.by_category.style),
    ]
}

/// The category rows of the summary, one per category with warnings, in
/// fixed category order before sorting.
pub open spec fn spec_md_cat_rows(st: WarningStatistics) -> Seq<(Seq<char>, usize)> {
    (if st.by_category.safety > 0 {
        seq![("Safety"@, st.by_category.safety)]
    } else {
        Seq::empty()
    }) + (if st.by_category.performance > 0 {
        seq![("Performance"@, st.by_category.performance)]
    } else {
        Seq::empty()
    }) + (if st.by_category.style > 0 {
        seq![("Style"@, st.by_category.style)]
    } else {
        Seq::empty()
    }) + (if st.by_category.documentation > 0 {
        seq![("Documentation"@, st.by_category.documentation)]
    } else {
        Seq::empty()
    })
}

/// The top-subcategory lines of the summary.
pub open spec fn spec_subcat_top_lines(entries: Seq<(Seq<char>, usize)>) -> Seq<char>
    decreases entries.len(),
{
    if entries.len() == 0 {
        Seq::empty()
    } else {
        spec_subcat_top_lines(entries.drop_last()) + "- "@ + entries.last().0 + ": "@
            + spec_dec(entries.last().1 as int) + " warnings\n"@
    }
}

/// The whole summary section of the markdown report.
#[verifier::opaque]
pub open spec fn spec_md_summary(st: WarningStatistics, ts: Seq<char>) -> Seq<char> {
    "## Analysis Summary\n\nTotal warnings: "@ + spec_dec(st.total_warnings as int)
        + "\nFiles affected: "@ + spec_dec(st.files_affected as int)
        + "\n\n### Warning Distribution by Severity\n\n"@ + spec_md_chart(
        "Severity Distribution"@,
        spec_severity_rows(st),
    ) + "### Warning Distribution by Category\n\n"@ + spec_md_chart(
        "Category Distribution"@,
        spec_sort_desc(spec_md_cat_rows(st)),
    ) + "### Top Warning Subcategories\n\n"@ + spec_subcat_top_lines(
        spec_top_issues(st.by_subcategory.entries_view(), 5),
    ) + "\nFor detailed fix instructions, see clippy_fix_plan_"@ + ts + ".md\n"@
}

/// The chart rows of the historical trend: one per past run, then the
/// current one.
pub open spec fn spec_trend_rows(hs: Seq<TrendAnalysis>, i: int) -> Seq<(Seq<char>, usize)>
    decreases hs.len() - i when 0 <= i <= hs.len()
{
    if i >= hs.len() {
        Seq::empty()
    } else {
        seq![("Analysis "@ + spec_dec(i + 1), hs[i].total_warnings)] + spec_trend_rows(hs, i + 1)
    }
}

/// One bullet per trend insight.
pub open spec fn spec_insight_lines(ins: Seq<Seq<char>>) -> Seq<char>
    decreases ins.len(),
{
    if ins.len() == 0 {
        Seq::empty()
    } else {
        spec_insight_lines(ins.drop_last()) + "- "@ + ins.last() + "\n"@
    }
}

/// A signed count rendered with an explicit sign.
pub open spec fn spec_signed_plus(n: int) -> Seq<char> {
    if n >= 0 {
        "+"@ + spec_dec(n)
    } else {
        "-"@ + spec_dec(-n)
    }
}

/// One risk-level change line against the last historical run.
pub open spec fn spec_change_line(c: CategoryType, cur: int, prev: int) -> Seq<char> {
    "- "@ + c.spec_name() + " issues have "@ + (if cur - prev > 0 {
        "increased"@
    } else if cur - prev < 0 {
        "decreased"@
    } else {
        "unchanged"@
    }) + " ("@ + spec_signed_plus(cur - prev) + ")\n"@
}

/// The four risk-level change lines, in severity order.
pub open spec fn spec_change_lines(t: TrendAnalysis, last: TrendAnalysis) -> Seq<char> {
    spec_change_line(
        CategoryType::Safety,
        t.by_category.safety as int,
        last.by_category.safety as int,
    ) + spec_change_line(
        CategoryType::Performance,
        t.by_category.performance as int,
        last.by_category.performance as int,
    ) + spec_change_line(
        CategoryType::Documentation,
        t.by_category.documentation as int,
        last.by_category.documentation as int,
    ) + spec_change_line(
        CategoryType::Style,
        t.by_category.style as int,
        last.by_category.style as int,
    )
}

/// The trend section when no history exists: the current run summarized
/// with its category distribution in severity order.
#[verifier::opaque]
pub open spec fn spec_md_trend_empty(t: TrendAnalysis) -> Seq<char> {
    "## Trend Analysis\n\nNo historical data available for trend analysis.\n\nCurrent Analysis Summary:\n- Total Warnings: "@
        + spec_dec(t.total_warnings as int) + "\n\nWarning Distribution:\n- "@
        + CategoryType::Safety.spec_name() + " (CRITICAL Risk): "@ + spec_dec(
        t.by_category.safety as int,
    ) + " warnings\n- "@ + CategoryType::Performance.spec_name() + " (HIGH Risk): "@ + spec_dec(
        t.by_category.performance as int,
    ) + " warnings\n- "@ + CategoryType::Documentation.spec_name() + " (MEDIUM Risk): "@
        + spec_dec(t.by_category.documentation as int) + " warnings\n- "@
        + CategoryType::Style.spec_name() + " (LOW Risk): "@ + spec_dec(
        t.by_category.style as int,
    ) + " warnings\n"@
}

/// The trend section against a nonempty history: the count chart, the
/// derived insights and the per-category changes since the last run.
#[verifier::opaque]
pub open spec fn spec_md_trend_full(t: TrendAnalysis, hs: Seq<TrendAnalysis>) -> Seq<char> {
    "## Trend Analysis\n\n### Warning Count Trends\n\n"@ + spec_md_chart(
        "Historical Trends"@,
        spec_trend_rows(hs, 0).push(("Current"@, t.total_warnings)),
    ) + "### Category Trends\n\n"@ + spec_insight_lines(spec_insights(t, hs))
        + "\n### Risk Level Changes\n\n"@ + spec_change_lines(t, hs.last())
}

/// The fixed report listing, dated with the run's timestamp.
#[verifier::opaque]
pub open spec fn spec_md_reports_list(ts: Seq<char>) -> Seq<char> {
    "\n=== Generated Reports ===\n\n📊 Generated Reports:\n\n📥 Input:\n  clippy_output.json⎯⎯▶ clippy_output.json.............. Raw Clippy warnings\n\n📋 Analysis:\n  clippy_analysis_"@
        + ts + ".md⎯⎯▶ clippy_analysis_"@ + ts + ".md...... Detailed analysis with charts\n"@
}

/// The sums of the trend chart rows: the historical totals from `i` on.
proof fn lemma_trend_rows_sum(hs: Seq<TrendAnalysis>, i: int)
    requires
        0 <= i <= hs.len(),
    ensures
        spec_sum(spec_trend_rows(hs, i)) == spec_sum_usizes(spec_totals(hs).skip(i)),
    decreases hs.len() - i,
{
    if i >= hs.len() {
        assert(spec_totals(hs).skip(i) =~= Seq::<usize>::empty());
    } else {
        lemma_trend_rows_sum(hs, i + 1);
        lemma_sum_concat_rows(
            seq![("Analysis "@ + spec_dec(i + 1), hs[i].total_warnings)],
            spec_trend_rows(hs, i + 1),
        );
        assert(spec_sum(seq![("Analysis "@ + spec_dec(i + 1), hs[i].total_warnings)])
            == hs[i].total_warnings as int) by {
            let s = seq![("Analysis "@ + spec_dec(i + 1), hs[i].total_warnings)];
            assert(s.drop_last() =~= Seq::<(Seq<char>, usize)>::empty());
            assert(spec_sum(Seq::<(Seq<char>, usize)>::empty()) == 0);
        }
        lemma_sum_usizes_suffix(spec_totals(hs), i);
    }
}

proof fn lemma_sum_usizes_suffix(ts: Seq<usize>, i: int)
    requires
        0 <= i < ts.len(),
    ensures
        spec_sum_usizes(ts.skip(i)) == ts[i] + spec_sum_usizes(ts.skip(i + 1)),
{
    let s = ts.skip(i);
    lemma_sum_usizes_first(s);
    assert(s.drop_first() =~= ts.skip(i + 1));
    assert(s[0] == ts[i]);
}

proof fn lemma_sum_usizes_first(s: Seq<usize>)
    requires
        s.len() > 0,
    ensures
        spec_sum_usizes(s) == s[0] + spec_sum_usizes(s.drop_first()),
    decreases s.len(),
{
    if s.len() == 1 {
        assert(s.drop_last() =~= Seq::<usize>::empty());
        assert(s.drop_first() =~= Seq::<usize>::empty());
        assert(spec_sum_usizes(Seq::<usize>::empty()) == 0);
        assert(s.last() == s[0]);
    } else {
        lemma_sum_usizes_first(s.drop_last());
        assert(s.drop_last()[0] == s[0]);
        assert(s.drop_last().drop_first() =~= s.drop_first().drop_last());
        assert(s.drop_first().last() == s.last());
    }
}

proof fn lemma_sum_concat_rows(a: Seq<(Seq<char>, usize)>, b: Seq<(Seq<char>, usize)>)
    ensures
        spec_sum(a + b) == spec_sum(a) + spec_sum(b),
    decreases b.len(),
{
    if b.len() == 0 {
        assert(a + b =~= a);
    } else {
        assert((a + b).drop_last() =~= a + b.drop_last());
        assert((a + b).last() == b.last());
        lemma_sum_concat_rows(a, b.drop_last());
    }
}

/// The sum of a row sequence is invariant under removing one row's value.
proof fn lemma_sum_remove(s: Seq<(Seq<char>, usize)>, i: int)
    requires
        0 <= i < s.len(),
    ensures
        spec_sum(s.remove(i)) == spec_sum(s) - s[i].1,
    decreases s.len(),
{
    if i == s.len() - 1 {
        assert(s.remove(i) =~= s.drop_last());
    } else {
        assert(s.remove(i).drop_last() =~= s.drop_last().remove(i));
        assert(s.remove(i).last() == s.last());
        lemma_sum_remove(s.drop_last(), i);
        assert(s.drop_last()[i] == s[i]);
    }
}

/// Sorting the rows by count keeps their sum.
proof fn lemma_sum_sort(s: Seq<(Seq<char>, usize)>)
    ensures
        spec_sum(spec_sort_desc(s)) == spec_sum(s),
    decreases s.len(),
{
    if s.len() > 0 {
        crate::analysis::trends::lemma_first_max(s);
        let m = crate::analysis::trends::spec_first_max(s);
        lemma_sum_remove(s, m);
        lemma_sum_sort(s.remove(m));
        lemma_sum_concat_rows(seq![s[m]], spec_sort_desc(s.remove(m)));
        assert(spec_sum(seq![s[m]]) == s[m].1 as int) by {
            assert(seq![s[m]].drop_last() =~= Seq::<(Seq<char>, usize)>::empty());
            assert(spec_sum(Seq::<(Seq<char>, usize)>::empty()) == 0);
        }
    }
}

/// Assembles the markdown analysis report into a text buffer.
pub struct MarkdownWriter {
    pub out: String,
}

impl MarkdownWriter {
    pub fn new() -> (r: Self)
        ensures
            r.out@ =~= Seq::empty(),
    {
        MarkdownWriter { out: String::new() }
    }

    /// The report's top-level title.
    pub fn write_header(&mut self, title: &str)
        ensures
            final(self).out@ == old(self).out@ + "# "@ + title@ + "\n\n"@,
    {
        self.out.append("# ");
        self.out.append(title);
        self.out.append("\n\n");
    }

    /// One titled chart with detailed percentages. The rows must not sum
    /// to zero, else the percentages are undefined.
    #[verifier::rlimit(100)]
    pub fn write_chart(&mut self, title: &str, data: &[(String, usize)])
        requires
            spec_sum(data_view(data@)) > 0,
        ensures
            final(self).out@ == old(self).out@ + spec_md_chart(title@, data_view(data@)),
    {
        proof {
            reveal(spec_md_chart);
        }
        self.out.append("#### ");
        self.out.append(title);
        self.out.append("\n\n```\n");
        let ghost rows = data_view(data@);
        let config = ChartConfig {
            style: ChartStyle::Blocks,
            color: None,
            width: 60,
            show_percentage: true,
        };
        let chart = create_enhanced_chart(data, config);
        self.out.append(chart.as_str());
        self.out.append("\n```\n\n");
        let total = sum_of_rows(data);
        let ghost head = self.out@;
        let n = data.len();
        let mut k: usize = 0;
        proof {
            assert(rows.take(0) =~= Seq::<(Seq<char>, usize)>::empty());
            assert(self.out@ =~= head + spec_md_pct_lines(rows.take(0), spec_sum(rows)));
        }
        while k < n
            invariant
                k <= n,
                n == data@.len(),
                rows == data_view(data@),
                rows.len() == n,
                total == spec_sum(rows),
                total > 0,
                self.out@ == head + spec_md_pct_lines(rows.take(k as int), spec_sum(rows)),
            decreases n - k,
        {
            proof {
                assert(rows.take(k + 1).drop_last() =~= rows.take(k as int));
                assert(rows.take(k + 1).last() == rows[k as int]);
                assert(rows[k as int] == (data@[k as int].0@, data@[k as int].1));
            }
            self.out.append("- ");
            self.out.append(data[k].0.as_str());
            self.out.append(": ");
            let c = usize_to_string(data[k].1);
            self.out.append(c.as_str());
            self.out.append(" (");
            let tenths = round_half_even_u128((data[k].1 as u128) * 1000, total);
            let d = one_decimal_string(tenths);
            self.out.append(d.as_str());
            self.out.append("%)\n");
            proof {
                assert(self.out@ =~= head + spec_md_pct_lines(rows.take(k + 1), spec_sum(rows)));
            }
            k += 1;
        }
        self.out.append("\n");
        proof {
            assert(rows.take(n as int) =~= rows);
            assert(final(self).out@ =~= old(self).out@ + spec_md_chart(title@, rows));
        }
    }

    /// The analysis summary: totals, the severity and category
    /// distributions as charts, and the five most frequent subcategories.
    /// The aggregate must count at least one warning and be consistent,
    /// else the chart shares are undefined.
    #[verifier::rlimit(100)]
    pub fn write_summary(&mut self, stats: &WarningStatistics, timestamp: &str)
        requires
            stats.by_category.spec_total() > 0,
        ensures
            final(self).out@ == old(self).out@ + spec_md_summary(*stats, timestamp@),
    {
        proof {
            reveal(spec_md_summary);
        }
        self.out.append("## Analysis Summary\n\nTotal warnings: ");
        let t = usize_to_string(stats.total_warnings);
        self.out.append(t.as_str());
        self.out.append("\nFiles affected: ");
        let f = usize_to_string(stats.files_affected);
        self.out.append(f.as_str());
        self.out.append("\n\n### Warning Distribution by Severity\n\n");
        let mut severity_data: Vec<(String, usize)> = Vec::new();
        severity_data.push(("Critical".to_owned(), stats.by_category.safety));
        severity_data.push(("High".to_owned(), stats.by_category.performance));
        severity_data.push(("Medium".to_owned(), stats.by_category.documentation));
        severity_data.push(("Low".to_owned(), stats.by_category.style));
        proof {
            assert(data_view(severity_data@) =~= spec_severity_rows(*stats));
            lemma_severity_rows_sum(*stats);
        }
        self.write_chart("Severity Distribution", severity_data.as_slice());
        self.out.append("### Warning Distribution by Category\n\n");
        let mut category_data: Vec<(String, usize)> = Vec::new();
        if stats.by_category.safety > 0 {
            category_data.push(("Safety".to_owned(), stats.by_category.safety));
        }
        if stats.by_category.performance > 0 {
            category_data.push(("Performance".to_owned(), stats.by_category.performance));
        }
        if stats.by_category.style > 0 {
            category_data.push(("Style".to_owned(), stats.by_category.style));
        }
        if stats.by_category.documentation > 0 {
            category_data.push(("Documentation".to_owned(), stats.by_category.documentation));
        }
        proof {
            assert(data_view(category_data@) =~= spec_md_cat_rows(*stats));
            assert(category_data.deep_view() =~= data_view(category_data@));
            lemma_md_cat_rows_sum(*stats);
            lemma_sum_sort(spec_md_cat_rows(*stats));
        }
        let sorted = sorted_by_count_desc(&category_data);
        proof {
            assert(sorted.deep_view() == spec_sort_desc(spec_md_cat_rows(*stats)));
            assert(data_view(sorted@) =~= sorted.deep_view());
            assert(spec_sum(data_view(sorted@)) == spec_sum(spec_md_cat_rows(*stats)));
        }
        self.write_chart("Category Distribution", sorted.as_slice());
        self.out.append("### Top Warning Subcategories\n\n");
        let top = top_subcategories(stats);
        let ghost tops = spec_top_issues(stats.by_subcategory.entries_view(), 5);
        let ghost head = self.out@;
        let n = top.len();
        let mut k: usize = 0;
        proof {
            assert(tops.take(0) =~= Seq::<(Seq<char>, usize)>::empty());
            assert(self.out@ =~= head + spec_subcat_top_lines(tops.take(0)));
        }
        while k < n
            invariant
                k <= n,
                n == top@.len(),
                top.deep_view() == tops,
                tops.len() == n,
                self.out@ == head + spec_subcat_top_lines(tops.take(k as int)),
            decreases n - k,
        {
            proof {
                assert(tops.take(k + 1).drop_last() =~= tops.take(k as int));
                assert(tops.take(k + 1).last() == tops[k as int]);
                assert(top.deep_view()[k as int] == (top@[k as int].0@, top@[k as int].1));
            }
            self.out.append("- ");
            self.out.append(top[k].0.as_str());
            self.out.append(": ");
            let c = usize_to_string(top[k].1);
            self.out.append(c.as_str());
            self.out.append(" warnings\n");
            proof {
                assert(self.out@ =~= head + spec_subcat_top_lines(tops.take(k + 1)));
            }
            k += 1;
        }
        self.out.append("\nFor detailed fix instructions, see clippy_fix_plan_");
        self.out.append(timestamp);
        self.out.append(".md\n");
        proof {
            assert(tops.take(n as int) =~= tops);
            assert(final(self).out@ =~= old(self).out@ + spec_md_summary(*stats, timestamp@));
        }
    }
}

/// The five most frequent subcategories of an aggregate.
fn top_subcategories(stats: &WarningStatistics) -> (r: Vec<(String, usize)>)
    ensures
        r.deep_view() == spec_top_issues(stats.by_subcategory.entries_view(), 5),
{
    let pairs = stats.by_subcategory.pairs();
    let mut sorted = sorted_by_count_desc(&pairs);
    let ghost full = sorted.deep_view();
    if 5 <= sorted.len() {
        sorted.truncate(5);
        proof {
            assert(sorted.deep_view() =~= full.take(5));
        }
    }
    sorted
}

/// The exec sum of a row slice.
fn sum_of_rows(data: &[(String, usize)]) -> (r: u128)
    ensures
        r as int == spec_sum(data_view(data@)),
{
    let ghost rows = data_view(data@);
    let n = data.len();
    let mut total: u128 = 0;
    let mut k: usize = 0;
    proof {
        assert(rows.take(0) =~= Seq::<(Seq<char>, usize)>::empty());
        crate::analysis::charts::lemma_sum_le(rows);
    }
    while k < n
        invariant
            k <= n,
            n == data@.len(),
            rows == data_view(data@),
            rows.len() == n,
            total == spec_sum(rows.take(k as int)),
            spec_sum(rows.take(k as int)) <= (k as int) * (usize::MAX as int),
        decreases n - k,
    {
        proof {
            assert(rows.take(k + 1).drop_last() =~= rows.take(k as int));
            assert(rows.take(k + 1).last() == rows[k as int]);
            assert(rows[k as int].1 == data@[k as int].1);
            assert((k as int) * (usize::MAX as int) + (usize::MAX as int) == ((k + 1) as int) * (
            usize::MAX as int)) by (nonlinear_arith);
            assert((k as int) * (usize::MAX as int) <= (u128::MAX as int) - (usize::MAX as int))
                by (nonlinear_arith)
                requires
                    0 <= k as int <= usize::MAX as int,
            ;
        }
        let v = data[k].1;
        total = total + (v as u128);
        k += 1;
    }
    proof {
        assert(rows.take(n as int) =~= rows);
    }
    total
}

/// The severity rows sum to the category total.
proof fn lemma_severity_rows_sum(st: WarningStatistics)
    ensures
        spec_sum(spec_severity_rows(st)) == st.by_category.spec_total(),
{
    let rows = spec_severity_rows(st);
    assert(spec_sum(rows) == spec_sum(rows.drop_last()) + rows.last().1);
    assert(spec_sum(rows.drop_last()) == spec_sum(rows.drop_last().drop_last())
        + rows.drop_last().last().1);
    assert(spec_sum(rows.drop_last().drop_last()) == spec_sum(
        rows.drop_last().drop_last().drop_last(),
    ) + rows.drop_last().drop_last().last().1);
    assert(spec_sum(rows.drop_last().drop_last().drop_last()) == spec_sum(
        rows.drop_last().drop_last().drop_last().drop_last(),
    ) + rows.drop_last().drop_last().drop_last().last().1);
    assert(rows.drop_last().drop_last().drop_last().drop_last() =~= Seq::<
        (Seq<char>, usize),
    >::empty());
    assert(spec_sum(Seq::<(Seq<char>, usize)>::empty()) == 0);
}

/// The category rows sum to the category total.
proof fn lemma_md_cat_rows_sum(st: WarningStatistics)
    ensures
        spec_sum(spec_md_cat_rows(st)) == st.by_category.spec_total(),
{
    let r1: Seq<(Seq<char>, usize)> = if st.by_category.safety > 0 {
        seq![("Safety"@, st.by_category.safety)]
    } else {
        Seq::empty()
    };
    let r2: Seq<(Seq<char>, usize)> = if st.by_category.performance > 0 {
        seq![("Performance"@, st.by_category.performance)]
    } else {
        Seq::empty()
    };
    let r3: Seq<(Seq<char>, usize)> = if st.by_category.style > 0 {
        seq![("Style"@, st.by_category.style)]
    } else {
        Seq::empty()
    };
    let r4: Seq<(Seq<char>, usize)> = if st.by_category.documentation > 0 {
        seq![("Documentation"@, st.by_category.documentation)]
    } else {
        Seq::empty()
    };
    assert(spec_sum(Seq::<(Seq<char>, usize)>::empty()) == 0);
    assert(spec_sum(r1) == st.by_category.safety || st.by_category.safety == 0) by {
        if st.by_category.safety > 0 {
            assert(r1.drop_last() =~= Seq::<(Seq<char>, usize)>::empty());
            assert(spec_sum(r1) == spec_sum(r1.drop_last()) + r1.last().1);
        }
    }
    assert(spec_sum(r2) == st.by_category.performance || st.by_category.performance == 0) by {
        if st.by_category.performance > 0 {
            assert(r2.drop_last() =~= Seq::<(Seq<char>, usize)>::empty());
            assert(spec_sum(r2) == spec_sum(r2.drop_last()) + r2.last().1);
        }
    }
    assert(spec_sum(r3) == st.by_category.style || st.by_category.style == 0) by {
        if st.by_category.style > 0 {
            assert(r3.drop_last() =~= Seq::<(Seq<char>, usize)>::empty());
            assert(spec_sum(r3) == spec_sum(r3.drop_last()) + r3.last().1);
        }
    }
    assert(spec_sum(r4) == st.by_category.documentation || st.by_category.documentation == 0)
        by {
        if st.by_category.documentation > 0 {
            assert(r4.drop_last() =~= Seq::<(Seq<char>, usize)>::empty());
            assert(spec_sum(r4) == spec_sum(r4.drop_last()) + r4.last().1);
        }
    }
    lemma_sum_concat_rows(r1, r2);
    lemma_sum_concat_rows(r1 + r2, r3);
    lemma_sum_concat_rows(r1 + r2 + r3, r4);
    assert(spec_md_cat_rows(st) == r1 + r2 + r3 + r4);
}

/// The crate build-info facts of a context stream: each artifact's crate
/// name with its feature count.
pub open spec fn spec_crate_infos(ctx: Seq<AnalysisContext>) -> Seq<(Seq<char>, usize)>
    decreases ctx.len(),
{
    if ctx.len() == 0 {
        Seq::empty()
    } else {
        spec_crate_infos(ctx.drop_last()) + (match ctx.last() {
            AnalysisContext::BuildInfo { crate_name, features, .. } => seq![
                (crate_name@, features.len() as usize),
            ],
            _ => Seq::empty(),
        })
    }
}

/// The distinct crate names, by first appearance.
pub open spec fn spec_distinct_crates(infos: Seq<(Seq<char>, usize)>) -> Seq<Seq<char>>
    decreases infos.len(),
{
    if infos.len() == 0 {
        Seq::empty()
    } else {
        let rest = spec_distinct_crates(infos.drop_last());
        if rest.contains(infos.last().0) {
            rest
        } else {
            rest.push(infos.last().0)
        }
    }
}

/// The total feature count recorded for one crate.
pub open spec fn spec_feat_sum(infos: Seq<(Seq<char>, usize)>, name: Seq<char>) -> int
    decreases infos.len(),
{
    if infos.len() == 0 {
        0
    } else {
        spec_feat_sum(infos.drop_last(), name) + (if infos.last().0 == name {
            infos.last().1 as int
        } else {
            0
        })
    }
}

/// How many artifacts one crate contributed.
pub open spec fn spec_feat_count(infos: Seq<(Seq<char>, usize)>, name: Seq<char>) -> int
    decreases infos.len(),
{
    if infos.len() == 0 {
        0
    } else {
        spec_feat_count(infos.drop_last(), name) + (if infos.last().0 == name {
            1int
        } else {
            0
        })
    }
}

proof fn lemma_feat_bounds(infos: Seq<(Seq<char>, usize)>, name: Seq<char>)
    ensures
        0 <= spec_feat_count(infos, name) <= infos.len(),
        0 <= spec_feat_sum(infos, name) <= spec_feat_count(infos, name) * (usize::MAX as int),
    decreases infos.len(),
{
    if infos.len() > 0 {
        lemma_feat_bounds(infos.drop_last(), name);
        if infos.last().0 == name {
            assert((spec_feat_count(infos.drop_last(), name)) * (usize::MAX as int) + (
            usize::MAX as int) == (spec_feat_count(infos.drop_last(), name) + 1) * (
            usize::MAX as int)) by (nonlinear_arith);
        }
    }
}

/// Every distinct crate name contributed at least one artifact.
proof fn lemma_distinct_crate_has(infos: Seq<(Seq<char>, usize)>, name: Seq<char>)
    requires
        spec_distinct_crates(infos).contains(name),
    ensures
        spec_feat_count(infos, name) >= 1,
    decreases infos.len(),
{
    if infos.len() > 0 {
        lemma_feat_bounds(infos.drop_last(), name);
        let rest = spec_distinct_crates(infos.drop_last());
        if infos.last().0 == name {
        } else {
            if rest.contains(name) {
                lemma_distinct_crate_has(infos.drop_last(), name);
            } else {
                assert(spec_distinct_crates(infos) == rest.push(infos.last().0));
                assert forall|i: int|
                    0 <= i < spec_distinct_crates(infos).len() && spec_distinct_crates(infos)[i]
                        == name implies false by {
                    if i < rest.len() {
                        assert(rest[i] == name);
                    }
                }
            }
        }
    }
}

/// One crate's average-features line.
pub open spec fn spec_crate_line(name: Seq<char>, sum: int, count: int) -> Seq<char> {
    "- "@ + name + ": "@ + spec_one_decimal(spec_round_half_even(10 * sum, count))
        + " features on average\n"@
}

/// The per-crate lines of the build overview, one per distinct crate.
pub open spec fn spec_crate_lines(
    infos: Seq<(Seq<char>, usize)>,
    names: Seq<Seq<char>>,
) -> Seq<char>
    decreases names.len(),
{
    if names.len() == 0 {
        Seq::empty()
    } else {
        spec_crate_lines(infos, names.drop_last()) + spec_crate_line(
            names.last(),
            spec_feat_sum(infos, names.last()),
            spec_feat_count(infos, names.last()),
        )
    }
}

/// The build-configuration section of the report.
#[verifier::opaque]
pub open spec fn spec_md_build_info(ctx: Seq<AnalysisContext>) -> Seq<char> {
    "## Build Configuration Analysis\n\n### Build Complexity Overview\n\n"@
        + spec_crate_lines(
        spec_crate_infos(ctx),
        spec_distinct_crates(spec_crate_infos(ctx)),
    )
}

/// `10 * sum / count` rounded to the nearest integer, ties to even,
/// computed without forming the big product.
fn avg_tenths(sum: u128, count: u128) -> (r: u128)
    requires
        count > 0,
        count <= usize::MAX as u128,
        sum as int <= (count as int) * (usize::MAX as int),
    ensures
        r as int == spec_round_half_even(10 * (sum as int), count as int),
{
    let q = sum / count;
    let rem = sum % count;
    proof {
        assert(q as int <= usize::MAX as int) by (nonlinear_arith)
            requires
                count as int > 0,
                sum as int <= (count as int) * (usize::MAX as int),
                q as int == (sum as int) / (count as int),
        ;
    }
    let t10 = 10 * rem;
    let q2 = t10 / count;
    let r2 = t10 % count;
    proof {
        assert(q2 <= 10) by (nonlinear_arith)
            requires
                count as int > 0,
                (rem as int) < (count as int),
                q2 as int == (10 * (rem as int)) / (count as int),
        ;
    }
    let fq = 10 * q + q2;
    proof {
        assert(sum as int == (q as int) * (count as int) + (rem as int)) by (nonlinear_arith)
            requires
                count as int > 0,
                q as int == (sum as int) / (count as int),
                rem as int == (sum as int) % (count as int),
        ;
        assert(10 * (rem as int) == (q2 as int) * (count as int) + (r2 as int))
            by (nonlinear_arith)
            requires
                count as int > 0,
                q2 as int == (t10 as int) / (count as int),
                r2 as int == (t10 as int) % (count as int),
                t10 as int == 10 * (rem as int),
        ;
        assert(10 * (sum as int) == (fq as int) * (count as int) + (r2 as int))
            by (nonlinear_arith)
            requires
                count as int > 0,
                sum as int == (q as int) * (count as int) + (rem as int),
                10 * (rem as int) == (q2 as int) * (count as int) + (r2 as int),
                fq as int == 10 * (q as int) + (q2 as int),
        ;
        assert((10 * (sum as int)) / (count as int) == fq as int && (10 * (sum as int)) % (
        count as int) == r2 as int) by (nonlinear_arith)
            requires
                count as int > 0,
                0 <= r2 as int && (r2 as int) < (count as int),
                10 * (sum as int) == (fq as int) * (count as int) + (r2 as int),
        ;
    }
    let diff = count - r2;
    if r2 > diff {
        fq + 1
    } else if r2 < diff {
        fq
    } else if fq % 2 == 0 {
        fq
    } else {
        fq + 1
    }
}

impl MarkdownWriter {
    /// The build-configuration overview: the average feature count of
    /// each crate the artifact records mention.
    #[verifier::rlimit(100)]
    pub fn write_build_info(&mut self, context: &[AnalysisContext])
        ensures
            final(self).out@ == old(self).out@ + spec_md_build_info(context@),
    {
        proof {
            reveal(spec_md_build_info);
        }
        self.out.append("## Build Configuration Analysis\n\n### Build Complexity Overview\n\n");
        let ghost all = spec_crate_infos(context@);
        let mut infos: Vec<(String, usize)> = Vec::new();
        let n = context.len();
        let mut i: usize = 0;
        proof {
            assert(context@.take(0) =~= Seq::<AnalysisContext>::empty());
            assert(infos.deep_view() =~= spec_crate_infos(context@.take(0)));
        }
        while i < n
            invariant
                i <= n,
                n == context@.len(),
                infos.deep_view() == spec_crate_infos(context@.take(i as int)),
            decreases n - i,
        {
            proof {
                assert(context@.take(i + 1).drop_last() =~= context@.take(i as int));
                assert(context@.take(i + 1).last() == context@[i as int]);
            }
            match &context[i] {
                AnalysisContext::BuildInfo { crate_name, features, .. } => {
                    let ghost pre = infos.deep_view();
                    let name = crate_name.clone();
                    let flen = features.len();
                    infos.push((name, flen));
                    proof {
                        assert(infos.deep_view() =~= pre.push(
                            (context@[i as int]->BuildInfo_crate_name@, flen),
                        ));
                        assert(infos.deep_view() =~= spec_crate_infos(context@.take(i + 1)));
                    }
                },
                _ => {
                    proof {
                        assert(infos.deep_view() =~= spec_crate_infos(context@.take(i + 1)));
                    }
                },
            }
            i += 1;
        }
        proof {
            assert(context@.take(n as int) =~= context@);
        }
        let mut names: Vec<String> = Vec::new();
        let m = infos.len();
        let mut k: usize = 0;
        proof {
            assert(all.take(0) =~= Seq::<(Seq<char>, usize)>::empty());
            assert(names.deep_view() =~= spec_distinct_crates(all.take(0)));
        }
        while k < m
            invariant
                k <= m,
                m == infos@.len(),
                infos.deep_view() == all,
                all.len() == m,
                names.deep_view() == spec_distinct_crates(all.take(k as int)),
            decreases m - k,
        {
            proof {
                assert(all.take(k + 1).drop_last() =~= all.take(k as int));
                assert(all.take(k + 1).last() == all[k as int]);
                assert(all[k as int] == (infos@[k as int].0@, infos@[k as int].1));
            }
            if !md_contains_string(&names, infos[k].0.as_str()) {
                let ghost pre = names.deep_view();
                let nm = infos[k].0.clone();
                names.push(nm);
                proof {
                    assert(names.deep_view() =~= pre.push(infos@[k as int].0@));
                }
            }
            k += 1;
        }
        proof {
            assert(all.take(m as int) =~= all);
        }
        let ghost nms = spec_distinct_crates(all);
        let ghost head = self.out@;
        let c = names.len();
        let mut j: usize = 0;
        proof {
            assert(nms.take(0) =~= Seq::<Seq<char>>::empty());
            assert(self.out@ =~= head + spec_crate_lines(all, nms.take(0)));
        }
        while j < c
            invariant
                j <= c,
                c == names@.len(),
                names.deep_view() == nms,
                nms == spec_distinct_crates(all),
                nms.len() == c,
                infos.deep_view() == all,
                infos@.len() == all.len(),
                self.out@ == head + spec_crate_lines(all, nms.take(j as int)),
            decreases c - j,
        {
            proof {
                assert(nms.take(j + 1).drop_last() =~= nms.take(j as int));
                assert(nms.take(j + 1).last() == nms[j as int]);
                assert(names.deep_view()[j as int] == names@[j as int]@);
                assert(nms.contains(nms[j as int]));
                lemma_distinct_crate_has(all, nms[j as int]);
                lemma_feat_bounds(all, nms[j as int]);
            }
            let (sum, count) = feat_totals(&infos, names[j].as_str());

            self.out.append("- ");
            self.out.append(names[j].as_str());
            self.out.append(": ");
            let tenths = avg_tenths(sum, count);
            let d = one_decimal_string(tenths);
            self.out.append(d.as_str());
            self.out.append(" features on average\n");
            proof {
                assert(self.out@ =~= head + spec_crate_lines(all, nms.take(j + 1)));
            }
            j += 1;
        }
        proof {
            assert(nms.take(c as int) =~= nms);
        }
    }

    /// The trend section: a summary of the current run when no history
    /// exists, else the count chart, insights and per-category changes.
    /// The bounds keep the insight arithmetic in machine range; with a
    /// nonempty history the counts must not all be zero, else the chart's
    /// shares are undefined.
    #[verifier::rlimit(100)]
    pub fn write_trend_analysis(&mut self, trends: &TrendAnalysis, historical: &[TrendAnalysis])
        requires
            historical@.len() > 0 ==> trends.total_warnings + spec_sum_usizes(
                spec_totals(historical@),
            ) > 0,
            (trends.total_warnings as int) * historical@.len() * 1000 <= u128::MAX as int,
            spec_sum_usizes(spec_totals(historical@)) * 1000 <= u128::MAX as int,
        ensures
            historical@.len() == 0 ==> final(self).out@ == old(self).out@ + spec_md_trend_empty(
                *trends,
            ),
            historical@.len() > 0 ==> final(self).out@ == old(self).out@ + spec_md_trend_full(
                *trends,
                historical@,
            ),
    {
        if historical.len() == 0 {
            proof {
                reveal(spec_md_trend_empty);
            }
            self.out.append(
                "## Trend Analysis\n\nNo historical data available for trend analysis.\n\nCurrent Analysis Summary:\n- Total Warnings: ",
            );
            let t = usize_to_string(trends.total_warnings);
            self.out.append(t.as_str());
            self.out.append("\n\nWarning Distribution:\n- ");
            self.out.append(CategoryType::Safety.name());
            self.out.append(" (CRITICAL Risk): ");
            let cnt_safety = usize_to_string(trends.by_category.safety);
            self.out.append(cnt_safety.as_str());
            self.out.append(" warnings\n- ");
            self.out.append(CategoryType::Performance.name());
            self.out.append(" (HIGH Risk): ");
            let cnt_performance = usize_to_string(trends.by_category.performance);
            self.out.append(cnt_performance.as_str());
            self.out.append(" warnings\n- ");
            self.out.append(CategoryType::Documentation.name());
            self.out.append(" (MEDIUM Risk): ");
            let cnt_documentation = usize_to_string(trends.by_category.documentation);
            self.out.append(cnt_documentation.as_str());
            self.out.append(" warnings\n- ");
            self.out.append(CategoryType::Style.name());
            self.out.append(" (LOW Risk): ");
            let cnt_style = usize_to_string(trends.by_category.style);
            self.out.append(cnt_style.as_str());
            self.out.append(" warnings\n");
            proof {
                assert(final(self).out@ =~= old(self).out@ + spec_md_trend_empty(*trends));
            }
        } else {
            proof {
                reveal(spec_md_trend_full);
            }
            self.out.append("## Trend Analysis\n\n### Warning Count Trends\n\n");
            let ghost rows = spec_trend_rows(historical@, 0).push(
                ("Current"@, trends.total_warnings),
            );
            let mut trend_data: Vec<(String, usize)> = Vec::new();
            let n = historical.len();
            let mut i: usize = 0;
            proof {
                assert(trend_data.deep_view() + spec_trend_rows(historical@, 0)
                    =~= spec_trend_rows(historical@, 0));
            }
            while i < n
                invariant
                    i <= n,
                    n == historical@.len(),
                    trend_data.deep_view() + spec_trend_rows(historical@, i as int)
                        == spec_trend_rows(historical@, 0),
                decreases n - i,
            {
                let ghost pre = trend_data.deep_view();
                let mut label = "Analysis ".to_owned();
                let num = usize_to_string(i + 1);
                label.append(num.as_str());
                let total = historical[i].total_warnings;
                trend_data.push((label, total));
                proof {
                    assert(trend_data.deep_view() =~= pre.push(
                        ("Analysis "@ + spec_dec(i + 1), total),
                    ));
                    assert(pre.push(("Analysis "@ + spec_dec(i + 1), total)) + spec_trend_rows(
                        historical@,
                        i + 1,
                    ) =~= pre + (seq![("Analysis "@ + spec_dec(i + 1), total)] + spec_trend_rows(
                        historical@,
                        i + 1,
                    )));
                }
                i += 1;
            }
            proof {
                assert(spec_trend_rows(historical@, n as int) =~= Seq::<(Seq<char>, usize)>::empty());
                assert(trend_data.deep_view() + Seq::<(Seq<char>, usize)>::empty()
                    =~= trend_data.deep_view());
            }
            let ghost pre2 = trend_data.deep_view();
            let cur = ("Current".to_owned(), trends.total_warnings);
            trend_data.push(cur);
            proof {
                assert(trend_data.deep_view() =~= rows);
                assert(data_view(trend_data@) =~= trend_data.deep_view());
                lemma_trend_rows_sum(historical@, 0);
                assert(spec_totals(historical@).skip(0) =~= spec_totals(historical@));
                lemma_sum_concat_rows(
                    spec_trend_rows(historical@, 0),
                    seq![("Current"@, trends.total_warnings)],
                );
                assert(rows =~= spec_trend_rows(historical@, 0) + seq![
                    ("Current"@, trends.total_warnings),
                ]);
                assert(spec_sum(seq![("Current"@, trends.total_warnings)])
                    == trends.total_warnings as int) by {
                    let s = seq![("Current"@, trends.total_warnings)];
                    assert(s.drop_last() =~= Seq::<(Seq<char>, usize)>::empty());
                    assert(spec_sum(Seq::<(Seq<char>, usize)>::empty()) == 0);
                }
            }
            self.write_chart("Historical Trends", trend_data.as_slice());
            self.out.append("### Category Trends\n\n");
            let insights = analyze_trends(trends, historical);
            let ghost ins = spec_insights(*trends, historical@);
            let ghost head = self.out@;
            let m = insights.len();
            let mut k: usize = 0;
            proof {
                assert(ins.take(0) =~= Seq::<Seq<char>>::empty());
                assert(self.out@ =~= head + spec_insight_lines(ins.take(0)));
            }
            while k < m
                invariant
                    k <= m,
                    m == insights@.len(),
                    insights.deep_view() == ins,
                    ins.len() == m,
                    self.out@ == head + spec_insight_lines(ins.take(k as int)),
                decreases m - k,
            {
                proof {
                    assert(ins.take(k + 1).drop_last() =~= ins.take(k as int));
                    assert(ins.take(k + 1).last() == ins[k as int]);
                    assert(insights.deep_view()[k as int] == insights@[k as int]@);
                }
                self.out.append("- ");
                self.out.append(insights[k].as_str());
                self.out.append("\n");
                proof {
                    assert(self.out@ =~= head + spec_insight_lines(ins.take(k + 1)));
                }
                k += 1;
            }
            proof {
                assert(ins.take(m as int) =~= ins);
            }
            self.out.append("\n### Risk Level Changes\n\n");
            let last = &historical[historical.len() - 1];
            proof {
                assert(*last == historical@.last());
            }
            self.append_change_line(CategoryType::Safety, trends.by_category.safety,
                last.by_category.safety);
            self.append_change_line(CategoryType::Performance, trends.by_category.performance,
                last.by_category.performance);
            self.append_change_line(CategoryType::Documentation,
                trends.by_category.documentation, last.by_category.documentation);
            self.append_change_line(CategoryType::Style, trends.by_category.style,
                last.by_category.style);
            proof {
                assert(final(self).out@ =~= old(self).out@ + spec_md_trend_full(
                    *trends,
                    historical@,
                ));
            }
        }
    }

    /// One risk-level change line.
    fn append_change_line(&mut self, c: CategoryType, cur: usize, prev: usize)
        ensures
            final(self).out@ == old(self).out@ + spec_change_line(c, cur as int, prev as int),
    {
        self.out.append("- ");
        self.out.append(c.name());
        self.out.append(" issues have ");
        if cur > prev {
            self.out.append("increased");
        } else if cur < prev {
            self.out.append("decreased");
        } else {
            self.out.append("unchanged");
        }
        self.out.append(" (");
        if cur >= prev {
            self.out.append("+");
            let d = usize_to_string(cur - prev);
            self.out.append(d.as_str());
        } else {
            self.out.append("-");
            let d = usize_to_string(prev - cur);
            self.out.append(d.as_str());
        }
        self.out.append(")\n");
    }

    /// The fixed listing of the generated report files.
    pub fn write_reports_list(&mut self, timestamp: &str)
        ensures
            final(self).out@ == old(self).out@ + spec_md_reports_list(timestamp@),
    {
        proof {
            reveal(spec_md_reports_list);
        }
        self.out.append(
            "\n=== Generated Reports ===\n\n\u{1f4ca} Generated Reports:\n\n\u{1f4e5} Input:\n  clippy_output.json\u{23af}\u{23af}\u{25b6} clippy_output.json.............. Raw Clippy warnings\n\n\u{1f4cb} Analysis:\n  clippy_analysis_",
        );
        self.out.append(timestamp);
        self.out.append(".md\u{23af}\u{23af}\u{25b6} clippy_analysis_");
        self.out.append(timestamp);
        self.out.append(".md...... Detailed analysis with charts\n");
    }
}

/// A string is among a list of strings.
fn md_contains_string(v: &Vec<String>, s: &str) -> (r: bool)
    ensures
        r == v.deep_view().contains(s@),
{
    let n = v.len();
    let mut i: usize = 0;
    while i < n
        invariant
            i <= n,
            n == v@.len(),
            forall|j: int| 0 <= j < i ==> v.deep_view()[j] != s@,
        decreases n - i,
    {
        if crate::text::str_eq(v[i].as_str(), s) {
            proof {
                assert(v.deep_view()[i as int] == s@);
            }
            return true;
        }
        proof {
            assert(v.deep_view()[i as int] == v@[i as int]@);
        }
        i += 1;
    }
    false
}

/// One crate's feature sum and artifact count.
fn feat_totals(infos: &Vec<(String, usize)>, name: &str) -> (r: (u128, u128))
    ensures
        r.0 as int == spec_feat_sum(infos.deep_view(), name@),
        r.1 as int == spec_feat_count(infos.deep_view(), name@),
        r.1 <= usize::MAX as u128,
{
    let ghost all = infos.deep_view();
    let mut sum: u128 = 0;
    let mut count: u128 = 0;
    let n = infos.len();
    let mut i: usize = 0;
    proof {
        assert(all.take(0) =~= Seq::<(Seq<char>, usize)>::empty());
        lemma_feat_bounds(all, name@);
    }
    while i < n
        invariant
            i <= n,
            n == infos@.len(),
            all == infos.deep_view(),
            all.len() == n,
            sum as int == spec_feat_sum(all.take(i as int), name@),
            count as int == spec_feat_count(all.take(i as int), name@),
            count <= i,
            sum as int <= (i as int) * (usize::MAX as int),
        decreases n - i,
    {
        proof {
            assert(all.take(i + 1).drop_last() =~= all.take(i as int));
            assert(all.take(i + 1).last() == all[i as int]);
            assert(all[i as int] == (infos@[i as int].0@, infos@[i as int].1));
            assert((i as int) * (usize::MAX as int) + (usize::MAX as int) == ((i + 1) as int) * (
            usize::MAX as int)) by (nonlinear_arith);
            assert((i as int) * (usize::MAX as int) <= (u128::MAX as int) - (usize::MAX as int))
                by (nonlinear_arith)
                requires
                    0 <= i as int <= usize::MAX as int,
            ;
        }
        if crate::text::str_eq(infos[i].0.as_str(), name) {
            sum = sum + (infos[i].1 as u128);
            count = count + 1;
        }
        i += 1;
    }
    proof {
        assert(all.take(n as int) =~= all);
    }
    (sum, count)
}

/// Assembles the whole markdown report: title, summary, build overview
/// and trend analysis. The timestamp in the summary's closing line is the
/// moment of the call, so the exact text varies with the clock.
#[verifier::rlimit(100)]
pub fn generate_markdown_report(
    stats: &WarningStatistics,
    trends: &TrendAnalysis,
    historical: &[TrendAnalysis],
    context: &[AnalysisContext],
) -> (r: String)
    requires
        stats.by_category.spec_total() > 0,
        historical@.len() > 0 ==> trends.total_warnings + spec_sum_usizes(
            spec_totals(historical@),
        ) > 0,
        (trends.total_warnings as int) * historical@.len() * 1000 <= u128::MAX as int,
        spec_sum_usizes(spec_totals(historical@)) * 1000 <= u128::MAX as int,
    ensures
        exists|ts: Seq<char>|
            r@ == "# "@ + "Clippy Analysis Report"@ + "\n\n"@ + spec_md_summary(*stats, ts)
                + spec_md_build_info(context@) + (if historical@.len() == 0 {
                spec_md_trend_empty(*trends)
            } else {
                spec_md_trend_full(*trends, historical@)
            }),
{
    let mut md_writer = MarkdownWriter::new();
    md_writer.write_header("Clippy Analysis Report");
    proof {
        assert(md_writer.out@ =~= "# "@ + "Clippy Analysis Report"@ + "\n\n"@);
    }
    let timestamp = local_timestamp_string();
    md_writer.write_summary(stats, timestamp.as_str());
    proof {
        assert(md_writer.out@ =~= "# "@ + "Clippy Analysis Report"@ + "\n\n"@
            + spec_md_summary(*stats, timestamp@));
    }
    md_writer.write_build_info(context);
    proof {
        assert(md_writer.out@ =~= "# "@ + "Clippy Analysis Report"@ + "\n\n"@
            + spec_md_summary(*stats, timestamp@) + spec_md_build_info(context@));
    }
    md_writer.write_trend_analysis(trends, historical);
    proof {
        let ts = timestamp@;
        assert(md_writer.out@ =~= "# "@ + "Clippy Analysis Report"@ + "\n\n"@
            + spec_md_summary(*stats, ts)
            + spec_md_build_info(context@) + (if historical@.len() == 0 {
            spec_md_trend_empty(*trends)
        } else {
            spec_md_trend_full(*trends, historical@)
        }));
    }
    md_writer.out
}

} // verus!
