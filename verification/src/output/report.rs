use vstd::prelude::*;
use vstd::string::StringExecFns;
use crate::types::warnings::Warning;
use crate::types::categories::CategoryType;
use crate::types::priorities::Priority;
use crate::analysis::trends::TrendAnalysis;
use crate::analysis::trends::Ratio;
use crate::analysis::trends::spec_round_half_even;
use crate::analysis::trends::spec_one_decimal;
use crate::analysis::trends::round_half_even_u128;
use crate::analysis::trends::one_decimal_string;
use crate::output::formatter::format_warning;
use crate::output::formatter::spec_formatted_warning;
use crate::text::spec_dec;
use crate::text::usize_to_string;

verus! {

/// The improvement rate as a percentage with one decimal place, sign
/// included.
pub open spec fn spec_rate_percent(num: int, den: int) -> Seq<char> {
    if num >= 0 {
        spec_one_decimal(spec_round_half_even(num * 1000, den))
    } else {
        "-"@ + spec_one_decimal(spec_round_half_even((-num) * 1000, den))
    }
}

/// Renders a rate as a signed percentage with one decimal place.
fn rate_percent_string(r: Ratio) -> (s: String)
    requires
        r.den > 0,
        (r.num as int) * 1000 <= i128::MAX as int,
        -(i128::MAX as int) <= (r.num as int) * 1000,
        r.den as int <= u128::MAX as int,
    ensures
        s@ == spec_rate_percent(r.num as int, r.den as int),
{
    if r.num >= 0 {
        let t = round_half_even_u128(((r.num * 1000) as u128), r.den);
        one_decimal_string(t)
    } else {
        let mag = (-(r.num)) * 1000;
        let t = round_half_even_u128(mag as u128, r.den);
        let mut s = "-".to_owned();
        let d = one_decimal_string(t);
        s.append(d.as_str());
        s
    }
}

/// The per-category lines of the trend text, in fixed category order.
pub open spec fn spec_trend_category_lines(t: TrendAnalysis) -> Seq<char> {
    "  "@ + CategoryType::Safety.spec_name() + " - "@ + spec_dec(t.by_category.safety as int)
        + " issues\n"@ + "  "@ + CategoryType::Performance.spec_name() + " - "@ + spec_dec(
        t.by_category.performance as int,
    ) + " issues\n"@ + "  "@ + CategoryType::Style.spec_name() + " - "@ + spec_dec(
        t.by_category.style as int,
    ) + " issues\n"@ + "  "@ + CategoryType::Documentation.spec_name() + " - "@ + spec_dec(
        t.by_category.documentation as int,
    ) + " issues\n"@
}

/// The per-priority lines of the trend text, in fixed priority order.
pub open spec fn spec_trend_priority_lines(t: TrendAnalysis) -> Seq<char> {
    "  "@ + Priority::Critical.spec_name() + " - "@ + spec_dec(t.by_priority.critical as int)
        + " warnings\n"@ + "  "@ + Priority::High.spec_name() + " - "@ + spec_dec(
        t.by_priority.high as int,
    ) + " warnings\n"@ + "  "@ + Priority::Medium.spec_name() + " - "@ + spec_dec(
        t.by_priority.medium as int,
    ) + " warnings\n"@ + "  "@ + Priority::Low.spec_name() + " - "@ + spec_dec(
        t.by_priority.low as int,
    ) + " warnings\n"@ + "  "@ + Priority::Trivial.spec_name() + " - "@ + spec_dec(
        t.by_priority.trivial as int,
    ) + " warnings\n"@
}

/// The recurring-issue lines, in insertion order.
pub open spec fn spec_trend_issue_lines(entries: Seq<(Seq<char>, usize)>) -> Seq<char>
    decreases entries.len(),
{
    if entries.len() == 0 {
        Seq::empty()
    } else {
        spec_trend_issue_lines(entries.drop_last()) + "  "@ + entries.last().0 + " - "@
            + spec_dec(entries.last().1 as int) + " occurrences\n"@
    }
}

/// The whole plain-text trend section.
pub open spec fn spec_trend_analysis_text(t: TrendAnalysis) -> Seq<char> {
    "\n=== Trend Analysis ===\n\nTotal Warnings: "@ + spec_dec(t.total_warnings as int)
        + "\n\nWarnings by Category:\n"@ + spec_trend_category_lines(t)
        + "\nWarnings by Priority:\n"@ + spec_trend_priority_lines(t)
        + "\nRecurring Issues:\n"@ + spec_trend_issue_lines(t.recurring_issues.entries_view())
        + "\nImprovement Rate: "@ + spec_rate_percent(
        t.improvement_rate.num as int,
        t.improvement_rate.den as int,
    ) + "%\n"@
}

/// Renders the trend section of the plain-text report: totals, category
/// and priority breakdowns, recurring issues and the improvement rate.
/// The bounds keep the rate's percentage arithmetic in machine range.
fn trend_category_block(trends: &TrendAnalysis) -> (r: String)
    ensures
        r@ == spec_trend_category_lines(*trends),
{
    let mut out = "  ".to_owned();
    out.append(CategoryType::Safety.name());
    out.append(" - ");
    let cnt_safety = usize_to_string(trends.by_category.safety);
    out.append(cnt_safety.as_str());
    out.append(" issues\n");
    out.append("  ");
    out.append(CategoryType::Performance.name());
    out.append(" - ");
    let cnt_performance = usize_to_string(trends.by_category.performance);
    out.append(cnt_performance.as_str());
    out.append(" issues\n");
    out.append("  ");
    out.append(CategoryType::Style.name());
    out.append(" - ");
    let cnt_style = usize_to_string(trends.by_category.style);
    out.append(cnt_style.as_str());
    out.append(" issues\n");
    out.append("  ");
    out.append(CategoryType::Documentation.name());
    out.append(" - ");
    let cnt_documentation = usize_to_string(trends.by_category.documentation);
    out.append(cnt_documentation.as_str());
    out.append(" issues\n");
    proof {
        assert(out@ =~= spec_trend_category_lines(*trends));
    }
    out
}

fn trend_priority_block(trends: &TrendAnalysis) -> (r: String)
    ensures
        r@ == spec_trend_priority_lines(*trends),
{
    let mut out = "  ".to_owned();
    out.append(Priority::Critical.name());
    out.append(" - ");
    let cnt_critical = usize_to_string(trends.by_priority.critical);
    out.append(cnt_critical.as_str());
    out.append(" warnings\n");
    out.append("  ");
    out.append(Priority::High.name());
    out.append(" - ");
    let cnt_high = usize_to_string(trends.by_priority.high);
    out.append(cnt_high.as_str());
    out.append(" warnings\n");
    out.append("  ");
    out.append(Priority::Medium.name());
    out.append(" - ");
    let cnt_medium = usize_to_string(trends.by_priority.medium);
    out.append(cnt_medium.as_str());
    out.append(" warnings\n");
    out.append("  ");
    out.append(Priority::Low.name());
    out.append(" - ");
    let cnt_low = usize_to_string(trends.by_priority.low);
    out.append(cnt_low.as_str());
    out.append(" warnings\n");
    out.append("  ");
    out.append(Priority::Trivial.name());
    out.append(" - ");
    let cnt_trivial = usize_to_string(trends.by_priority.trivial);
    out.append(cnt_trivial.as_str());
    out.append(" warnings\n");
    proof {
        assert(out@ =~= spec_trend_priority_lines(*trends));
    }
    out
}

fn trend_issue_block(trends: &TrendAnalysis) -> (r: String)
    ensures
        r@ == spec_trend_issue_lines(trends.recurring_issues.entries_view()),
{
    let mut out = String::new();
    let ghost entries = trends.recurring_issues.entries_view();
    let n = trends.recurring_issues.entries.len();
    let mut k: usize = 0;
    proof {
        assert(entries.take(0) =~= Seq::<(Seq<char>, usize)>::empty());
        assert(out@ =~= spec_trend_issue_lines(entries.take(0)));
    }
    while k < n
        invariant
            k <= n,
            n == trends.recurring_issues.entries@.len(),
            entries == trends.recurring_issues.entries_view(),
            entries.len() == n,
            out@ == spec_trend_issue_lines(entries.take(k as int)),
        decreases n - k,
    {
        proof {
            assert(entries.take(k + 1).drop_last() =~= entries.take(k as int));
            assert(entries.take(k + 1).last() == entries[k as int]);
            assert(entries[k as int] == (
                trends.recurring_issues.entries@[k as int].0@,
                trends.recurring_issues.entries@[k as int].1,
            ));
        }
        out.append("  ");
        out.append(trends.recurring_issues.entries[k].0.as_str());
        out.append(" - ");
        let c = usize_to_string(trends.recurring_issues.entries[k].1);
        out.append(c.as_str());
        out.append(" occurrences\n");
        proof {
            assert(out@ =~= spec_trend_issue_lines(entries.take(k + 1)));
        }
        k += 1;
    }
    proof {
        assert(entries.take(n as int) =~= entries);
    }
    out
}

/// Renders the trend section of the plain-text report: totals, category
/// and priority breakdowns, recurring issues and the improvement rate.
/// The bounds keep the rate's percentage arithmetic in machine range.
pub fn write_trend_analysis(trends: &TrendAnalysis) -> (r: String)
    requires
        trends.improvement_rate.den > 0,
        (trends.improvement_rate.num as int) * 1000 <= i128::MAX as int,
        -(i128::MAX as int) <= (trends.improvement_rate.num as int) * 1000,
    ensures
        r@ == spec_trend_analysis_text(*trends),
{
    let mut out = "\n=== Trend Analysis ===\n\nTotal Warnings: ".to_owned();
    let t = usize_to_string(trends.total_warnings);
    out.append(t.as_str());
    out.append("\n\nWarnings by Category:\n");
    let cats = trend_category_block(trends);
    out.append(cats.as_str());
    out.append("\nWarnings by Priority:\n");
    let pris = trend_priority_block(trends);
    out.append(pris.as_str());
    out.append("\nRecurring Issues:\n");
    let issues = trend_issue_block(trends);
    out.append(issues.as_str());
    out.append("\nImprovement Rate: ");
    let rate = rate_percent_string(trends.improvement_rate);
    out.append(rate.as_str());
    out.append("%\n");
    proof {
        assert(out@ =~= spec_trend_analysis_text(*trends));
    }
    out
}

/// A titled plain-text section. The color is carried for the glue layer;
/// it does not change the text.
pub open spec fn spec_colored_section(title: Seq<char>, content: Seq<char>) -> Seq<char> {
    "=== "@ + title + " ===\n\n"@ + content + "\n"@
}

/// Renders one titled section of the plain-text report.
pub fn write_colored_section(title: &str, content: &str, _color: termcolor::Color) -> (r: String)
    ensures
        r@ == spec_colored_section(title@, content@),
{
    let mut out = "=== ".to_owned();
    out.append(title);
    out.append(" ===\n\n");
    out.append(content);
    out.append("\n");
    out
}

/// The body of the warning report from position `i` on, given the file
/// header already printed for `current`.
pub open spec fn spec_report_rest(
    ws: Seq<Warning>,
    i: int,
    current: Seq<char>,
    show_snippets: bool,
) -> Seq<char>
    decreases ws.len() - i when 0 <= i <= ws.len()
{
    if i >= ws.len() {
        Seq::empty()
    } else {
        let w = ws[i];
        (if w.file@ != current {
            "\nFile: "@ + w.file@ + "\n"@
        } else {
            Seq::empty()
        }) + spec_formatted_warning(w) + "\n"@ + (if show_snippets && w.suggested_fix is Some {
            "Suggested fix:\n"@ + w.suggested_fix->0@ + "\n\n"@
        } else {
            Seq::empty()
        }) + spec_report_rest(ws, i + 1, w.file@, show_snippets)
    }
}

/// The whole warning report.
pub open spec fn spec_warning_report(ws: Seq<Warning>, show_snippets: bool) -> Seq<char> {
    "Warning Report\n\n"@ + spec_report_rest(ws, 0, ""@, show_snippets)
}

/// Renders the file-grouped warning report, optionally with each
/// warning's suggested fix.
#[verifier::rlimit(100)]
pub fn write_warning_report(warnings: &[Warning], show_snippets: bool) -> (r: String)
    ensures
        r@ == spec_warning_report(warnings@, show_snippets),
{
    let ghost ws = warnings@;
    let mut out = "Warning Report\n\n".to_owned();
    let ghost target = spec_warning_report(ws, show_snippets);
    let mut current_file = String::new();
    let n = warnings.len();
    let mut i: usize = 0;
    proof {
        reveal_strlit("");
        assert(current_file@ =~= ""@);
        assert(out@ + spec_report_rest(ws, 0, ""@, show_snippets) =~= target);
    }
    while i < n
        invariant
            i <= n,
            n == ws.len(),
            warnings@ == ws,
            target == spec_warning_report(ws, show_snippets),
            out@ + spec_report_rest(ws, i as int, current_file@, show_snippets) == target,
        decreases n - i,
    {
        let w = &warnings[i];
        if !crate::text::str_eq(w.file.as_str(), current_file.as_str()) {
            current_file = w.file.clone();
            out.append("\nFile: ");
            out.append(current_file.as_str());
            out.append("\n");
        }
        let (formatted, _) = format_warning(w);
        out.append(formatted.as_str());
        out.append("\n");
        if show_snippets {
            match &w.suggested_fix {
                Some(fix) => {
                    out.append("Suggested fix:\n");
                    out.append(fix.as_str());
                    out.append("\n\n");
                },
                None => {},
            }
        }
        proof {
            assert(current_file@ == ws[i as int].file@);
            assert(out@ + spec_report_rest(ws, i + 1, current_file@, show_snippets) =~= target);
        }
        i += 1;
    }
    proof {
        assert(spec_report_rest(ws, n as int, current_file@, show_snippets) =~= Seq::empty());
        assert(out@ + Seq::<char>::empty() =~= out@);
    }
    out
}

} // verus!
