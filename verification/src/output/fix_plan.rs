use vstd::prelude::*;
use vstd::string::StringExecFns;
use crate::types::warnings::Warning;
use crate::types::categories::CategoryType;
use crate::types::priorities::Priority;
use crate::parser::warning_parser::WarningView;
use crate::parser::warning_parser::w_view;
use crate::parser::warning_parser::views_of;
use crate::analysis::statistics::warning::WarningStatistics;
use crate::analysis::statistics::warning::count_matching;
use crate::analysis::statistics::warning::pred_cat;
use crate::analysis::statistics::warning::lemma_category_counts_partition;
use crate::analysis::charts::ChartConfig;
use crate::analysis::charts::ChartStyle;
use crate::analysis::charts::create_enhanced_chart;
use crate::analysis::charts::spec_chart;
use crate::analysis::charts::spec_sum;
use crate::analysis::charts::data_view;
use crate::analysis::trends::spec_one_decimal;
use crate::analysis::trends::spec_share_tenths;
use crate::analysis::trends::round_half_even_u128;
use crate::analysis::trends::one_decimal_string;
use crate::fixes::examples::get_fix_example;
use crate::fixes::examples::locking_before_text;
use crate::fixes::examples::locking_after_text;
use crate::fixes::examples::docs_before_text;
use crate::fixes::examples::docs_after_text;
use crate::fixes::suggestions::generate_fix_suggestion;
use crate::fixes::suggestions::spec_suggestion_parts_for;
use crate::text::contains_sub;
use crate::text::str_eq;
use crate::text::spec_contains;
use crate::text::spec_first_token;
use crate::text::spec_dec;
use crate::text::spec_lines;
use crate::text::lines_of;
use crate::text::spec_replace;
use crate::text::replace_all;
use crate::text::spec_trim_marks;
use crate::text::trim_marks;
use crate::text::spec_split;
use crate::text::split_str;
use crate::text::u32_to_string;
use crate::text::usize_to_string;

verus! {

/// The distinct file paths of a warning collection, by first appearance.
pub open spec fn spec_distinct_files(ws: Seq<WarningView>) -> Seq<Seq<char>>
    decreases ws.len(),
{
    if ws.len() == 0 {
        Seq::empty()
    } else {
        let rest = spec_distinct_files(ws.drop_last());
        if rest.contains(ws.last().file) {
            rest
        } else {
            rest.push(ws.last().file)
        }
    }
}

/// The distinct messages of a warning collection, by first appearance.
pub open spec fn spec_distinct_messages(ws: Seq<WarningView>) -> Seq<Seq<char>>
    decreases ws.len(),
{
    if ws.len() == 0 {
        Seq::empty()
    } else {
        let rest = spec_distinct_messages(ws.drop_last());
        if rest.contains(ws.last().message) {
            rest
        } else {
            rest.push(ws.last().message)
        }
    }
}

/// The warnings of category `c`, in order.
pub open spec fn spec_cat_views(ws: Seq<Warning>, c: CategoryType) -> Seq<WarningView>
    decreases ws.len(),
{
    if ws.len() == 0 {
        Seq::empty()
    } else {
        spec_cat_views(ws.drop_last(), c) + (if ws.last().category.category_type == c {
            seq![w_view(ws.last())]
        } else {
            Seq::empty()
        })
    }
}

/// The warnings whose message is exactly `m`, in order.
pub open spec fn spec_with_message(ws: Seq<WarningView>, m: Seq<char>) -> Seq<WarningView>
    decreases ws.len(),
{
    if ws.len() == 0 {
        Seq::empty()
    } else {
        spec_with_message(ws.drop_last(), m) + (if ws.last().message == m {
            seq![ws.last()]
        } else {
            Seq::empty()
        })
    }
}

/// Every distinct message has at least one warning carrying it.
proof fn lemma_distinct_message_has(ws: Seq<WarningView>, m: Seq<char>)
    requires
        spec_distinct_messages(ws).contains(m),
    ensures
        spec_with_message(ws, m).len() > 0,
    decreases ws.len(),
{
    if ws.len() > 0 {
        let rest = spec_distinct_messages(ws.drop_last());
        if ws.last().message == m {
        } else {
            if rest.contains(m) {
                lemma_distinct_message_has(ws.drop_last(), m);
            } else {
                assert(spec_distinct_messages(ws) == rest.push(ws.last().message));
                assert(spec_distinct_messages(ws).last() == ws.last().message);
                assert forall|i: int|
                    0 <= i < spec_distinct_messages(ws).len() && spec_distinct_messages(ws)[i]
                        == m implies false by {
                    if i < rest.len() {
                        assert(rest[i] == m);
                    }
                }
            }
        }
    }
}

/// A string is among a list of strings.
fn contains_string(v: &Vec<String>, s: &str) -> (r: bool)
    ensures
        r == v.deep_view().contains(s@),
{
    let n = v.len();
    let mut i: usize = 0;
    while i < n
        invariant
            i <= n,
            n == v@.len(),
            forall|j: int| 0 <= j < i ==> v.deep_view()[j] != s@,
        decreases n - i,
    {
        if str_eq(v[i].as_str(), s) {
            proof {
                assert(v.deep_view()[i as int] == s@);
            }
            return true;
        }
        proof {
            assert(v.deep_view()[i as int] == v@[i as int]@);
        }
        i += 1;
    }
    proof {
        assert forall|j: int| 0 <= j < v.deep_view().len() implies v.deep_view()[j] != s@ by {}
    }
    false
}

/// Counts the distinct files a warning collection touches.
pub fn distinct_file_count(warnings: &[Warning]) -> (r: usize)
    ensures
        r == spec_distinct_files(views_of(warnings@)).len(),
{
    let ghost ws = views_of(warnings@);
    let mut seen: Vec<String> = Vec::new();
    let n = warnings.len();
    let mut i: usize = 0;
    proof {
        assert(ws.take(0) =~= Seq::<WarningView>::empty());
        assert(seen.deep_view() =~= spec_distinct_files(ws.take(0)));
    }
    while i < n
        invariant
            i <= n,
            n == warnings@.len(),
            ws == views_of(warnings@),
            ws.len() == n,
            seen.deep_view() == spec_distinct_files(ws.take(i as int)),
        decreases n - i,
    {
        proof {
            assert(ws.take(i + 1).drop_last() =~= ws.take(i as int));
            assert(ws.take(i + 1).last() == ws[i as int]);
            assert(ws[i as int] == w_view(warnings@[i as int]));
        }
        if !contains_string(&seen, warnings[i].file.as_str()) {
            let ghost pre = seen.deep_view();
            let f = warnings[i].file.clone();
            seen.push(f);
            proof {
                assert(seen.deep_view() =~= pre.push(warnings@[i as int].file@));
            }
        }
        i += 1;
    }
    proof {
        assert(ws.take(n as int) =~= ws);
    }
    seen.len()
}

/// Collects copies of the warnings in category `c`, keeping their order.
pub fn warnings_in_category(warnings: &[Warning], c: CategoryType) -> (r: Vec<Warning>)
    ensures
        views_of(r@) == spec_cat_views(warnings@, c),
{
    let mut out: Vec<Warning> = Vec::new();
    let n = warnings.len();
    let mut i: usize = 0;
    proof {
        assert(warnings@.take(0) =~= Seq::<Warning>::empty());
        assert(views_of(out@) =~= spec_cat_views(warnings@.take(0), c));
    }
    while i < n
        invariant
            i <= n,
            n == warnings@.len(),
            views_of(out@) == spec_cat_views(warnings@.take(i as int), c),
        decreases n - i,
    {
        proof {
            assert(warnings@.take(i + 1).drop_last() =~= warnings@.take(i as int));
            assert(warnings@.take(i + 1).last() == warnings@[i as int]);
        }
        let w = &warnings[i];
        if w.category.category_type == c {
            let ghost pre = out@;
            let d = w.duplicate();
            out.push(d);
            proof {
                assert(views_of(out@) =~= views_of(pre).push(w_view(d)));
                assert(views_of(out@) =~= spec_cat_views(warnings@.take(i + 1), c));
            }
        } else {
            proof {
                assert(views_of(out@) =~= spec_cat_views(warnings@.take(i + 1), c));
            }
        }
        i += 1;
    }
    proof {
        assert(warnings@.take(n as int) =~= warnings@);
    }
    out
}

/// Lists the distinct messages of the collection, by first appearance.
fn distinct_messages(ws: &Vec<Warning>) -> (r: Vec<String>)
    ensures
        r.deep_view() == spec_distinct_messages(views_of(ws@)),
{
    let ghost vs = views_of(ws@);
    let mut seen: Vec<String> = Vec::new();
    let n = ws.len();
    let mut i: usize = 0;
    proof {
        assert(vs.take(0) =~= Seq::<WarningView>::empty());
        assert(seen.deep_view() =~= spec_distinct_messages(vs.take(0)));
    }
    while i < n
        invariant
            i <= n,
            n == ws@.len(),
            vs == views_of(ws@),
            vs.len() == n,
            seen.deep_view() == spec_distinct_messages(vs.take(i as int)),
        decreases n - i,
    {
        proof {
            assert(vs.take(i + 1).drop_last() =~= vs.take(i as int));
            assert(vs.take(i + 1).last() == vs[i as int]);
            assert(vs[i as int] == w_view(ws@[i as int]));
        }
        if !contains_string(&seen, ws[i].message.as_str()) {
            let ghost pre = seen.deep_view();
            let m = ws[i].message.clone();
            seen.push(m);
            proof {
                assert(seen.deep_view() =~= pre.push(ws@[i as int].message@));
            }
        }
        i += 1;
    }
    proof {
        assert(vs.take(n as int) =~= vs);
    }
    seen
}

/// Collects copies of the warnings whose message is `m`, in order.
fn warnings_with_message(ws: &Vec<Warning>, m: &str) -> (r: Vec<Warning>)
    ensures
        views_of(r@) == spec_with_message(views_of(ws@), m@),
{
    let ghost vs = views_of(ws@);
    let mut out: Vec<Warning> = Vec::new();
    let n = ws.len();
    let mut i: usize = 0;
    proof {
        assert(vs.take(0) =~= Seq::<WarningView>::empty());
        assert(views_of(out@) =~= spec_with_message(vs.take(0), m@));
    }
    while i < n
        invariant
            i <= n,
            n == ws@.len(),
            vs == views_of(ws@),
            vs.len() == n,
            views_of(out@) == spec_with_message(vs.take(i as int), m@),
        decreases n - i,
    {
        proof {
            assert(vs.take(i + 1).drop_last() =~= vs.take(i as int));
            assert(vs.take(i + 1).last() == vs[i as int]);
            assert(vs[i as int] == w_view(ws@[i as int]));
        }
        if str_eq(ws[i].message.as_str(), m) {
            let ghost pre = out@;
            let d = ws[i].duplicate();
            out.push(d);
            proof {
                assert(views_of(out@) =~= views_of(pre).push(w_view(d)));
                assert(views_of(out@) =~= spec_with_message(vs.take(i + 1), m@));
            }
        } else {
            proof {
                assert(views_of(out@) =~= spec_with_message(vs.take(i + 1), m@));
            }
        }
        i += 1;
    }
    proof {
        assert(vs.take(n as int) =~= vs);
    }
    out
}

/// The first line of the message that mentions the child-message list.
pub open spec fn spec_child_line(ls: Seq<Seq<char>>) -> Option<Seq<char>>
    decreases ls.len(),
{
    if ls.len() == 0 {
        None
    } else if spec_contains(ls[0], "Child messages:"@) {
        Some(ls[0])
    } else {
        spec_child_line(ls.drop_first())
    }
}

/// One bullet per extracted child message.
pub open spec fn spec_piece_lines(ps: Seq<Seq<char>>) -> Seq<char>
    decreases ps.len(),
{
    if ps.len() == 0 {
        Seq::empty()
    } else {
        spec_piece_lines(ps.drop_last()) + "- "@ + ps.last() + "\n"@
    }
}

/// The child-messages block of one occurrence: the debug list inside the
/// message unpacked into bullets, or nothing when the message has none.
pub open spec fn spec_child_block(message: Seq<char>) -> Seq<char> {
    match spec_child_line(spec_lines(message)) {
        None => Seq::empty(),
        Some(l) => {
            let content = spec_trim_marks(spec_replace(l, "Child messages: "@, Seq::empty()));
            "\nChild Messages:\n"@ + spec_piece_lines(spec_split(content, "\", \""@))
        },
    }
}

fn find_child_line(lines: &Vec<String>) -> (r: Option<String>)
    ensures
        match r {
            Some(s) => spec_child_line(lines.deep_view()) == Some(s@),
            None => spec_child_line(lines.deep_view()) is None,
        },
{
    let ghost ls = lines.deep_view();
    let n = lines.len();
    let mut k: usize = 0;
    proof {
        assert(ls.skip(0) =~= ls);
    }
    while k < n
        invariant
            k <= n,
            n == lines@.len(),
            lines.deep_view() == ls,
            spec_child_line(ls) == spec_child_line(ls.skip(k as int)),
        decreases n - k,
    {
        proof {
            assert(ls.skip(k as int)[0] == ls[k as int]);
            assert(ls.skip(k as int).drop_first() =~= ls.skip(k + 1));
            assert(lines.deep_view()[k as int] == lines@[k as int]@);
        }
        if contains_sub(lines[k].as_str(), "Child messages:") {
            return Some(lines[k].clone());
        }
        k += 1;
    }
    proof {
        assert(ls.skip(n as int) =~= Seq::<Seq<char>>::empty());
    }
    None
}

/// Unpacks the child-message list of one warning message into bullets.
fn child_block(message: &str) -> (r: String)
    ensures
        r@ == spec_child_block(message@),
{
    let lines = lines_of(message);
    let ghost ls = spec_lines(message@);
    let found = find_child_line(&lines);
    match found {
        None => {
            String::new()
        },
        Some(line) => {
            proof {
                reveal_strlit("");
                reveal_strlit("Child messages: ");
                reveal_strlit("\", \"");
                assert(""@ =~= Seq::<char>::empty());
                assert("Child messages: "@.len() == 16);
                assert("\", \""@.len() == 4);
            }
            let replaced = replace_all(line.as_str(), "Child messages: ", "");
            let content = trim_marks(replaced.as_str());
            let pieces = split_str(content.as_str(), "\", \"");
            let ghost ps = spec_split(content@, "\", \""@);
            let mut out = "\nChild Messages:\n".to_owned();
            let ghost head = out@;
            let m = pieces.len();
            let mut j: usize = 0;
            proof {
                assert(ps.take(0) =~= Seq::<Seq<char>>::empty());
                assert(out@ =~= head + spec_piece_lines(ps.take(0)));
            }
            while j < m
                invariant
                    j <= m,
                    m == pieces@.len(),
                    pieces.deep_view() == ps,
                    ps.len() == m,
                    out@ == head + spec_piece_lines(ps.take(j as int)),
                decreases m - j,
            {
                proof {
                    assert(ps.take(j + 1).drop_last() =~= ps.take(j as int));
                    assert(ps.take(j + 1).last() == ps[j as int]);
                    assert(pieces.deep_view()[j as int] == pieces@[j as int]@);
                }
                out.append("- ");
                out.append(pieces[j].as_str());
                out.append("\n");
                proof {
                    assert(out@ =~= head + spec_piece_lines(ps.take(j + 1)));
                }
                j += 1;
            }
            proof {
                assert(ps.take(m as int) =~= ps);
            }
            out
        },
    }
}

/// The severity banner of an impact assessment, by category and the
/// priority of the group's first warning.
pub open spec fn spec_severity(c: CategoryType, p: Priority) -> Seq<char> {
    match c {
        CategoryType::Safety => if p == Priority::Critical {
            "CRITICAL SAFETY ISSUE"@
        } else {
            "SAFETY CONCERN"@
        },
        CategoryType::Performance => if p == Priority::High {
            "HIGH PERFORMANCE IMPACT"@
        } else {
            "PERFORMANCE CONCERN"@
        },
        CategoryType::Style => "MAINTAINABILITY CONCERN"@,
        CategoryType::Documentation => "DOCUMENTATION GAP"@,
    }
}

/// The impact sentence that goes with the severity banner.
pub open spec fn spec_impact(c: CategoryType, p: Priority) -> Seq<char> {
    match c {
        CategoryType::Safety => if p == Priority::Critical {
            "Could cause production failures or security vulnerabilities."@
        } else {
            "May affect program correctness."@
        },
        CategoryType::Performance => if p == Priority::High {
            "May affect system responsiveness and resource usage."@
        } else {
            "Could impact efficiency."@
        },
        CategoryType::Style => "Affects code readability and maintenance."@,
        CategoryType::Documentation => "Impacts code understanding and usability."@,
    }
}

/// The impact assessment of one subcategory group.
pub open spec fn spec_impact_block(c: CategoryType, group: Seq<WarningView>) -> Seq<char>
    recommends
        group.len() > 0,
{
    "**Risk Assessment**: "@ + spec_severity(c, group[0].priority) + ": "@ + group[0].message
        + "\n**Impact**: "@ + spec_impact(c, group[0].priority) + "\n**Pattern**: "@ + (if
    group.len() > 5 {
        "Widespread issue affecting multiple files - consider systematic fix."@
    } else {
        "Isolated occurrences - can be fixed individually."@
    }) + "\n\n"@
}

/// The worked-example block of a subcategory group, present when the
/// catalogue has an example for the group's first warning.
pub open spec fn spec_example_block(w0: WarningView) -> Seq<char> {
    if w0.category_type == CategoryType::Performance && spec_first_token(w0.message)
        == "Locking"@ {
        "#### Fix Template\n\n```rust\n"@ + locking_before_text()
            + "\n\n// After applying fix:\n\n"@ + locking_after_text() + "\n```\n\n"@
    } else if w0.category_type == CategoryType::Documentation && spec_first_token(w0.message)
        == "Missing"@ {
        "#### Fix Template\n\n```rust\n"@ + docs_before_text()
            + "\n\n// After applying fix:\n\n"@ + docs_after_text() + "\n```\n\n"@
    } else {
        Seq::empty()
    }
}

/// The specific-fix block of a subcategory group, present when a fix
/// suggestion exists for the group's first warning.
pub open spec fn spec_fix_block(w0: WarningView) -> Seq<char> {
    match spec_suggestion_parts_for(spec_first_token(w0.message), w0.category_type) {
        Some(t) => "#### Specific Fix\n\n```rust\n"@ + t.0 + "\n```\n\n"@ + "Confidence: "@
            + spec_dec(t.2 as int) + "%\n\n"@,
        None => Seq::empty(),
    }
}

/// One occurrence of the subcategory's warning.
pub open spec fn spec_occurrence(w: WarningView) -> Seq<char> {
    "**"@ + w.file + ":"@ + spec_dec(w.line as int) + "**\n```\nMessage: "@ + w.message + "\n"@
        + spec_child_block(w.message) + "```\n\n"@
}

/// All occurrences of a subcategory group.
pub open spec fn spec_occurrences(group: Seq<WarningView>) -> Seq<char>
    decreases group.len(),
{
    if group.len() == 0 {
        Seq::empty()
    } else {
        spec_occurrences(group.drop_last()) + spec_occurrence(group.last())
    }
}

/// One subcategory section: banner, impact assessment, optional example
/// and fix blocks, then every occurrence.
#[verifier::opaque]
pub open spec fn spec_subcat_section(
    c: CategoryType,
    m: Seq<char>,
    group: Seq<WarningView>,
) -> Seq<char>
    recommends
        group.len() > 0,
{
    "### "@ + m + "\n\n"@ + spec_impact_block(c, group) + spec_example_block(group[0])
        + spec_fix_block(group[0]) + "#### All Occurrences\n\n"@ + spec_occurrences(group)
}

/// The subcategory sections of a category, one per distinct message.
pub open spec fn spec_subcat_sections(
    c: CategoryType,
    ws: Seq<WarningView>,
    msgs: Seq<Seq<char>>,
) -> Seq<char>
    decreases msgs.len(),
{
    if msgs.len() == 0 {
        Seq::empty()
    } else {
        spec_subcat_sections(c, ws, msgs.drop_last()) + spec_subcat_section(
            c,
            msgs.last(),
            spec_with_message(ws, msgs.last()),
        )
    }
}

/// One category section: frequency and file counts, then the subcategory
/// sections.
#[verifier::opaque]
pub open spec fn spec_category_section(c: CategoryType, ws: Seq<WarningView>) -> Seq<char> {
    "## "@ + c.spec_name() + " Issues\n\n**Frequency**: "@ + spec_dec(ws.len() as int)
        + " occurrences\n**Affected Files**: "@ + spec_dec(spec_distinct_files(ws).len() as int)
        + " files\n\n"@ + spec_subcat_sections(c, ws, spec_distinct_messages(ws))
}

/// One priority section: its banner and the category it covers.
#[verifier::opaque]
pub open spec fn spec_priority_section(
    p: Priority,
    c: CategoryType,
    ws: Seq<WarningView>,
) -> Seq<char> {
    "\n# "@ + p.spec_name() + " Priority Warnings (Risk Level: "@ + spec_dec(
        p.spec_severity_score() as int,
    ) + ")\n\n"@ + spec_category_section(c, ws)
}

/// The chart rows of the category breakdown: one row per category with
/// at least one warning, in fixed category order.
pub open spec fn spec_cat_chart_rows(ws: Seq<Warning>) -> Seq<(Seq<char>, usize)> {
    (if count_matching(ws, pred_cat(CategoryType::Safety)) > 0 {
        seq![
            ("Safety"@, count_matching(ws, pred_cat(CategoryType::Safety)) as usize),
        ]
    } else {
        Seq::empty()
    }) + (if count_matching(ws, pred_cat(CategoryType::Performance)) > 0 {
        seq![
            ("Performance"@, count_matching(ws, pred_cat(CategoryType::Performance)) as usize),
        ]
    } else {
        Seq::empty()
    }) + (if count_matching(ws, pred_cat(CategoryType::Style)) > 0 {
        seq![("Style"@, count_matching(ws, pred_cat(CategoryType::Style)) as usize)]
    } else {
        Seq::empty()
    }) + (if count_matching(ws, pred_cat(CategoryType::Documentation)) > 0 {
        seq![
            (
                "Documentation"@,
                count_matching(ws, pred_cat(CategoryType::Documentation)) as usize,
            ),
        ]
    } else {
        Seq::empty()
    })
}

/// The per-category detail line of the statistics section.
pub open spec fn spec_cat_detail_line(c: CategoryType, count: int, total: int) -> Seq<char> {
    "- "@ + c.spec_name() + ": "@ + spec_dec(count) + " ("@ + spec_one_decimal(
        spec_share_tenths(count, total),
    ) + "%)\n"@
}

/// The detail lines of the statistics section, one per present category.
pub open spec fn spec_cat_detail_lines(ws: Seq<Warning>) -> Seq<char> {
    let total = ws.len() as int;
    (if count_matching(ws, pred_cat(CategoryType::Safety)) > 0 {
        spec_cat_detail_line(
            CategoryType::Safety,
            count_matching(ws, pred_cat(CategoryType::Safety)),
            total,
        )
    } else {
        Seq::empty()
    }) + (if count_matching(ws, pred_cat(CategoryType::Performance)) > 0 {
        spec_cat_detail_line(
            CategoryType::Performance,
            count_matching(ws, pred_cat(CategoryType::Performance)),
            total,
        )
    } else {
        Seq::empty()
    }) + (if count_matching(ws, pred_cat(CategoryType::Style)) > 0 {
        spec_cat_detail_line(
            CategoryType::Style,
            count_matching(ws, pred_cat(CategoryType::Style)),
            total,
        )
    } else {
        Seq::empty()
    }) + (if count_matching(ws, pred_cat(CategoryType::Documentation)) > 0 {
        spec_cat_detail_line(
            CategoryType::Documentation,
            count_matching(ws, pred_cat(CategoryType::Documentation)),
            total,
        )
    } else {
        Seq::empty()
    })
}

/// The statistics section of the plan.
#[verifier::opaque]
pub open spec fn spec_statistics_section(ws: Seq<Warning>) -> Seq<char> {
    "## Summary\n\nTotal warnings: "@ + spec_dec(ws.len() as int) + "\nFiles affected: "@
        + spec_dec(spec_distinct_files(views_of(ws)).len() as int)
        + "\n\n### Category Breakdown\n\n```\n"@ + spec_chart(
        spec_cat_chart_rows(ws),
        ChartStyle::Blocks,
        50,
        true,
    ) + "\n```\n\n"@ + spec_cat_detail_lines(ws) + "\n"@
}

/// The fixed preamble of the plan.
pub open spec fn spec_plan_header() -> Seq<char> {
    "# Comprehensive Fix Priority Plan\n\nThis plan outlines all detected issues, prioritized by risk level and impact.\n\n"@
}

/// The fixed overview of the plan.
pub open spec fn spec_plan_overview() -> Seq<char> {
    "## Overview\n\nThis plan covers all warning types, prioritized by risk level and frequency.\n\n"@
}

/// The fixed risk-level legend of the plan.
pub open spec fn spec_risk_levels() -> Seq<char> {
    "## Risk Level Definitions\n\n- 5: Critical - Immediate action required (safety issues, potential bugs)\n- 4: High - Should be fixed soon (correctness issues, performance problems)\n- 3: Medium - Plan to fix (maintainability issues)\n- 2: Low - Fix when convenient (style issues)\n- 1: Trivial - Optional fixes\n\n"@
}

/// The priority sections of the plan, in descending priority order. Each
/// priority covers one category: safety warnings are critical,
/// performance warnings high, documentation warnings medium and style
/// warnings low.
pub open spec fn spec_priority_sections(ws: Seq<Warning>) -> Seq<char> {
    (if spec_cat_views(ws, CategoryType::Safety).len() > 0 {
        spec_priority_section(
            Priority::Critical,
            CategoryType::Safety,
            spec_cat_views(ws, CategoryType::Safety),
        )
    } else {
        Seq::empty()
    }) + (if spec_cat_views(ws, CategoryType::Performance).len() > 0 {
        spec_priority_section(
            Priority::High,
            CategoryType::Performance,
            spec_cat_views(ws, CategoryType::Performance),
        )
    } else {
        Seq::empty()
    }) + (if spec_cat_views(ws, CategoryType::Documentation).len() > 0 {
        spec_priority_section(
            Priority::Medium,
            CategoryType::Documentation,
            spec_cat_views(ws, CategoryType::Documentation),
        )
    } else {
        Seq::empty()
    }) + (if spec_cat_views(ws, CategoryType::Style).len() > 0 {
        spec_priority_section(
            Priority::Low,
            CategoryType::Style,
            spec_cat_views(ws, CategoryType::Style),
        )
    } else {
        Seq::empty()
    })
}

/// The whole fix plan of a warning collection.
pub open spec fn spec_plan_text(ws: Seq<Warning>) -> Seq<char> {
    spec_plan_header() + spec_plan_overview() + spec_statistics_section(ws) + spec_risk_levels()
        + spec_priority_sections(ws)
}

/// Assembles the fix plan into a text buffer the glue layer writes out.
pub struct FixPlanGenerator {
    pub out: String,
}

impl FixPlanGenerator {
    pub fn new() -> (r: Self)
        ensures
            r.out@ =~= Seq::empty(),
    {
        FixPlanGenerator { out: String::new() }
    }

    fn write_header(&mut self)
        ensures
            final(self).out@ == old(self).out@ + spec_plan_header(),
    {
        self.out.append(
            "# Comprehensive Fix Priority Plan\n\nThis plan outlines all detected issues, prioritized by risk level and impact.\n\n",
        );
    }

    fn write_overview(&mut self)
        ensures
            final(self).out@ == old(self).out@ + spec_plan_overview(),
    {
        self.out.append(
            "## Overview\n\nThis plan covers all warning types, prioritized by risk level and frequency.\n\n",
        );
    }

    fn write_risk_levels(&mut self)
        ensures
            final(self).out@ == old(self).out@ + spec_risk_levels(),
    {
        self.out.append(
            "## Risk Level Definitions\n\n- 5: Critical - Immediate action required (safety issues, potential bugs)\n- 4: High - Should be fixed soon (correctness issues, performance problems)\n- 3: Medium - Plan to fix (maintainability issues)\n- 2: Low - Fix when convenient (style issues)\n- 1: Trivial - Optional fixes\n\n",
        );
    }

    #[verifier::rlimit(100)]
    fn write_impact_assessment(&mut self, category: CategoryType, warnings: &Vec<Warning>)
        requires
            warnings@.len() > 0,
        ensures
            final(self).out@ == old(self).out@ + spec_impact_block(
                category,
                views_of(warnings@),
            ),
    {
        proof {
            assert(views_of(warnings@)[0] == w_view(warnings@[0]));
        }
        let severity: &'static str = match category {
            CategoryType::Safety => {
                if warnings[0].priority == Priority::Critical {
                    "CRITICAL SAFETY ISSUE"
                } else {
                    "SAFETY CONCERN"
                }
            },
            CategoryType::Performance => {
                if warnings[0].priority == Priority::High {
                    "HIGH PERFORMANCE IMPACT"
                } else {
                    "PERFORMANCE CONCERN"
                }
            },
            CategoryType::Style => "MAINTAINABILITY CONCERN",
            CategoryType::Documentation => "DOCUMENTATION GAP",
        };
        let impact: &'static str = match category {
            CategoryType::Safety => {
                if warnings[0].priority == Priority::Critical {
                    "Could cause production failures or security vulnerabilities."
                } else {
                    "May affect program correctness."
                }
            },
            CategoryType::Performance => {
                if warnings[0].priority == Priority::High {
                    "May affect system responsiveness and resource usage."
                } else {
                    "Could impact efficiency."
                }
            },
            CategoryType::Style => "Affects code readability and maintenance.",
            CategoryType::Documentation => "Impacts code understanding and usability.",
        };
        let pattern: &'static str = if warnings.len() > 5 {
            "Widespread issue affecting multiple files - consider systematic fix."
        } else {
            "Isolated occurrences - can be fixed individually."
        };
        self.out.append("**Risk Assessment**: ");
        self.out.append(severity);
        self.out.append(": ");
        self.out.append(warnings[0].message.as_str());
        self.out.append("\n**Impact**: ");
        self.out.append(impact);
        self.out.append("\n**Pattern**: ");
        self.out.append(pattern);
        self.out.append("\n\n");
    }

    #[verifier::rlimit(100)]
    fn write_subcategory_section(
        &mut self,
        category: CategoryType,
        subcategory: &str,
        warnings: &Vec<Warning>,
    )
        requires
            warnings@.len() > 0,
        ensures
            final(self).out@ == old(self).out@ + spec_subcat_section(
                category,
                subcategory@,
                views_of(warnings@),
            ),
    {
        proof {
            assert(views_of(warnings@)[0] == w_view(warnings@[0]));
        }
        self.out.append("### ");
        self.out.append(subcategory);
        self.out.append("\n\n");
        self.write_impact_assessment(category, warnings);
        match get_fix_example(&warnings[0]) {
            Some(example) => {
                self.out.append("#### Fix Template\n\n```rust\n");
                self.out.append(example.before.as_str());
                self.out.append("\n\n// After applying fix:\n\n");
                self.out.append(example.after.as_str());
                self.out.append("\n```\n\n");
            },
            None => {},
        }
        match generate_fix_suggestion(&warnings[0]) {
            Some(fix) => {
                self.out.append("#### Specific Fix\n\n```rust\n");
                self.out.append(fix.code.as_str());
                self.out.append("\n```\n\n");
                self.out.append("Confidence: ");
                let c = u32_to_string(fix.confidence as u32);
                self.out.append(c.as_str());
                self.out.append("%\n\n");
            },
            None => {},
        }
        self.out.append("#### All Occurrences\n\n");
        let ghost head = self.out@;
        let ghost group = views_of(warnings@);
        let n = warnings.len();
        let mut k: usize = 0;
        proof {
            assert(group.take(0) =~= Seq::<WarningView>::empty());
            assert(self.out@ =~= head + spec_occurrences(group.take(0)));
        }
        while k < n
            invariant
                k <= n,
                n == warnings@.len(),
                group == views_of(warnings@),
                group.len() == n,
                self.out@ == head + spec_occurrences(group.take(k as int)),
            decreases n - k,
        {
            proof {
                assert(group.take(k + 1).drop_last() =~= group.take(k as int));
                assert(group.take(k + 1).last() == group[k as int]);
                assert(group[k as int] == w_view(warnings@[k as int]));
            }
            let w = &warnings[k];
            self.out.append("**");
            self.out.append(w.file.as_str());
            self.out.append(":");
            let line = u32_to_string(w.line);
            self.out.append(line.as_str());
            self.out.append("**\n```\nMessage: ");
            self.out.append(w.message.as_str());
            self.out.append("\n");
            let children = child_block(w.message.as_str());
            self.out.append(children.as_str());
            self.out.append("```\n\n");
            proof {
                assert(self.out@ =~= head + spec_occurrences(group.take(k + 1)));
            }
            k += 1;
        }
        proof {
            reveal(spec_subcat_section);
            assert(group.take(n as int) =~= group);
            assert(self.out@ =~= old(self).out@ + spec_subcat_section(
                category,
                subcategory@,
                views_of(warnings@),
            ));
        }
    }

    fn write_category_section(&mut self, category: CategoryType, warnings: &Vec<Warning>)
        ensures
            final(self).out@ == old(self).out@ + spec_category_section(
                category,
                views_of(warnings@),
            ),
    {
        proof {
            reveal(spec_category_section);
        }
        self.out.append("## ");
        self.out.append(category.name());
        self.out.append(" Issues\n\n**Frequency**: ");
        let count = usize_to_string(warnings.len());
        self.out.append(count.as_str());
        self.out.append(" occurrences\n**Affected Files**: ");
        let files = distinct_file_count_vec(warnings);
        let fcount = usize_to_string(files);
        self.out.append(fcount.as_str());
        self.out.append(" files\n\n");
        let msgs = distinct_messages(warnings);
        let ghost ms = spec_distinct_messages(views_of(warnings@));
        let ghost head = self.out@;
        let n = msgs.len();
        let mut k: usize = 0;
        proof {
            assert(ms.take(0) =~= Seq::<Seq<char>>::empty());
            assert(self.out@ =~= head + spec_subcat_sections(category, views_of(warnings@),
                ms.take(0)));
        }
        while k < n
            invariant
                k <= n,
                n == msgs@.len(),
                msgs.deep_view() == ms,
                ms.len() == n,
                ms == spec_distinct_messages(views_of(warnings@)),
                self.out@ == head + spec_subcat_sections(category, views_of(warnings@),
                    ms.take(k as int)),
            decreases n - k,
        {
            proof {
                assert(ms.take(k + 1).drop_last() =~= ms.take(k as int));
                assert(ms.take(k + 1).last() == ms[k as int]);
                assert(msgs.deep_view()[k as int] == msgs@[k as int]@);
                assert(ms.contains(ms[k as int]));
                lemma_distinct_message_has(views_of(warnings@), ms[k as int]);
            }
            let group = warnings_with_message(warnings, msgs[k].as_str());
            proof {
                assert(views_of(group@).len() == group@.len());
            }
            self.write_subcategory_section(category, msgs[k].as_str(), &group);
            proof {
                assert(self.out@ =~= head + spec_subcat_sections(category, views_of(warnings@),
                    ms.take(k + 1)));
            }
            k += 1;
        }
        proof {
            reveal(spec_category_section);
            assert(ms.take(n as int) =~= ms);
            assert(final(self).out@ =~= old(self).out@ + spec_category_section(
                category,
                views_of(warnings@),
            ));
        }
    }

    fn write_priority_section(
        &mut self,
        priority: Priority,
        category: CategoryType,
        warnings: &Vec<Warning>,
    )
        ensures
            final(self).out@ == old(self).out@ + spec_priority_section(
                priority,
                category,
                views_of(warnings@),
            ),
    {
        proof {
            reveal(spec_priority_section);
        }
        self.out.append("\n# ");
        self.out.append(priority.name());
        self.out.append(" Priority Warnings (Risk Level: ");
        let score = u32_to_string(priority.severity_score() as u32);
        self.out.append(score.as_str());
        self.out.append(")\n\n");
        self.write_category_section(category, warnings);
        proof {
            reveal(spec_priority_section);
            assert(final(self).out@ =~= old(self).out@ + spec_priority_section(
                priority,
                category,
                views_of(warnings@),
            ));
        }
    }

    #[verifier::rlimit(100)]
    fn write_statistics(&mut self, warnings: &[Warning], stats: &WarningStatistics)
        requires
            warnings@.len() > 0,
            stats.total_warnings == warnings@.len(),
            stats.files_affected == spec_distinct_files(views_of(warnings@)).len(),
            forall|c: CategoryType| #[trigger]
                stats.by_category.spec_get(c) == count_matching(warnings@, pred_cat(c)),
        ensures
            final(self).out@ == old(self).out@ + spec_statistics_section(warnings@),
    {
        let ghost ws = warnings@;
        self.out.append("## Summary\n\nTotal warnings: ");
        let t = usize_to_string(stats.total_warnings);
        self.out.append(t.as_str());
        self.out.append("\nFiles affected: ");
        let f = usize_to_string(stats.files_affected);
        self.out.append(f.as_str());
        self.out.append("\n\n### Category Breakdown\n\n```\n");
        let data = category_chart_data(stats, Ghost(ws));
        let config = ChartConfig {
            style: ChartStyle::Blocks,
            color: None,
            width: 50,
            show_percentage: true,
        };
        proof {
            lemma_chart_rows_sum(ws);
        }
        let chart = create_enhanced_chart(data.as_slice(), config);
        self.out.append(chart.as_str());
        self.out.append("\n```\n\n");
        append_cat_details(&mut self.out, stats, Ghost(ws));
        self.out.append("\n");
        proof {
            reveal(spec_statistics_section);
            assert(final(self).out@ =~= old(self).out@ + spec_statistics_section(ws));
        }
    }

    /// Assembles the complete fix plan for a warning collection: preamble,
    /// aggregate statistics with a category chart, the risk legend, and
    /// one prioritized section per category that has warnings. The
    /// collection must be nonempty, else the chart's percentages would be
    /// undefined.
    /// The preamble, statistics and legend of the plan.
    #[verifier::rlimit(100)]
    fn generate_front(&mut self, warnings: &[Warning])
        requires
            warnings@.len() > 0,
        ensures
            final(self).out@ == old(self).out@ + (spec_plan_header() + spec_plan_overview()
                + spec_statistics_section(warnings@) + spec_risk_levels()),
    {
        self.write_header();
        self.write_overview();
        let files = distinct_file_count(warnings);
        let stats = WarningStatistics::from_warnings(warnings, files);
        self.write_statistics(warnings, &stats);
        self.write_risk_levels();
        proof {
            assert(final(self).out@ =~= old(self).out@ + (spec_plan_header()
                + spec_plan_overview() + spec_statistics_section(warnings@)
                + spec_risk_levels()));
        }
    }

    /// The prioritized per-category sections of the plan.
    #[verifier::rlimit(100)]
    fn generate_sections(&mut self, warnings: &[Warning])
        ensures
            final(self).out@ == old(self).out@ + spec_priority_sections(warnings@),
    {
        let ghost base = old(self).out@;
        let safety_group = warnings_in_category(warnings, CategoryType::Safety);
        if safety_group.len() > 0 {
            self.write_priority_section(Priority::Critical, CategoryType::Safety, &safety_group);
        } else {
            proof {
                assert(views_of(safety_group@).len() == 0);
            }
        }
        proof {
            assert(self.out@ =~= base + (if spec_cat_views(warnings@, CategoryType::Safety).len()
                > 0 {
                spec_priority_section(Priority::Critical, CategoryType::Safety,
                    spec_cat_views(warnings@, CategoryType::Safety))
            } else {
                Seq::<char>::empty()
            }));
        }
        let perf_group = warnings_in_category(warnings, CategoryType::Performance);
        if perf_group.len() > 0 {
            self.write_priority_section(Priority::High, CategoryType::Performance, &perf_group);
        } else {
            proof {
                assert(views_of(perf_group@).len() == 0);
            }
        }
        proof {
            assert(self.out@ =~= base + (if spec_cat_views(warnings@, CategoryType::Safety).len()
                > 0 {
                spec_priority_section(Priority::Critical, CategoryType::Safety,
                    spec_cat_views(warnings@, CategoryType::Safety))
            } else {
                Seq::<char>::empty()
            }) + (if spec_cat_views(warnings@, CategoryType::Performance).len() > 0 {
                spec_priority_section(Priority::High, CategoryType::Performance,
                    spec_cat_views(warnings@, CategoryType::Performance))
            } else {
                Seq::<char>::empty()
            }));
        }
        let doc_group = warnings_in_category(warnings, CategoryType::Documentation);
        if doc_group.len() > 0 {
            self.write_priority_section(Priority::Medium, CategoryType::Documentation, &doc_group);
        } else {
            proof {
                assert(views_of(doc_group@).len() == 0);
            }
        }
        proof {
            assert(self.out@ =~= base + (if spec_cat_views(warnings@, CategoryType::Safety).len()
                > 0 {
                spec_priority_section(Priority::Critical, CategoryType::Safety,
                    spec_cat_views(warnings@, CategoryType::Safety))
            } else {
                Seq::<char>::empty()
            }) + (if spec_cat_views(warnings@, CategoryType::Performance).len() > 0 {
                spec_priority_section(Priority::High, CategoryType::Performance,
                    spec_cat_views(warnings@, CategoryType::Performance))
            } else {
                Seq::<char>::empty()
            }) + (if spec_cat_views(warnings@, CategoryType::Documentation).len() > 0 {
                spec_priority_section(Priority::Medium, CategoryType::Documentation,
                    spec_cat_views(warnings@, CategoryType::Documentation))
            } else {
                Seq::<char>::empty()
            }));
        }
        let style_group = warnings_in_category(warnings, CategoryType::Style);
        if style_group.len() > 0 {
            self.write_priority_section(Priority::Low, CategoryType::Style, &style_group);
        } else {
            proof {
                assert(views_of(style_group@).len() == 0);
            }
        }
        proof {
            assert(final(self).out@ =~= old(self).out@ + spec_priority_sections(warnings@));
        }
    }

    /// Assembles the complete fix plan for a warning collection: preamble,
    /// aggregate statistics with a category chart, the risk legend, and
    /// one prioritized section per category that has warnings. The
    /// collection must be nonempty, else the chart's percentages would be
    /// undefined.
    pub fn generate_plan(&mut self, warnings: &[Warning])
        requires
            warnings@.len() > 0,
        ensures
            final(self).out@ == old(self).out@ + spec_plan_text(warnings@),
    {
        self.generate_front(warnings);
        self.generate_sections(warnings);
        proof {
            assert(final(self).out@ =~= old(self).out@ + spec_plan_text(warnings@));
        }
    }

    /// Hands the assembled plan to the caller.
    pub fn into_output(self) -> (r: String)
        ensures
            r == self.out,
    {
        self.out
    }
}


/// The chart rows of the category breakdown, as owned pairs.
fn category_chart_data(stats: &WarningStatistics, Ghost(ws): Ghost<Seq<Warning>>) -> (r: Vec<
    (String, usize),
>)
    requires
        stats.total_warnings == ws.len(),
        forall|c: CategoryType| #[trigger]
            stats.by_category.spec_get(c) == count_matching(ws, pred_cat(c)),
    ensures
        data_view(r@) == spec_cat_chart_rows(ws),
{
    proof {
        assert(stats.by_category.spec_get(CategoryType::Safety) == stats.by_category.safety);
        assert(stats.by_category.spec_get(CategoryType::Performance)
            == stats.by_category.performance);
        assert(stats.by_category.spec_get(CategoryType::Style) == stats.by_category.style);
        assert(stats.by_category.spec_get(CategoryType::Documentation)
            == stats.by_category.documentation);
    }
    let mut data: Vec<(String, usize)> = Vec::new();
    if stats.by_category.safety > 0 {
        data.push(("Safety".to_owned(), stats.by_category.safety));
    }
    if stats.by_category.performance > 0 {
        data.push(("Performance".to_owned(), stats.by_category.performance));
    }
    if stats.by_category.style > 0 {
        data.push(("Style".to_owned(), stats.by_category.style));
    }
    if stats.by_category.documentation > 0 {
        data.push(("Documentation".to_owned(), stats.by_category.documentation));
    }
    proof {
        assert(data_view(data@) =~= spec_cat_chart_rows(ws));
    }
    data
}

/// Appends the per-category detail lines of the statistics section.
fn append_cat_details(out: &mut String, stats: &WarningStatistics, Ghost(ws): Ghost<Seq<Warning>>)
    requires
        stats.total_warnings == ws.len(),
        ws.len() > 0,
        forall|c: CategoryType| #[trigger]
            stats.by_category.spec_get(c) == count_matching(ws, pred_cat(c)),
    ensures
        final(out)@ == old(out)@ + spec_cat_detail_lines(ws),
{
    proof {
        assert(stats.by_category.spec_get(CategoryType::Safety) == stats.by_category.safety);
        assert(stats.by_category.spec_get(CategoryType::Performance)
            == stats.by_category.performance);
        assert(stats.by_category.spec_get(CategoryType::Style) == stats.by_category.style);
        assert(stats.by_category.spec_get(CategoryType::Documentation)
            == stats.by_category.documentation);
        crate::analysis::statistics::warning::lemma_count_matching_le(
            ws,
            pred_cat(CategoryType::Safety),
        );
        crate::analysis::statistics::warning::lemma_count_matching_le(
            ws,
            pred_cat(CategoryType::Performance),
        );
        crate::analysis::statistics::warning::lemma_count_matching_le(
            ws,
            pred_cat(CategoryType::Style),
        );
        crate::analysis::statistics::warning::lemma_count_matching_le(
            ws,
            pred_cat(CategoryType::Documentation),
        );
    }
    let total = stats.total_warnings;
    if stats.by_category.safety > 0 {
        let line = cat_detail_line(CategoryType::Safety, stats.by_category.safety, total);
        out.append(line.as_str());
    }
    if stats.by_category.performance > 0 {
        let line = cat_detail_line(
            CategoryType::Performance,
            stats.by_category.performance,
            total,
        );
        out.append(line.as_str());
    }
    if stats.by_category.style > 0 {
        let line = cat_detail_line(CategoryType::Style, stats.by_category.style, total);
        out.append(line.as_str());
    }
    if stats.by_category.documentation > 0 {
        let line = cat_detail_line(
            CategoryType::Documentation,
            stats.by_category.documentation,
            total,
        );
        out.append(line.as_str());
    }
    proof {
        assert(final(out)@ =~= old(out)@ + spec_cat_detail_lines(ws));
    }
}

/// Counts the distinct files a warning collection touches.
fn distinct_file_count_vec(warnings: &Vec<Warning>) -> (r: usize)
    ensures
        r == spec_distinct_files(views_of(warnings@)).len(),
{
    distinct_file_count(warnings.as_slice())
}

/// One per-category detail line of the statistics section.
fn cat_detail_line(c: CategoryType, count: usize, total: usize) -> (r: String)
    requires
        0 < count <= total,
    ensures
        r@ == spec_cat_detail_line(c, count as int, total as int),
{
    let mut s = "- ".to_owned();
    s.append(c.name());
    s.append(": ");
    let cs = usize_to_string(count);
    s.append(cs.as_str());
    s.append(" (");
    let tenths = round_half_even_u128((count as u128) * 1000, total as u128);
    let d = one_decimal_string(tenths);
    s.append(d.as_str());
    s.append("%)\n");
    s
}

/// The chart rows of the category breakdown sum to the collection size.
proof fn lemma_chart_rows_sum(ws: Seq<Warning>)
    requires
        ws.len() <= usize::MAX,
    ensures
        spec_sum(spec_cat_chart_rows(ws)) == ws.len(),
{
    lemma_category_counts_partition(ws);
    crate::analysis::statistics::warning::lemma_count_matching_le(
        ws,
        pred_cat(CategoryType::Safety),
    );
    crate::analysis::statistics::warning::lemma_count_matching_le(
        ws,
        pred_cat(CategoryType::Performance),
    );
    crate::analysis::statistics::warning::lemma_count_matching_le(
        ws,
        pred_cat(CategoryType::Style),
    );
    crate::analysis::statistics::warning::lemma_count_matching_le(
        ws,
        pred_cat(CategoryType::Documentation),
    );
    let s = count_matching(ws, pred_cat(CategoryType::Safety));
    let p = count_matching(ws, pred_cat(CategoryType::Performance));
    let st = count_matching(ws, pred_cat(CategoryType::Style));
    let d = count_matching(ws, pred_cat(CategoryType::Documentation));
    let r1: Seq<(Seq<char>, usize)> = if s > 0 {
        seq![("Safety"@, s as usize)]
    } else {
        Seq::empty()
    };
    let r2: Seq<(Seq<char>, usize)> = if p > 0 {
        seq![("Performance"@, p as usize)]
    } else {
        Seq::empty()
    };
    let r3: Seq<(Seq<char>, usize)> = if st > 0 {
        seq![("Style"@, st as usize)]
    } else {
        Seq::empty()
    };
    let r4: Seq<(Seq<char>, usize)> = if d > 0 {
        seq![("Documentation"@, d as usize)]
    } else {
        Seq::empty()
    };
    assert(spec_sum(r1) == s) by {
        assert(spec_sum(Seq::<(Seq<char>, usize)>::empty()) == 0);
        if s > 0 {
            assert(r1.drop_last() =~= Seq::<(Seq<char>, usize)>::empty());
            assert(spec_sum(r1) == spec_sum(r1.drop_last()) + r1.last().1);
        }
    }
    assert(spec_sum(r2) == p) by {
        assert(spec_sum(Seq::<(Seq<char>, usize)>::empty()) == 0);
        if p > 0 {
            assert(r2.drop_last() =~= Seq::<(Seq<char>, usize)>::empty());
            assert(spec_sum(r2) == spec_sum(r2.drop_last()) + r2.last().1);
        }
    }
    assert(spec_sum(r3) == st) by {
        assert(spec_sum(Seq::<(Seq<char>, usize)>::empty()) == 0);
        if st > 0 {
            assert(r3.drop_last() =~= Seq::<(Seq<char>, usize)>::empty());
            assert(spec_sum(r3) == spec_sum(r3.drop_last()) + r3.last().1);
        }
    }
    assert(spec_sum(r4) == d) by {
        assert(spec_sum(Seq::<(Seq<char>, usize)>::empty()) == 0);
        if d > 0 {
            assert(r4.drop_last() =~= Seq::<(Seq<char>, usize)>::empty());
            assert(spec_sum(r4) == spec_sum(r4.drop_last()) + r4.last().1);
        }
    }
    lemma_sum_concat(r1, r2);
    lemma_sum_concat(r1 + r2, r3);
    lemma_sum_concat(r1 + r2 + r3, r4);
    assert(spec_cat_chart_rows(ws) == r1 + r2 + r3 + r4);
}

proof fn lemma_sum_concat(a: Seq<(Seq<char>, usize)>, b: Seq<(Seq<char>, usize)>)
    ensures
        spec_sum(a + b) == spec_sum(a) + spec_sum(b),
    decreases b.len(),
{
    if b.len() == 0 {
        assert(a + b =~= a);
    } else {
        assert((a + b).drop_last() =~= a + b.drop_last());
        assert((a + b).last() == b.last());
        lemma_sum_concat(a, b.drop_last());
    }
}

} // verus!
