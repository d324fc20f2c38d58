use vstd::prelude::*;
use vstd::string::StringExecFns;
use crate::types::warnings::Warning;
use crate::types::categories::CategoryType;
use crate::colors::color_red;
use crate::colors::color_yellow;
use crate::colors::color_blue;
use crate::colors::color_cyan;
use crate::text::spec_dec;
use crate::text::spec_lines;
use crate::text::spec_pad_left;
use crate::text::lines_of;
use crate::text::pad_left;
use crate::text::u32_to_string;
use crate::text::usize_to_string;

verus! {

/// The marker glyph shown before a warning, by category.
pub open spec fn spec_priority_marker(c: CategoryType) -> Seq<char> {
    match c {
        CategoryType::Safety => "🔴"@,
        CategoryType::Performance => "🟡"@,
        CategoryType::Documentation => "🟢"@,
        CategoryType::Style => "⚪"@,
    }
}

/// One warning rendered for the terminal:
/// `<marker> <category> in <file> (line <line>)` and the indented message.
pub open spec fn spec_formatted_warning(w: Warning) -> Seq<char> {
    spec_priority_marker(w.category.category_type) + " "@ + w.category.category_type.spec_name()
        + " in "@ + w.file@ + " (line "@ + spec_dec(w.line as int) + ")\n    "@ + w.message@
        + "\n"@
}

/// Renders single warnings with their category color.
pub struct WarningFormatter<'a> {
    pub warning: &'a Warning,
}

impl<'a> WarningFormatter<'a> {
    pub fn new(warning: &'a Warning) -> (r: Self)
        ensures
            r.warning == warning,
    {
        Self { warning }
    }

    /// The rendered line plus the color the glue layer should print it in.
    pub fn format(&self) -> (r: (String, termcolor::Color))
        ensures
            r.0@ == spec_formatted_warning(*self.warning),
    {
        let color = self.get_category_color();
        let priority_marker = self.get_priority_marker();
        let mut s = priority_marker.to_owned();
        s.append(" ");
        s.append(self.warning.category.category_type.name());
        s.append(" in ");
        s.append(self.warning.file.as_str());
        s.append(" (line ");
        let line = u32_to_string(self.warning.line);
        s.append(line.as_str());
        s.append(")\n    ");
        s.append(self.warning.message.as_str());
        s.append("\n");
        (s, color)
    }

    /// The terminal color of the warning's category. The color value is
    /// opaque to the verifier.
    fn get_category_color(&self) -> termcolor::Color {
        match self.warning.category.category_type {
            CategoryType::Safety => color_red(),
            CategoryType::Performance => color_yellow(),
            CategoryType::Style => color_blue(),
            CategoryType::Documentation => color_cyan(),
        }
    }

    pub fn get_priority_marker(&self) -> (r: &'static str)
        ensures
            r@ == spec_priority_marker(self.warning.category.category_type),
    {
        match self.warning.category.category_type {
            CategoryType::Safety => "🔴",
            CategoryType::Performance => "🟡",
            CategoryType::Documentation => "🟢",
            CategoryType::Style => "⚪",
        }
    }
}

/// Renders one warning with its category color.
pub fn format_warning(warning: &Warning) -> (r: (String, termcolor::Color))
    ensures
        r.0@ == spec_formatted_warning(*warning),
{
    let formatter = WarningFormatter::new(warning);
    formatter.format()
}

/// The per-category lines of the summary.
pub open spec fn spec_summary_lines(by_category: Seq<(CategoryType, usize)>) -> Seq<char>
    decreases by_category.len(),
{
    if by_category.len() == 0 {
        Seq::empty()
    } else {
        spec_summary_lines(by_category.drop_last()) + "  "@
            + by_category.last().0.spec_name() + ": "@ + spec_dec(by_category.last().1 as int)
            + "\n"@
    }
}

/// The short textual summary of a run.
pub open spec fn spec_summary(
    total: int,
    by_category: Seq<(CategoryType, usize)>,
    input_warnings: int,
) -> Seq<char> {
    "\nTotal Warnings: "@ + spec_dec(total) + " (from "@ + spec_dec(input_warnings)
        + " input warnings)\n\nBy Category:\n"@ + spec_summary_lines(by_category)
}

/// Renders the run summary: the totals line and one line per category.
pub fn format_summary(
    total: usize,
    by_category: &[(CategoryType, usize)],
    input_warnings: usize,
) -> (r: String)
    ensures
        r@ == spec_summary(total as int, by_category@, input_warnings as int),
{
    let mut summary = "\nTotal Warnings: ".to_owned();
    let t = usize_to_string(total);
    summary.append(t.as_str());
    summary.append(" (from ");
    let iw = usize_to_string(input_warnings);
    summary.append(iw.as_str());
    summary.append(" input warnings)\n\nBy Category:\n");
    let ghost head = summary@;
    let ghost rows = by_category@;
    let n = by_category.len();
    let mut k: usize = 0;
    proof {
        assert(rows.take(0) =~= Seq::<(CategoryType, usize)>::empty());
        assert(summary@ =~= head + spec_summary_lines(rows.take(0)));
    }
    while k < n
        invariant
            k <= n,
            n == rows.len(),
            by_category@ == rows,
            summary@ == head + spec_summary_lines(rows.take(k as int)),
        decreases n - k,
    {
        proof {
            assert(rows.take(k + 1).drop_last() =~= rows.take(k as int));
            assert(rows.take(k + 1).last() == rows[k as int]);
        }
        summary.append("  ");
        summary.append(by_category[k].0.name());
        summary.append(": ");
        let c = usize_to_string(by_category[k].1);
        summary.append(c.as_str());
        summary.append("\n");
        proof {
            assert(summary@ =~= head + spec_summary_lines(rows.take(k + 1)));
        }
        k += 1;
    }
    proof {
        assert(rows.take(n as int) =~= rows);
    }
    summary
}

/// The header line shown above a file's warnings.
pub open spec fn spec_file_path_line(path: Seq<char>, warning_count: int) -> Seq<char> {
    "\n📁 "@ + path + " ("@ + spec_dec(warning_count) + " warnings)\n"@
}

pub fn format_file_path(path: &str, warning_count: usize) -> (r: String)
    ensures
        r@ == spec_file_path_line(path@, warning_count as int),
{
    let mut s = "\n📁 ".to_owned();
    s.append(path);
    s.append(" (");
    let c = usize_to_string(warning_count);
    s.append(c.as_str());
    s.append(" warnings)\n");
    s
}

/// The snippet's lines, each prefixed with a right-aligned line number.
pub open spec fn spec_snippet_lines(lines: Seq<Seq<char>>, line_number: int, i: int) -> Seq<char>
    decreases lines.len() - i when 0 <= i <= lines.len()
{
    if i >= lines.len() {
        Seq::empty()
    } else {
        spec_pad_left(spec_dec(line_number + i), 4) + " | "@ + lines[i] + "\n"@
            + spec_snippet_lines(lines, line_number, i + 1)
    }
}

/// Renders a code snippet with line numbers counted from `line_number`.
pub fn format_code_snippet(code: &str, line_number: u32) -> (r: String)
    requires
        code@.len() + line_number <= usize::MAX,
    ensures
        r@ == spec_snippet_lines(spec_lines(code@), line_number as int, 0),
{
    let lines = lines_of(code);
    let ghost ls = spec_lines(code@);
    proof {
        lemma_lines_count(code@);
    }
    let mut formatted = String::new();
    let n = lines.len();
    let mut i: usize = 0;
    let ghost target = spec_snippet_lines(ls, line_number as int, 0);
    proof {
        assert(formatted@ + spec_snippet_lines(ls, line_number as int, 0) =~= target);
    }
    while i < n
        invariant
            i <= n,
            n == lines@.len(),
            lines.deep_view() == ls,
            ls.len() == n,
            n + line_number <= usize::MAX,
            target == spec_snippet_lines(ls, line_number as int, 0),
            formatted@ + spec_snippet_lines(ls, line_number as int, i as int) == target,
        decreases n - i,
    {
        proof {
            assert(lines.deep_view()[i as int] == lines@[i as int]@);
        }
        let line_num = (line_number as usize) + i;
        let num = usize_to_string(line_num);
        let padded = pad_left(num.as_str(), 4);
        formatted.append(padded.as_str());
        formatted.append(" | ");
        formatted.append(lines[i].as_str());
        formatted.append("\n");
        proof {
            assert(formatted@ + spec_snippet_lines(ls, line_number as int, i + 1) =~= target);
        }
        i += 1;
    }
    proof {
        assert(spec_snippet_lines(ls, line_number as int, n as int) =~= Seq::empty());
        assert(formatted@ + Seq::<char>::empty() =~= formatted@);
    }
    formatted
}

/// A text has no more lines than characters.
proof fn lemma_lines_count(s: Seq<char>)
    ensures
        spec_lines(s).len() <= s.len(),
    decreases s.len(),
{
    if s.len() > 0 {
        crate::text::lemma_spec_find_bound(s, seq!['\n']);
        let i = crate::text::spec_find(s, seq!['\n']);
        if i >= 0 {
            lemma_lines_count(s.subrange(i + 1, s.len() as int));
        }
    }
}

} // verus!
