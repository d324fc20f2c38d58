use vstd::prelude::*;
use vstd::multiset::Multiset;
use vstd::seq_lib::group_to_multiset_ensures;
use vstd::string::StringExecFns;
use crate::types::categories::CategoryType;
use crate::types::categories::WarningCategory;
use crate::types::priorities::Priority;
use crate::text::spec_dec;
use crate::text::u32_to_string;

verus! {

/// One classified warning: the uniform model every decoded diagnostic is
/// turned into. Immutable once built.
#[derive(Debug, Clone)]
pub struct Warning {
    /// The synthesized warning message.
    pub message: String,
    /// Category of the warning (domain plus subcategory label).
    pub category: WarningCategory,
    /// Priority level of the warning.
    pub priority: Priority,
    /// File path where the warning was found.
    pub file: String,
    /// Line number where the warning was found.
    pub line: u32,
    /// Suggested fix for the warning, when one was extracted.
    pub suggested_fix: Option<String>,
}

/// The lead-in of the impact description for each category.
pub open spec fn spec_impact_prefix(c: CategoryType) -> Seq<char> {
    match c {
        CategoryType::Safety => "Safety issue in "@,
        CategoryType::Performance => "Performance bottleneck in "@,
        CategoryType::Style => "Style improvement needed in "@,
        CategoryType::Documentation => "Documentation needed in "@,
    }
}

impl Warning {
    /// `"<impact lead-in><file> (line <line>)"`.
    pub open spec fn spec_impact_description(self) -> Seq<char> {
        spec_impact_prefix(self.category.category_type) + self.file@ + " (line "@ + spec_dec(
            self.line as int,
        ) + ")"@
    }

    /// Distills the warning into its severity score and a one-line impact
    /// description naming the file and line.
    pub fn analyze(&self) -> (r: (u8, String))
        ensures
            r.0 == self.priority.spec_severity_score(),
            r.1@ == self.spec_impact_description(),
    {
        let severity_score = self.priority.severity_score();
        let prefix: &'static str = match self.category.category_type {
            CategoryType::Safety => "Safety issue in ",
            CategoryType::Performance => "Performance bottleneck in ",
            CategoryType::Style => "Style improvement needed in ",
            CategoryType::Documentation => "Documentation needed in ",
        };
        let mut impact = prefix.to_owned();
        impact.append(self.file.as_str());
        impact.append(" (line ");
        let line_str = u32_to_string(self.line);
        impact.append(line_str.as_str());
        impact.append(")");
        (severity_score, impact)
    }
}

/// The warnings are ordered by ascending line number.
pub open spec fn sorted_by_line(s: Seq<Warning>) -> bool {
    forall|i: int, j: int| 0 <= i < j < s.len() ==> s[i].line <= s[j].line
}

/// All warnings found in one source file.
#[derive(Debug)]
pub struct FileWarnings {
    pub file_path: String,
    pub warnings: Vec<Warning>,
}

impl FileWarnings {
    pub fn new(path: String) -> (r: Self)
        ensures
            r.file_path@ == path@,
            r.warnings@ =~= Seq::empty(),
    {
        FileWarnings { file_path: path, warnings: Vec::new() }
    }

    pub fn add_warning(&mut self, warning: Warning)
        ensures
            final(self).file_path == old(self).file_path,
            final(self).warnings@ == old(self).warnings@.push(warning),
    {
        self.warnings.push(warning);
    }

    /// Reorders the warnings by ascending line number. The collection keeps
    /// exactly the same warnings, and the sort is stable: warnings on equal
    /// lines keep their relative order, stated per line by `spec_with_line`.
    pub fn sort_by_line(&mut self)
        ensures
            final(self).file_path == old(self).file_path,
            final(self).warnings@.to_multiset() == old(self).warnings@.to_multiset(),
            sorted_by_line(final(self).warnings@),
            forall|l: u32| #[trigger] spec_with_line(final(self).warnings@, l) == spec_with_line(
                old(self).warnings@,
                l,
            ),
    {
        broadcast use group_to_multiset_ensures;

        let ghost orig = self.warnings@;
        let mut sorted: Vec<Warning> = Vec::new();
        proof {
            assert(sorted@.to_multiset() =~= Multiset::empty());
            assert(sorted@.to_multiset().add(self.warnings@.to_multiset())
                =~= orig.to_multiset());
            assert forall|l: u32| #[trigger] spec_with_line(orig, l) == spec_with_line(sorted@, l)
                + spec_with_line(self.warnings@, l) by {
                assert(spec_with_line(sorted@, l) =~= Seq::<Warning>::empty());
                assert(spec_with_line(sorted@, l) + spec_with_line(self.warnings@, l)
                    =~= spec_with_line(self.warnings@, l));
            }
        }
        while self.warnings.len() > 0
            invariant
                self.file_path == old(self).file_path,
                sorted@.to_multiset().add(self.warnings@.to_multiset()) == orig.to_multiset(),
                sorted_by_line(sorted@),
                forall|a: int, b: int|
                    0 <= a < sorted@.len() && 0 <= b < self.warnings@.len() ==> sorted@[a].line
                        <= self.warnings@[b].line,
                forall|l: u32| #[trigger] spec_with_line(orig, l) == spec_with_line(sorted@, l)
                    + spec_with_line(self.warnings@, l),
            decreases self.warnings@.len(),
        {
            broadcast use group_to_multiset_ensures;

            let ghost pre_sorted = sorted@;
            let ghost pre_rest = self.warnings@;
            let idx = min_line_index(&self.warnings);
            let w = self.warnings.remove(idx);
            sorted.push(w);
            proof {
                assert(self.warnings@.to_multiset() =~= pre_rest.to_multiset().remove(w));
                assert(sorted@.to_multiset() =~= pre_sorted.to_multiset().insert(w));
                assert(pre_rest.contains(w));
                assert(pre_rest.to_multiset().count(w) > 0);
                assert(sorted@.to_multiset().add(self.warnings@.to_multiset())
                    =~= orig.to_multiset());
                assert forall|b: int|
                    0 <= b < self.warnings@.len() implies w.line <= self.warnings@[b].line by {
                    if b < idx {
                        assert(self.warnings@[b] == pre_rest[b]);
                    } else {
                        assert(self.warnings@[b] == pre_rest[b + 1]);
                    }
                }
                assert forall|a: int, b: int|
                    0 <= a < sorted@.len() && 0 <= b < self.warnings@.len() implies sorted@[
                    a].line <= self.warnings@[b].line by {
                    if a < pre_sorted.len() {
                        assert(sorted@[a] == pre_sorted[a]);
                        if b < idx {
                            assert(self.warnings@[b] == pre_rest[b]);
                        } else {
                            assert(self.warnings@[b] == pre_rest[b + 1]);
                        }
                    } else {
                        assert(sorted@[a] == w);
                    }
                }
                assert forall|a: int, b: int|
                    0 <= a < b < sorted@.len() implies sorted@[a].line <= sorted@[b].line by {
                    if b < pre_sorted.len() {
                        assert(sorted@[a] == pre_sorted[a]);
                        assert(sorted@[b] == pre_sorted[b]);
                    } else {
                        assert(sorted@[b] == w);
                        assert(sorted@[a] == pre_sorted[a]);
                        assert(pre_sorted[a].line <= pre_rest[idx as int].line);
                    }
                }
                assert forall|l: u32| #[trigger] spec_with_line(orig, l) == spec_with_line(
                    sorted@,
                    l,
                ) + spec_with_line(self.warnings@, l) by {
                    assert(sorted@.drop_last() =~= pre_sorted);
                    assert(sorted@.last() == w);
                    if l == w.line {
                        assert forall|j: int|
                            0 <= j < idx implies pre_rest[j].line != l by {
                            assert(pre_rest[j].line > w.line);
                        }
                        lemma_with_line_first(pre_rest, idx as int, l);
                        assert(spec_with_line(sorted@, l) =~= spec_with_line(pre_sorted, l)
                            + seq![w]);
                        assert(spec_with_line(sorted@, l) + spec_with_line(self.warnings@, l)
                            =~= spec_with_line(pre_sorted, l) + (seq![w] + spec_with_line(
                            self.warnings@,
                            l,
                        )));
                    } else {
                        lemma_with_line_other(pre_rest, idx as int, l);
                        assert(spec_with_line(sorted@, l) =~= spec_with_line(pre_sorted, l));
                    }
                }
            }
        }
        proof {
            assert(self.warnings@.to_multiset() =~= Multiset::empty());
            assert(sorted@.to_multiset() =~= orig.to_multiset());
            assert forall|l: u32| #[trigger] spec_with_line(sorted@, l) == spec_with_line(
                orig,
                l,
            ) by {
                assert(spec_with_line(self.warnings@, l) =~= Seq::<Warning>::empty());
                assert(spec_with_line(sorted@, l) + Seq::<Warning>::empty() =~= spec_with_line(
                    sorted@,
                    l,
                ));
            }
        }
        self.warnings = sorted;
    }

    /// The analysis of each warning, in order.
    pub fn analyze_file(&self) -> (r: Vec<(u8, String)>)
        ensures
            r@.len() == self.warnings@.len(),
            forall|i: int|
                0 <= i < r@.len() ==> r@[i].0 == self.warnings@[i].priority.spec_severity_score()
                    && r@[i].1@ == self.warnings@[i].spec_impact_description(),
    {
        let mut out: Vec<(u8, String)> = Vec::new();
        let n = self.warnings.len();
        let mut i: usize = 0;
        while i < n
            invariant
                i <= n,
                n == self.warnings@.len(),
                out@.len() == i,
                forall|j: int|
                    0 <= j < i ==> out@[j].0 == self.warnings@[j].priority.spec_severity_score()
                        && out@[j].1@ == self.warnings@[j].spec_impact_description(),
            decreases n - i,
        {
            let a = self.warnings[i].analyze();
            out.push(a);
            i += 1;
        }
        out
    }
}

/// Index of the first warning with the smallest line number: everything
/// before it has a strictly greater line.
fn min_line_index(v: &Vec<Warning>) -> (r: usize)
    requires
        v@.len() > 0,
    ensures
        r < v@.len(),
        forall|j: int| 0 <= j < v@.len() ==> v@[r as int].line <= v@[j].line,
        forall|j: int| 0 <= j < r ==> v@[j].line > v@[r as int].line,
{
    let mut best: usize = 0;
    let mut i: usize = 1;
    while i < v.len()
        invariant
            best < i <= v@.len(),
            forall|j: int| 0 <= j < i ==> v@[best as int].line <= v@[j].line,
            forall|j: int| 0 <= j < best ==> v@[j].line > v@[best as int].line,
        decreases v@.len() - i,
    {
        if v[i].line < v[best].line {
            best = i;
        }
        i += 1;
    }
    best
}


/// The warnings of `ws` on line `l`, in order.
pub open spec fn spec_with_line(ws: Seq<Warning>, l: u32) -> Seq<Warning>
    decreases ws.len(),
{
    if ws.len() == 0 {
        Seq::empty()
    } else {
        spec_with_line(ws.drop_last(), l) + (if ws.last().line == l {
            seq![ws.last()]
        } else {
            Seq::empty()
        })
    }
}

/// A collection with no warning on line `l` selects nothing for it.
proof fn lemma_with_line_absent(ws: Seq<Warning>, l: u32)
    requires
        forall|j: int| 0 <= j < ws.len() ==> ws[j].line != l,
    ensures
        spec_with_line(ws, l) == Seq::<Warning>::empty(),
    decreases ws.len(),
{
    if ws.len() > 0 {
        lemma_with_line_absent(ws.drop_last(), l);
        assert(spec_with_line(ws, l) =~= Seq::<Warning>::empty());
    }
}

/// Removing the first warning on line `l` takes the head off that line's
/// selection.
proof fn lemma_with_line_first(ws: Seq<Warning>, idx: int, l: u32)
    requires
        0 <= idx < ws.len(),
        ws[idx].line == l,
        forall|j: int| 0 <= j < idx ==> ws[j].line != l,
    ensures
        spec_with_line(ws, l) == seq![ws[idx]] + spec_with_line(ws.remove(idx), l),
    decreases ws.len(),
{
    if idx == ws.len() - 1 {
        assert(ws.remove(idx) =~= ws.drop_last());
        lemma_with_line_absent(ws.drop_last(), l);
        assert(spec_with_line(ws, l) =~= seq![ws[idx]] + spec_with_line(ws.remove(idx), l));
    } else {
        assert(ws.remove(idx).drop_last() =~= ws.drop_last().remove(idx));
        assert(ws.remove(idx).last() == ws.last());
        assert forall|j: int|
            0 <= j < idx implies ws.drop_last()[j].line != l by {}
        lemma_with_line_first(ws.drop_last(), idx, l);
        assert(spec_with_line(ws, l) =~= seq![ws[idx]] + spec_with_line(ws.remove(idx), l));
    }
}

/// Removing a warning on another line leaves line `l`'s selection alone.
proof fn lemma_with_line_other(ws: Seq<Warning>, idx: int, l: u32)
    requires
        0 <= idx < ws.len(),
        ws[idx].line != l,
    ensures
        spec_with_line(ws.remove(idx), l) == spec_with_line(ws, l),
    decreases ws.len(),
{
    if idx == ws.len() - 1 {
        assert(ws.remove(idx) =~= ws.drop_last());
    } else {
        assert(ws.remove(idx).drop_last() =~= ws.drop_last().remove(idx));
        assert(ws.remove(idx).last() == ws.last());
        lemma_with_line_other(ws.drop_last(), idx, l);
        assert(spec_with_line(ws.remove(idx), l) =~= spec_with_line(ws, l));
    }
}

} // verus!
