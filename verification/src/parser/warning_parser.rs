//! The streaming decoder and classifier: turns decoded diagnostic records
//! into `Warning` values, build information and build-script events.
//!
//! The record types here mirror the toolchain's line protocol with plain
//! values; the surrounding glue layer decodes each JSON line into
//! [`CompilerMessage`] and hands it to [`WarningParser::parse_compiler_message`].
//! Of a child diagnostic only its message text is read, so `children` holds
//! the child messages themselves.

use vstd::prelude::*;
use vstd::string::StringExecFns;
use vstd::string::StrSliceExecFns;
use crate::types::categories::CategoryType;
use crate::types::categories::WarningCategory;
use crate::types::priorities::Priority;
use crate::types::warnings::Warning;
use crate::types::warnings::FileWarnings;
use crate::text::contains_sub;
use crate::text::str_eq;
use crate::text::starts_with_str;
use crate::text::spec_contains;
use crate::text::spec_starts_with;
use crate::text::spec_find;
use crate::text::lemma_spec_find_bound;
use crate::text::spec_trim;
use crate::text::trim_str;
use crate::text::spec_replace;
use crate::text::replace_all;
use crate::text::spec_lines;
use crate::text::lines_of;
use crate::text::spec_dec;
use crate::text::u32_to_string;
use crate::text::spec_join;
use crate::text::join_strs;
use crate::text::spec_debug_list;
use crate::text::debug_list;
use crate::text::find_sub;

verus! {

/// One record of the diagnostic line protocol, already decoded from JSON.
pub struct CompilerMessage {
    pub reason: String,
    pub package_id: Option<String>,
    pub manifest_path: Option<String>,
    pub target: Option<CompilerTarget>,
    pub message: Option<DiagnosticMessage>,
    pub features: Option<Vec<String>>,
    pub filenames: Option<Vec<String>>,
    pub executable: Option<String>,
    pub fresh: Option<bool>,
    pub profile: Option<BuildProfile>,
}

/// Build-target metadata of a `compiler-artifact` record.
pub struct CompilerTarget {
    pub kind: Vec<String>,
    pub crate_types: Vec<String>,
    pub name: String,
    pub src_path: String,
    pub edition: String,
    pub doc: Option<bool>,
    pub doctest: Option<bool>,
    pub test: Option<bool>,
}

/// The diagnostic payload of a `compiler-message` record. `children` holds
/// the messages of the child diagnostics, `code` the lint code.
pub struct DiagnosticMessage {
    pub code: Option<String>,
    pub level: String,
    pub message: String,
    pub spans: Vec<DiagnosticSpan>,
    pub children: Vec<String>,
    pub rendered: Option<String>,
}

/// One source span of a diagnostic.
pub struct DiagnosticSpan {
    pub file_name: String,
    pub line_start: u32,
    pub line_end: u32,
    pub column_start: u32,
    pub column_end: u32,
}

/// Compiler profile settings of a `compiler-artifact` record.
pub struct BuildProfile {
    pub opt_level: String,
    pub debuginfo: u32,
    pub debug_assertions: bool,
    pub overflow_checks: bool,
    pub test: bool,
}

/// What one decoded record contributes to the analysis.
pub enum AnalysisContext {
    Warning(Warning),
    BuildInfo {
        crate_name: String,
        features: Vec<String>,
        build_config: BuildConfig,
        artifacts: Vec<String>,
        manifest_path: String,
    },
    BuildScript {
        package: String,
        success: bool,
        output: Option<String>,
        linked_libs: Vec<String>,
        linked_paths: Vec<String>,
    },
}

/// Build configuration distilled from a `compiler-artifact` record.
pub struct BuildConfig {
    pub edition: String,
    pub opt_level: String,
    pub debug: bool,
    pub test_mode: bool,
    pub crate_types: Vec<String>,
    pub is_doc: bool,
    pub is_doctest: bool,
    pub profile: Option<BuildProfile>,
    pub kind: Vec<String>,
    pub name: String,
    pub src_path: String,
}

/// Artifact information before it is folded into an `AnalysisContext`.
pub struct BuildInfo {
    pub crate_name: String,
    pub features: Vec<String>,
    pub manifest_path: String,
    pub filenames: Vec<String>,
    pub config: BuildConfig,
}

/// Build-script information before it is folded into an `AnalysisContext`.
pub struct BuildScriptInfo {
    pub package: String,
    pub success: bool,
    pub output: Option<String>,
}

/// The category a lint code maps to: the checks run in this fixed order
/// and the first match wins, with Style as the fallback.
pub open spec fn spec_categorize(code: Seq<char>) -> CategoryType {
    if spec_contains(code, "use_self"@) || spec_contains(code, "redundant"@) {
        CategoryType::Style
    } else if spec_contains(code, "unsafe"@) || spec_contains(code, "mut"@) {
        CategoryType::Safety
    } else if spec_contains(code, "perf"@) || spec_contains(code, "box"@) {
        CategoryType::Performance
    } else if spec_contains(code, "doc"@) || spec_contains(code, "missing"@) {
        CategoryType::Documentation
    } else {
        CategoryType::Style
    }
}

/// The priority of a diagnostic: the level decides first, and only for
/// plain warnings do the "unsafe"/"security" keywords raise the priority.
pub open spec fn spec_priority_of(level: Seq<char>, message: Seq<char>) -> Priority {
    if level == "error"@ {
        Priority::Critical
    } else if level == "warning"@ {
        if spec_contains(message, "unsafe"@) || spec_contains(message, "security"@) {
            Priority::High
        } else {
            Priority::Medium
        }
    } else {
        Priority::Low
    }
}

/// The subcategory label: the lint code itself, or "unknown" when the
/// diagnostic carries none.
pub open spec fn spec_code_label(code: Option<String>) -> Seq<char> {
    match code {
        Some(c) => c@,
        None => "unknown"@,
    }
}

impl WarningParser {
    /// Maps a lint code to its category, per `spec_categorize`.
    pub fn categorize_clippy_warning(&self, code: &str) -> (r: CategoryType)
        ensures
            r == spec_categorize(code@),
    {
        if contains_sub(code, "use_self") || contains_sub(code, "redundant") {
            CategoryType::Style
        } else if contains_sub(code, "unsafe") || contains_sub(code, "mut") {
            CategoryType::Safety
        } else if contains_sub(code, "perf") || contains_sub(code, "box") {
            CategoryType::Performance
        } else if contains_sub(code, "doc") || contains_sub(code, "missing") {
            CategoryType::Documentation
        } else {
            CategoryType::Style
        }
    }

    /// Determines a diagnostic's priority, per `spec_priority_of`.
    pub fn determine_message_priority(&self, diagnostic: &DiagnosticMessage) -> (r: Priority)
        ensures
            r == spec_priority_of(diagnostic.level@, diagnostic.message@),
    {
        if str_eq(diagnostic.level.as_str(), "error") {
            Priority::Critical
        } else if str_eq(diagnostic.level.as_str(), "warning") {
            if contains_sub(diagnostic.message.as_str(), "unsafe") || contains_sub(
                diagnostic.message.as_str(),
                "security",
            ) {
                Priority::High
            } else {
                Priority::Medium
            }
        } else {
            Priority::Low
        }
    }
}

/// A rendered line that carries an explanation: it begins with "= help:".
pub open spec fn line_is_explanation(l: Seq<char>) -> bool {
    spec_starts_with(l, "= help:"@)
}

/// A rendered line that carries the fix suggestion: it mentions "help: "
/// without being an explanation line.
pub open spec fn line_is_suggestion(l: Seq<char>) -> bool {
    !line_is_explanation(l) && spec_contains(l, "help: "@)
}

/// The explanation text of a line: the marker removed, the rest trimmed.
pub open spec fn spec_explanation_text(l: Seq<char>) -> Seq<char> {
    spec_trim(spec_replace(l, "= help:"@, Seq::empty()))
}

/// The suggestion text of a line: the marker removed, the rest trimmed.
pub open spec fn spec_suggestion_text(l: Seq<char>) -> Seq<char> {
    spec_trim(spec_replace(l, "help: "@, Seq::empty()))
}

/// The suggestion carried by a sequence of rendered lines: the text of the
/// first suggestion line, if any.
pub open spec fn spec_suggestion_of_lines(ls: Seq<Seq<char>>) -> Option<Seq<char>>
    decreases ls.len(),
{
    if ls.len() == 0 {
        None
    } else if line_is_suggestion(ls[0]) {
        Some(spec_suggestion_text(ls[0]))
    } else {
        spec_suggestion_of_lines(ls.drop_first())
    }
}

/// The explanation texts of all explanation lines, in order.
pub open spec fn spec_explanations_of_lines(ls: Seq<Seq<char>>) -> Seq<Seq<char>>
    decreases ls.len(),
{
    if ls.len() == 0 {
        Seq::empty()
    } else {
        (if line_is_explanation(ls[0]) {
            seq![spec_explanation_text(ls[0])]
        } else {
            Seq::empty()
        }) + spec_explanations_of_lines(ls.drop_first())
    }
}

/// The fix suggestion extracted from a fully rendered diagnostic.
pub open spec fn spec_suggestion_of(rendered: Seq<char>) -> Option<Seq<char>> {
    spec_suggestion_of_lines(spec_lines(rendered))
}

/// The explanations extracted from a fully rendered diagnostic.
pub open spec fn spec_explanations_of(rendered: Seq<char>) -> Seq<Seq<char>> {
    spec_explanations_of_lines(spec_lines(rendered))
}

impl WarningParser {
    /// Extracts the single-line fix suggestion and the "= help:"
    /// explanation lines from a diagnostic's fully rendered text. Only the
    /// first suggestion is kept; explanation lines never count as the
    /// suggestion.
    pub fn parse_clippy_suggestion(&self, rendered: &str) -> (r: (Option<String>, Vec<String>))
        ensures
            match r.0 {
                Some(s) => spec_suggestion_of(rendered@) == Some(s@),
                None => spec_suggestion_of(rendered@) is None,
            },
            r.1.deep_view() == spec_explanations_of(rendered@),
    {
        let lines = lines_of(rendered);
        let ghost ls = spec_lines(rendered@);
        let mut suggestion: Option<String> = None;
        let mut explanations: Vec<String> = Vec::new();
        let n = lines.len();
        let mut k: usize = 0;
        proof {
            assert(ls.skip(0) =~= ls);
            assert(explanations.deep_view() + spec_explanations_of_lines(ls)
                =~= spec_explanations_of_lines(ls));
        }
        while k < n
            invariant
                k <= n,
                n == lines@.len(),
                lines.deep_view() == ls,
                match suggestion {
                    Some(s) => spec_suggestion_of_lines(ls) == Some(s@),
                    None => spec_suggestion_of_lines(ls) == spec_suggestion_of_lines(
                        ls.skip(k as int),
                    ),
                },
                explanations.deep_view() + spec_explanations_of_lines(ls.skip(k as int))
                    == spec_explanations_of_lines(ls),
            decreases n - k,
        {
            proof {
                reveal_strlit("= help:");
                reveal_strlit("help: ");
                reveal_strlit("");
                assert(""@ =~= Seq::<char>::empty());
                assert(ls.skip(k as int)[0] == ls[k as int]);
                assert(ls.skip(k as int).drop_first() =~= ls.skip(k + 1));
                assert(lines.deep_view()[k as int] == lines@[k as int]@);
            }
            let ghost pre_expl = explanations.deep_view();
            let line = &lines[k];
            if starts_with_str(line.as_str(), "= help:") {
                let text = replace_all(line.as_str(), "= help:", "");
                let trimmed = trim_str(text.as_str());
                explanations.push(trimmed);
                proof {
                    assert(explanations.deep_view() =~= pre_expl.push(trimmed@));
                    assert(explanations.deep_view() + spec_explanations_of_lines(ls.skip(k + 1))
                        =~= pre_expl + (seq![spec_explanation_text(ls[k as int])]
                        + spec_explanations_of_lines(ls.skip(k + 1))));
                }
            } else if contains_sub(line.as_str(), "help: ") {
                if suggestion.is_none() {
                    let text = replace_all(line.as_str(), "help: ", "");
                    let trimmed = trim_str(text.as_str());
                    suggestion = Some(trimmed);
                }
            }
            k += 1;
        }
        proof {
            assert(ls.skip(n as int) =~= Seq::empty());
            assert(explanations.deep_view() + Seq::<Seq<char>>::empty()
                =~= explanations.deep_view());
        }
        (suggestion, explanations)
    }
}

/// Groups warnings by source file while decoding a stream of records.
pub struct WarningParser {
    pub files: Vec<FileWarnings>,
}

impl WarningParser {
    pub fn new() -> (r: Self)
        ensures
            r.files@ =~= Seq::empty(),
    {
        WarningParser { files: Vec::new() }
    }
}


/// Index of the last occurrence of `c` in `s`, or -1 if there is none.
pub open spec fn spec_rfind(s: Seq<char>, c: char) -> int
    decreases s.len(),
{
    if s.len() == 0 {
        -1
    } else if s.last() == c {
        s.len() - 1
    } else {
        spec_rfind(s.drop_last(), c)
    }
}

/// `spec_rfind` returns -1 exactly when the character is absent, and
/// otherwise the rightmost occurrence.
pub proof fn lemma_rfind(s: Seq<char>, c: char)
    ensures
        -1 <= spec_rfind(s, c) < s.len(),
        spec_rfind(s, c) >= 0 ==> s[spec_rfind(s, c)] == c,
        spec_rfind(s, c) >= 0 ==> forall|j: int| spec_rfind(s, c) < j < s.len() ==> s[j] != c,
        spec_rfind(s, c) < 0 ==> forall|j: int| 0 <= j < s.len() ==> s[j] != c,
    decreases s.len(),
{
    if s.len() > 0 && s.last() != c {
        lemma_rfind(s.drop_last(), c);
        assert forall|j: int|
            0 <= j < s.len() - 1 implies s[j] == s.drop_last()[j] by {}
    }
}

/// Rightmost occurrence of `c` in `s`, if any.
fn rfind_char(s: &str, c: char) -> (r: Option<usize>)
    ensures
        match r {
            Some(i) => i == spec_rfind(s@, c),
            None => spec_rfind(s@, c) == -1,
        },
{
    let n = s.unicode_len();
    let mut i = n;
    while i > 0
        invariant
            i <= n,
            n == s@.len(),
            forall|j: int| i <= j < n ==> s@[j] != c,
        decreases i,
    {
        if s.get_char(i - 1) == c {
            proof {
                lemma_rfind(s@, c);
                let f = spec_rfind(s@, c);
                if f < i - 1 {
                    assert(s@[i - 1] != c);
                }
                if f > i - 1 {
                    assert(s@[f] != c);
                }
            }
            return Some(i - 1);
        }
        i -= 1;
    }
    proof {
        lemma_rfind(s@, c);
        if spec_rfind(s@, c) >= 0 {
            assert(s@[spec_rfind(s@, c)] != c);
        }
    }
    None
}

/// The crate name hidden in a package id: the text before the first `#`,
/// then the text after the last `/` of that.
pub open spec fn spec_crate_name(pid: Seq<char>) -> Seq<char> {
    let cut = spec_find(pid, seq!['#']);
    let upto = if cut >= 0 {
        pid.subrange(0, cut)
    } else {
        pid
    };
    let slash = spec_rfind(upto, '/');
    if slash >= 0 {
        upto.subrange(slash + 1, upto.len() as int)
    } else {
        upto
    }
}

/// Extracts the crate name from a package id, per `spec_crate_name`.
fn crate_name_of(pid: &str) -> (r: String)
    ensures
        r@ == spec_crate_name(pid@),
{
    proof {
        reveal_strlit("#");
        assert("#"@ =~= seq!['#']);
        lemma_spec_find_bound(pid@, seq!['#']);
    }
    let n = pid.unicode_len();
    let upto: &str = match find_sub(pid, "#") {
        Some(cut) => pid.substring_char(0, cut),
        None => pid,
    };
    let m = upto.unicode_len();
    proof {
        lemma_rfind(upto@, '/');
    }
    match rfind_char(upto, '/') {
        Some(sl) => upto.substring_char(sl + 1, m).to_owned(),
        None => upto.to_owned(),
    }
}

/// The artifact record carries all the required sub-fields.
pub open spec fn spec_artifact_complete(msg: CompilerMessage) -> bool {
    msg.target is Some && msg.package_id is Some && msg.profile is Some && msg.manifest_path
        is Some
}

/// `info` is the faithful distillation of the artifact record `msg`.
pub open spec fn build_info_matches(info: BuildInfo, msg: CompilerMessage) -> bool
    recommends
        spec_artifact_complete(msg),
{
    let target = msg.target->0;
    let profile = msg.profile->0;
    &&& info.crate_name@ == spec_crate_name(msg.package_id->0@)
    &&& (match msg.features {
        Some(f) => info.features == f,
        None => info.features@ == Seq::<String>::empty(),
    })
    &&& info.manifest_path == msg.manifest_path->0
    &&& (match msg.filenames {
        Some(f) => info.filenames == f,
        None => info.filenames@ == Seq::<String>::empty(),
    })
    &&& info.config.edition == target.edition
    &&& info.config.opt_level@ == profile.opt_level@
    &&& info.config.debug == (profile.debuginfo > 0)
    &&& info.config.test_mode == (match target.test {
        Some(b) => b,
        None => false,
    })
    &&& info.config.crate_types == target.crate_types
    &&& info.config.is_doc == (match target.doc {
        Some(b) => b,
        None => false,
    })
    &&& info.config.is_doctest == (match target.doctest {
        Some(b) => b,
        None => false,
    })
    &&& info.config.profile == Some(profile)
    &&& info.config.kind == target.kind
    &&& info.config.name == target.name
    &&& info.config.src_path == target.src_path
}

impl WarningParser {
    /// Distills a `compiler-artifact` record. The record yields build
    /// information exactly when target, package id, profile and manifest
    /// path are all present; otherwise it is dropped.
    pub fn parse_artifact_message(&self, msg: CompilerMessage) -> (r: Option<BuildInfo>)
        ensures
            r is Some <==> spec_artifact_complete(msg),
            match r {
                Some(info) => build_info_matches(info, msg),
                None => true,
            },
    {
        let CompilerMessage {
            reason: _,
            package_id,
            manifest_path,
            target,
            message: _,
            features,
            filenames,
            executable: _,
            fresh: _,
            profile,
        } = msg;
        let target = match target {
            Some(t) => t,
            None => {
                return None;
            },
        };
        let package_id = match package_id {
            Some(p) => p,
            None => {
                return None;
            },
        };
        let profile = match profile {
            Some(p) => p,
            None => {
                return None;
            },
        };
        let manifest_path = match manifest_path {
            Some(p) => p,
            None => {
                return None;
            },
        };
        let filenames = match filenames {
            Some(f) => f,
            None => Vec::new(),
        };
        let features = match features {
            Some(f) => f,
            None => Vec::new(),
        };
        let crate_name = crate_name_of(package_id.as_str());
        let opt_level = profile.opt_level.clone();
        let debug = profile.debuginfo > 0;
        let test_mode = match target.test {
            Some(b) => b,
            None => false,
        };
        let is_doc = match target.doc {
            Some(b) => b,
            None => false,
        };
        let is_doctest = match target.doctest {
            Some(b) => b,
            None => false,
        };
        Some(
            BuildInfo {
                crate_name,
                features,
                manifest_path,
                filenames,
                config: BuildConfig {
                    edition: target.edition,
                    crate_types: target.crate_types,
                    opt_level,
                    debug,
                    test_mode,
                    is_doc,
                    is_doctest,
                    profile: Some(profile),
                    kind: target.kind,
                    name: target.name,
                    src_path: target.src_path,
                },
            },
        )
    }

    /// Distills a `build-script-executed` record: it yields an event
    /// exactly when the package id is present.
    pub fn parse_build_script_message(&self, msg: CompilerMessage) -> (r: Option<BuildScriptInfo>)
        ensures
            r is Some <==> msg.package_id is Some,
            match r {
                Some(info) => info.package == msg.package_id->0 && info.success == (
                match msg.fresh {
                    Some(b) => b,
                    None => false,
                }) && info.output == msg.executable,
                None => true,
            },
    {
        let package_id = match msg.package_id {
            Some(p) => p,
            None => {
                return None;
            },
        };
        let success = match msg.fresh {
            Some(b) => b,
            None => false,
        };
        Some(BuildScriptInfo { package: package_id, success, output: msg.executable })
    }
}

/// The fix suggestion of a diagnostic's rendered text, when there is one.
pub open spec fn spec_fix_of(rendered: Option<String>) -> Option<Seq<char>> {
    match rendered {
        Some(s) => spec_suggestion_of(s@),
        None => None,
    }
}

/// The explanations of a diagnostic's rendered text.
pub open spec fn spec_explanations_for(rendered: Option<String>) -> Seq<Seq<char>> {
    match rendered {
        Some(s) => spec_explanations_of(s@),
        None => Seq::empty(),
    }
}

/// The child messages that are kept: all but those that begin with
/// "for further information".
pub open spec fn spec_kept_children(children: Seq<Seq<char>>) -> Seq<Seq<char>>
    decreases children.len(),
{
    if children.len() == 0 {
        Seq::empty()
    } else {
        (if spec_starts_with(children[0], "for further information"@) {
            Seq::empty()
        } else {
            seq![children[0]]
        }) + spec_kept_children(children.drop_first())
    }
}

/// The location line of a warning message:
/// `<line_start>:<column_start>-<line_end>:<column_end>-<file>`.
pub open spec fn spec_location_of(span: DiagnosticSpan) -> Seq<char> {
    spec_dec(span.line_start as int) + ":"@ + spec_dec(span.column_start as int) + "-"@
        + spec_dec(span.line_end as int) + ":"@ + spec_dec(span.column_end as int) + "-"@
        + span.file_name@
}

/// The synthesized warning message: the diagnostic text, the location of
/// its first span, the joined explanations, and the kept child messages in
/// debug-list form.
pub open spec fn spec_warning_message(d: DiagnosticMessage) -> Seq<char>
    recommends
        d.spans.len() > 0,
{
    d.message@ + "\nLocation: "@ + spec_location_of(d.spans@[0]) + "\nExplanation: "@
        + spec_join(spec_explanations_for(d.rendered), "\n"@) + "\nChild messages: "@
        + spec_debug_list(spec_kept_children(d.children.deep_view()))
}

/// `w` is the warning that the diagnostic `d` gives rise to.
pub open spec fn warning_matches_diagnostic(w: Warning, d: DiagnosticMessage) -> bool
    recommends
        d.spans.len() > 0,
{
    let span = d.spans@[0];
    &&& w.file@ == span.file_name@
    &&& w.line == span.line_start
    &&& w.category.category_type == spec_categorize(spec_code_label(d.code))
    &&& w.category.subcategory@ == spec_code_label(d.code)
    &&& w.priority == spec_priority_of(d.level@, d.message@)
    &&& (match (w.suggested_fix, spec_fix_of(d.rendered)) {
        (Some(a), Some(b)) => a@ == b,
        (None, None) => true,
        _ => false,
    })
    &&& w.message@ == spec_warning_message(d)
}

impl WarningParser {
    /// Builds the warning for a `compiler-message` record. The record
    /// yields a warning exactly when it carries a diagnostic payload with
    /// at least one source span; otherwise it is dropped.
    pub fn parse_diagnostic_message(&self, msg: CompilerMessage) -> (r: Option<Warning>)
        ensures
            r is Some <==> (msg.message is Some && msg.message->0.spans@.len() > 0),
            match r {
                Some(w) => warning_matches_diagnostic(w, msg.message->0),
                None => true,
            },
    {
        let diagnostic = match msg.message {
            Some(d) => d,
            None => {
                return None;
            },
        };
        if diagnostic.spans.len() == 0 {
            return None;
        }
        let span = &diagnostic.spans[0];
        let clippy_code: String = match &diagnostic.code {
            Some(c) => c.clone(),
            None => "unknown".to_owned(),
        };
        let (suggestion, explanations) = match &diagnostic.rendered {
            Some(rendered) => self.parse_clippy_suggestion(rendered.as_str()),
            None => (None, Vec::new()),
        };
        let mut child_messages: Vec<String> = Vec::new();
        let ghost all_children = diagnostic.children.deep_view();
        let n = diagnostic.children.len();
        let mut k: usize = 0;
        proof {
            assert(all_children.skip(0) =~= all_children);
            assert(child_messages.deep_view() + spec_kept_children(all_children)
                =~= spec_kept_children(all_children));
        }
        while k < n
            invariant
                k <= n,
                n == diagnostic.children@.len(),
                diagnostic.children.deep_view() == all_children,
                child_messages.deep_view() + spec_kept_children(all_children.skip(k as int))
                    == spec_kept_children(all_children),
            decreases n - k,
        {
            proof {
                assert(all_children.skip(k as int)[0] == all_children[k as int]);
                assert(all_children.skip(k as int).drop_first() =~= all_children.skip(k + 1));
                assert(diagnostic.children.deep_view()[k as int]
                    == diagnostic.children@[k as int]@);
            }
            let ghost pre = child_messages.deep_view();
            let child = &diagnostic.children[k];
            if !starts_with_str(child.as_str(), "for further information") {
                let kept = child.clone();
                child_messages.push(kept);
                proof {
                    assert(child_messages.deep_view() =~= pre.push(kept@));
                    assert(child_messages.deep_view() + spec_kept_children(
                        all_children.skip(k + 1),
                    ) =~= pre + (seq![all_children[k as int]] + spec_kept_children(
                        all_children.skip(k + 1),
                    )));
                }
            }
            k += 1;
        }
        proof {
            assert(all_children.skip(n as int) =~= Seq::empty());
            assert(child_messages.deep_view() + Seq::<Seq<char>>::empty()
                =~= child_messages.deep_view());
        }
        let mut location = u32_to_string(span.line_start);
        location.append(":");
        let cs = u32_to_string(span.column_start);
        location.append(cs.as_str());
        location.append("-");
        let le = u32_to_string(span.line_end);
        location.append(le.as_str());
        location.append(":");
        let ce = u32_to_string(span.column_end);
        location.append(ce.as_str());
        location.append("-");
        location.append(span.file_name.as_str());
        let mut message = diagnostic.message.clone();
        message.append("\nLocation: ");
        message.append(location.as_str());
        message.append("\nExplanation: ");
        let joined = join_strs(&explanations, "\n");
        message.append(joined.as_str());
        message.append("\nChild messages: ");
        let listed = debug_list(&child_messages);
        message.append(listed.as_str());
        let category_type = self.categorize_clippy_warning(clippy_code.as_str());
        let priority = self.determine_message_priority(&diagnostic);
        proof {
            assert(explanations.deep_view() == spec_explanations_for(diagnostic.rendered));
            assert(message@ =~= spec_warning_message(diagnostic));
        }
        Some(
            Warning {
                message,
                file: span.file_name.clone(),
                line: span.line_start,
                category: WarningCategory::new(category_type, clippy_code),
                priority,
                suggested_fix: suggestion,
            },
        )
    }
}


/// The record decodes into some analysis context.
pub open spec fn spec_decodes(msg: CompilerMessage) -> bool {
    if msg.reason@ == "compiler-artifact"@ {
        spec_artifact_complete(msg)
    } else if msg.reason@ == "compiler-message"@ {
        msg.message is Some && msg.message->0.spans@.len() > 0
    } else if msg.reason@ == "build-script-executed"@ {
        msg.package_id is Some
    } else {
        false
    }
}

/// The record decodes into a warning.
pub open spec fn spec_yields_warning(msg: CompilerMessage) -> bool {
    msg.reason@ == "compiler-message"@ && msg.message is Some && msg.message->0.spans@.len() > 0
}

/// `ctx` is the analysis context that the decoding record `msg` gives
/// rise to.
pub open spec fn context_matches(ctx: AnalysisContext, msg: CompilerMessage) -> bool {
    if msg.reason@ == "compiler-artifact"@ {
        &&& ctx matches AnalysisContext::BuildInfo {
            crate_name,
            features,
            build_config,
            artifacts,
            manifest_path,
        }
        &&& build_info_matches(
            BuildInfo {
                crate_name,
                features,
                manifest_path,
                filenames: artifacts,
                config: build_config,
            },
            msg,
        )
    } else if msg.reason@ == "compiler-message"@ {
        &&& ctx matches AnalysisContext::Warning(w)
        &&& warning_matches_diagnostic(w, msg.message->0)
    } else if msg.reason@ == "build-script-executed"@ {
        &&& ctx matches AnalysisContext::BuildScript {
            package,
            success,
            output,
            linked_libs,
            linked_paths,
        }
        &&& package == msg.package_id->0
        &&& success == (match msg.fresh {
            Some(b) => b,
            None => false,
        })
        &&& output == msg.executable
        &&& linked_libs@.len() == 0
        &&& linked_paths@.len() == 0
    } else {
        false
    }
}

impl WarningParser {
    /// Decodes one record of the protocol: artifact records yield build
    /// information, diagnostic records yield warnings, build-script records
    /// yield build-script events, and anything else is dropped.
    pub fn parse_compiler_message(&self, msg: CompilerMessage) -> (r: Option<AnalysisContext>)
        ensures
            r is Some <==> spec_decodes(msg),
            match r {
                Some(ctx) => context_matches(ctx, msg),
                None => true,
            },
    {
        if str_eq(msg.reason.as_str(), "compiler-artifact") {
            match self.parse_artifact_message(msg) {
                Some(info) => {
                    let BuildInfo { crate_name, features, manifest_path, filenames, config } =
                        info;
                    Some(
                        AnalysisContext::BuildInfo {
                            crate_name,
                            features,
                            build_config: config,
                            artifacts: filenames,
                            manifest_path,
                        },
                    )
                },
                None => None,
            }
        } else if str_eq(msg.reason.as_str(), "compiler-message") {
            match self.parse_diagnostic_message(msg) {
                Some(w) => Some(AnalysisContext::Warning(w)),
                None => None,
            }
        } else if str_eq(msg.reason.as_str(), "build-script-executed") {
            match self.parse_build_script_message(msg) {
                Some(info) => Some(
                    AnalysisContext::BuildScript {
                        package: info.package,
                        success: info.success,
                        output: info.output,
                        linked_libs: Vec::new(),
                        linked_paths: Vec::new(),
                    },
                ),
                None => None,
            }
        } else {
            None
        }
    }
}

/// The spec-level distillation of one warning.
pub struct WarningView {
    pub message: Seq<char>,
    pub category_type: CategoryType,
    pub subcategory: Seq<char>,
    pub priority: Priority,
    pub file: Seq<char>,
    pub line: u32,
    pub suggested_fix: Option<Seq<char>>,
}

/// The distillation of one warning value.
pub open spec fn w_view(w: Warning) -> WarningView {
    WarningView {
        message: w.message@,
        category_type: w.category.category_type,
        subcategory: w.category.subcategory@,
        priority: w.priority,
        file: w.file@,
        line: w.line,
        suggested_fix: match w.suggested_fix {
            Some(s) => Some(s@),
            None => None,
        },
    }
}

/// The distillations of a sequence of warnings.
pub open spec fn views_of(ws: Seq<Warning>) -> Seq<WarningView> {
    ws.map_values(|w: Warning| w_view(w))
}

/// The warnings of `ws` whose file is `path`, in order.
pub open spec fn spec_with_path(ws: Seq<WarningView>, path: Seq<char>) -> Seq<WarningView>
    decreases ws.len(),
{
    if ws.len() == 0 {
        Seq::empty()
    } else {
        spec_with_path(ws.drop_last(), path) + (if ws.last().file == path {
            seq![ws.last()]
        } else {
            Seq::empty()
        })
    }
}

/// If no warning has the path, the selection is empty.
proof fn lemma_with_path_absent(ws: Seq<WarningView>, path: Seq<char>)
    requires
        forall|k: int| 0 <= k < ws.len() ==> ws[k].file != path,
    ensures
        spec_with_path(ws, path) == Seq::<WarningView>::empty(),
    decreases ws.len(),
{
    if ws.len() > 0 {
        lemma_with_path_absent(ws.drop_last(), path);
        assert(spec_with_path(ws, path) =~= Seq::<WarningView>::empty());
    }
}

/// Index of the first file group with the given path, or -1.
pub open spec fn spec_file_index(files: Seq<FileWarnings>, path: Seq<char>) -> int
    decreases files.len(),
{
    if files.len() == 0 {
        -1
    } else if files[0].file_path@ == path {
        0
    } else {
        let r = spec_file_index(files.drop_first(), path);
        if r < 0 {
            -1
        } else {
            r + 1
        }
    }
}

/// `spec_file_index` finds the first group with the path, and -1 exactly
/// when no group has it.
pub proof fn lemma_file_index(files: Seq<FileWarnings>, path: Seq<char>)
    ensures
        -1 <= spec_file_index(files, path) < files.len(),
        spec_file_index(files, path) >= 0 ==> files[spec_file_index(files, path)].file_path@
            == path,
        spec_file_index(files, path) >= 0 ==> forall|j: int|
            0 <= j < spec_file_index(files, path) ==> files[j].file_path@ != path,
        spec_file_index(files, path) < 0 ==> forall|j: int|
            0 <= j < files.len() ==> files[j].file_path@ != path,
    decreases files.len(),
{
    if files.len() > 0 && files[0].file_path@ != path {
        lemma_file_index(files.drop_first(), path);
        assert forall|j: int|
            1 <= j < files.len() implies files.drop_first()[j - 1] == files[j] by {}
    }
}

impl WarningParser {
    /// The groups carry distinct file paths.
    pub open spec fn wf(self) -> bool {
        forall|i: int, j: int|
            0 <= i < j < self.files@.len() ==> self.files@[i].file_path@
                != self.files@[j].file_path@
    }

    /// Files this parser has grouped warnings under, by first appearance.
    fn find_file(&self, path: &str) -> (r: Option<usize>)
        ensures
            match r {
                Some(i) => i == spec_file_index(self.files@, path@) && i < self.files@.len(),
                None => spec_file_index(self.files@, path@) == -1,
            },
    {
        proof {
            lemma_file_index(self.files@, path@);
        }
        let n = self.files.len();
        let mut i: usize = 0;
        while i < n
            invariant
                i <= n,
                n == self.files@.len(),
                forall|j: int| 0 <= j < i ==> self.files@[j].file_path@ != path@,
            decreases n - i,
        {
            if str_eq(self.files[i].file_path.as_str(), path) {
                proof {
                    lemma_file_index(self.files@, path@);
                    let f = spec_file_index(self.files@, path@);
                    if f < i {
                        assert(self.files@[f].file_path@ != path@);
                    }
                    if f > i {
                        assert(self.files@[i as int].file_path@ != path@);
                    }
                }
                return Some(i);
            }
            i += 1;
        }
        proof {
            lemma_file_index(self.files@, path@);
            let f = spec_file_index(self.files@, path@);
            if f >= 0 {
                assert(self.files@[f].file_path@ != path@);
            }
        }
        None
    }

    /// Files the warning under its source file, opening a new group at the
    /// end when the file has not been seen.
    pub fn add_to_files(&mut self, warning: Warning)
        requires
            old(self).wf(),
        ensures
            final(self).wf(),
            spec_file_index(old(self).files@, warning.file@) >= 0 ==> {
                let idx = spec_file_index(old(self).files@, warning.file@);
                &&& final(self).files@.len() == old(self).files@.len()
                &&& final(self).files@[idx].file_path == old(self).files@[idx].file_path
                &&& final(self).files@[idx].warnings@ == old(self).files@[idx].warnings@.push(
                    warning,
                )
                &&& forall|j: int|
                    0 <= j < old(self).files@.len() && j != idx ==> final(self).files@[j] == old(
                        self,
                    ).files@[j]
            },
            spec_file_index(old(self).files@, warning.file@) < 0 ==> {
                &&& final(self).files@.len() == old(self).files@.len() + 1
                &&& final(self).files@[old(self).files@.len() as int].file_path@ == warning.file@
                &&& final(self).files@[old(self).files@.len() as int].warnings@ == seq![warning]
                &&& forall|j: int|
                    0 <= j < old(self).files@.len() ==> final(self).files@[j] == old(
                        self,
                    ).files@[j]
            },
    {
        proof {
            lemma_file_index(self.files@, warning.file@);
        }
        match self.find_file(warning.file.as_str()) {
            Some(i) => {
                let mut fw = self.files.remove(i);
                fw.add_warning(warning);
                self.files.insert(i, fw);
                proof {
                    assert(self.files@ =~= old(self).files@.update(i as int, fw));
                }
            },
            None => {
                let path = warning.file.clone();
                let mut fw = FileWarnings::new(path);
                fw.add_warning(warning);
                self.files.push(fw);
                proof {
                    assert(fw.warnings@ =~= seq![warning]);
                    assert forall|i: int, j: int|
                        0 <= i < j < self.files@.len() implies self.files@[i].file_path@
                        != self.files@[j].file_path@ by {
                        if j == self.files@.len() - 1 {
                            lemma_file_index(old(self).files@, warning.file@);
                        }
                    }
                }
            },
        }
    }
}

/// The records of the stream that decode, in order.
pub open spec fn spec_decoded(records: Seq<CompilerMessage>) -> Seq<CompilerMessage>
    decreases records.len(),
{
    if records.len() == 0 {
        Seq::empty()
    } else {
        spec_decoded(records.drop_last()) + (if spec_decodes(records.last()) {
            seq![records.last()]
        } else {
            Seq::empty()
        })
    }
}

/// The diagnostics of the records that yield warnings, in order.
pub open spec fn spec_warning_diagnostics(records: Seq<CompilerMessage>) -> Seq<DiagnosticMessage>
    decreases records.len(),
{
    if records.len() == 0 {
        Seq::empty()
    } else {
        spec_warning_diagnostics(records.drop_last()) + (if spec_yields_warning(records.last()) {
            seq![records.last().message->0]
        } else {
            Seq::empty()
        })
    }
}

impl Warning {
    /// A field-by-field copy whose strings render identically.
    pub fn duplicate(&self) -> (r: Warning)
        ensures
            w_view(r) == w_view(*self),
    {
        let suggested_fix = match &self.suggested_fix {
            Some(s) => Some(s.clone()),
            None => None,
        };
        let r = Warning {
            message: self.message.clone(),
            category: WarningCategory {
                category_type: self.category.category_type,
                subcategory: self.category.subcategory.clone(),
            },
            priority: self.priority,
            file: self.file.clone(),
            line: self.line,
            suggested_fix,
        };
        r
    }
}

impl WarningParser {
    /// Runs the whole decoded stream through the decoder: yields every
    /// warning in input order, the warnings grouped by source file in order
    /// of first appearance, and one analysis context per record that
    /// decodes. Records that do not decode are silently dropped.
    pub fn parse_records(records: Vec<CompilerMessage>) -> (r: (
        Vec<Warning>,
        Vec<FileWarnings>,
        Vec<AnalysisContext>,
    ))
        ensures
            r.2@.len() == spec_decoded(records@).len(),
            forall|k: int|
                0 <= k < r.2@.len() ==> context_matches(r.2@[k], spec_decoded(records@)[k]),
            r.0@.len() == spec_warning_diagnostics(records@).len(),
            forall|k: int|
                0 <= k < r.0@.len() ==> warning_matches_diagnostic(
                    r.0@[k],
                    spec_warning_diagnostics(records@)[k],
                ),
            forall|i: int, j: int|
                0 <= i < j < r.1@.len() ==> r.1@[i].file_path@ != r.1@[j].file_path@,
            forall|f: int|
                0 <= f < r.1@.len() ==> views_of(r.1@[f].warnings@) == spec_with_path(
                    views_of(r.0@),
                    r.1@[f].file_path@,
                ),
            forall|k: int|
                0 <= k < r.0@.len() ==> spec_file_index(r.1@, r.0@[k].file@) >= 0,
    {
        let ghost orig = records@;
        let mut records = records;
        let mut parser = WarningParser::new();
        let mut warnings: Vec<Warning> = Vec::new();
        let mut context: Vec<AnalysisContext> = Vec::new();
        let ghost i: int = 0;
        proof {
            assert(orig.take(0) =~= Seq::empty());
            assert(orig.skip(0) =~= orig);
        }
        while records.len() > 0
            invariant
                0 <= i <= orig.len(),
                records@ == orig.skip(i),
                records@.len() == orig.len() - i,
                parser.wf(),
                context@.len() == spec_decoded(orig.take(i)).len(),
                forall|k: int|
                    0 <= k < context@.len() ==> context_matches(
                        context@[k],
                        spec_decoded(orig.take(i))[k],
                    ),
                warnings@.len() == spec_warning_diagnostics(orig.take(i)).len(),
                forall|k: int|
                    0 <= k < warnings@.len() ==> warning_matches_diagnostic(
                        warnings@[k],
                        spec_warning_diagnostics(orig.take(i))[k],
                    ),
                forall|f: int|
                    0 <= f < parser.files@.len() ==> views_of(parser.files@[f].warnings@)
                        == spec_with_path(views_of(warnings@), parser.files@[f].file_path@),
                forall|k: int|
                    0 <= k < warnings@.len() ==> spec_file_index(
                        parser.files@,
                        warnings@[k].file@,
                    ) >= 0,
            decreases records@.len(),
        {
            let msg = records.remove(0);
            let ghost gmsg = msg;
            proof {
                reveal_strlit("compiler-artifact");
                reveal_strlit("compiler-message");
                reveal_strlit("build-script-executed");
                assert("compiler-artifact"@.len() == 17);
                assert("compiler-message"@.len() == 16);
                assert("build-script-executed"@.len() == 21);
                assert("compiler-artifact"@ != "compiler-message"@);
                assert("compiler-artifact"@ != "build-script-executed"@);
                assert("compiler-message"@ != "build-script-executed"@);
                assert(gmsg == orig[i]);
                assert(records@ =~= orig.skip(i + 1));
                assert(orig.take(i + 1).drop_last() =~= orig.take(i));
                assert(orig.take(i + 1).last() == orig[i]);
            }
            let ghost pre_warnings = warnings@;
            let ghost pre_files = parser.files@;
            match parser.parse_compiler_message(msg) {
                Some(ctx) => {
                    match &ctx {
                        AnalysisContext::Warning(w) => {
                            proof {
                                if !spec_yields_warning(gmsg) {
                                    assert(!(ctx matches AnalysisContext::Warning(x)));
                                }
                            }
                            let w1 = w.duplicate();
                            let w2 = w.duplicate();
                            proof {
                                assert(warning_matches_diagnostic(*w, gmsg.message->0));
                                lemma_wmd_view(*w, w1, gmsg.message->0);
                                lemma_wmd_view(*w, w2, gmsg.message->0);
                            }
                            parser.add_to_files(w1);
                            warnings.push(w2);
                            proof {
                                lemma_file_index(pre_files, w1.file@);
                                assert(views_of(warnings@) =~= views_of(pre_warnings).push(
                                    w_view(w2),
                                ));
                                assert(w_view(w2).file == gmsg.message->0.spans@[0].file_name@);
                                lemma_group_step(pre_files, parser.files@, pre_warnings, w1, w2);
                            }
                        },
                        _ => {
                            proof {
                                if spec_yields_warning(gmsg) {
                                    assert(ctx matches AnalysisContext::Warning(x));
                                }
                                assert(views_of(warnings@) == views_of(pre_warnings));
                            }
                        },
                    }
                    context.push(ctx);
                },
                None => {
                },
            }
            proof {
                if spec_decodes(gmsg) {
                    assert(spec_decoded(orig.take(i + 1)) =~= spec_decoded(orig.take(i)).push(
                        gmsg,
                    ));
                } else {
                    assert(spec_decoded(orig.take(i + 1)) =~= spec_decoded(orig.take(i)));
                }
                if spec_yields_warning(gmsg) {
                    assert(spec_warning_diagnostics(orig.take(i + 1)) =~= spec_warning_diagnostics(
                        orig.take(i),
                    ).push(gmsg.message->0));
                } else {
                    assert(spec_warning_diagnostics(orig.take(i + 1))
                        =~= spec_warning_diagnostics(orig.take(i)));
                }
                i = i + 1;
            }
        }
        proof {
            assert(orig.take(orig.len() as int) =~= orig);
        }
        (warnings, parser.files, context)
    }
}

/// Matching the diagnostic depends only on the warning's distillation.
proof fn lemma_wmd_view(a: Warning, b: Warning, d: DiagnosticMessage)
    requires
        warning_matches_diagnostic(a, d),
        w_view(b) == w_view(a),
    ensures
        warning_matches_diagnostic(b, d),
{
    assert(b.file@ == w_view(b).file);
    assert(b.message@ == w_view(b).message);
    assert(b.category.subcategory@ == w_view(b).subcategory);
    match (b.suggested_fix, a.suggested_fix) {
        (Some(x), Some(y)) => {
            assert(w_view(b).suggested_fix == Some(x@));
            assert(w_view(a).suggested_fix == Some(y@));
        },
        (None, None) => {},
        _ => {
            assert(false);
        },
    }
}

/// One step of the grouping invariant: filing one new warning extends
/// exactly its own file's group.
proof fn lemma_group_step(
    pre_files: Seq<FileWarnings>,
    post_files: Seq<FileWarnings>,
    pre_warnings: Seq<Warning>,
    w1: Warning,
    w2: Warning,
)
    requires
        w_view(w1) == w_view(w2),
        forall|i: int, j: int|
            0 <= i < j < pre_files.len() ==> pre_files[i].file_path@ != pre_files[j].file_path@,
        forall|f: int|
            0 <= f < pre_files.len() ==> views_of(pre_files[f].warnings@) == spec_with_path(
                views_of(pre_warnings),
                pre_files[f].file_path@,
            ),
        forall|k: int|
            0 <= k < pre_warnings.len() ==> spec_file_index(pre_files, pre_warnings[k].file@)
                >= 0,
        spec_file_index(pre_files, w1.file@) >= 0 ==> {
            let idx = spec_file_index(pre_files, w1.file@);
            &&& post_files.len() == pre_files.len()
            &&& post_files[idx].file_path == pre_files[idx].file_path
            &&& post_files[idx].warnings@ == pre_files[idx].warnings@.push(w1)
            &&& forall|j: int|
                0 <= j < pre_files.len() && j != idx ==> post_files[j] == pre_files[j]
        },
        spec_file_index(pre_files, w1.file@) < 0 ==> {
            &&& post_files.len() == pre_files.len() + 1
            &&& post_files[pre_files.len() as int].file_path@ == w1.file@
            &&& post_files[pre_files.len() as int].warnings@ == seq![w1]
            &&& forall|j: int| 0 <= j < pre_files.len() ==> post_files[j] == pre_files[j]
        },
    ensures
        forall|f: int|
            0 <= f < post_files.len() ==> views_of(post_files[f].warnings@) == spec_with_path(
                views_of(pre_warnings.push(w2)),
                post_files[f].file_path@,
            ),
        forall|k: int|
            0 <= k < pre_warnings.push(w2).len() ==> spec_file_index(
                post_files,
                pre_warnings.push(w2)[k].file@,
            ) >= 0,
{
    lemma_file_index(pre_files, w1.file@);
    let new_ws = pre_warnings.push(w2);
    assert(views_of(new_ws) =~= views_of(pre_warnings).push(w_view(w2)));
    assert(views_of(new_ws).drop_last() =~= views_of(pre_warnings));
    assert(views_of(new_ws).last() == w_view(w2));
    assert(w_view(w2).file == w1.file@);
    let idx = spec_file_index(pre_files, w1.file@);
    assert forall|f: int|
        0 <= f < post_files.len() implies views_of(post_files[f].warnings@) == spec_with_path(
        views_of(new_ws),
        post_files[f].file_path@,
    ) by {
        if idx >= 0 {
            if f == idx {
                assert(post_files[f].file_path@ == w1.file@);
                assert(views_of(post_files[f].warnings@) =~= views_of(
                    pre_files[f].warnings@,
                ).push(w_view(w1)));
                assert(spec_with_path(views_of(new_ws), w1.file@) =~= spec_with_path(
                    views_of(pre_warnings),
                    w1.file@,
                ).push(w_view(w2)));
            } else {
                assert(post_files[f] == pre_files[f]);
                assert(post_files[f].file_path@ != w1.file@);
                assert(spec_with_path(views_of(new_ws), post_files[f].file_path@)
                    =~= spec_with_path(views_of(pre_warnings), post_files[f].file_path@));
            }
        } else {
            if f == post_files.len() - 1 {
                assert(post_files[f].file_path@ == w1.file@);
                assert forall|k: int|
                    0 <= k < views_of(pre_warnings).len() implies views_of(pre_warnings)[k].file
                    != w1.file@ by {
                    assert(views_of(pre_warnings)[k] == w_view(pre_warnings[k]));
                    assert(spec_file_index(pre_files, pre_warnings[k].file@) >= 0);
                    if pre_warnings[k].file@ == w1.file@ {
                        assert(spec_file_index(pre_files, w1.file@) >= 0);
                    }
                }
                lemma_with_path_absent(views_of(pre_warnings), w1.file@);
                assert(spec_with_path(views_of(new_ws), w1.file@) =~= seq![w_view(w2)]);
                assert(views_of(post_files[f].warnings@) =~= seq![w_view(w1)]);
            } else {
                assert(post_files[f] == pre_files[f]);
                assert(post_files[f].file_path@ != w1.file@);
                assert(spec_with_path(views_of(new_ws), post_files[f].file_path@)
                    =~= spec_with_path(views_of(pre_warnings), post_files[f].file_path@));
            }
        }
    }
    assert forall|k: int|
        0 <= k < new_ws.len() implies spec_file_index(post_files, new_ws[k].file@) >= 0 by {
        lemma_file_index(post_files, new_ws[k].file@);
        let path = new_ws[k].file@;
        if spec_file_index(post_files, path) < 0 {
            if k < pre_warnings.len() {
                assert(new_ws[k] == pre_warnings[k]);
                lemma_file_index(pre_files, path);
                let pi = spec_file_index(pre_files, path);
                assert(pi >= 0);
                if idx >= 0 {
                    if pi == idx {
                        assert(post_files[pi].file_path@ == path);
                    } else {
                        assert(post_files[pi] == pre_files[pi]);
                    }
                    assert(post_files[pi].file_path@ == path);
                } else {
                    assert(post_files[pi] == pre_files[pi]);
                    assert(post_files[pi].file_path@ == path);
                }
            } else {
                assert(new_ws[k] == w2);
                assert(path == w1.file@);
                if idx >= 0 {
                    assert(post_files[idx].file_path@ == path);
                } else {
                    assert(post_files[pre_files.len() as int].file_path@ == path);
                }
            }
        }
    }
}

} // verus!
