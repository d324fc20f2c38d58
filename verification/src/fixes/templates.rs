use vstd::prelude::*;
use vstd::string::StringExecFns;
use crate::types::categories::CategoryType;
use crate::fixes::examples::FixExample;

verus! {

/// The bullet lines listing a worked example's additional notes.
pub open spec fn spec_notes_lines(notes: Seq<Seq<char>>) -> Seq<char>
    decreases notes.len(),
{
    if notes.len() == 0 {
        Seq::empty()
    } else {
        spec_notes_lines(notes.drop_last()) + "// - "@ + notes.last() + "\n"@
    }
}

/// The commented template text of one worked example.
pub open spec fn spec_fix_template_text(e: FixExample) -> Seq<char> {
    "// "@ + e.description@ + "\n\n// Before:\n"@ + e.before@ + "\n\n// After:\n"@ + e.after@
        + "\n\n// Explanation: "@ + e.explanation@ + "\n\n// Additional notes:\n"@
        + spec_notes_lines(e.additional_notes.deep_view())
}

/// Renders one worked example as a commented fix template; the glue layer
/// writes it to the template file.
pub fn fix_template_text(example: &FixExample) -> (r: String)
    ensures
        r@ == spec_fix_template_text(*example),
{
    let ghost notes_view = example.additional_notes.deep_view();
    let mut out = "// ".to_owned();
    out.append(example.description.as_str());
    out.append("\n\n// Before:\n");
    out.append(example.before.as_str());
    out.append("\n\n// After:\n");
    out.append(example.after.as_str());
    out.append("\n\n// Explanation: ");
    out.append(example.explanation.as_str());
    out.append("\n\n// Additional notes:\n");
    let ghost head = out@;
    let n = example.additional_notes.len();
    let mut k: usize = 0;
    proof {
        assert(notes_view.take(0) =~= Seq::<Seq<char>>::empty());
        assert(out@ =~= head + spec_notes_lines(notes_view.take(0)));
    }
    while k < n
        invariant
            k <= n,
            n == example.additional_notes@.len(),
            notes_view == example.additional_notes.deep_view(),
            notes_view.len() == n,
            out@ == head + spec_notes_lines(notes_view.take(k as int)),
        decreases n - k,
    {
        proof {
            assert(notes_view.take(k + 1).drop_last() =~= notes_view.take(k as int));
            assert(notes_view.take(k + 1).last() == notes_view[k as int]);
            assert(notes_view[k as int] == example.additional_notes@[k as int]@);
        }
        out.append("// - ");
        out.append(example.additional_notes[k].as_str());
        out.append("\n");
        proof {
            assert(out@ =~= head + spec_notes_lines(notes_view.take(k + 1)));
        }
        k += 1;
    }
    proof {
        assert(notes_view.take(n as int) =~= notes_view);
    }
    out
}

/// The header line of a category's template section.
pub open spec fn spec_category_header(category: CategoryType) -> Seq<char> {
    match category {
        CategoryType::Safety => "Safety Fixes"@,
        CategoryType::Performance => "Performance Improvements"@,
        CategoryType::Style => "Style Guidelines"@,
        CategoryType::Documentation => "Documentation Guidelines"@,
    }
}

/// The fixed template body of a category.
pub open spec fn spec_category_body(category: CategoryType) -> Seq<char> {
    match category {
        CategoryType::Safety =>
            "// Template for fixing unsafe code:\n// 1. Identify the unsafe operation\n// 2. Consider safe alternatives\n// 3. Add safety documentation if unsafe is necessary\n"@,
        CategoryType::Performance =>
            "// Template for performance improvements:\n// 1. Profile the code\n// 2. Identify bottlenecks\n// 3. Consider algorithmic improvements\n"@,
        CategoryType::Style =>
            "// Template for style fixes:\n// 1. Follow Rust naming conventions\n// 2. Use consistent formatting\n// 3. Remove redundant code\n"@,
        CategoryType::Documentation =>
            "// Template for documentation:\n// 1. Add module-level documentation\n// 2. Document public items\n// 3. Include usage examples\n"@,
    }
}

/// The full template section of a category: a banner and the category's
/// checklist.
pub open spec fn spec_category_templates_text(category: CategoryType) -> Seq<char> {
    "\n=== "@ + spec_category_header(category) + " ===\n\n"@ + spec_category_body(category)
}

/// Renders a category's template section; the glue layer writes it to the
/// template file.
pub fn category_templates_text(category: CategoryType) -> (r: String)
    ensures
        r@ == spec_category_templates_text(category),
{
    let header: &'static str = match category {
        CategoryType::Safety => "Safety Fixes",
        CategoryType::Performance => "Performance Improvements",
        CategoryType::Style => "Style Guidelines",
        CategoryType::Documentation => "Documentation Guidelines",
    };
    let body: &'static str = match category {
        CategoryType::Safety => "// Template for fixing unsafe code:\n// 1. Identify the unsafe operation\n// 2. Consider safe alternatives\n// 3. Add safety documentation if unsafe is necessary\n",
        CategoryType::Performance => "// Template for performance improvements:\n// 1. Profile the code\n// 2. Identify bottlenecks\n// 3. Consider algorithmic improvements\n",
        CategoryType::Style => "// Template for style fixes:\n// 1. Follow Rust naming conventions\n// 2. Use consistent formatting\n// 3. Remove redundant code\n",
        CategoryType::Documentation => "// Template for documentation:\n// 1. Add module-level documentation\n// 2. Document public items\n// 3. Include usage examples\n",
    };
    let mut out = "\n=== ".to_owned();
    out.append(header);
    out.append(" ===\n\n");
    out.append(body);
    out
}

} // verus!
