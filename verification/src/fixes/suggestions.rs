use vstd::prelude::*;
use vstd::string::StringExecFns;
use crate::types::warnings::Warning;
use crate::types::categories::CategoryType;
use crate::text::first_token;
use crate::text::spec_first_token;
use crate::text::str_eq;

verus! {

/// A concrete fix suggestion: replacement text, why it helps, and a
/// confidence expressed in whole percent.
#[derive(Debug, Clone)]
pub struct FixSuggestion {
    pub code: String,
    pub explanation: String,
    pub confidence: u8,
}

/// What a suggestion holds, at the view level: code, explanation,
/// confidence percent.
pub open spec fn spec_suggestion_parts(w: Warning) -> Option<(Seq<char>, Seq<char>, u8)> {
    spec_suggestion_parts_for(spec_first_token(w.message@), w.category.category_type)
}

/// The suggestion for a given leading token and category.
pub open spec fn spec_suggestion_parts_for(tok: Seq<char>, cat: CategoryType) -> Option<
    (Seq<char>, Seq<char>, u8),
> {
    if tok == "use_self"@ {
        Some(
            (
                "Replace type name with `Self`"@,
                "Using `Self` instead of the type name makes the code more maintainable"@,
                95u8,
            ),
        )
    } else if tok == "missing_errors_doc"@ {
        Some(
            (
                "/// # Errors\n/// This function will return an error if:\n/// - The input is invalid\n/// - The operation fails"@,
                "Document possible error conditions for Result-returning functions"@,
                90u8,
            ),
        )
    } else {
        match cat {
            CategoryType::Style => {
                if tok == "NamingConvention"@ {
                    Some(
                        (
                            "// Follow Rust naming conventions\npub struct MyType {}"@,
                            "Using standard naming conventions improves code readability"@,
                            95u8,
                        ),
                    )
                } else if tok == "UnusedCode"@ {
                    Some(
                        (
                            "// Remove or use the unused item\n#[allow(dead_code)]"@,
                            "Removing unused code improves maintainability"@,
                            90u8,
                        ),
                    )
                } else {
                    None
                }
            },
            CategoryType::Safety => {
                if tok == "UnsafeCode"@ {
                    Some(
                        (
                            "// Consider using safe alternatives\nslice.get(index).copied()"@,
                            "Using safe alternatives reduces the risk of undefined behavior"@,
                            90u8,
                        ),
                    )
                } else if tok == "ResourceLeak"@ {
                    Some(
                        (
                            "// Use RAII patterns\nlet _guard = resource.lock();"@,
                            "RAII ensures resources are properly managed"@,
                            85u8,
                        ),
                    )
                } else {
                    None
                }
            },
            CategoryType::Performance => {
                if tok == "Allocation"@ {
                    Some(
                        (
                            "// Consider using a pre-allocated buffer\nlet mut buffer = Vec::with_capacity(size);"@,
                            "Pre-allocating memory can reduce reallocations"@,
                            80u8,
                        ),
                    )
                } else if tok == "Locking"@ {
                    Some(
                        (
                            "// Consider using a more granular lock\nlet data = { let guard = lock.read(); guard.clone() };"@,
                            "Reducing lock scope can improve concurrency"@,
                            70u8,
                        ),
                    )
                } else {
                    None
                }
            },
            CategoryType::Documentation => {
                if tok == "MissingDocs"@ {
                    Some(
                        (
                            "/// Brief description of the item\n/// \n/// # Examples\n/// ```\n/// // Add example here\n/// ```"@,
                            "Adding documentation helps users understand the code"@,
                            95u8,
                        ),
                    )
                } else if tok == "ErrorDocs"@ {
                    Some(
                        (
                            "/// # Errors\n/// Returns an error if:"@,
                            "Documenting error conditions helps users handle errors"@,
                            90u8,
                        ),
                    )
                } else {
                    None
                }
            },
        }
    }
}

/// Picks a fix suggestion for the warning: first a fix specific to the
/// message's leading token, then a category-based fallback.
pub fn generate_fix_suggestion(warning: &Warning) -> (r: Option<FixSuggestion>)
    ensures
        r is Some <==> spec_suggestion_parts(*warning) is Some,
        match r {
            Some(s) => spec_suggestion_parts(*warning) matches Some(t) && s.code@ == t.0
                && s.explanation@ == t.1 && s.confidence == t.2,
            None => true,
        },
{
    let subcategory = first_token(warning.message.as_str());
    if let Some(fix) = get_specific_fix(subcategory.as_str()) {
        return Some(fix);
    }
    match warning.category.category_type {
        CategoryType::Style => generate_style_suggestion(warning),
        CategoryType::Safety => generate_safety_suggestion(warning),
        CategoryType::Performance => generate_performance_suggestion(warning),
        CategoryType::Documentation => generate_documentation_suggestion(warning),
    }
}

/// Fixes tied to specific leading tokens, independent of category.
fn get_specific_fix(clippy_code: &str) -> (r: Option<FixSuggestion>)
    ensures
        r is Some <==> (clippy_code@ == "use_self"@ || clippy_code@ == "missing_errors_doc"@),
        match r {
            Some(s) => {
                if clippy_code@ == "use_self"@ {
                    &&& s.code@ == "Replace type name with `Self`"@
                    &&& s.explanation@
                        == "Using `Self` instead of the type name makes the code more maintainable"@
                    &&& s.confidence == 95
                } else {
                    &&& s.code@
                        == "/// # Errors\n/// This function will return an error if:\n/// - The input is invalid\n/// - The operation fails"@
                    &&& s.explanation@
                        == "Document possible error conditions for Result-returning functions"@
                    &&& s.confidence == 90
                }
            },
            None => true,
        },
{
    if str_eq(clippy_code, "use_self") {
        Some(
            FixSuggestion {
                code: "Replace type name with `Self`".to_owned(),
                explanation:
                    "Using `Self` instead of the type name makes the code more maintainable".to_owned(),
                confidence: 95,
            },
        )
    } else if str_eq(clippy_code, "missing_errors_doc") {
        Some(
            FixSuggestion {
                code: "/// # Errors\n/// This function will return an error if:\n/// - The input is invalid\n/// - The operation fails".to_owned(),
                explanation:
                    "Document possible error conditions for Result-returning functions".to_owned(),
                confidence: 90,
            },
        )
    } else {
        None
    }
}

fn generate_performance_suggestion(warning: &Warning) -> (r: Option<FixSuggestion>)
    ensures
        r is Some <==> (spec_first_token(warning.message@) == "Allocation"@ || spec_first_token(
            warning.message@,
        ) == "Locking"@),
        match r {
            Some(s) => {
                if spec_first_token(warning.message@) == "Allocation"@ {
                    &&& s.code@
                        == "// Consider using a pre-allocated buffer\nlet mut buffer = Vec::with_capacity(size);"@
                    &&& s.explanation@ == "Pre-allocating memory can reduce reallocations"@
                    &&& s.confidence == 80
                } else {
                    &&& s.code@
                        == "// Consider using a more granular lock\nlet data = { let guard = lock.read(); guard.clone() };"@
                    &&& s.explanation@ == "Reducing lock scope can improve concurrency"@
                    &&& s.confidence == 70
                }
            },
            None => true,
        },
{
    let subcategory = first_token(warning.message.as_str());
    if str_eq(subcategory.as_str(), "Allocation") {
        Some(
            FixSuggestion {
                code: "// Consider using a pre-allocated buffer\nlet mut buffer = Vec::with_capacity(size);".to_owned(),
                explanation: "Pre-allocating memory can reduce reallocations".to_owned(),
                confidence: 80,
            },
        )
    } else if str_eq(subcategory.as_str(), "Locking") {
        Some(
            FixSuggestion {
                code: "// Consider using a more granular lock\nlet data = { let guard = lock.read(); guard.clone() };".to_owned(),
                explanation: "Reducing lock scope can improve concurrency".to_owned(),
                confidence: 70,
            },
        )
    } else {
        None
    }
}

fn generate_safety_suggestion(warning: &Warning) -> (r: Option<FixSuggestion>)
    ensures
        r is Some <==> (spec_first_token(warning.message@) == "UnsafeCode"@ || spec_first_token(
            warning.message@,
        ) == "ResourceLeak"@),
        match r {
            Some(s) => {
                if spec_first_token(warning.message@) == "UnsafeCode"@ {
                    &&& s.code@
                        == "// Consider using safe alternatives\nslice.get(index).copied()"@
                    &&& s.explanation@
                        == "Using safe alternatives reduces the risk of undefined behavior"@
                    &&& s.confidence == 90
                } else {
                    &&& s.code@ == "// Use RAII patterns\nlet _guard = resource.lock();"@
                    &&& s.explanation@ == "RAII ensures resources are properly managed"@
                    &&& s.confidence == 85
                }
            },
            None => true,
        },
{
    let subcategory = first_token(warning.message.as_str());
    if str_eq(subcategory.as_str(), "UnsafeCode") {
        Some(
            FixSuggestion {
                code: "// Consider using safe alternatives\nslice.get(index).copied()".to_owned(),
                explanation:
                    "Using safe alternatives reduces the risk of undefined behavior".to_owned(),
                confidence: 90,
            },
        )
    } else if str_eq(subcategory.as_str(), "ResourceLeak") {
        Some(
            FixSuggestion {
                code: "// Use RAII patterns\nlet _guard = resource.lock();".to_owned(),
                explanation: "RAII ensures resources are properly managed".to_owned(),
                confidence: 85,
            },
        )
    } else {
        None
    }
}

fn generate_style_suggestion(warning: &Warning) -> (r: Option<FixSuggestion>)
    ensures
        r is Some <==> (spec_first_token(warning.message@) == "NamingConvention"@
            || spec_first_token(warning.message@) == "UnusedCode"@),
        match r {
            Some(s) => {
                if spec_first_token(warning.message@) == "NamingConvention"@ {
                    &&& s.code@ == "// Follow Rust naming conventions\npub struct MyType {}"@
                    &&& s.explanation@
                        == "Using standard naming conventions improves code readability"@
                    &&& s.confidence == 95
                } else {
                    &&& s.code@ == "// Remove or use the unused item\n#[allow(dead_code)]"@
                    &&& s.explanation@ == "Removing unused code improves maintainability"@
                    &&& s.confidence == 90
                }
            },
            None => true,
        },
{
    let subcategory = first_token(warning.message.as_str());
    if str_eq(subcategory.as_str(), "NamingConvention") {
        Some(
            FixSuggestion {
                code: "// Follow Rust naming conventions\npub struct MyType {}".to_owned(),
                explanation:
                    "Using standard naming conventions improves code readability".to_owned(),
                confidence: 95,
            },
        )
    } else if str_eq(subcategory.as_str(), "UnusedCode") {
        Some(
            FixSuggestion {
                code: "// Remove or use the unused item\n#[allow(dead_code)]".to_owned(),
                explanation: "Removing unused code improves maintainability".to_owned(),
                confidence: 90,
            },
        )
    } else {
        None
    }
}

fn generate_documentation_suggestion(warning: &Warning) -> (r: Option<FixSuggestion>)
    ensures
        r is Some <==> (spec_first_token(warning.message@) == "MissingDocs"@ || spec_first_token(
            warning.message@,
        ) == "ErrorDocs"@),
        match r {
            Some(s) => {
                if spec_first_token(warning.message@) == "MissingDocs"@ {
                    &&& s.code@
                        == "/// Brief description of the item\n/// \n/// # Examples\n/// ```\n/// // Add example here\n/// ```"@
                    &&& s.explanation@
                        == "Adding documentation helps users understand the code"@
                    &&& s.confidence == 95
                } else {
                    &&& s.code@ == "/// # Errors\n/// Returns an error if:"@
                    &&& s.explanation@
                        == "Documenting error conditions helps users handle errors"@
                    &&& s.confidence == 90
                }
            },
            None => true,
        },
{
    let subcategory = first_token(warning.message.as_str());
    if str_eq(subcategory.as_str(), "MissingDocs") {
        Some(
            FixSuggestion {
                code: "/// Brief description of the item\n/// \n/// # Examples\n/// ```\n/// // Add example here\n/// ```".to_owned(),
                explanation: "Adding documentation helps users understand the code".to_owned(),
                confidence: 95,
            },
        )
    } else if str_eq(subcategory.as_str(), "ErrorDocs") {
        Some(
            FixSuggestion {
                code: "/// # Errors\n/// Returns an error if:".to_owned(),
                explanation: "Documenting error conditions helps users handle errors".to_owned(),
                confidence: 90,
            },
        )
    } else {
        None
    }
}

} // verus!
