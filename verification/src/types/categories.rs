use vstd::prelude::*;
use vstd::string::StringExecFns;

verus! {

/// The four top-level quality domains a warning can fall into, totally
/// ordered by a fixed severity rank (Safety highest, Documentation lowest).
#[derive(Debug, Clone, Copy, PartialEq, Eq, PartialOrd, Ord, Hash, Structural)]
pub enum CategoryType {
    Safety,
    Performance,
    Style,
    Documentation,
}

impl CategoryType {
    /// The human-readable explanation of the domain.
    pub open spec fn spec_description(self) -> Seq<char> {
        match self {
            CategoryType::Safety => "Safety and correctness issues"@,
            CategoryType::Performance => "Performance optimizations"@,
            CategoryType::Style => "Code style and maintainability"@,
            CategoryType::Documentation => "Documentation completeness"@,
        }
    }

    pub fn description(&self) -> (r: &'static str)
        ensures
            r@ == self.spec_description(),
    {
        match self {
            CategoryType::Safety => "Safety and correctness issues",
            CategoryType::Performance => "Performance optimizations",
            CategoryType::Style => "Code style and maintainability",
            CategoryType::Documentation => "Documentation completeness",
        }
    }

    /// The fixed severity rank of the domain: Safety 4, Performance 3,
    /// Style 2, Documentation 1. A pure function of the variant, never
    /// configuration-dependent.
    pub open spec fn spec_priority_level(self) -> u8 {
        match self {
            CategoryType::Safety => 4,
            CategoryType::Performance => 3,
            CategoryType::Style => 2,
            CategoryType::Documentation => 1,
        }
    }

    pub fn priority_level(&self) -> (r: u8)
        ensures
            r == self.spec_priority_level(),
    {
        match self {
            CategoryType::Safety => 4,
            CategoryType::Performance => 3,
            CategoryType::Style => 2,
            CategoryType::Documentation => 1,
        }
    }

    /// The display name of the domain.
    pub open spec fn spec_name(self) -> Seq<char> {
        match self {
            CategoryType::Safety => "Safety"@,
            CategoryType::Performance => "Performance"@,
            CategoryType::Style => "Style"@,
            CategoryType::Documentation => "Documentation"@,
        }
    }

    /// Display name of the variant, used wherever the category appears in
    /// rendered text.
    pub fn name(&self) -> (r: &'static str)
        ensures
            r@ == self.spec_name(),
    {
        match self {
            CategoryType::Safety => "Safety",
            CategoryType::Performance => "Performance",
            CategoryType::Style => "Style",
            CategoryType::Documentation => "Documentation",
        }
    }
}

/// A category assignment: the closed top-level domain plus a free-text
/// subcategory label (typically the lint code that produced the warning).
#[derive(Debug, Clone)]
pub struct WarningCategory {
    pub category_type: CategoryType,
    pub subcategory: String,
}

impl WarningCategory {
    pub fn new(category_type: CategoryType, subcategory: String) -> (r: Self)
        ensures
            r.category_type == category_type,
            r.subcategory@ == subcategory@,
    {
        Self { category_type, subcategory }
    }

    /// `"<domain name>: <subcategory>"`.
    pub open spec fn spec_full_description(self) -> Seq<char> {
        self.category_type.spec_name() + ": "@ + self.subcategory@
    }

    pub fn full_description(&self) -> (r: String)
        ensures
            r@ == self.spec_full_description(),
    {
        let mut s = self.category_type.name().to_owned();
        s.append(": ");
        s.append(self.subcategory.as_str());
        s
    }
}

} // verus!
