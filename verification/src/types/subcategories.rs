use vstd::prelude::*;

verus! {

/// Finer-grained safety concerns, used for documentation of the taxonomy.
#[derive(Debug, Clone, PartialEq, Eq, Hash, Structural)]
pub enum SafetySubcategory {
    TypeCasting,
    UnsafeCode,
    ResourceLeak,
    ConcurrencyIssue,
    Other,
}

impl SafetySubcategory {
    pub open spec fn spec_description(self) -> Seq<char> {
        match self {
            SafetySubcategory::TypeCasting => "Unsafe type casting operations"@,
            SafetySubcategory::UnsafeCode => "Usage of unsafe blocks"@,
            SafetySubcategory::ResourceLeak => "Potential resource leaks"@,
            SafetySubcategory::ConcurrencyIssue => "Thread safety concerns"@,
            SafetySubcategory::Other => "Other safety issues"@,
        }
    }

    pub fn description(&self) -> (r: &'static str)
        ensures
            r@ == self.spec_description(),
    {
        match self {
            SafetySubcategory::TypeCasting => "Unsafe type casting operations",
            SafetySubcategory::UnsafeCode => "Usage of unsafe blocks",
            SafetySubcategory::ResourceLeak => "Potential resource leaks",
            SafetySubcategory::ConcurrencyIssue => "Thread safety concerns",
            SafetySubcategory::Other => "Other safety issues",
        }
    }
}

/// Finer-grained performance concerns.
#[derive(Debug, Clone, PartialEq, Eq, Hash, Structural)]
pub enum PerfSubcategory {
    Allocation,
    Locking,
    Cloning,
    Iteration,
    Other,
}

impl PerfSubcategory {
    pub open spec fn spec_description(self) -> Seq<char> {
        match self {
            PerfSubcategory::Allocation => "Memory allocation patterns"@,
            PerfSubcategory::Locking => "Lock contention issues"@,
            PerfSubcategory::Cloning => "Unnecessary cloning"@,
            PerfSubcategory::Iteration => "Inefficient iteration"@,
            PerfSubcategory::Other => "Other performance issues"@,
        }
    }

    pub fn description(&self) -> (r: &'static str)
        ensures
            r@ == self.spec_description(),
    {
        match self {
            PerfSubcategory::Allocation => "Memory allocation patterns",
            PerfSubcategory::Locking => "Lock contention issues",
            PerfSubcategory::Cloning => "Unnecessary cloning",
            PerfSubcategory::Iteration => "Inefficient iteration",
            PerfSubcategory::Other => "Other performance issues",
        }
    }
}

/// Finer-grained style concerns.
#[derive(Debug, Clone, PartialEq, Eq, Hash, Structural)]
pub enum StyleSubcategory {
    NamingConvention,
    CodeStructure,
    UnusedCode,
    Formatting,
    Other,
}

impl StyleSubcategory {
    pub open spec fn spec_description(self) -> Seq<char> {
        match self {
            StyleSubcategory::NamingConvention => "Naming convention violations"@,
            StyleSubcategory::CodeStructure => "Code structure improvements"@,
            StyleSubcategory::UnusedCode => "Unused code elements"@,
            StyleSubcategory::Formatting => "Code formatting issues"@,
            StyleSubcategory::Other => "Other style issues"@,
        }
    }

    pub fn description(&self) -> (r: &'static str)
        ensures
            r@ == self.spec_description(),
    {
        match self {
            StyleSubcategory::NamingConvention => "Naming convention violations",
            StyleSubcategory::CodeStructure => "Code structure improvements",
            StyleSubcategory::UnusedCode => "Unused code elements",
            StyleSubcategory::Formatting => "Code formatting issues",
            StyleSubcategory::Other => "Other style issues",
        }
    }
}

/// Finer-grained documentation concerns.
#[derive(Debug, Clone, PartialEq, Eq, Hash, Structural)]
pub enum DocSubcategory {
    MissingDocs,
    ErrorDocs,
    ExampleDocs,
    DeprecationNotice,
    Other,
}

impl DocSubcategory {
    pub open spec fn spec_description(self) -> Seq<char> {
        match self {
            DocSubcategory::MissingDocs => "Missing documentation"@,
            DocSubcategory::ErrorDocs => "Error documentation"@,
            DocSubcategory::ExampleDocs => "Example documentation"@,
            DocSubcategory::DeprecationNotice => "Deprecation notices"@,
            DocSubcategory::Other => "Other documentation issues"@,
        }
    }

    pub fn description(&self) -> (r: &'static str)
        ensures
            r@ == self.spec_description(),
    {
        match self {
            DocSubcategory::MissingDocs => "Missing documentation",
            DocSubcategory::ErrorDocs => "Error documentation",
            DocSubcategory::ExampleDocs => "Example documentation",
            DocSubcategory::DeprecationNotice => "Deprecation notices",
            DocSubcategory::Other => "Other documentation issues",
        }
    }
}

} // verus!
