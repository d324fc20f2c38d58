use vstd::prelude::*;
use vstd::string::StringExecFns;
use crate::types::warnings::Warning;
use crate::types::categories::CategoryType;
use crate::text::first_token;
use crate::text::spec_first_token;
use crate::text::str_eq;

verus! {

/// A worked before/after example attached to a class of warnings.
#[derive(Debug)]
pub struct FixExample {
    pub description: String,
    pub before: String,
    pub after: String,
    pub explanation: String,
    pub additional_notes: Vec<String>,
}


/// The worked "before" text of the locking example.
pub open spec fn locking_before_text() -> Seq<char> {
    "\n// ❌ Inefficient: Long-held locks\nfn process_data(data: &Arc<Mutex<Vec<String>>>) {\n    let mut locked = data.lock().unwrap();\n    for item in locked.iter_mut() {\n        expensive_operation(item);  // Lock held during expensive operation\n    }\n}"@
}

/// The worked "after" text of the locking example.
pub open spec fn locking_after_text() -> Seq<char> {
    "\n// ✅ Efficient: Minimize lock duration\nfn process_data(data: &Arc<Mutex<Vec<String>>>) {\n    // Option 1: Clone data under lock\n    let items = {\n        let locked = data.lock().unwrap();\n        locked.clone()\n    };\n    for item in &items {\n        expensive_operation(item);\n    }\n\n    // Option 2: Process items individually\n    for i in 0..data.lock().unwrap().len() {\n        let item = {\n            let locked = data.lock().unwrap();\n            locked[i].clone()\n        };\n        expensive_operation(&item);\n    }\n}"@
}

/// The worked "before" text of the documentation example.
pub open spec fn docs_before_text() -> Seq<char> {
    "\npub struct Configuration {\n    timeout: Duration,\n    retries: u32,\n}"@
}

/// The worked "after" text of the documentation example.
pub open spec fn docs_after_text() -> Seq<char> {
    "/// Configuration for network operations\n/// \n/// # Examples\n/// \n/// ```\n/// let config = Configuration::new(\n///     Duration::from_secs(30),\n///     3\n/// )?;\n/// ```\npub struct Configuration {\n    timeout: Duration,\n    retries: u32,\n}"@
}

/// A warning earns the locking example: a performance warning whose
/// message leads with the "Locking" token.
pub open spec fn spec_is_locking_example(w: Warning) -> bool {
    w.category.category_type == CategoryType::Performance && spec_first_token(w.message@)
        == "Locking"@
}

/// A warning earns the documentation example: a documentation warning
/// whose message leads with the "Missing" token.
pub open spec fn spec_is_missing_docs_example(w: Warning) -> bool {
    w.category.category_type == CategoryType::Documentation && spec_first_token(w.message@)
        == "Missing"@
}

/// Picks the worked example that fits the warning, if the catalogue has
/// one: locking patterns for performance warnings about locking, and
/// documentation examples for missing documentation.
pub fn get_fix_example(warning: &Warning) -> (r: Option<FixExample>)
    ensures
        r is Some <==> (spec_is_locking_example(*warning) || spec_is_missing_docs_example(
            *warning,
        )),
        match r {
            Some(e) => {
                if spec_is_locking_example(*warning) {
                    &&& e.description@ == "Efficient locking patterns"@
                    &&& e.before@ == locking_before_text()
                    &&& e.after@ == locking_after_text()
                    &&& e.explanation@
                        == "Minimize lock duration and consider alternative synchronization primitives"@
                    &&& e.additional_notes@.len() == 3
                    &&& e.additional_notes@[0]@ == "Use RwLock for read-heavy workloads"@
                    &&& e.additional_notes@[1]@ == "Consider lock-free data structures"@
                    &&& e.additional_notes@[2]@ == "Minimize critical section size"@
                } else {
                    &&& e.description@ == "Documentation examples"@
                    &&& e.before@ == docs_before_text()
                    &&& e.after@ == docs_after_text()
                    &&& e.explanation@ == "Add comprehensive examples to documentation"@
                    &&& e.additional_notes@.len() == 3
                    &&& e.additional_notes@[0]@ == "Include practical usage examples"@
                    &&& e.additional_notes@[1]@ == "Show error handling"@
                    &&& e.additional_notes@[2]@ == "Demonstrate common use cases"@
                }
            },
            None => true,
        },
{
    let subcategory = first_token(warning.message.as_str());
    match warning.category.category_type {
        CategoryType::Performance => {
            if str_eq(subcategory.as_str(), "Locking") {
                let mut notes: Vec<String> = Vec::new();
                notes.push("Use RwLock for read-heavy workloads".to_owned());
                notes.push("Consider lock-free data structures".to_owned());
                notes.push("Minimize critical section size".to_owned());
                Some(
                    FixExample {
                        description: "Efficient locking patterns".to_owned(),
                        before: "\n// ❌ Inefficient: Long-held locks\nfn process_data(data: &Arc<Mutex<Vec<String>>>) {\n    let mut locked = data.lock().unwrap();\n    for item in locked.iter_mut() {\n        expensive_operation(item);  // Lock held during expensive operation\n    }\n}".to_owned(),
                        after: "\n// ✅ Efficient: Minimize lock duration\nfn process_data(data: &Arc<Mutex<Vec<String>>>) {\n    // Option 1: Clone data under lock\n    let items = {\n        let locked = data.lock().unwrap();\n        locked.clone()\n    };\n    for item in &items {\n        expensive_operation(item);\n    }\n\n    // Option 2: Process items individually\n    for i in 0..data.lock().unwrap().len() {\n        let item = {\n            let locked = data.lock().unwrap();\n            locked[i].clone()\n        };\n        expensive_operation(&item);\n    }\n}".to_owned(),
                        explanation: "Minimize lock duration and consider alternative synchronization primitives".to_owned(),
                        additional_notes: notes,
                    },
                )
            } else {
                None
            }
        },
        CategoryType::Documentation => {
            if str_eq(subcategory.as_str(), "Missing") {
                let mut notes: Vec<String> = Vec::new();
                notes.push("Include practical usage examples".to_owned());
                notes.push("Show error handling".to_owned());
                notes.push("Demonstrate common use cases".to_owned());
                Some(
                    FixExample {
                        description: "Documentation examples".to_owned(),
                        before: "\npub struct Configuration {\n    timeout: Duration,\n    retries: u32,\n}".to_owned(),
                        after: "/// Configuration for network operations\n/// \n/// # Examples\n/// \n/// ```\n/// let config = Configuration::new(\n///     Duration::from_secs(30),\n///     3\n/// )?;\n/// ```\npub struct Configuration {\n    timeout: Duration,\n    retries: u32,\n}".to_owned(),
                        explanation: "Add comprehensive examples to documentation".to_owned(),
                        additional_notes: notes,
                    },
                )
            } else {
                None
            }
        },
        _ => None,
    }
}

} // verus!
