//! Core data model: warning categories, priorities, subcategory taxonomies
//! and the warning record itself.

pub mod categories;
pub mod priorities;
pub mod warnings;
pub mod subcategories;

