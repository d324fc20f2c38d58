//! Advisory fix content: worked examples, concrete suggestions and
//! category templates.

pub mod examples;
pub mod suggestions;
pub mod templates;
