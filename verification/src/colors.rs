//! Terminal colors, relied on from the termcolor crate. The engine only
//! carries color values through; the glue layer applies them.

use vstd::prelude::*;

verus! {

/// Declares termcolor's `Color` enum so library types can hold one; the
/// value is opaque to the verifier.
#[verifier::external_type_specification]
#[verifier::external_body]
pub struct ExColor(termcolor::Color);

/// Relies on termcolor's `Color::Red` variant constructor.
#[verifier::external_body]
pub(crate) fn color_red() -> termcolor::Color {
    termcolor::Color::Red
}

/// Relies on termcolor's `Color::Yellow` variant constructor.
#[verifier::external_body]
pub(crate) fn color_yellow() -> termcolor::Color {
    termcolor::Color::Yellow
}

/// Relies on termcolor's `Color::Blue` variant constructor.
#[verifier::external_body]
pub(crate) fn color_blue() -> termcolor::Color {
    termcolor::Color::Blue
}

/// Relies on termcolor's `Color::Cyan` variant constructor.
#[verifier::external_body]
pub(crate) fn color_cyan() -> termcolor::Color {
    termcolor::Color::Cyan
}

} // verus!
