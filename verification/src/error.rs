//! The ways in which an operation on an element can be refused.

use vstd::prelude::*;

verus! {

/// Why an element refused an in-place change.
#[derive(Debug, Clone, Copy, PartialEq, Eq, Structural)]
pub enum GsError {
    /// Text or a child was offered to a void element, which can hold neither.
    UnclosedTag,
    /// A child index was at or past the number of children.
    IndexOutOfBounds,
}

impl GsError {
    /// The text that describes this error: one fixed sentence per variant.
    pub fn message(&self) -> (text: &'static str)
        ensures
            *self == GsError::UnclosedTag ==> text@ == "This is unclosed tag"@,
            *self == GsError::IndexOutOfBounds ==> text@ == "Index out of bounds"@,
    {
        match self {
            GsError::UnclosedTag => "This is unclosed tag",
            GsError::IndexOutOfBounds => "Index out of bounds",
        }
    }
}

} // verus!
