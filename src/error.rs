use vstd::prelude::*;

verus! {

/// Why a seed set or a field could not be produced.
#[derive(Debug, Clone, Copy, PartialEq, Eq, Structural)]
pub enum FieldError {
    /// A width or a height of zero.
    InvalidDimensions,
    /// A render over no seeds at all.
    EmptySeedSet,
}

} // verus!
