//! The error taxonomy of the command layer. A transport failure is the
//! collaborator's own opaque error and never reaches this crate's logic.

use vstd::prelude::*;

verus! {

/// Why an invocation was rejected before any transport call was made.
#[derive(Clone, Copy, Debug, PartialEq, Eq, Structural)]
pub enum CliError {
    /// A flag the selected command requires is absent.
    MissingArgument,
    /// A value literal violates the codec grammar or its kind's range.
    MalformedValue,
}

impl CliError {
    /// A short description for the operator.
    pub fn describe(&self) -> (r: &'static str)
        ensures
            (*self == CliError::MissingArgument) == (r@ == "missing required argument"@),
            (*self == CliError::MalformedValue) == (r@ == "malformed value literal"@),
    {
        proof {
            reveal_strlit("missing required argument");
            reveal_strlit("malformed value literal");
            assert(("missing required argument"@).len() == 25);
            assert(("malformed value literal"@).len() == 23);
        }
        match self {
            CliError::MissingArgument => "missing required argument",
            CliError::MalformedValue => "malformed value literal",
        }
    }
}

} // verus!
