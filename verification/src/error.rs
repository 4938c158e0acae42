use vstd::prelude::*;

verus! {

/// Failure taxonomy of one submission attempt. A transport failure comes from
/// the platform and aborts the attempt with no retry; a parse failure means
/// the submitted form's fields could not be read as a submission.
#[derive(Debug, Clone, Copy, PartialEq, Eq, Structural)]
pub enum Error {
    Transport,
    Parse,
}

} // verus!
