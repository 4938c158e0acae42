use vstd::prelude::*;
use crate::text::{parse_u32, spec_parse_u32};

verus! {

/// The destination identifier that means "no collection session is active".
pub const UNSET_DESTINATION: u64 = 1;

/// An inbound interaction is a submission-initiation request exactly when its
/// correlation token parses as an unsigned integer and a collection session
/// is active.
pub open spec fn spec_should_proceed(token: Seq<char>, destination: u64) -> bool {
    spec_parse_u32(token) is Some && destination != UNSET_DESTINATION
}

/// Decide whether an inbound interaction starts a submission round. A token
/// that fails to parse never raises: it simply yields "ignore". No side
/// effects.
pub fn should_proceed(token: &str, destination: u64) -> (r: bool)
    ensures
        r == spec_should_proceed(token@, destination),
{
    parse_u32(token).is_some() && destination != UNSET_DESTINATION
}

} // verus!
