use vstd::prelude::*;

verus! {

/// Identifies a user (a peer) of the matching service.
pub type UserId = u64;

/// Identifies the application that asks for a match.
pub type AppId = u64;

/// Identifies a matching room inside an application.
pub type MatcherId = u64;

} // verus!
