use vstd::prelude::*;

use crate::app_state::AppState;
use crate::laws::law_waiting_user_comes_from_waiting_list;
use crate::matcher::Matcher;
use crate::types::UserId;

verus! {

/// What the server does for a peer that starts matching under a matcher.
#[derive(PartialEq, Eq, Structural, Clone, Copy, Debug)]
pub enum StartMatchingAction {
    /// Nobody waits there: the peer waits for an offer.
    WaitForOffer,
    /// A user waits there: the peer is matched with it.
    Matched(UserId),
}

/// Decides, from who waits under `matcher`, whether a peer that starts
/// matching there waits or is matched with the waiting user.
pub fn start_matching_action<R, W, S>(state: &AppState<R, W, S>, matcher: &Matcher) -> (a:
    StartMatchingAction)
    requires
        state.wf(),
    ensures
        match state@.waiting_user(*matcher) {
            None => a == StartMatchingAction::WaitForOffer,
            Some(p) => a == StartMatchingAction::Matched(p.0),
        },
        !state@.waiting.contains_key(*matcher) ==> a == StartMatchingAction::WaitForOffer,
        state@.waiting.contains_key(*matcher) ==> a == StartMatchingAction::Matched(
            state@.waiting[*matcher].0,
        ),
{
    proof {
        law_waiting_user_comes_from_waiting_list(state@, *matcher, state@.wrappers);
    }
    match state.waiting_user_id(matcher) {
        None => StartMatchingAction::WaitForOffer,
        Some(user_id) => StartMatchingAction::Matched(user_id),
    }
}

} // verus!
