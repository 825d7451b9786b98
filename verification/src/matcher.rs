use vstd::prelude::*;

use crate::requests::{SendSdpRequest, SignalingAnswerRequest, StartMatchingRequest};
use crate::types::{AppId, MatcherId};

verus! {

/// The room in which two peers meet: an application and a matcher inside it.
#[derive(PartialEq, Eq, Structural, Clone, Copy, Debug, Hash)]
pub struct Matcher {
    pub app_id: AppId,
    pub matcher_id: MatcherId,
}

impl Matcher {
    /// The matcher with the given application and matcher ids.
    pub fn new(app_id: AppId, matcher_id: MatcherId) -> (m: Matcher)
        ensures
            m.app_id == app_id,
            m.matcher_id == matcher_id,
    {
        Matcher { app_id, matcher_id }
    }

    /// The matcher that a request to start matching names.
    pub fn new_from_start_matching_request(payload: &StartMatchingRequest) -> (m: Matcher)
        ensures
            m == (Matcher { app_id: payload.app_id, matcher_id: payload.matcher_id }),
    {
        Matcher { app_id: payload.app_id, matcher_id: payload.matcher_id }
    }

    /// The matcher that an answer names.
    pub fn new_from_signaling_answer_request(payload: &SignalingAnswerRequest) -> (m: Matcher)
        ensures
            m == (Matcher { app_id: payload.app_id, matcher_id: payload.matcher_id }),
    {
        Matcher { app_id: payload.app_id, matcher_id: payload.matcher_id }
    }

    /// The matcher that a request to pass a session description names.
    pub fn new_from_send_sdp_request(payload: &SendSdpRequest) -> (m: Matcher)
        ensures
            m == (Matcher { app_id: payload.app_id, matcher_id: payload.matcher_id }),
    {
        Matcher { app_id: payload.app_id, matcher_id: payload.matcher_id }
    }
}

} // verus!
