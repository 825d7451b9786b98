use vstd::prelude::*;

use crate::types::{AppId, MatcherId, UserId};
use crate::user_id::UserIdRequestType;

verus! {

/// What a request to start matching carries that the matching logic reads.
pub struct StartMatchingRequest {
    pub app_id: AppId,
    pub matcher_id: MatcherId,
    pub user_id_request_type: UserIdRequestType,
}

/// What a peer's answer to an offer carries that the matching logic reads.
pub struct SignalingAnswerRequest {
    pub app_id: AppId,
    pub matcher_id: MatcherId,
    pub user_id: UserId,
}

/// What a request to pass a session description to the opponent carries
/// that the matching logic reads.
pub struct SendSdpRequest {
    pub app_id: AppId,
    pub matcher_id: MatcherId,
    pub user_id: UserId,
    pub opponent_id: UserId,
}

} // verus!
