use matching_server::matcher::Matcher;
use matching_server::requests::{SendSdpRequest, SignalingAnswerRequest, StartMatchingRequest};
use matching_server::user_id::{
    response_type_for, start_matching_user_id, user_id_response_type, StartMatchingError,
    UserIdMismatch, UserIdRequestType, UserIdResponseType, UPDATED_USER_ID,
};

#[test]
fn matchers_come_from_each_request() {
    let start = StartMatchingRequest {
        app_id: 3,
        matcher_id: 4,
        user_id_request_type: UserIdRequestType::Creating,
    };
    let answer = SignalingAnswerRequest { app_id: 5, matcher_id: 6, user_id: 1 };
    let sdp = SendSdpRequest { app_id: 7, matcher_id: 8, user_id: 1, opponent_id: 2 };
    assert_eq!(Matcher::new_from_start_matching_request(&start), Matcher::new(3, 4));
    assert_eq!(Matcher::new_from_signaling_answer_request(&answer), Matcher::new(5, 6));
    assert_eq!(Matcher::new_from_send_sdp_request(&sdp), Matcher::new(7, 8));
    assert_ne!(Matcher::new(3, 4), Matcher::new(4, 3));
}

#[test]
fn response_type_for_each_request() {
    assert_eq!(
        response_type_for(&UserIdRequestType::Creating, 12345),
        UserIdResponseType::Created(12345)
    );
    assert_eq!(
        response_type_for(&UserIdRequestType::Creating, u32::MAX),
        UserIdResponseType::Created(4294967295)
    );
    assert_eq!(
        response_type_for(&UserIdRequestType::Updating, 12345),
        UserIdResponseType::Updated(222222)
    );
    assert_eq!(
        response_type_for(&UserIdRequestType::Keep(9), 12345),
        UserIdResponseType::Keep
    );
    assert_eq!(UPDATED_USER_ID, 222222);
}

#[test]
fn current_user_id_is_named_by_a_fitting_response() {
    assert_eq!(
        UserIdRequestType::Creating.get_current_user_id(&UserIdResponseType::Created(5)),
        Ok(5)
    );
    assert_eq!(
        UserIdRequestType::Updating.get_current_user_id(&UserIdResponseType::Updated(6)),
        Ok(6)
    );
    assert_eq!(
        UserIdRequestType::Keep(7).get_current_user_id(&UserIdResponseType::Keep),
        Ok(7)
    );
}

#[test]
fn current_user_id_fails_on_a_response_that_does_not_fit() {
    assert_eq!(
        UserIdRequestType::Creating.get_current_user_id(&UserIdResponseType::Keep),
        Err(UserIdMismatch)
    );
    assert_eq!(
        UserIdRequestType::Keep(7).get_current_user_id(&UserIdResponseType::Created(7)),
        Err(UserIdMismatch)
    );
    assert_eq!(
        UserIdRequestType::Updating.get_current_user_id(&UserIdResponseType::Created(1)),
        Err(UserIdMismatch)
    );
}

#[test]
fn response_to_any_request_names_the_settled_user_id() {
    for request in [
        UserIdRequestType::Creating,
        UserIdRequestType::Updating,
        UserIdRequestType::Keep(31),
    ] {
        for x in [0u32, 1, 77, u32::MAX] {
            let response = response_type_for(&request, x);
            let expected = match request {
                UserIdRequestType::Creating => x as u64,
                UserIdRequestType::Updating => 222222,
                UserIdRequestType::Keep(id) => id,
            };
            assert_eq!(request.get_current_user_id(&response), Ok(expected));
        }
    }
}

#[test]
fn keeping_and_updating_settle_without_randomness() {
    assert_eq!(
        user_id_response_type(&UserIdRequestType::Keep(3)).unwrap(),
        UserIdResponseType::Keep
    );
    match start_matching_user_id(&UserIdRequestType::Keep(3)) {
        Ok(pair) => assert_eq!(pair, (UserIdResponseType::Keep, 3)),
        Err(e) => panic!("unexpected error {:?}", e),
    }
    match start_matching_user_id(&UserIdRequestType::Updating) {
        Ok(pair) => assert_eq!(pair, (UserIdResponseType::Updated(222222), 222222)),
        Err(e) => panic!("unexpected error {:?}", e),
    }
}

#[test]
fn creating_draws_a_fresh_user_id() {
    match start_matching_user_id(&UserIdRequestType::Creating) {
        Ok((UserIdResponseType::Created(id), own)) => {
            assert_eq!(id, own);
            assert!(id <= u32::MAX as u64);
        }
        Ok(other) => panic!("unexpected response {:?}", other),
        Err(StartMatchingError::CreatingUserIdFailed(_)) => {}
        Err(e) => panic!("unexpected error {:?}", e),
    }
}
