use vstd::prelude::*;

use crate::types::UserId;

verus! {

/// The error type of the operating system's random source.
#[verifier::external_type_specification]
#[verifier::external_body]
pub struct ExRandomError(getrandom::Error);

/// The user id that a peer gets when it asks for an updated one.
pub const UPDATED_USER_ID: UserId = 222222;

/// How a peer asks for its user id when it starts matching.
#[derive(PartialEq, Eq, Structural, Clone, Copy, Debug)]
pub enum UserIdRequestType {
    /// The peer has no user id yet: a fresh one is drawn at random.
    Creating,
    /// The peer asks for a new user id.
    Updating,
    /// The peer keeps the user id it names.
    Keep(UserId),
}

/// What the server answers about the peer's user id.
#[derive(PartialEq, Eq, Structural, Clone, Copy, Debug)]
pub enum UserIdResponseType {
    Created(UserId),
    Updated(UserId),
    Keep,
}

/// A response about the user id does not fit the request it answers.
#[derive(PartialEq, Eq, Structural, Clone, Copy, Debug)]
pub struct UserIdMismatch;

/// Why settling the user id at the start of matching failed.
#[derive(Debug)]
pub enum StartMatchingError {
    /// The random source could not give a fresh user id.
    CreatingUserIdFailed(getrandom::Error),
    /// The response does not name a user id for the request.
    GettingCurrentUserIdFailed(UserIdMismatch),
}

/// The response to a user id request, where `random` is the number drawn
/// for a fresh user id (read only for `Creating`).
pub open spec fn response_type_spec(request: UserIdRequestType, random: u32) -> UserIdResponseType {
    match request {
        UserIdRequestType::Creating => UserIdResponseType::Created(random as UserId),
        UserIdRequestType::Updating => UserIdResponseType::Updated(UPDATED_USER_ID),
        UserIdRequestType::Keep(_) => UserIdResponseType::Keep,
    }
}

/// The user id that a response names for a request, if the two fit.
pub open spec fn current_user_id_spec(
    request: UserIdRequestType,
    response: UserIdResponseType,
) -> Option<UserId> {
    match (request, response) {
        (UserIdRequestType::Creating, UserIdResponseType::Created(id)) => Some(id),
        (UserIdRequestType::Updating, UserIdResponseType::Updated(id)) => Some(id),
        (UserIdRequestType::Keep(id), UserIdResponseType::Keep) => Some(id),
        _ => None,
    }
}

/// The user id that a peer ends up with, where `random` is the number drawn
/// for a fresh user id.
pub open spec fn settled_user_id(request: UserIdRequestType, random: u32) -> UserId {
    match request {
        UserIdRequestType::Creating => random as UserId,
        UserIdRequestType::Updating => UPDATED_USER_ID,
        UserIdRequestType::Keep(id) => id,
    }
}

/// Draws a number from the operating system's random source through
/// `getrandom::u32`. Nothing is promised of the number or of whether the
/// call succeeds: both depend on the machine.
#[verifier::external_body]
fn random_u32() -> (r: Result<u32, getrandom::Error>) {
    getrandom::u32()
}

/// The response to a user id request, given the number drawn for a fresh id.
pub fn response_type_for(request_type: &UserIdRequestType, random: u32) -> (r: UserIdResponseType)
    ensures
        r == response_type_spec(*request_type, random),
{
    match request_type {
        UserIdRequestType::Creating => UserIdResponseType::Created(random as UserId),
        UserIdRequestType::Updating => UserIdResponseType::Updated(UPDATED_USER_ID),
        UserIdRequestType::Keep(_) => UserIdResponseType::Keep,
    }
}

/// The response to a user id request; only `Creating` draws from the random
/// source, and only it can fail.
pub fn user_id_response_type(request_type: &UserIdRequestType) -> (r: Result<
    UserIdResponseType,
    getrandom::Error,
>)
    ensures
        r is Err ==> *request_type == UserIdRequestType::Creating,
        *request_type != UserIdRequestType::Creating ==> r == Ok::<
            UserIdResponseType,
            getrandom::Error,
        >(response_type_spec(*request_type, 0)),
        r matches Ok(resp) ==> exists|x: u32| resp == response_type_spec(*request_type, x),
{
    match request_type {
        UserIdRequestType::Creating => {
            match random_u32() {
                Ok(x) => Ok(response_type_for(request_type, x)),
                Err(e) => Err(e),
            }
        },
        _ => Ok(response_type_for(request_type, 0)),
    }
}

impl UserIdRequestType {
    /// The user id that `response` names for this request.
    pub fn get_current_user_id(&self, response: &UserIdResponseType) -> (r: Result<
        UserId,
        UserIdMismatch,
    >)
        ensures
            match current_user_id_spec(*self, *response) {
                Some(id) => r == Ok::<UserId, UserIdMismatch>(id),
                None => r == Err::<UserId, UserIdMismatch>(UserIdMismatch),
            },
    {
        match (self, response) {
            (UserIdRequestType::Creating, UserIdResponseType::Created(id)) => Ok(*id),
            (UserIdRequestType::Updating, UserIdResponseType::Updated(id)) => Ok(*id),
            (UserIdRequestType::Keep(id), UserIdResponseType::Keep) => Ok(*id),
            _ => Err(UserIdMismatch),
        }
    }
}

/// Settles a peer's user id at the start of matching: the response to send
/// back and the peer's own user id.
pub fn start_matching_user_id(request_type: &UserIdRequestType) -> (r: Result<
    (UserIdResponseType, UserId),
    StartMatchingError,
>)
    ensures
        match r {
            Ok((resp, id)) => exists|x: u32|
                resp == response_type_spec(*request_type, x) && id == settled_user_id(
                    *request_type,
                    x,
                ),
            Err(e) => *request_type == UserIdRequestType::Creating
                && e is CreatingUserIdFailed,
        },
        *request_type != UserIdRequestType::Creating ==> (r matches Ok((resp, id)) && resp
            == response_type_spec(*request_type, 0) && id == settled_user_id(*request_type, 0)),
{
    let response = match user_id_response_type(request_type) {
        Ok(resp) => resp,
        Err(e) => {
            return Err(StartMatchingError::CreatingUserIdFailed(e));
        },
    };
    let ghost x = choose|x: u32| response == response_type_spec(*request_type, x);
    proof {
        lemma_response_names_settled_user_id(*request_type, x);
    }
    match request_type.get_current_user_id(&response) {
        Ok(id) => Ok((response, id)),
        Err(e) => Err(StartMatchingError::GettingCurrentUserIdFailed(e)),
    }
}

/// Whatever number is drawn, the response that the server builds for a user
/// id request names, for that request, the user id that the peer settles on.
pub proof fn lemma_response_names_settled_user_id(request: UserIdRequestType, random: u32)
    ensures
        current_user_id_spec(request, response_type_spec(request, random)) == Some(
            settled_user_id(request, random),
        ),
{
}

/// A fresh user id is the drawn number itself; an updated one is 222222
/// whatever is drawn; a kept one is the id the peer named. Only `Creating`
/// depends on the draw, and the response never names an id other than the
/// settled one.
pub proof fn law_settled_user_id_by_request(request: UserIdRequestType, x: u32, y: u32)
    ensures
        request == UserIdRequestType::Creating ==> response_type_spec(request, x)
            == UserIdResponseType::Created(x as UserId) && settled_user_id(request, x) == x as UserId,
        request == UserIdRequestType::Updating ==> response_type_spec(request, x)
            == UserIdResponseType::Updated(222222) && settled_user_id(request, x) == 222222,
        request matches UserIdRequestType::Keep(id) ==> response_type_spec(request, x)
            == UserIdResponseType::Keep && settled_user_id(request, x) == id,
        request != UserIdRequestType::Creating ==> response_type_spec(request, x)
            == response_type_spec(request, y) && settled_user_id(request, x) == settled_user_id(
            request,
            y,
        ),
        current_user_id_spec(request, response_type_spec(request, x)) == Some(
            settled_user_id(request, x),
        ),
{
}

/// A response fits only the kind of request it answers: a created id fits
/// only `Creating`, an updated id only `Updating`, `Keep` only a kept id.
pub proof fn law_response_fits_only_its_request(
    request: UserIdRequestType,
    response: UserIdResponseType,
)
    ensures
        current_user_id_spec(request, response) is Some <==> (match response {
            UserIdResponseType::Created(_) => request == UserIdRequestType::Creating,
            UserIdResponseType::Updated(_) => request == UserIdRequestType::Updating,
            UserIdResponseType::Keep => request is Keep,
        }),
        response matches UserIdResponseType::Created(id) ==> (current_user_id_spec(request, response)
            is Some ==> current_user_id_spec(request, response) == Some(id)),
        response matches UserIdResponseType::Updated(id) ==> (current_user_id_spec(request, response)
            is Some ==> current_user_id_spec(request, response) == Some(id)),
        request matches UserIdRequestType::Keep(id) ==> (current_user_id_spec(request, response)
            is Some ==> current_user_id_spec(request, response) == Some(id)),
{
}

} // verus!
