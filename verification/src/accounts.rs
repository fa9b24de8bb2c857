//! Signing up and signing in.
//!
//! Signing in alternates outside work (looking the user up, checking the
//! password against its hash, encoding a token) with decisions. The
//! decisions are a state machine: `SignInState::step` takes the state and
//! the outcome of the last piece of outside work and gives the next state
//! and the next thing to do.
use vstd::prelude::*;

use crate::db::{db_outcome, db_outcome_spec, DbError};
use vstd::utf8::encode_utf8;

use crate::ids::{
    fresh_uuid, is_fresh_draw, is_random_uuid, lemma_uuid_text_parses, parsed_uuid, uuid_string,
    uuid_text,
};
use crate::models::{ApiResponse, AuthResult, SignUpInput, UserData};
use crate::session::is_error;
use crate::status::{ApiError, Status};

verus! {

/// The hours for which a session token is issued.
pub const TOKEN_VALID_HOURS: u64 = 24;

/// The fields of a stored user that signing in reads.
#[derive(Clone, Debug, PartialEq, Eq)]
pub struct UserRecord {
    pub id: u128,
    pub name: String,
    pub email: String,
}

/// Where a sign-in stands.
#[derive(Clone, Debug, PartialEq, Eq)]
pub enum SignInState {
    /// Waiting for the user with the submitted email to be looked up.
    FindingUser,
    /// Waiting for the submitted password to be checked against the user's.
    CheckingPassword { user: UserRecord },
    /// Waiting for a session token to be encoded for the user.
    IssuingToken { user: UserRecord },
    /// The sign-in has been answered.
    Finished,
}

/// The outcome of a piece of outside work.
#[derive(Clone, Debug, PartialEq, Eq)]
pub enum SignInEvent {
    /// The user with the submitted email, if there is one.
    UserLookup { found: Option<UserRecord> },
    /// Whether the submitted password matches the user's password hash.
    PasswordCheck { matches: bool },
    /// The encoded token, or `None` when encoding failed.
    TokenEncoding { token: Option<String> },
}

/// What is to be done next.
#[derive(Debug, PartialEq, Eq)]
pub enum SignInAction {
    /// Check the submitted password against the user's password hash.
    VerifyPassword,
    /// Encode a session token for `subject`, valid for `valid_hours` hours.
    EncodeToken { subject: String, valid_hours: u64 },
    /// Answer the request.
    Reply { outcome: Result<AuthResult, ApiError> },
}

/// `data` describes `user`: its id is the text form of the user's UUID.
pub open spec fn describes(data: UserData, user: UserRecord) -> bool {
    &&& data.id@ == uuid_text(user.id)
    &&& data.name@ == user.name@
    &&& data.email@ == user.email@
}

impl SignInState {
    /// The outside work whose outcome the state waits for.
    pub open spec fn expects(self, event: SignInEvent) -> bool {
        match self {
            SignInState::FindingUser => event is UserLookup,
            SignInState::CheckingPassword { .. } => event is PasswordCheck,
            SignInState::IssuingToken { .. } => event is TokenEncoding,
            SignInState::Finished => false,
        }
    }

    /// One step of a sign-in: from `self`, on `event`, to `next`, doing
    /// `action`.
    pub open spec fn steps_to(self, event: SignInEvent, next: SignInState, action: SignInAction) -> bool {
        match self {
            SignInState::FindingUser => match event {
                SignInEvent::UserLookup { found: None } => {
                    &&& next == SignInState::Finished
                    &&& action matches SignInAction::Reply { outcome: Err(e) }
                    &&& is_error(e, Status::Unauthorized, "Invalid email or password"@)
                },
                SignInEvent::UserLookup { found: Some(user) } => {
                    &&& next == SignInState::CheckingPassword { user }
                    &&& action == SignInAction::VerifyPassword
                },
                _ => false,
            },
            SignInState::CheckingPassword { user } => match event {
                SignInEvent::PasswordCheck { matches: false } => {
                    &&& next == SignInState::Finished
                    &&& action matches SignInAction::Reply { outcome: Err(e) }
                    &&& is_error(e, Status::Unauthorized, "Invalid password"@)
                },
                SignInEvent::PasswordCheck { matches: true } => {
                    &&& next == SignInState::IssuingToken { user }
                    &&& action matches SignInAction::EncodeToken { subject, valid_hours }
                    &&& subject@ == uuid_text(user.id)
                    &&& valid_hours == TOKEN_VALID_HOURS
                },
                _ => false,
            },
            SignInState::IssuingToken { user } => match event {
                SignInEvent::TokenEncoding { token: None } => {
                    &&& next == SignInState::Finished
                    &&& action matches SignInAction::Reply { outcome: Err(e) }
                    &&& is_error(e, Status::InternalServerError, "Token error"@)
                },
                SignInEvent::TokenEncoding { token: Some(t) } => {
                    &&& next == SignInState::Finished
                    &&& action matches SignInAction::Reply { outcome: Ok(a) }
                    &&& a.token == t
                    &&& describes(a.user, user)
                },
                _ => false,
            },
            SignInState::Finished => false,
        }
    }

    /// A sign-in starts by looking the user up.
    pub fn start() -> (s: SignInState)
        ensures
            s == SignInState::FindingUser,
    {
        SignInState::FindingUser
    }

    /// One step of a sign-in. A missing user is refused with 401 `Invalid
    /// email or password`, a wrong password with 401 `Invalid password`, and
    /// a failed token encoding with 500 `Token error`; a token is asked for
    /// the text form of the user's UUID, valid for 24 hours, and the answer
    /// carries that token and the user.
    pub fn step(self, event: SignInEvent) -> (r: (SignInState, SignInAction))
        requires
            self.expects(event),
        ensures
            self.steps_to(event, r.0, r.1),
    {
        match self {
            SignInState::FindingUser => match event {
                SignInEvent::UserLookup { found: Some(user) } => (
                    SignInState::CheckingPassword { user },
                    SignInAction::VerifyPassword,
                ),
                _ => (
                    SignInState::Finished,
                    SignInAction::Reply {
                        outcome: Err(
                            ApiError::new(Status::Unauthorized, "Invalid email or password"),
                        ),
                    },
                ),
            },
            SignInState::CheckingPassword { user } => match event {
                SignInEvent::PasswordCheck { matches: true } => {
                    let subject = uuid_string(user.id);
                    (
                        SignInState::IssuingToken { user },
                        SignInAction::EncodeToken { subject, valid_hours: TOKEN_VALID_HOURS },
                    )
                },
                _ => (
                    SignInState::Finished,
                    SignInAction::Reply {
                        outcome: Err(ApiError::new(Status::Unauthorized, "Invalid password")),
                    },
                ),
            },
            SignInState::IssuingToken { user } => match event {
                SignInEvent::TokenEncoding { token: Some(token) } => {
                    let data = UserData { id: uuid_string(user.id), name: user.name, email: user.email };
                    (
                        SignInState::Finished,
                        SignInAction::Reply { outcome: Ok(AuthResult { token, user: data }) },
                    )
                },
                _ => (
                    SignInState::Finished,
                    SignInAction::Reply {
                        outcome: Err(ApiError::new(Status::InternalServerError, "Token error")),
                    },
                ),
            },
            SignInState::Finished => (SignInState::Finished, SignInAction::VerifyPassword),
        }
    }
}

/// `states`, `events` and `actions` record a sign-in: it starts by looking
/// the user up, and each event takes it one step further.
pub open spec fn is_sign_in_run(
    states: Seq<SignInState>,
    events: Seq<SignInEvent>,
    actions: Seq<SignInAction>,
) -> bool {
    &&& states.len() == events.len() + 1
    &&& actions.len() == events.len()
    &&& states[0] == SignInState::FindingUser
    &&& forall|i: int|
        #![trigger events[i]]
        0 <= i < events.len() ==> states[i].steps_to(events[i], states[i + 1], actions[i])
}

/// A sign-in answers with a session only as the third answer to outside
/// work: after a user was found, the password matched and a token was
/// encoded. The answer carries that token and describes that user.
pub proof fn lemma_sign_in_success_needs_password(
    states: Seq<SignInState>,
    events: Seq<SignInEvent>,
    actions: Seq<SignInAction>,
    n: int,
)
    requires
        is_sign_in_run(states, events, actions),
        0 <= n < actions.len(),
        actions[n] matches SignInAction::Reply { outcome: Ok(_) },
    ensures
        n == 2,
        ({
            &&& events[0] matches SignInEvent::UserLookup { found: Some(user) }
            &&& events[1] == (SignInEvent::PasswordCheck { matches: true })
            &&& events[2] matches SignInEvent::TokenEncoding { token: Some(t) }
            &&& actions[2] matches SignInAction::Reply { outcome: Ok(a) }
            &&& a.token == t
            &&& describes(a.user, user)
        }),
{
    assert(states[0].steps_to(events[0], states[1], actions[0]));
    if n >= 1 {
        assert(states[1].steps_to(events[1], states[2], actions[1]));
    }
    if n >= 2 {
        assert(states[2].steps_to(events[2], states[3], actions[2]));
    }
    if n >= 3 {
        assert(states[3].steps_to(events[3], states[4], actions[3]));
    }
}

/// A refused sign-in: every answer other than a session is 401 for a missing
/// user or a wrong password, and 500 only when the token could not be
/// encoded after the password matched.
pub proof fn lemma_sign_in_refusals(
    states: Seq<SignInState>,
    events: Seq<SignInEvent>,
    actions: Seq<SignInAction>,
    n: int,
)
    requires
        is_sign_in_run(states, events, actions),
        0 <= n < actions.len(),
        actions[n] matches SignInAction::Reply { outcome: Err(_) },
    ensures
        actions[n] matches SignInAction::Reply { outcome: Err(e) } && (e.status == Status::Unauthorized
            || (e.status == Status::InternalServerError && n == 2 && events[1] == (
        SignInEvent::PasswordCheck { matches: true }))),
{
    assert(states[0].steps_to(events[0], states[1], actions[0]));
    if n >= 1 {
        assert(states[1].steps_to(events[1], states[2], actions[1]));
    }
    if n >= 2 {
        assert(states[2].steps_to(events[2], states[3], actions[2]));
    }
    if n >= 3 {
        assert(states[3].steps_to(events[3], states[4], actions[3]));
    }
}

/// The token that a sign-in asks for names the signed-in user: its subject,
/// read back as a UUID, is that user's id, so the middleware runs the
/// requests that carry the token as that user.
pub proof fn lemma_token_subject_names_user(
    state: SignInState,
    event: SignInEvent,
    next: SignInState,
    action: SignInAction,
)
    requires
        state.steps_to(event, next, action),
        action is EncodeToken,
    ensures
        ({
            &&& state matches SignInState::CheckingPassword { user }
            &&& action matches SignInAction::EncodeToken { subject, .. }
            &&& parsed_uuid(encode_utf8(subject@)) == Some(user.id)
        }),
{
    if let SignInState::CheckingPassword { user } = state {
        lemma_uuid_text_parses(user.id);
    }
}

/// A successful sign-in answers with the token that was encoded and with the
/// stored user's name and email unchanged, under an id that reads back as
/// the user's UUID.
pub proof fn lemma_sign_in_answer_carries_user(
    user: UserRecord,
    token: String,
    next: SignInState,
    action: SignInAction,
)
    requires
        (SignInState::IssuingToken { user }).steps_to(
            SignInEvent::TokenEncoding { token: Some(token) },
            next,
            action,
        ),
    ensures
        next == SignInState::Finished,
        ({
            &&& action matches SignInAction::Reply { outcome: Ok(a) }
            &&& a.token == token
            &&& a.user.name@ == user.name@
            &&& a.user.email@ == user.email@
            &&& a.user.id@.len() == 36
            &&& parsed_uuid(encode_utf8(a.user.id@)) == Some(user.id)
        }),
{
    lemma_uuid_text_parses(user.id);
}

/// How each step of a sign-in answers, in words: a missing user is refused
/// with 401 `Invalid email or password`; a found user has the password
/// checked; a wrong password is refused with 401 `Invalid password`; a
/// right one asks for a 24-hour token for the user's UUID; a failed
/// encoding is answered with 500 `Token error`.
pub proof fn lemma_sign_in_steps(
    state: SignInState,
    event: SignInEvent,
    next: SignInState,
    action: SignInAction,
)
    requires
        state.steps_to(event, next, action),
    ensures
        event == (SignInEvent::UserLookup { found: None }) ==> ({
            &&& next == SignInState::Finished
            &&& action matches SignInAction::Reply { outcome: Err(e) }
            &&& e.status.spec_code() == 401
            &&& e.message@ == "Invalid email or password"@
        }),
        event matches SignInEvent::UserLookup { found: Some(u) } ==> ({
            &&& next == (SignInState::CheckingPassword { user: u })
            &&& action == SignInAction::VerifyPassword
        }),
        event == (SignInEvent::PasswordCheck { matches: false }) ==> ({
            &&& next == SignInState::Finished
            &&& action matches SignInAction::Reply { outcome: Err(e) }
            &&& e.status.spec_code() == 401
            &&& e.message@ == "Invalid password"@
        }),
        event == (SignInEvent::PasswordCheck { matches: true }) ==> ({
            &&& state matches SignInState::CheckingPassword { user }
            &&& next == (SignInState::IssuingToken { user })
            &&& action matches SignInAction::EncodeToken { subject, valid_hours }
            &&& valid_hours == 24
            &&& parsed_uuid(encode_utf8(subject@)) == Some(user.id)
        }),
        event == (SignInEvent::TokenEncoding { token: None }) ==> ({
            &&& next == SignInState::Finished
            &&& action matches SignInAction::Reply { outcome: Err(e) }
            &&& e.status.spec_code() == 500
            &&& e.message@ == "Token error"@
        }),
{
    if let SignInState::CheckingPassword { user } = state {
        lemma_uuid_text_parses(user.id);
    }
}

/// The row that a sign-up inserts, but for the password hash.
#[derive(Clone, Debug, PartialEq, Eq)]
pub struct NewUser {
    pub id: u128,
    pub name: String,
    pub email: String,
}

/// The row of a new user: a fresh random UUID, and the submitted name and
/// email.
pub fn new_user(input: &SignUpInput) -> (u: NewUser)
    ensures
        is_random_uuid(u.id),
        is_fresh_draw(u.id),
        u.name@ == input.name@,
        u.email@ == input.email@,
{
    NewUser { id: fresh_uuid(), name: input.name.clone(), email: input.email.clone() }
}

/// The outcome of a sign-up's insert: the text form of the new user's
/// UUID, or 500 `DB error`.
pub fn sign_up_outcome(inserted: Result<u128, DbError>) -> (r: Result<String, ApiError>)
    ensures
        match inserted {
            Ok(id) => r matches Ok(s) && s@ == uuid_text(id),
            Err(_) => r matches Err(e) && is_error(e, Status::InternalServerError, "DB error"@),
        },
{
    match db_outcome(inserted) {
        Ok(id) => Ok(uuid_string(id)),
        Err(e) => Err(e),
    }
}

/// The JSON answer to a sign-up.
pub fn sign_up_response(user_id: String, name: String, email: String) -> (r: ApiResponse<UserData>)
    ensures
        r.status@ == "success"@,
        r.message@ == "User created successfully"@,
        r.data.id == user_id,
        r.data.name == name,
        r.data.email == email,
{
    ApiResponse {
        status: "success".to_owned(),
        message: "User created successfully".to_owned(),
        data: UserData { id: user_id, name, email },
    }
}

/// The JSON answer to a sign-in.
pub fn sign_in_response(auth: AuthResult) -> (r: ApiResponse<AuthResult>)
    ensures
        r.status@ == "success"@,
        r.message@ == "Signed in successfully"@,
        r.data == auth,
{
    ApiResponse {
        status: "success".to_owned(),
        message: "Signed in successfully".to_owned(),
        data: auth,
    }
}

} // verus!
