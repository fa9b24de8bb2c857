use expense_tracker::accounts::{
    new_user, sign_in_response, sign_up_outcome, sign_up_response, SignInAction, SignInEvent,
    SignInState, UserRecord, TOKEN_VALID_HOURS,
};
use expense_tracker::db::DbError;
use expense_tracker::models::{AuthResult, SignUpInput, UserData};
use expense_tracker::session::authorize_subject;
use expense_tracker::status::Status;

fn alice() -> UserRecord {
    UserRecord {
        id: 0x0102030405060708090a0b0c0d0e0f10,
        name: "Alice".to_string(),
        email: "alice@example.com".to_string(),
    }
}

fn reply(action: SignInAction) -> Result<AuthResult, expense_tracker::status::ApiError> {
    match action {
        SignInAction::Reply { outcome } => outcome,
        other => panic!("expected a reply, got {:?}", other),
    }
}

#[test]
fn sign_in_succeeds_after_password_and_token() {
    let s = SignInState::start();
    assert_eq!(s, SignInState::FindingUser);
    let (s, a) = s.step(SignInEvent::UserLookup { found: Some(alice()) });
    assert_eq!(a, SignInAction::VerifyPassword);
    let (s, a) = s.step(SignInEvent::PasswordCheck { matches: true });
    match a {
        SignInAction::EncodeToken { subject, valid_hours } => {
            assert_eq!(subject, "01020304-0506-0708-090a-0b0c0d0e0f10");
            assert_eq!(valid_hours, 24);
            assert_eq!(TOKEN_VALID_HOURS, 24);
        }
        other => panic!("unexpected {:?}", other),
    }
    let (s, a) = s.step(SignInEvent::TokenEncoding { token: Some("jwt".to_string()) });
    assert_eq!(s, SignInState::Finished);
    let auth = reply(a).unwrap();
    assert_eq!(auth.token, "jwt");
    assert_eq!(
        auth.user,
        UserData {
            id: "01020304-0506-0708-090a-0b0c0d0e0f10".to_string(),
            name: "Alice".to_string(),
            email: "alice@example.com".to_string(),
        }
    );
}

#[test]
fn sign_in_unknown_email() {
    let (s, a) = SignInState::start().step(SignInEvent::UserLookup { found: None });
    assert_eq!(s, SignInState::Finished);
    let e = reply(a).unwrap_err();
    assert_eq!(e.status, Status::Unauthorized);
    assert_eq!(e.message, "Invalid email or password");
}

#[test]
fn sign_in_wrong_password() {
    let (s, _) = SignInState::start().step(SignInEvent::UserLookup { found: Some(alice()) });
    let (s, a) = s.step(SignInEvent::PasswordCheck { matches: false });
    assert_eq!(s, SignInState::Finished);
    let e = reply(a).unwrap_err();
    assert_eq!(e.status, Status::Unauthorized);
    assert_eq!(e.message, "Invalid password");
}

#[test]
fn sign_in_token_failure() {
    let (s, _) = SignInState::start().step(SignInEvent::UserLookup { found: Some(alice()) });
    let (s, _) = s.step(SignInEvent::PasswordCheck { matches: true });
    let (s, a) = s.step(SignInEvent::TokenEncoding { token: None });
    assert_eq!(s, SignInState::Finished);
    let e = reply(a).unwrap_err();
    assert_eq!(e.status, Status::InternalServerError);
    assert_eq!(e.status.code(), 500);
    assert_eq!(e.message, "Token error");
}

#[test]
fn token_subject_authorizes_the_same_user() {
    let (s, _) = SignInState::start().step(SignInEvent::UserLookup { found: Some(alice()) });
    let (_, a) = s.step(SignInEvent::PasswordCheck { matches: true });
    let subject = match a {
        SignInAction::EncodeToken { subject, .. } => subject,
        other => panic!("unexpected {:?}", other),
    };
    assert_eq!(authorize_subject(Some(&subject)).unwrap().user_id, alice().id);
}

#[test]
fn new_user_has_fresh_v4_id() {
    let input = SignUpInput {
        name: "Bob".to_string(),
        email: "bob@example.com".to_string(),
        password: "secret".to_string(),
    };
    let a = new_user(&input);
    let b = new_user(&input);
    assert_eq!(a.name, "Bob");
    assert_eq!(a.email, "bob@example.com");
    assert_eq!(uuid::Uuid::from_u128(a.id).get_version_num(), 4);
    assert_eq!(uuid::Uuid::from_u128(a.id).get_variant(), uuid::Variant::RFC4122);
    assert_ne!(a.id, b.id);
}

#[test]
fn sign_up_outcome_gives_id_text() {
    let s = sign_up_outcome(Ok(0xa1a2a3a4b1b2c1c2d1d2d3d4d5d6d7d8)).unwrap();
    assert_eq!(s, "a1a2a3a4-b1b2-c1c2-d1d2-d3d4d5d6d7d8");
    assert_eq!(sign_up_outcome(Ok(0)).unwrap(), "00000000-0000-0000-0000-000000000000");
}

#[test]
fn sign_up_outcome_db_failure() {
    let e = sign_up_outcome(Err(DbError { code: Some("23505".to_string()) })).unwrap_err();
    assert_eq!(e.status, Status::InternalServerError);
    assert_eq!(e.message, "DB error");
}

#[test]
fn sign_up_json_answer() {
    let r = sign_up_response("id-1".to_string(), "Bob".to_string(), "bob@example.com".to_string());
    assert_eq!(r.status, "success");
    assert_eq!(r.message, "User created successfully");
    assert_eq!(r.data.id, "id-1");
    assert_eq!(r.data.name, "Bob");
    assert_eq!(r.data.email, "bob@example.com");
}

#[test]
fn sign_in_json_answer() {
    let auth = AuthResult {
        token: "t".to_string(),
        user: UserData { id: "i".to_string(), name: "n".to_string(), email: "e".to_string() },
    };
    let r = sign_in_response(auth.clone());
    assert_eq!(r.status, "success");
    assert_eq!(r.message, "Signed in successfully");
    assert_eq!(r.data, auth);
}
