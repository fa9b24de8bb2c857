use expense_tracker::headers::extract_token;
use expense_tracker::replies::{dashboard_reply, sign_in_form_reply, sign_out_reply, sign_up_form_reply};
use expense_tracker::status::Status;

#[test]
fn sign_in_form_sets_session_cookie() {
    let r = sign_in_form_reply("abc.def").unwrap();
    assert_eq!(r.status, Status::Success);
    assert_eq!(r.status.code(), 200);
    assert_eq!(r.set_cookie.as_deref(), Some("auth_token=abc.def; HttpOnly; Path=/; SameSite=Lax"));
    assert_eq!(r.redirect, "/dashboard");
}

#[test]
fn sign_in_form_refuses_token_with_control_bytes() {
    let e = sign_in_form_reply("abc\ndef").unwrap_err();
    assert_eq!(e.status, Status::InternalServerError);
    assert_eq!(e.message, "Invalid header: failed to parse header value");
    assert!(sign_in_form_reply("a\u{7f}").is_err());
}

#[test]
fn sign_in_form_accepts_non_ascii_and_tab() {
    assert!(sign_in_form_reply("caf\u{e9}").is_ok());
    assert!(sign_in_form_reply("a\tb").is_ok());
}

#[test]
fn session_cookie_is_read_back() {
    let r = sign_in_form_reply("eyJ0.eyJz.c2ln").unwrap();
    let cookie = r.set_cookie.unwrap();
    let pair = cookie.split(';').next().unwrap();
    assert_eq!(extract_token(None, Some(pair.as_bytes())), Some("eyJ0.eyJz.c2ln".to_string()));
    let header = format!("{}; theme=dark", pair);
    assert_eq!(extract_token(None, Some(header.as_bytes())), Some("eyJ0.eyJz.c2ln".to_string()));
}

#[test]
fn sign_out_expires_cookie() {
    let r = sign_out_reply();
    assert_eq!(r.status, Status::Success);
    assert_eq!(
        r.set_cookie.as_deref(),
        Some("auth_token=; HttpOnly; Path=/; SameSite=Lax; Max-Age=0")
    );
    assert_eq!(r.redirect, "/signin");
}

#[test]
fn sign_up_form_goes_to_sign_in() {
    let r = sign_up_form_reply();
    assert_eq!(r.status, Status::Success);
    assert_eq!(r.set_cookie, None);
    assert_eq!(r.redirect, "/signin");
}

#[test]
fn expense_form_goes_to_dashboard() {
    let r = dashboard_reply();
    assert_eq!(r.status, Status::Success);
    assert_eq!(r.set_cookie, None);
    assert_eq!(r.redirect, "/dashboard");
}
