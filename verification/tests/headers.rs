use expense_tracker::headers::extract_token;
use expense_tracker::session::{authorize_subject, require_token};
use expense_tracker::status::Status;

#[test]
fn bearer_header_gives_token() {
    let t = extract_token(Some(b"Bearer abc.def.ghi"), None);
    assert_eq!(t, Some("abc.def.ghi".to_string()));
}

#[test]
fn bearer_header_wins_over_cookie() {
    let t = extract_token(Some(b"Bearer from-header"), Some(b"auth_token=from-cookie"));
    assert_eq!(t, Some("from-header".to_string()));
}

#[test]
fn bearer_prefix_is_case_sensitive() {
    let t = extract_token(Some(b"bearer abc"), None);
    assert_eq!(t, None);
}

#[test]
fn bearer_with_empty_token() {
    assert_eq!(extract_token(Some(b"Bearer "), None), Some(String::new()));
}

#[test]
fn bearer_token_keeps_inner_blanks() {
    assert_eq!(extract_token(Some(b"Bearer  a b "), None), Some(" a b ".to_string()));
}

#[test]
fn non_bearer_authorization_falls_back_to_cookie() {
    let t = extract_token(Some(b"Basic dXNlcjpwYXNz"), Some(b"auth_token=xyz"));
    assert_eq!(t, Some("xyz".to_string()));
}

#[test]
fn authorization_that_is_not_text_falls_back_to_cookie() {
    let t = extract_token(Some(&[66, 101, 97, 114, 101, 114, 32, 200]), Some(b"auth_token=xyz"));
    assert_eq!(t, Some("xyz".to_string()));
}

#[test]
fn authorization_with_control_byte_is_passed_over() {
    let t = extract_token(Some(b"Bearer ab\x01c"), None);
    assert_eq!(t, None);
}

#[test]
fn tab_counts_as_header_text() {
    let t = extract_token(Some(b"Bearer a\tb"), None);
    assert_eq!(t, Some("a\tb".to_string()));
}

#[test]
fn cookie_among_others() {
    let t = extract_token(None, Some(b"theme=dark; auth_token=tok123; lang=en"));
    assert_eq!(t, Some("tok123".to_string()));
}

#[test]
fn cookie_pair_is_trimmed() {
    let t = extract_token(None, Some(b"a=1;   auth_token=tok \t ;b=2"));
    assert_eq!(t, Some("tok".to_string()));
}

#[test]
fn first_auth_cookie_wins() {
    let t = extract_token(None, Some(b"auth_token=first; auth_token=second"));
    assert_eq!(t, Some("first".to_string()));
}

#[test]
fn cookie_name_must_match_exactly() {
    assert_eq!(extract_token(None, Some(b"xauth_token=nope; other=1")), None);
    assert_eq!(extract_token(None, Some(b"Auth_token=nope")), None);
}

#[test]
fn empty_cookie_value() {
    assert_eq!(extract_token(None, Some(b"auth_token=")), Some(String::new()));
}

#[test]
fn cookie_header_that_is_not_text_is_passed_over() {
    assert_eq!(extract_token(None, Some(b"auth_token=caf\xc3\xa9")), None);
}

#[test]
fn no_headers_no_token() {
    assert_eq!(extract_token(None, None), None);
    assert_eq!(extract_token(None, Some(b"")), None);
    assert_eq!(extract_token(None, Some(b";;;")), None);
}

#[test]
fn missing_token_is_unauthorized() {
    let e = require_token(None, Some(b"theme=dark")).unwrap_err();
    assert_eq!(e.status, Status::Unauthorized);
    assert_eq!(e.status.code(), 401);
    assert_eq!(e.message, "Missing bearer token");
}

#[test]
fn present_token_is_required_token() {
    assert_eq!(require_token(Some(b"Bearer t1"), None).unwrap(), "t1");
}

#[test]
fn subject_naming_a_uuid_authorizes() {
    let u = authorize_subject(Some("67e55044-10b1-426f-9247-bb680e5fe0c8")).unwrap();
    assert_eq!(u.user_id, 0x67e5504410b1426f9247bb680e5fe0c8);
}

#[test]
fn subject_in_other_uuid_forms_authorizes() {
    let id = 0x67e5504410b1426f9247bb680e5fe0c8u128;
    assert_eq!(authorize_subject(Some("67E5504410B1426F9247BB680E5FE0C8")).unwrap().user_id, id);
    assert_eq!(
        authorize_subject(Some("{67e55044-10b1-426f-9247-bb680e5fe0c8}")).unwrap().user_id,
        id
    );
    assert_eq!(
        authorize_subject(Some("URN:uuid:67e55044-10b1-426f-9247-bb680e5fe0c8")).unwrap().user_id,
        id
    );
}

#[test]
fn undecodable_token_is_invalid() {
    let e = authorize_subject(None).unwrap_err();
    assert_eq!(e.status, Status::Unauthorized);
    assert_eq!(e.message, "Invalid token");
}

#[test]
fn bad_subject_is_invalid_subject() {
    for s in ["", "not-a-uuid", "67e55044-10b1-426f-9247-bb680e5fe0c", "67e55044x10b1-426f-9247-bb680e5fe0c8"] {
        let e = authorize_subject(Some(s)).unwrap_err();
        assert_eq!(e.status, Status::Unauthorized);
        assert_eq!(e.message, "Invalid token subject");
    }
}
