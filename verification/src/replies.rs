//! The replies to the HTML forms: an empty page whose headers set or clear
//! the session cookie and tell the browser where to go next.
use vstd::prelude::*;
use vstd::utf8::encode_utf8;

use crate::session::is_error;
use crate::status::{ApiError, Status};

verus! {

/// A reply to a form: the status, the `Set-Cookie` header if any, and the
/// `HX-Redirect` target.
#[derive(Clone, Debug, PartialEq, Eq)]
pub struct PageReply {
    pub status: Status,
    pub set_cookie: Option<String>,
    pub redirect: String,
}

/// A byte that `HeaderValue::from_str` accepts: anything but the control
/// bytes, where the tab counts as no control byte.
pub open spec fn is_header_value_byte(b: u8) -> bool {
    (32 <= b && b != 127) || b == 9
}

/// A text that `HeaderValue::from_str` accepts, given by its UTF-8 bytes.
pub open spec fn is_header_value(v: Seq<u8>) -> bool {
    forall|i: int| 0 <= i < v.len() ==> is_header_value_byte(#[trigger] v[i])
}

/// The cookie that a sign-in sets for `token`.
pub open spec fn session_cookie(token: Seq<char>) -> Seq<char> {
    "auth_token="@ + token + "; HttpOnly; Path=/; SameSite=Lax"@
}

/// The cookie that a sign-out sets: an empty token that expires at once.
pub open spec fn expired_session_cookie() -> Seq<char> {
    "auth_token=; HttpOnly; Path=/; SameSite=Lax; Max-Age=0"@
}

/// `r` is a successful reply that sets `cookie` (if any) and sends the
/// browser to `target`.
pub open spec fn is_redirect(r: PageReply, cookie: Option<Seq<char>>, target: Seq<char>) -> bool {
    &&& r.status == Status::Success
    &&& match cookie {
        Some(c) => r.set_cookie matches Some(s) && s@ == c,
        None => r.set_cookie is None,
    }
    &&& r.redirect@ == target
}

/// Whether `HeaderValue::from_str` accepts the text with these bytes.
fn is_header_value_exec(v: &[u8]) -> (ok: bool)
    ensures
        ok == is_header_value(v@),
{
    let mut i: usize = 0;
    while i < v.len()
        invariant
            0 <= i <= v@.len(),
            forall|k: int| 0 <= k < i ==> is_header_value_byte(#[trigger] v@[k]),
        decreases v@.len() - i,
    {
        let b = v[i];
        if !((32 <= b && b != 127) || b == 9) {
            return false;
        }
        i = i + 1;
    }
    true
}

/// The reply to the sign-up form: on to the sign-in page.
pub fn sign_up_form_reply() -> (r: PageReply)
    ensures
        is_redirect(r, None, "/signin"@),
{
    PageReply { status: Status::Success, set_cookie: None, redirect: "/signin".to_owned() }
}

/// The reply to the sign-in form once a token has been issued: set the
/// session cookie and go to the dashboard. A token that cannot stand in a
/// header is refused with 500 `Invalid header: failed to parse header value`.
pub fn sign_in_form_reply(token: &str) -> (r: Result<PageReply, ApiError>)
    ensures
        if is_header_value(encode_utf8(session_cookie(token@))) {
            r matches Ok(p) && is_redirect(p, Some(session_cookie(token@)), "/dashboard"@)
        } else {
            r matches Err(e) && is_error(
                e,
                Status::InternalServerError,
                "Invalid header: failed to parse header value"@,
            )
        },
{
    let mut cookie = "auth_token=".to_owned();
    cookie.append(token);
    cookie.append("; HttpOnly; Path=/; SameSite=Lax");
    if is_header_value_exec(cookie.as_str().as_bytes()) {
        Ok(
            PageReply {
                status: Status::Success,
                set_cookie: Some(cookie),
                redirect: "/dashboard".to_owned(),
            },
        )
    } else {
        Err(
            ApiError::new(
                Status::InternalServerError,
                "Invalid header: failed to parse header value",
            ),
        )
    }
}

/// The reply to the sign-out form: expire the session cookie and go to the
/// sign-in page.
pub fn sign_out_reply() -> (r: PageReply)
    ensures
        is_redirect(r, Some(expired_session_cookie()), "/signin"@),
{
    PageReply {
        status: Status::Success,
        set_cookie: Some("auth_token=; HttpOnly; Path=/; SameSite=Lax; Max-Age=0".to_owned()),
        redirect: "/signin".to_owned(),
    }
}

/// The reply to an expense form that has been carried out: back to the
/// dashboard.
pub fn dashboard_reply() -> (r: PageReply)
    ensures
        is_redirect(r, None, "/dashboard"@),
{
    PageReply { status: Status::Success, set_cookie: None, redirect: "/dashboard".to_owned() }
}

/// The cookie that signing out sets is the session cookie of an empty token
/// with an immediate expiry, so it replaces the cookie that signing in set.
pub proof fn lemma_sign_out_expires_session_cookie()
    ensures
        expired_session_cookie() == session_cookie(Seq::empty()) + "; Max-Age=0"@,
{
    reveal_strlit("auth_token=; HttpOnly; Path=/; SameSite=Lax; Max-Age=0");
    reveal_strlit("auth_token=");
    reveal_strlit("; HttpOnly; Path=/; SameSite=Lax");
    reveal_strlit("; Max-Age=0");
    assert(expired_session_cookie() =~= session_cookie(Seq::empty()) + "; Max-Age=0"@);
}


/// Signing in sets `auth_token=<token>; HttpOnly; Path=/; SameSite=Lax` for
/// every token: the cookie of the empty token is that text, and the cookie
/// of any token is the cookie of the empty token with the token put right
/// after `auth_token=`, and nothing else changed.
pub proof fn lemma_session_cookie_carries_token(t: Seq<char>)
    ensures
        session_cookie(Seq::empty()) == "auth_token=; HttpOnly; Path=/; SameSite=Lax"@,
        session_cookie(t) == session_cookie(Seq::empty()).take(11) + t + session_cookie(
            Seq::empty(),
        ).skip(11),
{
    reveal_strlit("auth_token=; HttpOnly; Path=/; SameSite=Lax");
    reveal_strlit("auth_token=");
    reveal_strlit("; HttpOnly; Path=/; SameSite=Lax");
    let e = session_cookie(Seq::empty());
    assert(e =~= "auth_token=; HttpOnly; Path=/; SameSite=Lax"@);
    assert(e.take(11) =~= "auth_token="@);
    assert(e.skip(11) =~= "; HttpOnly; Path=/; SameSite=Lax"@);
    assert(session_cookie(t) =~= e.take(11) + t + e.skip(11));
}

/// A form reply that redirects answers 200 and sets the given cookie, or
/// none, and the given target.
pub proof fn lemma_redirect_reply(r: PageReply, cookie: Option<Seq<char>>, target: Seq<char>)
    requires
        is_redirect(r, cookie, target),
    ensures
        r.status.spec_code() == 200,
        r.redirect@ == target,
        cookie is None ==> r.set_cookie is None,
        cookie matches Some(c) ==> r.set_cookie matches Some(s) && s@ == c,
{
}


/// `HeaderValue::from_str` accepts a text exactly when none of its bytes is
/// a control byte other than the tab: every byte is at least 32 and not 127,
/// or is 9.
pub proof fn lemma_header_value_bytes(v: Seq<u8>)
    ensures
        is_header_value(v) <==> forall|i: int|
            0 <= i < v.len() ==> ((32 <= #[trigger] v[i] && v[i] != 127) || v[i] == 9),
{
}

} // verus!
