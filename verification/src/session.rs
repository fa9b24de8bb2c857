//! The decisions of the authentication middleware: which requests may reach
//! the protected routes, and as which user.
use vstd::prelude::*;
use vstd::utf8::{encode_utf8, is_ascii_chars, is_ascii_chars_encode_utf8};

use crate::headers::{
    ascii_text, bearer_token, bytes_of, cookie_prefix, extract_token, is_header_text,
    lemma_segment_end_at, request_token, segment_end, trim_back, trim_front, trimmed,
    SEMICOLON,
};
use crate::replies::{is_header_value, session_cookie};
use crate::ids::{parsed_uuid, uuid_parse};
use crate::models::AuthUser;
use crate::status::{ApiError, Status};

verus! {

/// `e` answers with `status` and the message `message`.
pub open spec fn is_error(e: ApiError, status: Status, message: Seq<char>) -> bool {
    e.status == status && e.message@ == message
}

/// The first step of the middleware: the session token of the request, or
/// 401 `Missing bearer token` when the request carries none.
pub fn require_token(authorization: Option<&[u8]>, cookie: Option<&[u8]>) -> (r: Result<
    String,
    ApiError,
>)
    ensures
        match request_token(bytes_of(authorization), bytes_of(cookie)) {
            Some(t) => r matches Ok(s) && s@ == ascii_text(t),
            None => r matches Err(e) && is_error(e, Status::Unauthorized, "Missing bearer token"@),
        },
{
    match extract_token(authorization, cookie) {
        Some(t) => Ok(t),
        None => Err(ApiError::new(Status::Unauthorized, "Missing bearer token")),
    }
}

/// The second step of the middleware, once the token has been decoded:
/// `subject` is the subject claim of the decoded token, or `None` when the
/// token did not decode. The request runs as the user whose UUID the
/// subject names; it is refused with 401 `Invalid token` when the token did
/// not decode and with 401 `Invalid token subject` when the subject names no
/// UUID.
pub fn authorize_subject(subject: Option<&str>) -> (r: Result<AuthUser, ApiError>)
    ensures
        match subject {
            None => r matches Err(e) && is_error(e, Status::Unauthorized, "Invalid token"@),
            Some(s) => match parsed_uuid(encode_utf8(s@)) {
                Some(id) => r == Ok::<AuthUser, ApiError>(AuthUser { user_id: id }),
                None => r matches Err(e) && is_error(
                    e,
                    Status::Unauthorized,
                    "Invalid token subject"@,
                ),
            },
        },
{
    match subject {
        None => Err(ApiError::new(Status::Unauthorized, "Invalid token")),
        Some(s) => match uuid_parse(s) {
            Some(id) => Ok(AuthUser { user_id: id }),
            None => Err(ApiError::new(Status::Unauthorized, "Invalid token subject")),
        },
    }
}

/// A token that a session cookie carries intact: visible ASCII without `;`
/// and without a blank at its end.
pub open spec fn is_cookie_token(t: Seq<char>) -> bool {
    &&& forall|i: int|
        0 <= i < t.len() ==> ((' ' <= #[trigger] t[i] <= '~') || t[i] == '\t') && t[i] != ';'
    &&& t.len() > 0 ==> t.last() != ' ' && t.last() != '\t'
}

/// The session cookie that the sign-in form sets is accepted as a header,
/// and the pair of it that a browser sends back is read as the same token,
/// alone or followed by further cookies, when no bearer token wins over it.
pub proof fn lemma_session_cookie_read_back(
    t: Seq<char>,
    authorization: Option<Seq<u8>>,
    rest: Seq<u8>,
)
    requires
        is_cookie_token(t),
        bearer_token(authorization) is None,
        is_header_text(rest),
        rest.len() == 0 || rest[0] == SEMICOLON,
    ensures
        ({
            let sent = encode_utf8(session_cookie(t));
            let pair = sent.take(segment_end(sent, 0));
            &&& is_header_value(sent)
            &&& request_token(authorization, Some(pair + rest)) matches Some(b)
            &&& ascii_text(b) == t
        }),
{
    reveal_strlit("auth_token=");
    reveal_strlit("; HttpOnly; Path=/; SameSite=Lax");
    let c = session_cookie(t);
    let n: int = t.len() as int;
    assert(c.len() == 11 + n + 32);
    assert forall|i: int| 0 <= i < c.len() implies '\0' <= #[trigger] c[i] <= '\u{7f}' by {
        if 11 <= i < 11 + n {
            assert(c[i] == t[i - 11]);
        }
    }
    assert(is_ascii_chars(c));
    is_ascii_chars_encode_utf8(c);
    let sent = encode_utf8(c);
    assert forall|i: int| 0 <= i < sent.len() implies sent[i] == c[i] as u8 by {}
    assert(sent[11 + n] == SEMICOLON) by {
        assert(c[11 + n] == ';');
    }
    assert forall|k: int| 0 <= k < 11 + n implies sent[k] != SEMICOLON by {
        if k >= 11 {
            assert(c[k] == t[k - 11]);
        }
    }
    lemma_segment_end_at(sent, 0, 11 + n);
    let pair = sent.take(11 + n);
    assert forall|i: int| 0 <= i < sent.len() implies crate::replies::is_header_value_byte(
        #[trigger] sent[i],
    ) by {
        if 11 <= i < 11 + n {
            assert(c[i] == t[i - 11]);
        }
    }
    let h = pair + rest;
    assert forall|i: int| 0 <= i < h.len() implies crate::headers::is_visible_ascii(
        #[trigger] h[i],
    ) by {
        if i < 11 + n {
            assert(h[i] == sent[i]);
            if i >= 11 {
                assert(c[i] == t[i - 11]);
            }
        } else {
            assert(h[i] == rest[i - 11 - n]);
        }
    }
    assert(is_header_text(h));
    if rest.len() == 0 {
        assert(h =~= pair);
        crate::headers::lemma_segment_end(h, 0);
        if segment_end(h, 0) < 11 + n {
            assert(h[segment_end(h, 0)] == sent[segment_end(h, 0)]);
        }
    } else {
        assert forall|k: int| 0 <= k < 11 + n implies h[k] != SEMICOLON by {
            assert(h[k] == sent[k]);
        }
        lemma_segment_end_at(h, 0, 11 + n);
    }
    assert(h.subrange(0, 11 + n) =~= pair);
    assert(trim_front(pair) == pair) by {
        assert(pair[0] == 97);
    }
    assert(trim_back(pair) == pair) by {
        if n > 0 {
            assert(pair.last() == t.last() as u8);
        } else {
            assert(pair.last() == 61);
        }
    }
    assert(trimmed(pair) == pair);
    assert(pair.take(11) =~= cookie_prefix());
    let b = pair.skip(11);
    assert(ascii_text(b) =~= t) by {
        assert forall|i: int| 0 <= i < n implies ascii_text(b)[i] == t[i] by {
            assert(b[i] == c[11 + i] as u8);
            assert(c[11 + i] == t[i]);
            let x = t[i];
            assert((x as u8) as char == x);
        }
    }
}


/// An error answer carries exactly the status and the message it names.
pub proof fn lemma_error_answer(e: ApiError, status: Status, message: Seq<char>)
    requires
        is_error(e, status, message),
    ensures
        e.status == status,
        e.message@ == message,
{
}

} // verus!
