//! Reading the session token out of request headers.
//!
//! A header value is a sequence of bytes. The token is taken from the
//! `Authorization` header when it reads as text and starts with `Bearer `;
//! otherwise from the first `auth_token=` pair of the `Cookie` header.
use vstd::prelude::*;
use vstd::utf8::*;

verus! {

/// The byte `;`, which separates the pairs of a cookie header.
pub const SEMICOLON: u8 = 59;

/// A byte that `HeaderValue::to_str` accepts: visible ASCII or a tab.
pub open spec fn is_visible_ascii(b: u8) -> bool {
    (32 <= b && b < 127) || b == 9
}

/// A header value that reads as text (`HeaderValue::to_str` succeeds on it).
pub open spec fn is_header_text(v: Seq<u8>) -> bool {
    forall|i: int| 0 <= i < v.len() ==> is_visible_ascii(#[trigger] v[i])
}

/// The bytes of header text that `str::trim` removes: within visible ASCII
/// the only white space is the space and the tab.
pub open spec fn is_blank(b: u8) -> bool {
    b == 32 || b == 9
}

pub open spec fn trim_front(s: Seq<u8>) -> Seq<u8>
    decreases s.len(),
{
    if s.len() > 0 && is_blank(s[0]) {
        trim_front(s.drop_first())
    } else {
        s
    }
}

pub open spec fn trim_back(s: Seq<u8>) -> Seq<u8>
    decreases s.len(),
{
    if s.len() > 0 && is_blank(s.last()) {
        trim_back(s.drop_last())
    } else {
        s
    }
}

/// Header text with the blanks at both ends removed.
pub open spec fn trimmed(s: Seq<u8>) -> Seq<u8> {
    trim_back(trim_front(s))
}

pub open spec fn has_prefix(s: Seq<u8>, p: Seq<u8>) -> bool {
    p.len() <= s.len() && s.take(p.len() as int) == p
}

/// `Bearer `
pub open spec fn bearer_prefix() -> Seq<u8> {
    seq![66, 101, 97, 114, 101, 114, 32]
}

/// `auth_token=`
pub open spec fn cookie_prefix() -> Seq<u8> {
    seq![97, 117, 116, 104, 95, 116, 111, 107, 101, 110, 61]
}

/// The end of the `;`-separated segment of `s` that starts at `i`: the first
/// position from `i` on that holds `;`, or the length of `s`.
pub open spec fn segment_end(s: Seq<u8>, i: int) -> int
    decreases s.len() - i,
{
    if i >= s.len() || s[i] == SEMICOLON {
        i
    } else {
        segment_end(s, i + 1)
    }
}

pub proof fn lemma_segment_end(s: Seq<u8>, i: int)
    requires
        0 <= i <= s.len(),
    ensures
        i <= segment_end(s, i) <= s.len(),
        segment_end(s, i) < s.len() ==> s[segment_end(s, i)] == SEMICOLON,
        forall|k: int| i <= k < segment_end(s, i) ==> s[k] != SEMICOLON,
    decreases s.len() - i,
{
    if i < s.len() && s[i] != SEMICOLON {
        lemma_segment_end(s, i + 1);
    }
}

/// The segment from `i` ends at `j` when `j` is the first `;` from `i` on.
pub proof fn lemma_segment_end_at(s: Seq<u8>, i: int, j: int)
    requires
        0 <= i <= j < s.len(),
        s[j] == SEMICOLON,
        forall|k: int| i <= k < j ==> s[k] != SEMICOLON,
    ensures
        segment_end(s, i) == j,
    decreases j - i,
{
    if i < j {
        lemma_segment_end_at(s, i + 1, j);
    }
}

/// A request whose `Authorization` header is `Bearer <token>` for header
/// text `token` runs with that token, whatever cookies it carries.
pub proof fn lemma_bearer_token_read_back(token: Seq<u8>, cookie: Option<Seq<u8>>)
    requires
        forall|k: int| 0 <= k < token.len() ==> (32 <= #[trigger] token[k] < 127 || token[k] == 9),
    ensures
        request_token(Some(seq![66u8, 101, 97, 114, 101, 114, 32] + token), cookie) == Some(token),
{
    let v = bearer_prefix() + token;
    assert(bearer_prefix() =~= seq![66u8, 101, 97, 114, 101, 114, 32]);
    assert forall|i: int| 0 <= i < v.len() implies is_visible_ascii(#[trigger] v[i]) by {
        if i >= 7 {
            assert(v[i] == token[i - 7]);
        }
    }
    assert(v.take(7) =~= bearer_prefix());
    assert(v.skip(7) =~= token);
}

/// The token of the first cookie pair, among the `;`-separated segments of
/// `s` from position `i` on, whose trimmed text starts with `auth_token=`.
pub open spec fn cookie_token_from(s: Seq<u8>, i: int) -> Option<Seq<u8>>
    decreases s.len() - i,
{
    if i < 0 || i > s.len() {
        None
    } else {
        let j = segment_end(s, i);
        let pair = trimmed(s.subrange(i, j));
        if has_prefix(pair, cookie_prefix()) {
            Some(pair.skip(cookie_prefix().len() as int))
        } else if j < s.len() {
            proof {
                lemma_segment_end(s, i);
            }
            cookie_token_from(s, j + 1)
        } else {
            None
        }
    }
}

proof fn lemma_trim_front_bound(s: Seq<u8>) -> (a: int)
    ensures
        0 <= a <= s.len(),
        trim_front(s) == s.subrange(a, s.len() as int),
    decreases s.len(),
{
    if s.len() > 0 && is_blank(s[0]) {
        let a = lemma_trim_front_bound(s.drop_first());
        assert(s.drop_first().subrange(a, s.drop_first().len() as int) =~= s.subrange(
            a + 1,
            s.len() as int,
        ));
        a + 1
    } else {
        assert(s.subrange(0, s.len() as int) =~= s);
        0
    }
}

proof fn lemma_trim_back_bound(s: Seq<u8>) -> (b: int)
    ensures
        0 <= b <= s.len(),
        trim_back(s) == s.subrange(0, b),
    decreases s.len(),
{
    if s.len() > 0 && is_blank(s.last()) {
        let b = lemma_trim_back_bound(s.drop_last());
        assert(s.drop_last().subrange(0, b) =~= s.subrange(0, b));
        b
    } else {
        assert(s.subrange(0, s.len() as int) =~= s);
        s.len() as int
    }
}

/// The trimmed text of a segment is a stretch of that segment.
proof fn lemma_trimmed_bounds(s: Seq<u8>) -> (r: (int, int))
    ensures
        0 <= r.0 <= r.1 <= s.len(),
        trimmed(s) == s.subrange(r.0, r.1),
{
    let a = lemma_trim_front_bound(s);
    let f = s.subrange(a, s.len() as int);
    let b = lemma_trim_back_bound(f);
    assert(f.subrange(0, b) =~= s.subrange(a, a + b));
    (a, a + b)
}

/// Cookie pairs before position `p`, which holds `;`, that nowhere hold the
/// text `auth_token=` are passed over.
proof fn lemma_pairs_passed_over(h: Seq<u8>, p: int, i: int)
    requires
        0 <= i <= p < h.len(),
        h[p] == SEMICOLON,
        forall|k: int|
            0 <= k && k + 11 <= p ==> #[trigger] h.subrange(k, k + 11) != cookie_prefix(),
    ensures
        cookie_token_from(h, i) == cookie_token_from(h, p + 1),
    decreases p - i,
{
    lemma_segment_end(h, i);
    let j = segment_end(h, i);
    assert(j <= p);
    let part = h.subrange(i, j);
    let (a, b) = lemma_trimmed_bounds(part);
    if has_prefix(trimmed(part), cookie_prefix()) {
        assert(h.subrange(i + a, i + a + 11) =~= trimmed(part).take(11));
        assert(false);
    }
    if j < p {
        lemma_pairs_passed_over(h, p, j + 1);
    }
}

/// Blanks at the end are trimmed off.
proof fn lemma_trim_back_blanks(w: Seq<u8>, ws: Seq<u8>)
    requires
        forall|k: int| 0 <= k < ws.len() ==> (#[trigger] ws[k] == 32 || ws[k] == 9),
    ensures
        trim_back(w + ws) == trim_back(w),
    decreases ws.len(),
{
    if ws.len() > 0 {
        assert((w + ws).drop_last() =~= w + ws.drop_last());
        lemma_trim_back_blanks(w, ws.drop_last());
    } else {
        assert(w + ws =~= w);
    }
}

/// A cookie header whose earlier pairs nowhere hold the text `auth_token=`
/// and whose last pair is `auth_token=<t>`, after `; ` and followed by any
/// blanks, carries the token `t`, for any token of visible ASCII without
/// blanks and `;`.
pub proof fn lemma_last_cookie_pair_read(pairs: Seq<u8>, t: Seq<u8>, ws: Seq<u8>)
    requires
        forall|k: int| 0 <= k < pairs.len() ==> (32 <= #[trigger] pairs[k] < 127 || pairs[k] == 9),
        forall|k: int|
            0 <= k && k + 11 <= pairs.len() ==> #[trigger] pairs.subrange(k, k + 11) != seq![
                97u8,
                117,
                116,
                104,
                95,
                116,
                111,
                107,
                101,
                110,
                61,
            ],
        forall|k: int| 0 <= k < t.len() ==> 33 <= #[trigger] t[k] < 127 && t[k] != 59,
        forall|k: int| 0 <= k < ws.len() ==> (#[trigger] ws[k] == 32 || ws[k] == 9),
    ensures
        request_token(
            None,
            Some(
                pairs + seq![59u8, 32, 97, 117, 116, 104, 95, 116, 111, 107, 101, 110, 61] + t + ws,
            ),
        ) == Some(t),
{
    let suffix = seq![59u8, 32, 97, 117, 116, 104, 95, 116, 111, 107, 101, 110, 61];
    let h = pairs + suffix + t + ws;
    let p = pairs.len() as int;
    let q = p + 13 + t.len();
    assert(h[p] == SEMICOLON);
    assert forall|i: int| 0 <= i < h.len() implies is_visible_ascii(#[trigger] h[i]) by {
        if i < p {
            assert(h[i] == pairs[i]);
        } else if i < p + 13 {
            assert(h[i] == suffix[i - p]);
        } else if i < q {
            assert(h[i] == t[i - p - 13]);
        } else {
            assert(h[i] == ws[i - q]);
        }
    }
    assert forall|k: int| 0 <= k && k + 11 <= p implies #[trigger] h.subrange(k, k + 11)
        != cookie_prefix() by {
        assert(h.subrange(k, k + 11) =~= pairs.subrange(k, k + 11));
    }
    lemma_pairs_passed_over(h, p, 0);
    // the last pair
    let i = p + 1;
    lemma_segment_end(h, i);
    if segment_end(h, i) < h.len() {
        let j = segment_end(h, i);
        if j < p + 13 {
            assert(h[j] == suffix[j - p]);
        } else if j < q {
            assert(h[j] == t[j - p - 13]);
        } else {
            assert(h[j] == ws[j - q]);
        }
    }
    let part = h.subrange(i, h.len() as int);
    let w = cookie_prefix() + t;
    assert(part.drop_first() =~= w + ws);
    assert(trim_front(part) == trim_front(part.drop_first()));
    assert((w + ws)[0] == 97);
    assert(trim_front(w + ws) == w + ws);
    lemma_trim_back_blanks(w, ws);
    if t.len() > 0 {
        assert(w.last() == t.last());
    } else {
        assert(w.last() == 61);
    }
    assert(trim_back(w) == w);
    assert(trimmed(part) == w);
    assert(w.take(11) =~= cookie_prefix());
    assert(w.skip(11) =~= t);
}

/// The token that an `Authorization` header carries, if any.
pub open spec fn bearer_token(authorization: Option<Seq<u8>>) -> Option<Seq<u8>> {
    match authorization {
        Some(v) => if is_header_text(v) && has_prefix(v, bearer_prefix()) {
            Some(v.skip(bearer_prefix().len() as int))
        } else {
            None
        },
        None => None,
    }
}

/// The token that a `Cookie` header carries, if any.
pub open spec fn cookie_token(cookie: Option<Seq<u8>>) -> Option<Seq<u8>> {
    match cookie {
        Some(v) => if is_header_text(v) {
            cookie_token_from(v, 0)
        } else {
            None
        },
        None => None,
    }
}

/// The session token of a request: the bearer token, else the cookie token.
pub open spec fn request_token(authorization: Option<Seq<u8>>, cookie: Option<Seq<u8>>) -> Option<
    Seq<u8>,
> {
    match bearer_token(authorization) {
        Some(t) => Some(t),
        None => cookie_token(cookie),
    }
}

/// The characters of ASCII bytes.
pub open spec fn ascii_text(bytes: Seq<u8>) -> Seq<char> {
    Seq::new(bytes.len(), |i: int| bytes[i] as char)
}

/// A token read as text keeps its bytes: one character per byte, each with
/// that byte's code.
pub proof fn lemma_ascii_text_keeps_bytes(b: Seq<u8>)
    ensures
        ascii_text(b).len() == b.len(),
        forall|i: int| 0 <= i < b.len() ==> #[trigger] ascii_text(b)[i] as u32 == b[i] as u32,
{
}

pub open spec fn bytes_of(value: Option<&[u8]>) -> Option<Seq<u8>> {
    match value {
        Some(v) => Some(v@),
        None => None,
    }
}

/// Calls `std::str::from_utf8`, which accepts exactly the valid UTF-8 byte
/// sequences and hands back a text whose UTF-8 encoding is those bytes.
#[verifier::external_body]
fn utf8_text<'a>(bytes: &'a [u8]) -> (text: Option<&'a str>)
    ensures
        text is Some <==> valid_utf8(bytes@),
        text matches Some(t) ==> encode_utf8(t@) == bytes@,
{
    std::str::from_utf8(bytes).ok()
}

proof fn lemma_ascii_bytes_utf8(bytes: Seq<u8>)
    requires
        forall|i: int| 0 <= i < bytes.len() ==> #[trigger] bytes[i] < 128,
    ensures
        valid_utf8(bytes),
        encode_utf8(ascii_text(bytes)) == bytes,
{
    let c = ascii_text(bytes);
    assert forall|i: int| 0 <= i < c.len() implies '\0' <= #[trigger] c[i] <= '\u{7f}' by {
        assert(bytes[i] < 128);
    }
    assert(is_ascii_chars(c));
    is_ascii_chars_encode_utf8(c);
    assert forall|i: int| 0 <= i < bytes.len() implies encode_utf8(c)[i] == bytes[i] by {
        assert(c[i] as u8 == encode_utf8(c)[i]);
        assert(bytes[i] < 128);
        let x = bytes[i];
        assert((x as char) as u8 == x);
    }
    assert(encode_utf8(c) =~= bytes);
    encode_utf8_valid_utf8(c);
}

/// The ASCII bytes `v[lo..hi]` as a `String`.
fn ascii_string(v: &[u8], lo: usize, hi: usize) -> (s: String)
    requires
        lo <= hi <= v@.len(),
        forall|i: int| lo <= i < hi ==> #[trigger] v@[i] < 128,
    ensures
        s@ == ascii_text(v@.subrange(lo as int, hi as int)),
{
    let part = &v[lo..hi];
    let ghost bytes = v@.subrange(lo as int, hi as int);
    assert(part@ == bytes);
    proof {
        assert forall|i: int| 0 <= i < bytes.len() implies #[trigger] bytes[i] < 128 by {
            assert(bytes[i] == v@[lo + i]);
        }
        lemma_ascii_bytes_utf8(bytes);
    }
    let text = utf8_text(part);
    let t = text.unwrap();
    proof {
        broadcast use encode_utf8_decode_utf8;

        assert(decode_utf8(encode_utf8(t@)) == t@);
        assert(decode_utf8(encode_utf8(ascii_text(bytes))) == ascii_text(bytes));
    }
    t.to_owned()
}

/// Whether every byte of the value is visible ASCII.
fn is_header_text_exec(v: &[u8]) -> (ok: bool)
    ensures
        ok == is_header_text(v@),
{
    let mut i: usize = 0;
    while i < v.len()
        invariant
            0 <= i <= v@.len(),
            forall|k: int| 0 <= k < i ==> is_visible_ascii(#[trigger] v@[k]),
        decreases v@.len() - i,
    {
        let b = v[i];
        if !((32 <= b && b < 127) || b == 9) {
            return false;
        }
        i = i + 1;
    }
    true
}

/// Whether `v[lo..hi]` starts with `p`.
fn starts_with_at(v: &[u8], lo: usize, hi: usize, p: &Vec<u8>) -> (r: bool)
    requires
        lo <= hi <= v@.len(),
    ensures
        r == has_prefix(v@.subrange(lo as int, hi as int), p@),
{
    let ghost part = v@.subrange(lo as int, hi as int);
    if p.len() > hi - lo {
        return false;
    }
    let mut k: usize = 0;
    while k < p.len()
        invariant
            p@.len() <= hi - lo,
            lo <= hi <= v@.len(),
            part == v@.subrange(lo as int, hi as int),
            0 <= k <= p@.len(),
            forall|m: int| 0 <= m < k ==> part[m] == p@[m],
        decreases p@.len() - k,
    {
        if v[lo + k] != p[k] {
            assert(part.take(p@.len() as int)[k as int] != p@[k as int]);
            return false;
        }
        k = k + 1;
    }
    assert(part.take(p@.len() as int) =~= p@);
    true
}

/// The bounds of `v[lo..hi]` with the blanks at both ends removed.
fn trim_range(v: &[u8], lo: usize, hi: usize) -> (r: (usize, usize))
    requires
        lo <= hi <= v@.len(),
    ensures
        lo <= r.0 <= r.1 <= hi,
        v@.subrange(r.0 as int, r.1 as int) == trimmed(v@.subrange(lo as int, hi as int)),
{
    let mut a = lo;
    while a < hi && (v[a] == 32 || v[a] == 9)
        invariant
            lo <= a <= hi <= v@.len(),
            trim_front(v@.subrange(lo as int, hi as int)) == trim_front(
                v@.subrange(a as int, hi as int),
            ),
        decreases hi - a,
    {
        assert(v@.subrange(a as int, hi as int).drop_first() =~= v@.subrange(
            a + 1,
            hi as int,
        ));
        a = a + 1;
    }
    assert(trim_front(v@.subrange(a as int, hi as int)) == v@.subrange(a as int, hi as int));
    let mut b = hi;
    while b > a && (v[b - 1] == 32 || v[b - 1] == 9)
        invariant
            lo <= a <= b <= hi <= v@.len(),
            trim_back(v@.subrange(a as int, hi as int)) == trim_back(
                v@.subrange(a as int, b as int),
            ),
        decreases b - a,
    {
        assert(v@.subrange(a as int, b as int).drop_last() =~= v@.subrange(
            a as int,
            b - 1,
        ));
        b = b - 1;
    }
    assert(trim_back(v@.subrange(a as int, b as int)) == v@.subrange(a as int, b as int));
    (a, b)
}

/// The end of the `;`-separated segment that starts at `i`.
fn segment_end_exec(v: &[u8], i: usize) -> (j: usize)
    requires
        i <= v@.len(),
    ensures
        j == segment_end(v@, i as int),
{
    let mut j = i;
    while j < v.len() && v[j] != SEMICOLON
        invariant
            i <= j <= v@.len(),
            segment_end(v@, i as int) == segment_end(v@, j as int),
        decreases v@.len() - j,
    {
        j = j + 1;
    }
    j
}

fn bearer_prefix_bytes() -> (p: Vec<u8>)
    ensures
        p@ == bearer_prefix(),
{
    vec![66, 101, 97, 114, 101, 114, 32]
}

fn cookie_prefix_bytes() -> (p: Vec<u8>)
    ensures
        p@ == cookie_prefix(),
{
    vec![97, 117, 116, 104, 95, 116, 111, 107, 101, 110, 61]
}

/// The `auth_token` cookie value carried by the header text `v`.
fn cookie_token_exec(v: &[u8]) -> (token: Option<String>)
    requires
        is_header_text(v@),
    ensures
        match cookie_token_from(v@, 0) {
            Some(t) => token matches Some(s) && s@ == ascii_text(t),
            None => token is None,
        },
{
    let prefix = cookie_prefix_bytes();
    let mut i: usize = 0;
    loop
        invariant
            0 <= i <= v@.len(),
            is_header_text(v@),
            prefix@ == cookie_prefix(),
            cookie_token_from(v@, i as int) == cookie_token_from(v@, 0),
        decreases v@.len() - i,
    {
        let j = segment_end_exec(v, i);
        proof {
            lemma_segment_end(v@, i as int);
        }
        let (a, b) = trim_range(v, i, j);
        if starts_with_at(v, a, b, &prefix) {
            let ghost pair = v@.subrange(a as int, b as int);
            assert(pair.skip(11) =~= v@.subrange(a + 11, b as int));
            proof {
                assert forall|k: int| a + 11 <= k < b implies #[trigger] v@[k] < 128 by {
                    assert(is_visible_ascii(v@[k]));
                }
            }
            return Some(ascii_string(v, a + 11, b));
        }
        if j == v.len() {
            return None;
        }
        i = j + 1;
    }
}

/// The session token of a request, read from the bytes of its first
/// `Authorization` header and of its first `Cookie` header, where present.
///
/// A header that is not visible ASCII is passed over. The `Authorization`
/// header wins when it holds `Bearer <token>`; otherwise the value of the
/// first `auth_token=` pair of the cookie header is the token.
pub fn extract_token(authorization: Option<&[u8]>, cookie: Option<&[u8]>) -> (token: Option<String>)
    ensures
        match request_token(bytes_of(authorization), bytes_of(cookie)) {
            Some(t) => token matches Some(s) && s@ == ascii_text(t),
            None => token is None,
        },
{
    if let Some(v) = authorization {
        if is_header_text_exec(v) {
            let prefix = bearer_prefix_bytes();
            if starts_with_at(v, 0, v.len(), &prefix) {
                assert(v@.subrange(0, v@.len() as int) =~= v@);
                assert(v@.skip(7) =~= v@.subrange(7, v@.len() as int));
                proof {
                    assert forall|k: int| 7 <= k < v@.len() implies #[trigger] v@[k] < 128 by {
                        assert(is_visible_ascii(v@[k]));
                    }
                }
                return Some(ascii_string(v, 7, v.len()));
            }
            assert(v@.subrange(0, v@.len() as int) =~= v@);
        }
    }
    if let Some(v) = cookie {
        if is_header_text_exec(v) {
            return cookie_token_exec(v);
        }
    }
    None
}

} // verus!
