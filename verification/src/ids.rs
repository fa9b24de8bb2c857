//! Record identifiers: 128-bit UUIDs, their text form and how text is read
//! back as an identifier.
use vstd::prelude::*;
use vstd::arithmetic::div_mod::{lemma_div_denominator, lemma_fundamental_div_mod, lemma_mod_pos_bound, lemma_div_pos_is_pos, lemma_basic_div};
use vstd::utf8::{encode_utf8, is_ascii_chars, is_ascii_chars_encode_utf8};

verus! {

/// The value of a hexadecimal digit byte of either case.
pub open spec fn hex_digit_value(b: u8) -> Option<int> {
    if 48 <= b <= 57 {
        Some(b - 48)
    } else if 97 <= b <= 102 {
        Some(b - 87)
    } else if 65 <= b <= 70 {
        Some(b - 55)
    } else {
        None
    }
}

pub open spec fn all_hex_digits(s: Seq<u8>) -> bool {
    forall|i: int| 0 <= i < s.len() ==> (#[trigger] hex_digit_value(s[i])) is Some
}

/// The number that a string of hexadecimal digits writes, most significant
/// digit first.
pub open spec fn hex_number(s: Seq<u8>) -> int
    decreases s.len(),
{
    if s.len() == 0 {
        0
    } else {
        hex_number(s.drop_last()) * 16 + hex_digit_value(s.last()).unwrap()
    }
}

/// The byte `-`.
pub open spec fn hyphen() -> u8 {
    45
}

/// 36 bytes with hyphens after the 8th, 12th, 16th and 20th digit.
pub open spec fn is_hyphenated_form(s: Seq<u8>) -> bool {
    &&& s.len() == 36
    &&& s[8] == hyphen()
    &&& s[13] == hyphen()
    &&& s[18] == hyphen()
    &&& s[23] == hyphen()
}

/// The 32 digits of a hyphenated form.
pub open spec fn hyphenated_digits(s: Seq<u8>) -> Seq<u8> {
    s.subrange(0, 8) + s.subrange(9, 13) + s.subrange(14, 18) + s.subrange(19, 23) + s.subrange(
        24,
        36,
    )
}

/// An ASCII letter folded to lower case.
pub open spec fn ascii_lower(b: u8) -> u8 {
    if 65 <= b <= 90 {
        (b + 32) as u8
    } else {
        b
    }
}

/// `urn:uuid:`
pub open spec fn urn_prefix() -> Seq<u8> {
    seq![117, 114, 110, 58, 117, 117, 105, 100, 58]
}

/// The digits of a UUID written in one of the accepted forms: 32 digits;
/// the hyphenated form; the hyphenated form in braces; or the hyphenated
/// form behind `urn:uuid:` in any case.
pub open spec fn uuid_digits(s: Seq<u8>) -> Option<Seq<u8>> {
    if s.len() == 32 {
        Some(s)
    } else if is_hyphenated_form(s) {
        Some(hyphenated_digits(s))
    } else if s.len() == 38 && s[0] == 123 && s[37] == 125 && is_hyphenated_form(
        s.subrange(1, 37),
    ) {
        Some(hyphenated_digits(s.subrange(1, 37)))
    } else if s.len() == 45 && (forall|i: int|
        0 <= i < 9 ==> ascii_lower(#[trigger] s[i]) == urn_prefix()[i]) && is_hyphenated_form(
        s.skip(9),
    ) {
        Some(hyphenated_digits(s.skip(9)))
    } else {
        None
    }
}

/// The identifier that the text with UTF-8 bytes `s` names, if it names one.
pub open spec fn parsed_uuid(s: Seq<u8>) -> Option<u128> {
    match uuid_digits(s) {
        Some(d) => if all_hex_digits(d) {
            Some(hex_number(d) as u128)
        } else {
            None
        },
        None => None,
    }
}

/// The lower-case hexadecimal digit for `n` in `0..16`.
pub open spec fn lower_hex_digit(n: int) -> char {
    if n < 10 {
        (48 + n) as char
    } else {
        (87 + n) as char
    }
}

/// Sixteen to the power `e`.
pub open spec fn pow16(e: nat) -> int
    decreases e,
{
    if e == 0 {
        1
    } else {
        16 * pow16((e - 1) as nat)
    }
}

/// The `k`-th hexadecimal digit of `id`, counted from the most significant.
pub open spec fn nibble(id: u128, k: int) -> int {
    (id as int / pow16((31 - k) as nat)) % 16
}

/// `id` as 32 lower-case hexadecimal digits.
pub open spec fn simple_text(id: u128) -> Seq<char> {
    Seq::new(32, |k: int| lower_hex_digit(nibble(id, k)))
}

/// `id` in the hyphenated lower-case form `xxxxxxxx-xxxx-xxxx-xxxx-xxxxxxxxxxxx`.
pub open spec fn uuid_text(id: u128) -> Seq<char> {
    let s = simple_text(id);
    s.subrange(0, 8) + seq!['-'] + s.subrange(8, 12) + seq!['-'] + s.subrange(12, 16) + seq!['-']
        + s.subrange(16, 20) + seq!['-'] + s.subrange(20, 32)
}

/// A version-4 (random) UUID of the RFC 4122 variant.
pub open spec fn is_random_uuid(id: u128) -> bool {
    (id >> 76u128) & 15 == 4 && (id >> 62u128) & 3 == 2
}

proof fn lemma_pow16_positive(e: nat)
    ensures
        pow16(e) > 0,
    decreases e,
{
    if e > 0 {
        lemma_pow16_positive((e - 1) as nat);
    }
}

proof fn lemma_nibble_bound(id: u128, k: int)
    ensures
        0 <= nibble(id, k) < 16,
{
    lemma_pow16_positive((31 - k) as nat);
    lemma_div_pos_is_pos(id as int, pow16((31 - k) as nat));
    lemma_mod_pos_bound(id as int / pow16((31 - k) as nat), 16);
}

/// The bytes of an ASCII text.
pub open spec fn ascii_bytes(cs: Seq<char>) -> Seq<u8> {
    Seq::new(cs.len(), |i: int| cs[i] as u8)
}

proof fn lemma_ascii_encoding(cs: Seq<char>)
    requires
        is_ascii_chars(cs),
    ensures
        encode_utf8(cs) == ascii_bytes(cs),
{
    is_ascii_chars_encode_utf8(cs);
    assert(encode_utf8(cs) =~= ascii_bytes(cs));
}

/// The digits `d` of `id` read back: the first `m` of them write `id`
/// divided by sixteen to the power of the digits that follow.
proof fn lemma_digits_value(id: u128, d: Seq<u8>, m: int)
    requires
        d.len() == 32,
        0 <= m <= 32,
        forall|k: int| 0 <= k < 32 ==> #[trigger] hex_digit_value(d[k]) == Some(nibble(id, k)),
    ensures
        hex_number(d.take(m)) == id as int / pow16((32 - m) as nat),
    decreases m,
{
    lemma_pow16_positive((32 - m) as nat);
    if m == 0 {
        assert(pow16(32) == 0x1_0000_0000_0000_0000_0000_0000_0000_0000) by {
            reveal_with_fuel(pow16, 33);
        }
        lemma_basic_div(id as int, pow16(32));
        assert(d.take(0).len() == 0);
    } else {
        lemma_digits_value(id, d, m - 1);
        assert(d.take(m).drop_last() =~= d.take(m - 1));
        assert(d.take(m).last() == d[m - 1]);
        let p = pow16((32 - m) as nat);
        let x = id as int / p;
        lemma_pow16_positive((32 - m) as nat);
        assert(pow16((32 - (m - 1)) as nat) == p * 16);
        lemma_div_denominator(id as int, p, 16);
        lemma_fundamental_div_mod(x, 16);
        assert(hex_digit_value(d[m - 1]) == Some(nibble(id, m - 1)));
        assert(nibble(id, m - 1) == x % 16);
    }
}

/// The text form of an identifier names that identifier: `Uuid::parse_str`
/// reads back what `Uuid::to_string` writes.
pub proof fn lemma_uuid_text_parses(id: u128)
    ensures
        parsed_uuid(encode_utf8(uuid_text(id))) == Some(id),
{
    let t = uuid_text(id);
    let st = simple_text(id);
    assert forall|k: int| 0 <= k < 32 implies {
        &&& 0 <= nibble(id, k) < 16
        &&& ('0' <= #[trigger] st[k] <= '9' || 'a' <= st[k] <= 'f')
    } by {
        lemma_nibble_bound(id, k);
    }
    assert(t.len() == 36);
    assert forall|i: int| 0 <= i < t.len() implies '\0' <= #[trigger] t[i] <= '\u{7f}' by {
        if i < 8 {
            assert(t[i] == st[i]);
        } else if i == 8 || i == 13 || i == 18 || i == 23 {
        } else if i < 13 {
            assert(t[i] == st[i - 1]);
        } else if i < 18 {
            assert(t[i] == st[i - 2]);
        } else if i < 23 {
            assert(t[i] == st[i - 3]);
        } else {
            assert(t[i] == st[i - 4]);
        }
    }
    assert(is_ascii_chars(t));
    lemma_ascii_encoding(t);
    let b = encode_utf8(t);
    assert(b == ascii_bytes(t));
    assert(is_hyphenated_form(b));
    let d = hyphenated_digits(b);
    assert(d =~= ascii_bytes(st));
    assert forall|k: int| 0 <= k < 32 implies #[trigger] hex_digit_value(d[k]) == Some(
        nibble(id, k),
    ) by {
        lemma_nibble_bound(id, k);
        assert(d[k] == st[k] as u8);
    }
    assert(all_hex_digits(d));
    lemma_digits_value(id, d, 32);
    assert(d.take(32) =~= d);
    assert(pow16(0) == 1);
}

/// Calls `Uuid::to_string`, whose `Display` writes the lower-case
/// hyphenated form of the identifier.
#[verifier::external_body]
pub(crate) fn uuid_string(id: u128) -> (text: String)
    ensures
        text@ == uuid_text(id),
{
    uuid::Uuid::from_u128(id).to_string()
}

/// Calls `Uuid::parse_str`, which accepts the simple, hyphenated, braced
/// and URN forms with digits of either case, and nothing else.
#[verifier::external_body]
pub(crate) fn uuid_parse(text: &str) -> (id: Option<u128>)
    ensures
        id == parsed_uuid(encode_utf8(text@)),
{
    match uuid::Uuid::parse_str(text) {
        Ok(u) => Some(u.as_u128()),
        Err(_) => None,
    }
}

/// Calls `Uuid::new_v4`: random bits with the version set to 4 and the
/// variant to RFC 4122. Nothing is claimed of the random bits.
#[verifier::external_body]
pub(crate) fn uuid_new_v4() -> (id: u128)
    ensures
        is_random_uuid(id),
{
    uuid::Uuid::new_v4().as_u128()
}

/// `id` is a value that the random-UUID source handed out on some call:
/// not a value chosen by the caller.
pub closed spec fn is_fresh_draw(id: u128) -> bool {
    call_ensures(uuid_new_v4, (), id)
}

/// Every identifier the random source hands out is a version-4 UUID of the
/// RFC 4122 variant.
pub proof fn lemma_fresh_draw_is_random(id: u128)
    requires
        is_fresh_draw(id),
    ensures
        is_random_uuid(id),
{
}

/// A fresh identifier for a new record, drawn from the random source for
/// this call.
pub fn fresh_uuid() -> (id: u128)
    ensures
        is_fresh_draw(id),
        is_random_uuid(id),
{
    let draw = uuid_new_v4;
    draw()
}

} // verus!
