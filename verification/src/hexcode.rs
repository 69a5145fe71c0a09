//! Hexadecimal text: what it denotes, and the conversion between bytes and
//! text.

use vstd::prelude::*;
use crate::error::OtpError;
use crate::text::upper;
use crate::text::upper_char;

verus! {

/// Whether `c` is a hexadecimal digit, in either case.
pub open spec fn is_hex_digit(c: char) -> bool {
    ('0' <= c <= '9') || ('a' <= c <= 'f') || ('A' <= c <= 'F')
}

/// Whether `c` is a hexadecimal digit and no lower-case letter.
pub open spec fn is_upper_hex_digit(c: char) -> bool {
    ('0' <= c <= '9') || ('A' <= c <= 'F')
}

/// The number between 0 and 15 that the hexadecimal digit `c` stands for.
pub open spec fn hex_value(c: char) -> int {
    if '0' <= c <= '9' {
        c as int - 48
    } else if 'a' <= c <= 'f' {
        c as int - 87
    } else {
        c as int - 55
    }
}

/// Whether every character of `s` is a hexadecimal digit.
pub open spec fn all_hex(s: Seq<char>) -> bool {
    forall|i: int| 0 <= i < s.len() ==> is_hex_digit(#[trigger] s[i])
}

/// Whether every character of `s` is a hexadecimal digit and no lower-case
/// letter.
pub open spec fn all_upper_hex(s: Seq<char>) -> bool {
    forall|i: int| 0 <= i < s.len() ==> is_upper_hex_digit(#[trigger] s[i])
}

/// Whether `s` denotes a sequence of bytes: an even number of hexadecimal
/// digits.
pub open spec fn is_hex_text(s: Seq<char>) -> bool {
    s.len() % 2 == 0 && all_hex(s)
}

/// The bytes that the hexadecimal text `s` denotes: one byte for each pair
/// of digits, the more significant digit first.
pub open spec fn hex_bytes(s: Seq<char>) -> Seq<u8> {
    Seq::new(s.len() / 2, |i: int| (16 * hex_value(s[2 * i]) + hex_value(s[2 * i + 1])) as u8)
}

/// The lower-case hexadecimal digit for `v`, a number between 0 and 15.
pub open spec fn lower_hex_char(v: int) -> char {
    if v < 10 {
        (v + 48) as char
    } else {
        (v + 87) as char
    }
}

/// The upper-case hexadecimal digit for `v`, a number between 0 and 15.
pub open spec fn upper_hex_char(v: int) -> char {
    if v < 10 {
        (v + 48) as char
    } else {
        (v + 55) as char
    }
}

/// The half of a byte that the `i`-th digit of its text shows: the upper
/// four bits for an even `i`, the lower four for an odd one.
pub open spec fn nibble(b: Seq<u8>, i: int) -> int {
    if i % 2 == 0 {
        b[i / 2] as int / 16
    } else {
        b[i / 2] as int % 16
    }
}

/// The bytes `b` as lower-case hexadecimal text, two digits a byte.
pub open spec fn lower_hex_text(b: Seq<u8>) -> Seq<char> {
    Seq::new(2 * b.len(), |i: int| lower_hex_char(nibble(b, i)))
}

/// The bytes `b` as upper-case hexadecimal text, two digits a byte.
pub open spec fn upper_hex_text(b: Seq<u8>) -> Seq<char> {
    Seq::new(2 * b.len(), |i: int| upper_hex_char(nibble(b, i)))
}

/// The upper-case form of lower-case hexadecimal text is the upper-case
/// hexadecimal text of the same bytes.
pub proof fn lemma_upper_of_lower_hex(b: Seq<u8>)
    ensures
        upper(lower_hex_text(b)) == upper_hex_text(b),
{
    assert forall|i: int| 0 <= i < 2 * b.len() implies upper_char(lower_hex_char(nibble(b, i)))
        == upper_hex_char(nibble(b, i)) by {
        let v = nibble(b, i);
        assert(0 <= i / 2 < b.len());
        assert(0 <= v < 16);
    }
    assert(upper(lower_hex_text(b)) =~= upper_hex_text(b));
}

/// Upper-case hexadecimal text holds nothing but upper-case hexadecimal
/// digits, and denotes the bytes it was made from.
pub proof fn lemma_upper_hex_text_round_trip(b: Seq<u8>)
    ensures
        upper_hex_text(b).len() == 2 * b.len(),
        all_upper_hex(upper_hex_text(b)),
        is_hex_text(upper_hex_text(b)),
        hex_bytes(upper_hex_text(b)) == b,
{
    let t = upper_hex_text(b);
    assert forall|i: int| 0 <= i < t.len() implies is_upper_hex_digit(#[trigger] t[i])
        && is_hex_digit(t[i]) && hex_value(t[i]) == nibble(b, i) by {
        assert(0 <= i / 2 < b.len());
        assert(0 <= nibble(b, i) < 16);
    }
    assert forall|k: int| 0 <= k < b.len() implies #[trigger] hex_bytes(t)[k] == b[k] by {
        assert(hex_value(t[2 * k]) == nibble(b, 2 * k));
        assert(hex_value(t[2 * k + 1]) == nibble(b, 2 * k + 1));
        assert((2 * k) / 2 == k && (2 * k + 1) / 2 == k);
    }
    assert(hex_bytes(t) =~= b);
}

/// Upper-case hexadecimal text of even length is the text of the bytes it
/// denotes: two such texts that denote the same bytes are the same text.
pub proof fn lemma_hex_bytes_round_trip(t: Seq<char>)
    requires
        t.len() % 2 == 0,
        all_upper_hex(t),
    ensures
        upper_hex_text(hex_bytes(t)) == t,
{
    let b = hex_bytes(t);
    assert forall|i: int| 0 <= i < t.len() implies upper_hex_char(nibble(b, i)) == t[i] by {
        let k = i / 2;
        assert(0 <= k < b.len());
        assert(is_upper_hex_digit(t[2 * k]) && is_upper_hex_digit(t[2 * k + 1]));
        let high = hex_value(t[2 * k]);
        let low = hex_value(t[2 * k + 1]);
        assert(0 <= high < 16 && 0 <= low < 16);
        assert(b[k] as int == 16 * high + low);
        if i % 2 == 0 {
            assert(i == 2 * k);
            assert(nibble(b, i) == high);
        } else {
            assert(i == 2 * k + 1);
            assert(nibble(b, i) == low);
        }
    }
    assert(upper_hex_text(b) =~= t);
}

/// Hexadecimal text denotes the same bytes in either case.
pub proof fn lemma_hex_ignores_case(s: Seq<char>)
    ensures
        is_hex_text(upper(s)) == is_hex_text(s),
        all_hex(upper(s)) == all_hex(s),
        is_hex_text(s) ==> hex_bytes(upper(s)) == hex_bytes(s),
        all_hex(s) ==> all_upper_hex(upper(s)),
{
    let u = upper(s);
    assert forall|i: int| 0 <= i < s.len() implies is_hex_digit(#[trigger] u[i]) == is_hex_digit(
        s[i],
    ) && (is_hex_digit(s[i]) ==> hex_value(u[i]) == hex_value(s[i]) && is_upper_hex_digit(u[i])) by {
        assert(u[i] == upper_char(s[i]));
    }
    if all_hex(s) {
        assert forall|i: int| 0 <= i < u.len() implies is_hex_digit(#[trigger] u[i]) by {
            assert(is_hex_digit(s[i]));
        }
        assert forall|i: int| 0 <= i < u.len() implies is_upper_hex_digit(#[trigger] u[i]) by {
            assert(is_hex_digit(s[i]));
        }
    }
    if all_hex(u) {
        assert forall|i: int| 0 <= i < s.len() implies is_hex_digit(#[trigger] s[i]) by {
            assert(is_hex_digit(u[i]));
        }
    }
    if is_hex_text(s) {
        assert forall|k: int| 0 <= k < s.len() / 2 implies #[trigger] hex_bytes(u)[k] == hex_bytes(
            s,
        )[k] by {
            assert(is_hex_digit(s[2 * k]) && is_hex_digit(s[2 * k + 1]));
        }
        assert(hex_bytes(u) =~= hex_bytes(s));
    }
}

/// The error of the `hex` crate's decoder. Nothing of it is read here.
#[verifier::external_type_specification]
#[verifier::external_body]
pub struct ExFromHexError(hex::FromHexError);

/// `hex::decode`. It succeeds exactly on an even number of hexadecimal
/// digits, upper and lower case alike, and then returns one byte for each
/// pair of digits, the first digit of a pair being the upper four bits.
#[verifier::external_body]
fn hex_decode(text: &str) -> (r: Result<Vec<u8>, hex::FromHexError>)
    ensures
        r is Ok <==> is_hex_text(text@),
        r matches Ok(bytes) ==> bytes@ == hex_bytes(text@),
{
    hex::decode(text)
}

/// `hex::encode`. It returns two lower-case hexadecimal digits for each
/// byte, the upper four bits first.
#[verifier::external_body]
fn hex_encode(bytes: &Vec<u8>) -> (r: String)
    ensures
        r@ == lower_hex_text(bytes@),
{
    hex::encode(bytes)
}

/// The bytes that `text` denotes, or `OtpError::Encoding` if `text` is not
/// an even number of hexadecimal digits.
pub fn decode(text: &str) -> (r: Result<Vec<u8>, OtpError>)
    ensures
        r is Ok <==> is_hex_text(text@),
        r matches Ok(bytes) ==> bytes@ == hex_bytes(text@),
        r matches Err(e) ==> e == OtpError::Encoding,
{
    match hex_decode(text) {
        Ok(bytes) => Ok(bytes),
        Err(_) => Err(OtpError::Encoding),
    }
}

/// The bytes `bytes` as upper-case hexadecimal text, two digits a byte.
pub fn encode_upper(bytes: &Vec<u8>) -> (r: String)
    ensures
        r@ == upper_hex_text(bytes@),
{
    let lower = hex_encode(bytes);
    let chars = crate::text::chars_of(lower.as_str());
    let raised = crate::text::to_upper(&chars);
    proof {
        lemma_upper_of_lower_hex(bytes@);
    }
    crate::text::string_of(&raised)
}

/// The number `n` as `width` upper-case hexadecimal digits, most significant
/// first, padded with zeros. Of a number too large for `width` digits, the
/// lowest `width` digits.
pub open spec fn hex_digits(n: nat, width: nat) -> Seq<char>
    decreases width,
{
    if width == 0 {
        Seq::empty()
    } else {
        hex_digits(n / 16, (width - 1) as nat).push(upper_hex_char((n % 16) as int))
    }
}

/// Hexadecimal digits are as many as asked for, and each is an upper-case
/// hexadecimal digit.
pub proof fn lemma_hex_digits_shape(n: nat, width: nat)
    ensures
        hex_digits(n, width).len() == width,
        all_upper_hex(hex_digits(n, width)),
        all_hex(hex_digits(n, width)),
    decreases width,
{
    if width > 0 {
        lemma_hex_digits_shape(n / 16, (width - 1) as nat);
        let shorter = hex_digits(n / 16, (width - 1) as nat);
        let all = hex_digits(n, width);
        assert forall|i: int| 0 <= i < all.len() implies is_upper_hex_digit(#[trigger] all[i])
            && is_hex_digit(all[i]) by {
            if i < shorter.len() {
                assert(all[i] == shorter[i]);
            }
        }
    }
}

/// The upper-case hexadecimal digit for `v`.
fn upper_hex_digit(v: u64) -> (c: char)
    requires
        v < 16,
    ensures
        c == upper_hex_char(v as int),
{
    match v {
        0 => '0',
        1 => '1',
        2 => '2',
        3 => '3',
        4 => '4',
        5 => '5',
        6 => '6',
        7 => '7',
        8 => '8',
        9 => '9',
        10 => 'A',
        11 => 'B',
        12 => 'C',
        13 => 'D',
        14 => 'E',
        _ => 'F',
    }
}

/// Writes `n` as sixteen upper-case hexadecimal digits.
pub fn render_hex16(n: u64) -> (r: Vec<char>)
    ensures
        r@ == hex_digits(n as nat, 16),
{
    let mut r: Vec<char> = Vec::new();
    let mut i: usize = 0;
    while i < 16
        invariant
            i <= 16,
            r@.len() == i,
        decreases 16 - i,
    {
        r.push('0');
        i += 1;
    }
    let mut m: u64 = n;
    let mut k: usize = 16;
    assert(r@.skip(16) =~= Seq::<char>::empty());
    assert(hex_digits(n as nat, 16) + r@.skip(16) =~= hex_digits(n as nat, 16));
    while k > 0
        invariant
            k <= 16,
            r@.len() == 16,
            hex_digits(n as nat, 16) == hex_digits(m as nat, k as nat) + r@.skip(k as int),
        decreases k,
    {
        let ghost old_tail = r@.skip(k as int);
        let c = upper_hex_digit(m % 16);
        k -= 1;
        r.set(k, c);
        proof {
            let shorter = hex_digits((m / 16) as nat, k as nat);
            assert(r@.skip(k as int) =~= seq![c] + old_tail);
            assert(shorter.push(c) + old_tail =~= shorter + (seq![c] + old_tail));
        }
        m = m / 16;
    }
    assert(r@.skip(0) =~= r@);
    assert(Seq::<char>::empty() + r@ =~= r@);
    r
}

} // verus!
