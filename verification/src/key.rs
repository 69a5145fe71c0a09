//! The cipher key: a four-digit PIN followed by a twelve-digit secret, both
//! hexadecimal, in upper case.

use vstd::prelude::*;
use crate::error::Flaw;
use crate::error::KeyPart;
use crate::error::OtpError;
use crate::hexcode::all_hex;
use crate::hexcode::all_upper_hex;
use crate::hexcode::is_hex_digit;
use crate::hexcode::lemma_hex_ignores_case;
use crate::text::chars_of;
use crate::text::joined;
use crate::text::string_of;
use crate::text::to_upper;
use crate::text::upper;

verus! {

/// The number of hexadecimal digits in a PIN.
pub const PIN_DIGITS: usize = 4;

/// The number of hexadecimal digits in an enrollment secret.
pub const SECRET_DIGITS: usize = 12;

/// The number of hexadecimal digits in a cipher key.
pub const KEY_DIGITS: usize = 16;

/// Whether `pin` is a PIN: four hexadecimal digits, in either case.
pub open spec fn is_pin(pin: Seq<char>) -> bool {
    pin.len() == 4 && all_hex(pin)
}

/// Whether `secret` is an enrollment secret: twelve hexadecimal digits, in
/// either case.
pub open spec fn is_secret(secret: Seq<char>) -> bool {
    secret.len() == 12 && all_hex(secret)
}

/// Whether `key` is a cipher key in its canonical form: sixteen hexadecimal
/// digits, none of them a lower-case letter.
pub open spec fn is_cipher_key(key: Seq<char>) -> bool {
    key.len() == 16 && all_upper_hex(key)
}

/// What is wrong with `s` as a run of `digits` hexadecimal digits, if
/// anything. The length is looked at first.
pub open spec fn flaw_of(s: Seq<char>, digits: nat) -> Option<Flaw> {
    if s.len() != digits {
        Some(Flaw::Length)
    } else if !all_hex(s) {
        Some(Flaw::Charset)
    } else {
        None
    }
}

/// What `assemble` returns for a PIN and a secret: both are put in upper
/// case, the PIN is validated, then the secret, and the key is the PIN
/// followed by the secret.
pub open spec fn assemble_spec(pin: Seq<char>, secret: Seq<char>) -> Result<Seq<char>, OtpError> {
    match flaw_of(upper(pin), 4) {
        Some(reason) => Err(OtpError::Validation { field: KeyPart::Pin, reason }),
        None => match flaw_of(upper(secret), 12) {
            Some(reason) => Err(OtpError::Validation { field: KeyPart::Secret, reason }),
            None => Ok(upper(pin) + upper(secret)),
        },
    }
}

/// Whether `c` is a hexadecimal digit, in either case.
pub fn is_hex_char(c: char) -> (b: bool)
    ensures
        b == is_hex_digit(c),
{
    (c >= '0' && c <= '9') || (c >= 'a' && c <= 'f') || (c >= 'A' && c <= 'F')
}

/// What is wrong with `v` as a run of `digits` hexadecimal digits, if
/// anything.
pub fn find_flaw(v: &Vec<char>, digits: usize) -> (r: Option<Flaw>)
    ensures
        r == flaw_of(v@, digits as nat),
{
    if v.len() != digits {
        return Some(Flaw::Length);
    }
    let mut i: usize = 0;
    while i < v.len()
        invariant
            i <= v.len() == digits,
            forall|k: int| 0 <= k < i ==> is_hex_digit(#[trigger] v@[k]),
        decreases v.len() - i,
    {
        if !is_hex_char(v[i]) {
            assert(!is_hex_digit(v@[i as int]));
            return Some(Flaw::Charset);
        }
        i += 1;
    }
    None
}

/// Assembles the cipher key from a PIN and an enrollment secret.
///
/// A PIN of four and a secret of twelve hexadecimal digits give the key: the
/// PIN followed by the secret, sixteen digits in upper case. Any other
/// length, and any character that is no hexadecimal digit, is refused with
/// the part at fault and what is wrong with it.
pub fn assemble(pin: &str, secret: &str) -> (r: Result<String, OtpError>)
    ensures
        r matches Ok(key) ==> assemble_spec(pin@, secret@) == Ok::<Seq<char>, OtpError>(key@),
        r matches Err(e) ==> assemble_spec(pin@, secret@) == Err::<Seq<char>, OtpError>(e),
        r is Ok <==> is_pin(pin@) && is_secret(secret@),
        r matches Ok(key) ==> key@ == upper(pin@) + upper(secret@) && is_cipher_key(key@),
        r matches Err(e) ==> e is Validation,
{
    proof {
        lemma_hex_ignores_case(pin@);
        lemma_hex_ignores_case(secret@);
    }
    let pin_upper = to_upper(&chars_of(pin));
    if let Some(reason) = find_flaw(&pin_upper, PIN_DIGITS) {
        return Err(OtpError::Validation { field: KeyPart::Pin, reason });
    }
    let secret_upper = to_upper(&chars_of(secret));
    if let Some(reason) = find_flaw(&secret_upper, SECRET_DIGITS) {
        return Err(OtpError::Validation { field: KeyPart::Secret, reason });
    }
    let key = joined(&pin_upper, &secret_upper);
    proof {
        assert forall|i: int| 0 <= i < key@.len() implies crate::hexcode::is_upper_hex_digit(
            #[trigger] key@[i],
        ) by {
            if i < 4 {
                assert(key@[i] == upper(pin@)[i]);
            } else {
                assert(key@[i] == upper(secret@)[i - 4]);
            }
        }
    }
    Ok(string_of(&key))
}

/// An assembled key is a cipher key, and is the PIN and the secret in upper
/// case, one after the other; assembly succeeds exactly on a PIN and a
/// secret.
pub proof fn lemma_assemble_valid(pin: Seq<char>, secret: Seq<char>)
    ensures
        assemble_spec(pin, secret) is Ok <==> is_pin(pin) && is_secret(secret),
        assemble_spec(pin, secret) matches Ok(key) ==> key == upper(pin) + upper(secret)
            && is_cipher_key(key),
        !is_pin(pin) ==> assemble_spec(pin, secret) matches Err(
            OtpError::Validation { field: KeyPart::Pin, .. },
        ),
        is_pin(pin) && !is_secret(secret) ==> assemble_spec(pin, secret) matches Err(
            OtpError::Validation { field: KeyPart::Secret, .. },
        ),
{
    lemma_hex_ignores_case(pin);
    lemma_hex_ignores_case(secret);
    if is_pin(pin) && is_secret(secret) {
        let key = upper(pin) + upper(secret);
        assert forall|i: int| 0 <= i < key.len() implies crate::hexcode::is_upper_hex_digit(
            #[trigger] key[i],
        ) by {
            if i < 4 {
                assert(key[i] == upper(pin)[i]);
            } else {
                assert(key[i] == upper(secret)[i - 4]);
            }
        }
    }
}

} // verus!
