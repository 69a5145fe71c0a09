//! The deriver: the one-time password for "now", from a PIN, an enrollment
//! secret and the text of the enrollment epoch.

use vstd::prelude::*;
use crate::cipher::encrypt_block;
use crate::cipher::encrypt_block_spec;
use crate::epoch::epoch_seconds;
use crate::epoch::epoch_seconds_spec;
use crate::error::OtpError;
use crate::hexcode::all_hex;
use crate::hexcode::is_hex_digit;
use crate::hexcode::is_upper_hex_digit;
use crate::key::assemble;
use crate::key::assemble_spec;
use crate::key::is_pin;
use crate::key::is_secret;
use crate::key::lemma_assemble_valid;
use crate::text::upper;
use crate::timeblock::elapsed;
use crate::timeblock::encode;
use crate::timeblock::encode_spec;
use crate::timeblock::lemma_time_block_shape;

verus! {

/// What a derivation gives: the password, and the time block and the key it
/// was made from.
#[derive(Clone, Debug, PartialEq, Eq)]
pub struct Derivation {
    /// The one-time password: sixteen upper-case hexadecimal digits.
    pub password: String,
    /// The time block that was encrypted.
    pub time_block: String,
    /// The cipher key that was assembled from the PIN and the secret.
    pub assembled_key: String,
}

/// A derivation as plain text.
pub struct DerivationView {
    pub password: Seq<char>,
    pub time_block: Seq<char>,
    pub assembled_key: Seq<char>,
}

impl View for Derivation {
    type V = DerivationView;

    open spec fn view(&self) -> DerivationView {
        DerivationView {
            password: self.password@,
            time_block: self.time_block@,
            assembled_key: self.assembled_key@,
        }
    }
}

/// What `derive` returns: the key is assembled, the epoch is read, the time
/// block is computed and then encrypted; the first stage that fails gives
/// the failure.
pub open spec fn derive_spec(
    pin: Seq<char>,
    secret: Seq<char>,
    epoch_text: Seq<char>,
    now: int,
) -> Result<DerivationView, OtpError> {
    match assemble_spec(pin, secret) {
        Err(e) => Err(e),
        Ok(key) => match epoch_seconds_spec(epoch_text) {
            None => Err(OtpError::Format),
            Some(epoch) => {
                let block = encode_spec(now, epoch as int);
                match encrypt_block_spec(block, key) {
                    Err(e) => Err(e),
                    Ok(password) => Ok(
                        DerivationView { password, time_block: block, assembled_key: key },
                    ),
                }
            },
        },
    }
}

/// A derivation succeeds exactly where the PIN and the secret are valid and
/// the epoch can be read: the encryption of a time block under an assembled
/// key does not fail.
pub proof fn lemma_derive_succeeds(
    pin: Seq<char>,
    secret: Seq<char>,
    epoch_text: Seq<char>,
    now: int,
)
    ensures
        derive_spec(pin, secret, epoch_text, now) is Ok <==> is_pin(pin) && is_secret(secret)
            && epoch_seconds_spec(epoch_text) is Some,
        !is_pin(pin) || !is_secret(secret) ==> derive_spec(pin, secret, epoch_text, now) matches Err(
            OtpError::Validation { .. },
        ),
        is_pin(pin) && is_secret(secret) && epoch_seconds_spec(epoch_text) is None ==> derive_spec(
            pin,
            secret,
            epoch_text,
            now,
        ) == Err::<DerivationView, OtpError>(OtpError::Format),
{
    lemma_assemble_valid(pin, secret);
    if is_pin(pin) && is_secret(secret) && epoch_seconds_spec(epoch_text) is Some {
        let key = upper(pin) + upper(secret);
        let epoch = epoch_seconds_spec(epoch_text)->Some_0;
        lemma_time_block_shape(elapsed(now, epoch as int));
        assert(all_hex(key)) by {
            assert forall|i: int| 0 <= i < key.len() implies is_hex_digit(
                #[trigger] key[i],
            ) by {
                assert(is_upper_hex_digit(key[i]));
            }
        }
    }
}

/// Derives the one-time password for the second `now` from a PIN, an
/// enrollment secret and the text of the enrollment epoch.
///
/// Fails with the failure of the first stage that fails: `Validation` for
/// the PIN or the secret, `Format` for the epoch.
pub fn derive(pin: &str, secret: &str, epoch_text: &str, now: i64) -> (r: Result<
    Derivation,
    OtpError,
>)
    ensures
        r matches Ok(d) ==> derive_spec(pin@, secret@, epoch_text@, now as int) == Ok::<
            DerivationView,
            OtpError,
        >(d@),
        r matches Err(e) ==> derive_spec(pin@, secret@, epoch_text@, now as int) == Err::<
            DerivationView,
            OtpError,
        >(e),
        r is Ok <==> is_pin(pin@) && is_secret(secret@) && epoch_seconds_spec(epoch_text@) is Some,
        r matches Ok(d) ==> d.password@.len() == 16 && d.time_block@.len() == 16
            && d.assembled_key@.len() == 16,
{
    proof {
        lemma_derive_succeeds(pin@, secret@, epoch_text@, now as int);
    }
    let assembled_key = assemble(pin, secret)?;
    let epoch = epoch_seconds(epoch_text)?;
    let time_block = encode(now, epoch);
    let password = encrypt_block(time_block.as_str(), assembled_key.as_str())?;
    Ok(Derivation { password, time_block, assembled_key })
}

} // verus!
