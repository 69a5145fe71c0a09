//! The failures that the derivation functions report.

use vstd::prelude::*;

verus! {

/// The part of a cipher key that a validation failure names.
#[derive(Clone, Copy, Debug, PartialEq, Eq, Structural)]
pub enum KeyPart {
    /// The four-digit PIN.
    Pin,
    /// The twelve-digit enrollment secret.
    Secret,
}

/// What is wrong with a part of a cipher key.
#[derive(Clone, Copy, Debug, PartialEq, Eq, Structural)]
pub enum Flaw {
    /// It does not have the required number of characters.
    Length,
    /// It has the required number of characters, but one of them is no
    /// hexadecimal digit.
    Charset,
}

/// The input of the block cipher that a size failure names.
#[derive(Clone, Copy, Debug, PartialEq, Eq, Structural)]
pub enum BlockPart {
    /// The block to encrypt.
    Plaintext,
    /// The cipher key.
    Key,
}

/// A failure of key assembly, epoch parsing or encryption.
#[derive(Clone, Copy, Debug, PartialEq, Eq, Structural)]
pub enum OtpError {
    /// The PIN or the secret has the wrong length or holds a character that
    /// is no hexadecimal digit.
    Validation { field: KeyPart, reason: Flaw },
    /// The date-time text is not of the form `DD.MM.YYYY HH:MM:SS`, or it
    /// names no calendar date-time.
    Format,
    /// The plaintext or the key is no hexadecimal text of even length.
    Encoding,
    /// The plaintext or the key, once decoded, has `got` bytes and not eight.
    Size { input: BlockPart, got: usize },
    /// The cipher rejected the key.
    Cipher,
}

} // verus!
