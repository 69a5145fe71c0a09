//! The block cipher: one block of eight bytes encrypted under a key of eight
//! bytes, both given and returned as hexadecimal text.

use vstd::prelude::*;
use des::cipher::BlockEncrypt;
use des::cipher::KeyInit;
use crate::error::BlockPart;
use crate::error::OtpError;
use crate::hexcode::decode;
use crate::hexcode::encode_upper;
use crate::hexcode::hex_bytes;
use crate::hexcode::is_hex_text;
use crate::hexcode::upper_hex_text;

verus! {

/// The number of bytes in a block and in a key.
pub const BLOCK_BYTES: usize = 8;

/// The error of the cipher's key setup. Nothing of it is read here.
#[verifier::external_type_specification]
#[verifier::external_body]
pub struct ExInvalidLength(des::cipher::InvalidLength);

/// The block that DES encryption of `block` under `key` gives, for a key and
/// a block of eight bytes each.
pub uninterp spec fn des_ciphertext(key: Seq<u8>, block: Seq<u8>) -> Seq<u8>;

/// `des::Des::new_from_slice`, then `encrypt_block` on a copy of `block`.
/// The key setup fails exactly when the key is not eight bytes long. The
/// ciphertext has eight bytes and depends on the key and the block alone.
#[verifier::external_body]
fn des_encrypt_block(key: &Vec<u8>, block: &Vec<u8>) -> (r: Result<Vec<u8>, des::cipher::InvalidLength>)
    requires
        block@.len() == 8,
    ensures
        r is Ok <==> key@.len() == 8,
        r matches Ok(out) ==> out@ == des_ciphertext(key@, block@) && out@.len() == 8,
{
    let cipher = des::Des::new_from_slice(key)?;
    let mut buffer = des::cipher::Block::<des::Des>::clone_from_slice(block);
    cipher.encrypt_block(&mut buffer);
    Ok(buffer.to_vec())
}

/// What `encrypt_block` returns for a plaintext and a key.
///
/// Both must be hexadecimal text, else the failure is `Encoding`. The
/// plaintext must denote eight bytes, then the key must, else the failure is
/// `Size` with the input at fault and the number of bytes it has. The result
/// is the ciphertext in upper-case hexadecimal text.
pub open spec fn encrypt_block_spec(plaintext: Seq<char>, key: Seq<char>) -> Result<
    Seq<char>,
    OtpError,
> {
    if !is_hex_text(plaintext) || !is_hex_text(key) {
        Err(OtpError::Encoding)
    } else if hex_bytes(plaintext).len() != 8 {
        Err(OtpError::Size { input: BlockPart::Plaintext, got: hex_bytes(plaintext).len() as usize })
    } else if hex_bytes(key).len() != 8 {
        Err(OtpError::Size { input: BlockPart::Key, got: hex_bytes(key).len() as usize })
    } else {
        Ok(upper_hex_text(des_ciphertext(hex_bytes(key), hex_bytes(plaintext))))
    }
}

/// The password for a ciphertext: its bytes in upper-case hexadecimal text.
pub fn password_of(ciphertext: &Vec<u8>) -> (r: String)
    ensures
        r@ == upper_hex_text(ciphertext@),
{
    encode_upper(ciphertext)
}

/// Encrypts the block that `plaintext` denotes under the key that `key`
/// denotes, and returns the ciphertext as sixteen upper-case hexadecimal
/// digits.
pub fn encrypt_block(plaintext: &str, key: &str) -> (r: Result<String, OtpError>)
    ensures
        r matches Ok(password) ==> encrypt_block_spec(plaintext@, key@) == Ok::<
            Seq<char>,
            OtpError,
        >(password@),
        r matches Err(e) ==> encrypt_block_spec(plaintext@, key@) == Err::<Seq<char>, OtpError>(e),
        r matches Ok(password) ==> password@.len() == 16,
        !(r matches Err(OtpError::Cipher)),
{
    let block = decode(plaintext)?;
    let key_bytes = decode(key)?;
    if block.len() != BLOCK_BYTES {
        return Err(OtpError::Size { input: BlockPart::Plaintext, got: block.len() });
    }
    if key_bytes.len() != BLOCK_BYTES {
        return Err(OtpError::Size { input: BlockPart::Key, got: key_bytes.len() });
    }
    match des_encrypt_block(&key_bytes, &block) {
        Ok(ciphertext) => Ok(password_of(&ciphertext)),
        Err(_) => Err(OtpError::Cipher),
    }
}

/// Encryption is a function of the plaintext and the key: two results for
/// the same plaintext and key are the same.
pub proof fn lemma_encrypt_block_deterministic(
    plaintext: Seq<char>,
    key: Seq<char>,
    first: Result<Seq<char>, OtpError>,
    second: Result<Seq<char>, OtpError>,
)
    requires
        first == encrypt_block_spec(plaintext, key),
        second == encrypt_block_spec(plaintext, key),
    ensures
        first == second,
{
}

/// Encryption reads its inputs without regard to the case of their letters.
pub proof fn lemma_encrypt_block_ignores_case(plaintext: Seq<char>, key: Seq<char>)
    ensures
        encrypt_block_spec(crate::text::upper(plaintext), key) == encrypt_block_spec(plaintext, key),
        encrypt_block_spec(plaintext, crate::text::upper(key)) == encrypt_block_spec(plaintext, key),
{
    crate::hexcode::lemma_hex_ignores_case(plaintext);
    crate::hexcode::lemma_hex_ignores_case(key);
}

} // verus!
