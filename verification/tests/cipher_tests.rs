use otp_auth::cipher::encrypt_block;
use otp_auth::cipher::password_of;
use otp_auth::error::BlockPart;
use otp_auth::error::OtpError;

fn encrypted(plaintext: &str, key: &str) -> String {
    encrypt_block(plaintext, key).unwrap()
}

#[test]
fn known_answers_of_the_cipher() {
    assert_eq!(encrypted("0123456789ABCDEF", "133457799BBCDFF1"), "85E813540F0AB405");
    assert_eq!(encrypted("8000000000000000", "0101010101010101"), "95F8A5E5DD31D900");
    assert_eq!(encrypted("4E6F772069732074", "0123456789ABCDEF"), "3FA40E8A984D4815");
    assert_eq!(encrypted("0000000000000000", "0000000000000000"), "8CA64DE9C1B123A7");
    assert_eq!(encrypted("FFFFFFFFFFFFFFFF", "FFFFFFFFFFFFFFFF"), "7359B2163E4EDC58");
}

#[test]
fn golden_vector_of_the_first_second() {
    assert_eq!(encrypted("0000000000000001", "AAAAE2D76510BF24"), "7497DD3469F572CD");
    assert_eq!(encrypted("0000000000000000", "AAAAE2D76510BF24"), "CDB8BBCEC2E9B002");
    assert_eq!(encrypted("0000000000000002", "AAAAE2D76510BF24"), "A4B9EBB89E746358");
}

#[test]
fn ciphertext_differs_from_both_inputs() {
    let out = encrypted("0123456789ABCDEF", "133457799BBCDFF1");
    assert_ne!(out, "0123456789ABCDEF");
    assert_ne!(out, "133457799BBCDFF1");
}

#[test]
fn inputs_are_read_in_either_case() {
    assert_eq!(encrypted("0123456789abcdef", "133457799bbcdff1"), "85E813540F0AB405");
    assert_eq!(encrypted("4e6f772069732074", "0123456789ABCDEF"), "3FA40E8A984D4815");
    assert_eq!(encrypted("0000000000000001", "aaaae2d76510bf24"), "7497DD3469F572CD");
}

#[test]
fn password_is_sixteen_upper_case_digits() {
    for block in ["0000000000000000", "00000000499602D2", "FFFFFFFFFFFFFFFF"] {
        let out = encrypted(block, "AAAAE2D76510BF24");
        assert_eq!(out.len(), 16);
        assert!(out.chars().all(|c| c.is_ascii_digit() || ('A'..='F').contains(&c)));
    }
    assert_eq!(password_of(&vec![0x74, 0x97, 0xDD, 0x34, 0x69, 0xF5, 0x72, 0xCD]), "7497DD3469F572CD");
    assert_eq!(password_of(&vec![0xab, 0x0c]), "AB0C");
}

#[test]
fn encryption_is_deterministic() {
    let first = encrypt_block("00000000499602D2", "AAAAE2D76510BF24");
    let second = encrypt_block("00000000499602D2", "AAAAE2D76510BF24");
    assert_eq!(first, second);
    assert_eq!(first, Ok("7598DFA9D43F2003".to_string()));
}

#[test]
fn another_key_gives_another_ciphertext() {
    let one = encrypted("0000000000000001", "AAAAE2D76510BF24");
    let other = encrypted("0000000000000001", "BBBBE2D76510BF24");
    assert_eq!(other, "8CFA24024CCF0EA2");
    assert_ne!(one, other);
    let differing = one.chars().zip(other.chars()).filter(|(a, b)| a != b).count();
    assert!(differing >= 8);
}

#[test]
fn another_block_gives_another_ciphertext() {
    assert_ne!(
        encrypted("0000000000000064", "AAAAE2D76510BF24"),
        encrypted("0000000000000065", "AAAAE2D76510BF24")
    );
}

#[test]
fn text_that_is_not_hexadecimal_is_an_encoding_error() {
    assert_eq!(encrypt_block("000000000000000", "AAAAE2D76510BF24"), Err(OtpError::Encoding));
    assert_eq!(encrypt_block("000000000000000G", "AAAAE2D76510BF24"), Err(OtpError::Encoding));
    assert_eq!(encrypt_block("0000000000000001", "AAAAE2D76510BF2"), Err(OtpError::Encoding));
    assert_eq!(encrypt_block("0000000000000001", "AAAAE2D76510BF2Z"), Err(OtpError::Encoding));
    assert_eq!(encrypt_block("0000000000000001", "ﬀAAE2D76510BF24"), Err(OtpError::Encoding));
    assert_eq!(encrypt_block(" 000000000000001", "AAAAE2D76510BF24"), Err(OtpError::Encoding));
    assert_eq!(encrypt_block("xyz", "?"), Err(OtpError::Encoding));
}

#[test]
fn encoding_is_looked_at_before_size() {
    assert_eq!(encrypt_block("00", "zz"), Err(OtpError::Encoding));
    assert_eq!(encrypt_block("zz", "00"), Err(OtpError::Encoding));
}

#[test]
fn plaintext_of_another_size_is_a_size_error() {
    assert_eq!(
        encrypt_block("", "AAAAE2D76510BF24"),
        Err(OtpError::Size { input: BlockPart::Plaintext, got: 0 })
    );
    assert_eq!(
        encrypt_block("00000000000001", "AAAAE2D76510BF24"),
        Err(OtpError::Size { input: BlockPart::Plaintext, got: 7 })
    );
    assert_eq!(
        encrypt_block("000000000000000001", "AAAAE2D76510BF24"),
        Err(OtpError::Size { input: BlockPart::Plaintext, got: 9 })
    );
}

#[test]
fn key_of_another_size_is_a_size_error() {
    assert_eq!(
        encrypt_block("0000000000000001", ""),
        Err(OtpError::Size { input: BlockPart::Key, got: 0 })
    );
    assert_eq!(
        encrypt_block("0000000000000001", "AAAAE2D76510BF"),
        Err(OtpError::Size { input: BlockPart::Key, got: 7 })
    );
    assert_eq!(
        encrypt_block("0000000000000001", "AAAAE2D76510BF24AAAAE2D76510BF24"),
        Err(OtpError::Size { input: BlockPart::Key, got: 16 })
    );
}

#[test]
fn plaintext_size_is_looked_at_before_key_size() {
    assert_eq!(
        encrypt_block("00", "00"),
        Err(OtpError::Size { input: BlockPart::Plaintext, got: 1 })
    );
}
