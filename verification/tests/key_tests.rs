use otp_auth::error::Flaw;
use otp_auth::error::KeyPart;
use otp_auth::error::OtpError;
use otp_auth::key::assemble;
use otp_auth::key::find_flaw;
use otp_auth::key::is_hex_char;
use otp_auth::text::chars_of;

fn pin_error(reason: Flaw) -> Result<String, OtpError> {
    Err(OtpError::Validation { field: KeyPart::Pin, reason })
}

fn secret_error(reason: Flaw) -> Result<String, OtpError> {
    Err(OtpError::Validation { field: KeyPart::Secret, reason })
}

#[test]
fn key_is_the_pin_followed_by_the_secret() {
    assert_eq!(assemble("AAAA", "E2D76510BF24"), Ok("AAAAE2D76510BF24".to_string()));
    assert_eq!(assemble("0000", "000000000000"), Ok("0000000000000000".to_string()));
    assert_eq!(assemble("1234", "56789ABCDEF0"), Ok("123456789ABCDEF0".to_string()));
}

#[test]
fn key_is_in_upper_case() {
    assert_eq!(assemble("ae23", "e2d76510bf24"), Ok("AE23E2D76510BF24".to_string()));
    assert_eq!(assemble("aBcD", "eF0123456789"), Ok("ABCDEF0123456789".to_string()));
    let key = assemble("ffff", "abcdefabcdef").unwrap();
    assert_eq!(key.chars().count(), 16);
    assert!(key.chars().all(|c| c.is_ascii_digit() || ('A'..='F').contains(&c)));
}

#[test]
fn pin_of_another_length_is_refused() {
    for pin in ["", "A", "AAA", "AAAAA", "AAAA ", " AAAA", "AAAAAAAAAAAAAAAA"] {
        assert_eq!(assemble(pin, "E2D76510BF24"), pin_error(Flaw::Length), "{:?}", pin);
    }
}

#[test]
fn pin_with_another_character_is_refused() {
    for pin in ["AAAG", "g000", "12 4", "-123", "+123", "яяяя", "０００0", "12.4"] {
        assert_eq!(assemble(pin, "E2D76510BF24"), pin_error(Flaw::Charset), "{:?}", pin);
    }
}

#[test]
fn secret_of_another_length_is_refused() {
    for secret in ["", "E2D76510BF2", "E2D76510BF245", " E2D76510BF24", "E2D76510BF24\n"] {
        assert_eq!(assemble("AAAA", secret), secret_error(Flaw::Length), "{:?}", secret);
    }
}

#[test]
fn secret_with_another_character_is_refused() {
    for secret in ["E2D76510BF2G", "E2D7 6510BF2", "e2d76510bf2x", "яяяяяяяяяяяя"] {
        assert_eq!(assemble("AAAA", secret), secret_error(Flaw::Charset), "{:?}", secret);
    }
}

#[test]
fn pin_is_looked_at_before_the_secret() {
    assert_eq!(assemble("AAA", "short"), pin_error(Flaw::Length));
    assert_eq!(assemble("AAAZ", ""), pin_error(Flaw::Charset));
}

#[test]
fn letters_that_only_look_like_digits_after_folding_are_refused() {
    assert_eq!(assemble("ﬀAA", "E2D76510BF24"), pin_error(Flaw::Length));
    assert_eq!(assemble("ﬀAAA", "E2D76510BF24"), pin_error(Flaw::Charset));
}

#[test]
fn flaws_are_found_length_first() {
    assert_eq!(find_flaw(&chars_of("AAAA"), 4), None);
    assert_eq!(find_flaw(&chars_of("zz"), 4), Some(Flaw::Length));
    assert_eq!(find_flaw(&chars_of("zzzz"), 4), Some(Flaw::Charset));
    assert_eq!(find_flaw(&chars_of("AAAz"), 4), Some(Flaw::Charset));
    assert_eq!(find_flaw(&chars_of(""), 0), None);
}

#[test]
fn hexadecimal_characters_are_the_ascii_ones() {
    let mut code: u32 = 0;
    while code <= 0x10FFFF {
        if let Some(c) = char::from_u32(code) {
            assert_eq!(is_hex_char(c), c.is_ascii_hexdigit(), "U+{:04X}", code);
        }
        code += 1;
    }
}
