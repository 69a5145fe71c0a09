use otp_auth::cipher::encrypt_block;

use otp_auth::text::trim_text;
use otp_auth::client::ClientApp;
use otp_auth::client::ClientError;
use otp_auth::client::ClientNotice;
use otp_auth::deriver::Derivation;
use otp_auth::error::Flaw;
use otp_auth::error::KeyPart;
use otp_auth::error::OtpError;

const ENROLLED: i64 = 1178486670;

#[test]
fn round_trip_fixture() {
    let derived = otp_auth::deriver::derive("AAAA", "E2D76510BF24", "06.05.2007 21:24:30", ENROLLED + 1).unwrap();
    assert_eq!(derived.time_block, "0000000000000001");
    assert_eq!(derived.assembled_key, "AAAAE2D76510BF24");
    assert_eq!(
        Ok(derived.password.clone()),
        encrypt_block("0000000000000001", "AAAAE2D76510BF24")
    );
    assert_eq!(derived.password, "7497DD3469F572CD");
}

#[test]
fn derivation_holds_password_block_and_key() {
    assert_eq!(
        otp_auth::deriver::derive("aaaa", "e2d76510bf24", " 06.05.2007  21:24:30 ", ENROLLED + 100),
        Ok(Derivation {
            password: "10AABA6EDC28D2D3".to_string(),
            time_block: "0000000000000064".to_string(),
            assembled_key: "AAAAE2D76510BF24".to_string(),
        })
    );
    assert_eq!(
        otp_auth::deriver::derive("ED72", "40DEBA345612", "14.12.1985 18:00:00", 503431200 + 100),
        Ok(Derivation {
            password: "5FA2A44266E5C947".to_string(),
            time_block: "0000000000000064".to_string(),
            assembled_key: "ED7240DEBA345612".to_string(),
        })
    );
}

#[test]
fn derivation_before_the_epoch_uses_the_zero_block() {
    let derived = otp_auth::deriver::derive("AAAA", "E2D76510BF24", "06.05.2007 21:24:30", ENROLLED - 1000).unwrap();
    assert_eq!(derived.time_block, "0000000000000000");
    assert_eq!(derived.password, "CDB8BBCEC2E9B002");
    let at_epoch = otp_auth::deriver::derive("AAAA", "E2D76510BF24", "06.05.2007 21:24:30", ENROLLED).unwrap();
    assert_eq!(at_epoch, derived);
}

#[test]
fn derivation_reports_the_first_stage_that_fails() {
    assert_eq!(
        otp_auth::deriver::derive("AAA", "E2D76510BF24", "06.05.2007 21:24:30", ENROLLED),
        Err(OtpError::Validation { field: KeyPart::Pin, reason: Flaw::Length })
    );
    assert_eq!(
        otp_auth::deriver::derive("AAAZ", "bad", "bad", ENROLLED),
        Err(OtpError::Validation { field: KeyPart::Pin, reason: Flaw::Charset })
    );
    assert_eq!(
        otp_auth::deriver::derive("AAAA", "E2D76510BF2", "bad", ENROLLED),
        Err(OtpError::Validation { field: KeyPart::Secret, reason: Flaw::Length })
    );
    assert_eq!(
        otp_auth::deriver::derive("AAAA", "E2D76510BF2X", "06.05.2007 21:24:30", ENROLLED),
        Err(OtpError::Validation { field: KeyPart::Secret, reason: Flaw::Charset })
    );
    assert_eq!(otp_auth::deriver::derive("AAAA", "E2D76510BF24", "31.04.2007 10:00:00", ENROLLED), Err(OtpError::Format));
    assert_eq!(otp_auth::deriver::derive("AAAA", "E2D76510BF24", "", ENROLLED), Err(OtpError::Format));
}

#[test]
fn derivation_does_not_trim_the_pin() {
    assert_eq!(
        otp_auth::deriver::derive(" AAAA", "E2D76510BF24", "06.05.2007 21:24:30", ENROLLED),
        Err(OtpError::Validation { field: KeyPart::Pin, reason: Flaw::Length })
    );
}

#[test]
fn text_is_trimmed() {
    assert_eq!(trim_text("  06.05.2007 21:24:30\r\n"), "06.05.2007 21:24:30");
    assert_eq!(trim_text("\t\t"), "");
    assert_eq!(trim_text("x"), "x");
}

#[test]
fn new_session_is_empty() {
    let app = ClientApp::new();
    assert_eq!(app.pin, "");
    assert_eq!(app.bs1, "");
    assert_eq!(app.bs3, "");
    assert_eq!(app.password, "");
    assert_eq!(app.bs2, "");
    assert_eq!(app.time_block, "");
    assert_eq!(app.error_message, None);
    assert_eq!(app.success_message, None);
}

#[test]
fn loaded_configuration_is_trimmed_and_the_secret_raised() {
    let mut app = ClientApp::new();
    app.load_config(Some(" e2d76510bf24\r\n"), Some("06.05.2007 21:24:30\n"));
    assert_eq!(app.bs1, "E2D76510BF24");
    assert_eq!(app.bs3, "06.05.2007 21:24:30");
    assert_eq!(app.success_message, Some(ClientNotice::ConfigLoaded));
    assert_eq!(app.error_message, None);
}

#[test]
fn configuration_that_cannot_be_read_leaves_the_session_as_it_is() {
    let mut app = ClientApp::new();
    app.load_config(None, None);
    assert_eq!(app.bs1, "");
    assert_eq!(app.bs3, "");
    assert_eq!(app.success_message, None);
    app.bs1 = "ABC".to_string();
    app.load_config(None, Some("  "));
    assert_eq!(app.bs1, "ABC");
    assert_eq!(app.bs3, "");
    assert_eq!(app.success_message, Some(ClientNotice::ConfigLoaded));
}

#[test]
fn empty_configuration_is_not_noted_as_loaded() {
    let mut app = ClientApp::new();
    app.load_config(Some("   "), Some(""));
    assert_eq!(app.bs1, "");
    assert_eq!(app.bs3, "");
    assert_eq!(app.success_message, None);
}

#[test]
fn saving_is_noted_or_its_failure_is() {
    let mut app = ClientApp::new();
    app.save_config(true, true);
    assert_eq!(app.success_message, Some(ClientNotice::ConfigSaved));
    assert_eq!(app.error_message, None);
    app.save_config(false, true);
    assert_eq!(app.success_message, None);
    assert_eq!(
        app.error_message,
        Some(ClientError::Save { secret_failed: true, epoch_failed: false })
    );
    app.save_config(false, false);
    assert_eq!(
        app.error_message,
        Some(ClientError::Save { secret_failed: true, epoch_failed: true })
    );
    app.save_config(true, true);
    assert_eq!(app.success_message, Some(ClientNotice::ConfigSaved));
    assert_eq!(app.error_message, None);
}

#[test]
fn clearing_forgets_everything() {
    let mut app = ClientApp::new();
    app.pin = "AAAA".to_string();
    app.load_config(Some("E2D76510BF24"), Some("06.05.2007 21:24:30"));
    app.generate_password(ENROLLED + 1);
    app.save_config(false, false);
    app.clear_config();
    assert_eq!(app.pin, "");
    assert_eq!(app.bs1, "");
    assert_eq!(app.bs3, "");
    assert_eq!(app.password, "");
    assert_eq!(app.bs2, "");
    assert_eq!(app.time_block, "");
    assert_eq!(app.error_message, None);
    assert_eq!(app.success_message, Some(ClientNotice::ConfigCleared));
}

#[test]
fn session_generates_the_password_of_the_fixture() {
    let mut app = ClientApp::new();
    app.pin = "aaaa".to_string();
    app.bs1 = "e2d76510bf24".to_string();
    app.bs3 = "06.05.2007 21:24:30".to_string();
    app.generate_password(ENROLLED + 1);
    assert_eq!(app.bs2, "AAAAE2D76510BF24");
    assert_eq!(app.time_block, "0000000000000001");
    assert_eq!(app.password, "7497DD3469F572CD");
    assert_eq!(app.error_message, None);
    assert_eq!(app.success_message, Some(ClientNotice::PasswordGenerated));
    assert_eq!(app.pin, "aaaa");
}

#[test]
fn session_gives_what_the_derivation_gives() {
    for (pin, secret, epoch) in [
        ("AAAA", "E2D76510BF24", "06.05.2007 21:24:30"),
        ("ed72", "40deba345612", "14.12.1985 18:00:00"),
        (" AAAA", "E2D76510BF24", "06.05.2007 21:24:30"),
        ("AAAA", "E2D76510BF24 ", "06.05.2007 21:24:30"),
        ("AAAA", "E2D76510BF24", "06.05.07 21:24:30"),
        ("", "", ""),
    ] {
        let mut app = ClientApp::new();
        app.pin = pin.to_string();
        app.bs1 = secret.to_string();
        app.bs3 = epoch.to_string();
        app.generate_password(ENROLLED + 77);
        match otp_auth::deriver::derive(pin, secret, epoch, ENROLLED + 77) {
            Ok(derived) => {
                assert_eq!(app.password, derived.password);
                assert_eq!(app.time_block, derived.time_block);
                assert_eq!(app.bs2, derived.assembled_key);
                assert_eq!(app.error_message, None);
                assert_eq!(app.success_message, Some(ClientNotice::PasswordGenerated));
            }
            Err(e) => {
                assert_eq!(app.password, "");
                assert_eq!(app.error_message, Some(ClientError::Derive(e)));
                assert_eq!(app.success_message, None);
            }
        }
    }
}

#[test]
fn session_refuses_a_pin_or_a_secret_with_whitespace_around_it() {
    let mut app = ClientApp::new();
    app.pin = "AAAA".to_string();
    app.bs1 = "E2D76510BF24".to_string();
    app.bs3 = "06.05.2007 21:24:30".to_string();
    app.generate_password(ENROLLED + 1);
    for pin in [" AAAA ", " AAAA", "AAAA ", "AAAA\n", "\tAAAA"] {
        app.pin = pin.to_string();
        app.generate_password(ENROLLED + 9);
        assert_eq!(
            app.error_message,
            Some(ClientError::Derive(OtpError::Validation {
                field: KeyPart::Pin,
                reason: Flaw::Length
            }))
        );
        assert_eq!(app.success_message, None);
        assert_eq!(app.bs2, "AAAAE2D76510BF24");
        assert_eq!(app.time_block, "0000000000000001");
        assert_eq!(app.password, "7497DD3469F572CD");
    }
    app.pin = "BBBB".to_string();
    for secret in [" E2D76510BF24", "E2D76510BF24 ", "E2D76510BF24\r\n"] {
        app.bs1 = secret.to_string();
        app.generate_password(ENROLLED + 9);
        assert_eq!(
            app.error_message,
            Some(ClientError::Derive(OtpError::Validation {
                field: KeyPart::Secret,
                reason: Flaw::Length
            }))
        );
        assert_eq!(app.success_message, None);
        assert_eq!(app.bs2, "AAAAE2D76510BF24");
        assert_eq!(app.time_block, "0000000000000001");
        assert_eq!(app.password, "7497DD3469F572CD");
    }
}

#[test]
fn session_keeps_what_succeeded_before_a_failure() {
    let mut app = ClientApp::new();
    app.pin = "AAAA".to_string();
    app.bs1 = "E2D76510BF24".to_string();
    app.bs3 = "06.05.2007 21:24:30".to_string();
    app.generate_password(ENROLLED + 1);
    app.pin = "BBBB".to_string();
    app.bs3 = "31.04.2007 10:00:00".to_string();
    app.generate_password(ENROLLED + 2);
    assert_eq!(app.bs2, "BBBBE2D76510BF24");
    assert_eq!(app.time_block, "0000000000000001");
    assert_eq!(app.password, "7497DD3469F572CD");
    assert_eq!(app.error_message, Some(ClientError::Derive(OtpError::Format)));
    assert_eq!(app.success_message, None);
    app.pin = "BBB".to_string();
    app.generate_password(ENROLLED + 2);
    assert_eq!(app.bs2, "BBBBE2D76510BF24");
    assert_eq!(
        app.error_message,
        Some(ClientError::Derive(OtpError::Validation {
            field: KeyPart::Pin,
            reason: Flaw::Length
        }))
    );
    app.pin = "BBBB".to_string();
    app.bs1 = "E2D76510BF2".to_string();
    app.generate_password(ENROLLED + 2);
    assert_eq!(
        app.error_message,
        Some(ClientError::Derive(OtpError::Validation {
            field: KeyPart::Secret,
            reason: Flaw::Length
        }))
    );
}
