//! The state of a client session: the PIN, the secret and the epoch as
//! entered, what was derived from them last, and the outcome of the last
//! action.

use vstd::prelude::*;
use crate::cipher::encrypt_block;
use crate::cipher::encrypt_block_spec;
use crate::epoch::epoch_seconds;
use crate::epoch::epoch_seconds_spec;
use crate::deriver::derive_spec;
use crate::error::KeyPart;
use crate::error::OtpError;
use crate::key::assemble;
use crate::key::assemble_spec;
use crate::key::is_pin;
use crate::key::is_secret;
use crate::key::lemma_assemble_valid;
use crate::text::chars_of;
use crate::text::string_of;
use crate::text::text_of;
use crate::text::to_upper;
use crate::text::trim;
use crate::text::trim_text;
use crate::text::trimmed;
use crate::text::upper;
use crate::timeblock::encode;
use crate::timeblock::encode_spec;

verus! {

/// What a client session has to tell after an action that went well.
#[derive(Clone, Copy, Debug, PartialEq, Eq, Structural)]
pub enum ClientNotice {
    /// The configuration was loaded.
    ConfigLoaded,
    /// The configuration was saved.
    ConfigSaved,
    /// The configuration was cleared.
    ConfigCleared,
    /// A password was generated.
    PasswordGenerated,
}

/// What a client session has to tell after an action that failed.
#[derive(Clone, Copy, Debug, PartialEq, Eq, Structural)]
pub enum ClientError {
    /// The configuration could not be saved; the flags say for which of the
    /// two values, the secret and the epoch, the saving failed.
    Save { secret_failed: bool, epoch_failed: bool },
    /// No password could be derived.
    Derive(OtpError),
}

/// The state of a client session: what the user entered, what was derived
/// from it last, and the outcome of the last action.
#[derive(Clone, Debug, PartialEq, Eq)]
pub struct ClientApp {
    /// The PIN as entered.
    pub pin: String,
    /// The enrollment secret.
    pub bs1: String,
    /// The text of the enrollment epoch.
    pub bs3: String,
    /// The password that was generated last.
    pub password: String,
    /// The cipher key that was assembled last.
    pub bs2: String,
    /// The time block that was computed last.
    pub time_block: String,
    /// The failure of the last action, if it failed.
    pub error_message: Option<ClientError>,
    /// The notice of the last action that went well.
    pub success_message: Option<ClientNotice>,
}

/// A client session as plain values.
pub struct ClientAppView {
    pub pin: Seq<char>,
    pub bs1: Seq<char>,
    pub bs3: Seq<char>,
    pub password: Seq<char>,
    pub bs2: Seq<char>,
    pub time_block: Seq<char>,
    pub error_message: Option<ClientError>,
    pub success_message: Option<ClientNotice>,
}

impl View for ClientApp {
    type V = ClientAppView;

    open spec fn view(&self) -> ClientAppView {
        ClientAppView {
            pin: self.pin@,
            bs1: self.bs1@,
            bs3: self.bs3@,
            password: self.password@,
            bs2: self.bs2@,
            time_block: self.time_block@,
            error_message: self.error_message,
            success_message: self.success_message,
        }
    }
}

impl ClientAppView {
    /// A session in which nothing was entered yet.
    pub open spec fn empty() -> ClientAppView {
        ClientAppView {
            pin: Seq::empty(),
            bs1: Seq::empty(),
            bs3: Seq::empty(),
            password: Seq::empty(),
            bs2: Seq::empty(),
            time_block: Seq::empty(),
            error_message: None,
            success_message: None,
        }
    }

    /// The session after the stored configuration was read. A value that
    /// could be read replaces the one in the session: the secret trimmed
    /// and in upper case, the epoch trimmed. The loading is noted where the
    /// session then holds a secret or an epoch.
    pub open spec fn after_load(
        self,
        secret: Option<Seq<char>>,
        epoch: Option<Seq<char>>,
    ) -> ClientAppView {
        let bs1 = match secret {
            Some(s) => upper(trimmed(s)),
            None => self.bs1,
        };
        let bs3 = match epoch {
            Some(s) => trimmed(s),
            None => self.bs3,
        };
        ClientAppView {
            bs1,
            bs3,
            success_message: if bs1.len() > 0 || bs3.len() > 0 {
                Some(ClientNotice::ConfigLoaded)
            } else {
                self.success_message
            },
            ..self
        }
    }

    /// The session after an attempt to save the configuration, given for
    /// each of the two values whether it was saved.
    pub open spec fn after_save(self, secret_saved: bool, epoch_saved: bool) -> ClientAppView {
        if secret_saved && epoch_saved {
            ClientAppView {
                success_message: Some(ClientNotice::ConfigSaved),
                error_message: None,
                ..self
            }
        } else {
            ClientAppView {
                success_message: None,
                error_message: Some(
                    ClientError::Save {
                        secret_failed: !secret_saved,
                        epoch_failed: !epoch_saved,
                    },
                ),
                ..self
            }
        }
    }

    /// The session after the configuration was cleared.
    pub open spec fn after_clear(self) -> ClientAppView {
        ClientAppView { success_message: Some(ClientNotice::ConfigCleared), ..Self::empty() }
    }

    /// The session after a password was asked for at the second `now`.
    ///
    /// The PIN, the secret and the epoch are taken as they stand in the
    /// session, whitespace included: a PIN of another length than four, or
    /// a secret of another length than twelve, is refused. Each stage that
    /// succeeds leaves its result in the session, also where a later stage
    /// fails: the key once it is assembled, the time block once the epoch
    /// is read, the password once the block is encrypted. A stage that
    /// fails leaves what earlier derivations left of its result and of the
    /// results of the stages after it.
    pub open spec fn after_generate(self, now: int) -> ClientAppView {
        let pin = self.pin;
        let secret = self.bs1;
        let epoch_text = self.bs3;
        match assemble_spec(pin, secret) {
            Err(e) => ClientAppView {
                error_message: Some(ClientError::Derive(e)),
                success_message: None,
                ..self
            },
            Ok(key) => match epoch_seconds_spec(epoch_text) {
                None => ClientAppView {
                    bs2: key,
                    error_message: Some(ClientError::Derive(OtpError::Format)),
                    success_message: None,
                    ..self
                },
                Some(epoch) => {
                    let block = encode_spec(now, epoch as int);
                    match encrypt_block_spec(block, key) {
                        Err(e) => ClientAppView {
                            bs2: key,
                            time_block: block,
                            error_message: Some(ClientError::Derive(e)),
                            success_message: None,
                            ..self
                        },
                        Ok(password) => ClientAppView {
                            bs2: key,
                            time_block: block,
                            password,
                            error_message: None,
                            success_message: Some(ClientNotice::PasswordGenerated),
                            ..self
                        },
                    }
                },
            },
        }
    }
}

/// What a session holds after a password was asked for is what the
/// derivation gives for the PIN, the secret and the epoch as they stand.
///
/// Where the derivation succeeds, the session holds its password, time block
/// and key. Where it fails, the session holds its failure and keeps the
/// password it had; a PIN or a secret that is refused leaves key and time
/// block as they were, too.
pub proof fn lemma_generate_is_derive(session: ClientAppView, now: int)
    ensures
        match derive_spec(session.pin, session.bs1, session.bs3, now) {
            Ok(d) => {
                &&& session.after_generate(now).password == d.password
                &&& session.after_generate(now).time_block == d.time_block
                &&& session.after_generate(now).bs2 == d.assembled_key
                &&& session.after_generate(now).error_message is None
                &&& session.after_generate(now).success_message == Some(
                    ClientNotice::PasswordGenerated,
                )
            },
            Err(e) => {
                &&& session.after_generate(now).error_message == Some(ClientError::Derive(e))
                &&& session.after_generate(now).success_message is None
                &&& session.after_generate(now).password == session.password
            },
        },
        !is_pin(session.pin) ==> session.after_generate(now).error_message matches Some(
            ClientError::Derive(OtpError::Validation { field: KeyPart::Pin, .. }),
        ),
        is_pin(session.pin) && !is_secret(session.bs1) ==> session.after_generate(
            now,
        ).error_message matches Some(
            ClientError::Derive(OtpError::Validation { field: KeyPart::Secret, .. }),
        ),
        !is_pin(session.pin) || !is_secret(session.bs1) ==> session.after_generate(now).bs2
            == session.bs2 && session.after_generate(now).time_block == session.time_block
            && session.after_generate(now).password == session.password,
        session.after_generate(now).pin == session.pin,
        session.after_generate(now).bs1 == session.bs1,
        session.after_generate(now).bs3 == session.bs3,
{
    lemma_assemble_valid(session.pin, session.bs1);
}

impl Default for ClientApp {
    /// A session in which nothing was entered yet.
    fn default() -> (app: ClientApp)
        ensures
            app@ == ClientAppView::empty(),
    {
        ClientApp::new()
    }
}

impl ClientApp {
    /// A session in which nothing was entered yet.
    pub fn new() -> (app: ClientApp)
        ensures
            app@ == ClientAppView::empty(),
    {
        ClientApp {
            pin: String::new(),
            bs1: String::new(),
            bs3: String::new(),
            password: String::new(),
            bs2: String::new(),
            time_block: String::new(),
            error_message: None,
            success_message: None,
        }
    }

    /// Takes over the stored configuration: `secret` and `epoch` are the
    /// stored texts, `None` for one that could not be read.
    pub fn load_config(&mut self, secret: Option<&str>, epoch: Option<&str>)
        ensures
            final(self)@ == old(self)@.after_load(text_of(secret), text_of(epoch)),
    {
        if let Some(content) = secret {
            self.bs1 = string_of(&to_upper(&trim(&chars_of(content))));
        }
        if let Some(content) = epoch {
            self.bs3 = trim_text(content);
        }
        if !self.bs1.as_str().is_empty() || !self.bs3.as_str().is_empty() {
            self.success_message = Some(ClientNotice::ConfigLoaded);
        }
    }

    /// Records how the saving of the configuration went: for the secret and
    /// for the epoch, whether it was saved.
    pub fn save_config(&mut self, secret_saved: bool, epoch_saved: bool)
        ensures
            final(self)@ == old(self)@.after_save(secret_saved, epoch_saved),
    {
        if secret_saved && epoch_saved {
            self.success_message = Some(ClientNotice::ConfigSaved);
            self.error_message = None;
        } else {
            self.error_message = Some(
                ClientError::Save { secret_failed: !secret_saved, epoch_failed: !epoch_saved },
            );
            self.success_message = None;
        }
    }

    /// Forgets the configuration and all that was entered or derived.
    pub fn clear_config(&mut self)
        ensures
            final(self)@ == old(self)@.after_clear(),
    {
        self.bs1 = String::new();
        self.bs3 = String::new();
        self.pin = String::new();
        self.password = String::new();
        self.bs2 = String::new();
        self.time_block = String::new();
        self.success_message = Some(ClientNotice::ConfigCleared);
        self.error_message = None;
    }

    /// Derives the password for the second `now` from the PIN, the secret
    /// and the epoch as they stand in the session, and keeps the outcome in
    /// the session.
    pub fn generate_password(&mut self, now: i64)
        ensures
            final(self)@ == old(self)@.after_generate(now as int),
    {
        self.error_message = None;
        self.success_message = None;
        match assemble(self.pin.as_str(), self.bs1.as_str()) {
            Err(e) => {
                self.error_message = Some(ClientError::Derive(e));
            },
            Ok(key) => {
                self.bs2 = key;
                match epoch_seconds(self.bs3.as_str()) {
                    Err(e) => {
                        self.error_message = Some(ClientError::Derive(e));
                    },
                    Ok(epoch) => {
                        self.time_block = encode(now, epoch);
                        match encrypt_block(self.time_block.as_str(), self.bs2.as_str()) {
                            Err(e) => {
                                self.error_message = Some(ClientError::Derive(e));
                            },
                            Ok(password) => {
                                self.password = password;
                                self.success_message = Some(ClientNotice::PasswordGenerated);
                            },
                        }
                    },
                }
            },
        }
    }
}

} // verus!
