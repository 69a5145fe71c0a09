//! The state of a server session: the text of the database, the directory
//! read from it, the login and the password entered, and the outcome of the
//! last authentication.

use vstd::prelude::*;
use crate::auth::Decision;
use crate::auth::lemma_empty_input_is_bad_input;
use crate::auth::lemma_unknown_login_is_unknown_user;
use crate::auth::verify;
use crate::auth::verify_spec;
use crate::directory::directory_of;
use crate::directory::parse;
use crate::directory::UserRecord;
use crate::directory::UserRecordView;
use crate::directory::views;
use crate::text::text_of;

verus! {

/// How a server session shows the outcome of an authentication.
#[derive(Clone, Copy, Debug, PartialEq, Eq, Structural)]
pub enum ResultType {
    /// No authentication was made yet.
    Pending,
    /// Access was granted.
    Success,
    /// Access was denied, or the authentication could not be made.
    Error,
}

/// The outcome of an authentication in a server session.
#[derive(Clone, Copy, Debug, PartialEq, Eq, Structural)]
pub enum AuthOutcome {
    /// No authentication was made yet.
    Waiting,
    /// The verification was made, with this decision.
    Decided(Decision),
}

/// What a server session has to tell after an action that went well.
#[derive(Clone, Copy, Debug, PartialEq, Eq, Structural)]
pub enum ServerNotice {
    /// The database was loaded; it holds this many users.
    Loaded(usize),
    /// The database was saved; it holds this many users.
    Saved(usize),
    /// The database was cleared.
    Cleared,
}

/// What a server session has to tell after an action that failed.
#[derive(Clone, Copy, Debug, PartialEq, Eq, Structural)]
pub enum ServerError {
    /// The database could not be saved.
    SaveFailed,
}

/// The state of a server session: the text of the database and the
/// directory read from it, what was entered, and the outcome of the last
/// action.
#[derive(Clone, Debug, PartialEq, Eq)]
pub struct ServerApp {
    /// The text of the database, one record a line.
    pub database_text: String,
    /// The login as entered.
    pub login: String,
    /// The password as entered.
    pub password: String,
    /// The window in seconds, as entered.
    pub time_window: String,
    /// The outcome of the last authentication.
    pub result_message: AuthOutcome,
    /// How the outcome is shown.
    pub result_type: ResultType,
    /// The milliseconds that the last authentication took.
    pub response_time: Option<u128>,
    /// The directory read from the text of the database.
    pub users: Vec<UserRecord>,
    /// The failure of the last action, if it failed.
    pub error_message: Option<ServerError>,
    /// The notice of the last action that went well.
    pub success_message: Option<ServerNotice>,
}

/// A server session as plain values.
pub struct ServerAppView {
    pub database_text: Seq<char>,
    pub login: Seq<char>,
    pub password: Seq<char>,
    pub time_window: Seq<char>,
    pub result_message: AuthOutcome,
    pub result_type: ResultType,
    pub response_time: Option<u128>,
    pub users: Seq<UserRecordView>,
    pub error_message: Option<ServerError>,
    pub success_message: Option<ServerNotice>,
}

impl View for ServerApp {
    type V = ServerAppView;

    open spec fn view(&self) -> ServerAppView {
        ServerAppView {
            database_text: self.database_text@,
            login: self.login@,
            password: self.password@,
            time_window: self.time_window@,
            result_message: self.result_message,
            result_type: self.result_type,
            response_time: self.response_time,
            users: views(self.users@),
            error_message: self.error_message,
            success_message: self.success_message,
        }
    }
}

impl AuthOutcome {
    /// How this outcome is shown: a grant as a success, no outcome yet as
    /// pending, anything else as an error.
    pub open spec fn kind_spec(self) -> ResultType {
        match self {
            AuthOutcome::Waiting => ResultType::Pending,
            AuthOutcome::Decided(Decision::Granted) => ResultType::Success,
            _ => ResultType::Error,
        }
    }

    /// How this outcome is shown.
    pub fn kind(&self) -> (r: ResultType)
        ensures
            r == self.kind_spec(),
    {
        match self {
            AuthOutcome::Waiting => ResultType::Pending,
            AuthOutcome::Decided(Decision::Granted) => ResultType::Success,
            _ => ResultType::Error,
        }
    }
}

impl ServerAppView {
    /// A session with an empty database, a window of twenty seconds, and no
    /// authentication made yet.
    pub open spec fn initial() -> ServerAppView {
        ServerAppView {
            database_text: Seq::empty(),
            login: Seq::empty(),
            password: Seq::empty(),
            time_window: "20"@,
            result_message: AuthOutcome::Waiting,
            result_type: ResultType::Pending,
            response_time: None,
            users: Seq::empty(),
            error_message: None,
            success_message: None,
        }
    }

    /// The session after the directory was read anew from the text of the
    /// database. Nothing of the directory held before is kept.
    pub open spec fn after_parse(self) -> ServerAppView {
        ServerAppView { users: directory_of(self.database_text), ..self }
    }

    /// The session after the stored database was read: `content` is its
    /// text, `None` where it could not be read, in which case nothing
    /// changes.
    pub open spec fn after_load(self, content: Option<Seq<char>>) -> ServerAppView {
        match content {
            Some(text) => ServerAppView {
                database_text: text,
                users: directory_of(text),
                success_message: Some(ServerNotice::Loaded(directory_of(text).len() as usize)),
                ..self
            },
            None => self,
        }
    }

    /// The session after an attempt to save the text of the database.
    pub open spec fn after_save(self, saved: bool) -> ServerAppView {
        if saved {
            ServerAppView {
                users: directory_of(self.database_text),
                success_message: Some(
                    ServerNotice::Saved(directory_of(self.database_text).len() as usize),
                ),
                error_message: None,
                ..self
            }
        } else {
            ServerAppView {
                error_message: Some(ServerError::SaveFailed),
                success_message: None,
                ..self
            }
        }
    }

    /// The session after the database was cleared.
    pub open spec fn after_clear(self) -> ServerAppView {
        ServerAppView {
            database_text: Seq::empty(),
            users: Seq::empty(),
            success_message: Some(ServerNotice::Cleared),
            error_message: None,
            ..self
        }
    }

    /// Whether an authentication has a login and a password to work with:
    /// neither of the two is empty.
    pub open spec fn has_credentials(self) -> bool {
        self.login.len() > 0 && self.password.len() > 0
    }

    /// The session after an authentication: the notices of earlier actions
    /// are gone, and an empty directory was read anew from the text of the
    /// database, if there are a login and a password.
    pub open spec fn after_authenticate(self) -> ServerAppView {
        ServerAppView {
            users: if self.has_credentials() && self.users.len() == 0 {
                directory_of(self.database_text)
            } else {
                self.users
            },
            error_message: None,
            success_message: None,
            ..self
        }
    }

    /// The outcome of an authentication at the second `now`: the decision
    /// of the verification on the login, the password and the window as
    /// they stand in the session, with the directory that the session holds
    /// after the authentication. An empty directory is a directory like any
    /// other: no login is known in it.
    pub open spec fn outcome(self, now: int) -> AuthOutcome {
        AuthOutcome::Decided(
            verify_spec(
                self.login,
                self.password,
                self.time_window,
                now,
                self.after_authenticate().users,
            ),
        )
    }

    /// The session after an outcome was put on show.
    pub open spec fn after_show(
        self,
        message: AuthOutcome,
        result_type: ResultType,
        elapsed_ms: u128,
    ) -> ServerAppView {
        ServerAppView {
            result_message: message,
            result_type,
            response_time: Some(elapsed_ms),
            ..self
        }
    }
}

impl Default for ServerApp {
    /// A session with an empty database, a window of twenty seconds, and no
    /// authentication made yet.
    fn default() -> (app: ServerApp)
        ensures
            app@ == ServerAppView::initial(),
    {
        ServerApp::new()
    }
}

/// The directory that a session holds after its database was read anew
/// depends on the text of the database alone: nothing of the directory held
/// before is left, and reading the same text once more changes nothing.
pub proof fn lemma_reading_anew_replaces_the_directory(session: ServerAppView, other: ServerAppView)
    requires
        session.database_text == other.database_text,
    ensures
        session.after_parse().users == other.after_parse().users,
        session.after_parse().users == directory_of(session.database_text),
        session.after_parse().after_parse() == session.after_parse(),
{
}

/// In a session whose directory, once read anew where it was empty, holds no
/// record with the login entered, the outcome is an unknown user, whatever
/// the password, the window, the second, and the keys and epochs of the
/// records. An empty directory is no exception.
pub proof fn lemma_unknown_login_in_session(session: ServerAppView, now: int)
    requires
        session.login.len() > 0,
        session.password.len() > 0,
        forall|j: int|
            0 <= j < session.after_authenticate().users.len() ==> (
            #[trigger] session.after_authenticate().users[j]).login != session.login,
    ensures
        session.outcome(now) == AuthOutcome::Decided(Decision::DeniedUnknownUser),
        session.outcome(now).kind_spec() == ResultType::Error,
{
    lemma_unknown_login_is_unknown_user(
        session.login,
        session.password,
        session.time_window,
        now,
        session.after_authenticate().users,
    );
}

/// In a session without a login or without a password the outcome is bad
/// input, and the directory is left as it is.
pub proof fn lemma_missing_credentials_in_session(session: ServerAppView, now: int)
    requires
        session.login.len() == 0 || session.password.len() == 0,
    ensures
        session.outcome(now) == AuthOutcome::Decided(Decision::DeniedBadInput),
        session.after_authenticate().users == session.users,
{
    lemma_empty_input_is_bad_input(
        session.login,
        session.password,
        session.time_window,
        now,
        session.after_authenticate().users,
    );
}

impl ServerApp {
    /// A session with an empty database, a window of twenty seconds, and no
    /// authentication made yet.
    pub fn new() -> (app: ServerApp)
        ensures
            app@ == ServerAppView::initial(),
    {
        let app = ServerApp {
            database_text: String::new(),
            login: String::new(),
            password: String::new(),
            time_window: String::from_str("20"),
            result_message: AuthOutcome::Waiting,
            result_type: ResultType::Pending,
            response_time: None,
            users: Vec::new(),
            error_message: None,
            success_message: None,
        };
        assert(views(app.users@) =~= Seq::<UserRecordView>::empty());
        app
    }

    /// Takes over the stored database: `content` is its text, `None` where
    /// it could not be read.
    pub fn load_database(&mut self, content: Option<&str>)
        ensures
            final(self)@ == old(self)@.after_load(text_of(content)),
    {
        if let Some(text) = content {
            self.database_text = String::from_str(text);
            self.parse_database();
            self.success_message = Some(ServerNotice::Loaded(self.users.len()));
        }
    }

    /// Records how the saving of the database went. After a saving that
    /// went well the directory is read anew.
    pub fn save_database(&mut self, saved: bool)
        ensures
            final(self)@ == old(self)@.after_save(saved),
    {
        if saved {
            self.parse_database();
            self.success_message = Some(ServerNotice::Saved(self.users.len()));
            self.error_message = None;
        } else {
            self.error_message = Some(ServerError::SaveFailed);
            self.success_message = None;
        }
    }

    /// Forgets the text of the database and the directory.
    pub fn clear_database(&mut self)
        ensures
            final(self)@ == old(self)@.after_clear(),
    {
        self.database_text = String::new();
        self.users = Vec::new();
        self.success_message = Some(ServerNotice::Cleared);
        self.error_message = None;
        assert(views(self.users@) =~= Seq::<UserRecordView>::empty());
    }

    /// Reads the directory anew from the text of the database. The records
    /// held before are dropped, all of them.
    pub fn parse_database(&mut self)
        ensures
            final(self)@ == old(self)@.after_parse(),
            views(final(self).users@) == directory_of(old(self).database_text@),
    {
        self.users = parse(self.database_text.as_str());
    }

    /// Authenticates the login and the password of the session, as they
    /// stand, at the second `now` and returns the outcome, which
    /// `show_result` then puts on show.
    pub fn authenticate(&mut self, now: i64) -> (outcome: AuthOutcome)
        ensures
            final(self)@ == old(self)@.after_authenticate(),
            outcome == old(self)@.outcome(now as int),
    {
        self.error_message = None;
        self.success_message = None;
        if self.login.as_str().is_empty() || self.password.as_str().is_empty() {
            return AuthOutcome::Decided(Decision::DeniedBadInput);
        }
        if self.users.len() == 0 {
            self.parse_database();
        }
        AuthOutcome::Decided(
            verify(
                self.login.as_str(),
                self.password.as_str(),
                self.time_window.as_str(),
                now,
                &self.users,
            ),
        )
    }

    /// Puts an outcome on show, with the milliseconds that it took.
    pub fn show_result(&mut self, message: AuthOutcome, result_type: ResultType, elapsed_ms: u128)
        ensures
            final(self)@ == old(self)@.after_show(message, result_type, elapsed_ms),
    {
        self.result_message = message;
        self.result_type = result_type;
        self.response_time = Some(elapsed_ms);
    }
}

} // verus!
