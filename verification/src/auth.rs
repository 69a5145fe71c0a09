//! Authentication: the decision on a submitted password, made by deriving the
//! password anew for every second of a window around "now".

use vstd::prelude::*;
use crate::cipher::des_ciphertext;
use crate::cipher::encrypt_block;
use crate::cipher::encrypt_block_spec;
use crate::decimal::integer_of;
use crate::decimal::parse_integer;
use crate::deriver::derive_spec;
use crate::directory::find;
use crate::directory::lemma_position_of;
use crate::directory::position_of;
use crate::directory::UserRecord;
use crate::directory::UserRecordView;
use crate::directory::views;
use crate::epoch::epoch_seconds;
use crate::epoch::epoch_seconds_spec;
use crate::error::OtpError;
use crate::hexcode::hex_bytes;
use crate::hexcode::lemma_hex_bytes_round_trip;
use crate::hexcode::lemma_upper_hex_text_round_trip;
use crate::hexcode::upper_hex_text;
use crate::text::chars_of;
use crate::text::string_of;
use crate::text::to_upper;
use crate::text::upper;
use crate::timeblock::capacity;
use crate::timeblock::elapsed;
use crate::timeblock::encode_at;
use crate::timeblock::encode_spec;
use crate::timeblock::lemma_time_block_shape;

verus! {

/// The outcome of a verification.
#[derive(Clone, Copy, Debug, PartialEq, Eq, Structural)]
pub enum Decision {
    /// The password matches a derivation within the window.
    Granted,
    /// The directory holds no record with the login.
    DeniedUnknownUser,
    /// The password matches no derivation within the window.
    DeniedBadPassword,
    /// The login or the password is empty, the window is no number that is
    /// zero or more, or the epoch of the user's record cannot be read.
    DeniedBadInput,
}

/// The window that the text `text` denotes: a decimal integer of 64 bits
/// that is not negative.
pub open spec fn window_of(text: Seq<char>) -> Option<int> {
    match integer_of(text, i64::MIN as int, i64::MAX as int) {
        Some(w) => if w >= 0 {
            Some(w)
        } else {
            None
        },
        None => None,
    }
}

/// The password that the holder of `key`, enrolled at the second `epoch`,
/// derives at the second `at`. There is none where the key is no cipher key,
/// or where the seconds elapsed do not fit in a time block.
pub open spec fn expected_password(key: Seq<char>, epoch: int, at: int) -> Option<Seq<char>> {
    if elapsed(at, epoch) < capacity(16) {
        match encrypt_block_spec(encode_spec(at, epoch), key) {
            Ok(password) => Some(password),
            Err(_) => None,
        }
    } else {
        None
    }
}

/// Whether `submitted`, in upper case, is the password expected `offset`
/// seconds after `now`.
pub open spec fn matches_at(
    key: Seq<char>,
    epoch: int,
    now: int,
    offset: int,
    submitted: Seq<char>,
) -> bool {
    expected_password(key, epoch, now + offset) == Some(upper(submitted))
}

/// Whether `submitted` is the password expected at some second that is at
/// most `window` seconds before or after `now`.
pub open spec fn matches_within(
    key: Seq<char>,
    epoch: int,
    now: int,
    window: int,
    submitted: Seq<char>,
) -> bool {
    exists|offset: int|
        -window <= offset <= window && #[trigger] matches_at(key, epoch, now, offset, submitted)
}

/// What is settled before the window is searched: where the user's record
/// stands in the directory, the second of the user's enrollment epoch, and
/// the window in seconds.
#[derive(Clone, Copy, Debug, PartialEq, Eq)]
pub struct Search {
    /// The index of the user's record in the directory.
    pub position: usize,
    /// The second of the user's enrollment epoch.
    pub epoch: i64,
    /// The window in seconds; it is not negative.
    pub window: i64,
}

/// A search as plain numbers.
pub struct SearchView {
    pub position: int,
    pub epoch: int,
    pub window: int,
}

impl View for Search {
    type V = SearchView;

    open spec fn view(&self) -> SearchView {
        SearchView {
            position: self.position as int,
            epoch: self.epoch as int,
            window: self.window as int,
        }
    }
}

/// What is decided, or settled for the search, before the window is
/// searched and the cipher is asked anything.
///
/// An empty login or password is bad input, whatever the directory holds.
/// Then the first record with the login is looked up; without one the user
/// is unknown. Then the window is read, then the epoch of the record; one
/// that cannot be read is bad input.
pub open spec fn screen_spec(
    login: Seq<char>,
    password: Seq<char>,
    window: Seq<char>,
    directory: Seq<UserRecordView>,
) -> Result<SearchView, Decision> {
    if login.len() == 0 || password.len() == 0 {
        Err(Decision::DeniedBadInput)
    } else {
        match position_of(directory, login) {
            None => Err(Decision::DeniedUnknownUser),
            Some(position) => match window_of(window) {
                None => Err(Decision::DeniedBadInput),
                Some(seconds) => match epoch_seconds_spec(directory[position].epoch) {
                    None => Err(Decision::DeniedBadInput),
                    Some(epoch) => Ok(
                        SearchView { position, epoch: epoch as int, window: seconds },
                    ),
                },
            },
        }
    }
}

/// The decision on a login and a password at the second `now`: what the
/// screening decides, and where it leaves the decision open, a grant exactly
/// where the password matches within the window.
pub open spec fn verify_spec(
    login: Seq<char>,
    password: Seq<char>,
    window: Seq<char>,
    now: int,
    directory: Seq<UserRecordView>,
) -> Decision {
    match screen_spec(login, password, window, directory) {
        Err(decision) => decision,
        Ok(search) => if matches_within(
            directory[search.position].key,
            search.epoch,
            now,
            search.window,
            password,
        ) {
            Decision::Granted
        } else {
            Decision::DeniedBadPassword
        },
    }
}

/// Reads a window: a decimal integer of 64 bits that is not negative.
pub fn parse_window(text: &str) -> (r: Option<i64>)
    ensures
        match r {
            Some(w) => window_of(text@) == Some(w as int) && w >= 0,
            None => window_of(text@) is None,
        },
{
    match parse_integer(&chars_of(text), -0x8000_0000_0000_0000, 0x7FFF_FFFF_FFFF_FFFF) {
        Some(w) => if w >= 0 {
            Some(w)
        } else {
            None
        },
        None => None,
    }
}

/// Whether `submitted`, already in upper case, is the outcome `derived` of
/// a derivation.
pub fn is_expected(derived: &Result<String, OtpError>, submitted: &String) -> (r: bool)
    ensures
        r == (derived matches Ok(password) && password@ == submitted@),
{
    match derived {
        Ok(password) => *password == *submitted,
        Err(_) => false,
    }
}

/// Whether `submitted` is the password expected `offset` seconds after
/// `now`, where `submitted` is in upper case already.
pub fn check_offset(key: &str, epoch: i64, now: i64, offset: i64, submitted: &String) -> (r: bool)
    ensures
        r == (expected_password(key@, epoch as int, now + offset) == Some(submitted@)),
{
    match encode_at(now, offset, epoch) {
        Some(block) => {
            let derived = encrypt_block(block.as_str(), key);
            is_expected(&derived, submitted)
        },
        None => false,
    }
}

/// Whether `offset` is the first offset of the window at which `submitted`
/// is the password expected, counting up from the start of the window.
pub open spec fn is_first_match(
    key: Seq<char>,
    epoch: int,
    now: int,
    window: int,
    submitted: Seq<char>,
    offset: int,
) -> bool {
    &&& -window <= offset <= window
    &&& matches_at(key, epoch, now, offset, submitted)
    &&& forall|earlier: int|
        -window <= earlier < offset ==> !#[trigger] matches_at(key, epoch, now, earlier, submitted)
}

/// Searches the window for the submitted password: every offset from
/// `-window` up to `window`, in this order, until one matches. Returns the
/// first offset that matches, or `None` where none does. A negative window
/// holds no offset.
pub fn search_window(key: &str, epoch: i64, now: i64, window: i64, submitted: &str) -> (r: Option<
    i64,
>)
    ensures
        match r {
            Some(offset) => is_first_match(
                key@,
                epoch as int,
                now as int,
                window as int,
                submitted@,
                offset as int,
            ),
            None => !matches_within(key@, epoch as int, now as int, window as int, submitted@),
        },
        r is Some <==> matches_within(key@, epoch as int, now as int, window as int, submitted@),
{
    if window < 0 {
        return None;
    }
    let wanted = string_of(&to_upper(&chars_of(submitted)));
    let mut offset: i64 = -window;
    loop
        invariant
            window >= 0,
            -window <= offset <= window,
            wanted@ == upper(submitted@),
            forall|o: int|
                -window <= o < offset ==> !#[trigger] matches_at(
                    key@,
                    epoch as int,
                    now as int,
                    o,
                    submitted@,
                ),
        decreases window - offset,
    {
        if check_offset(key, epoch, now, offset, &wanted) {
            assert(matches_at(key@, epoch as int, now as int, offset as int, submitted@));
            return Some(offset);
        }
        if offset == window {
            return None;
        }
        offset = offset + 1;
    }
}

/// Screens a login, a password and a window against a directory: decides
/// what can be decided without the cipher, and settles the rest for the
/// search of the window.
pub fn screen(login: &str, password: &str, window: &str, directory: &Vec<UserRecord>) -> (r: Result<
    Search,
    Decision,
>)
    ensures
        r matches Ok(search) ==> screen_spec(login@, password@, window@, views(directory@)) == Ok::<
            SearchView,
            Decision,
        >(search@) && search.position < directory.len() && search.window >= 0,
        r matches Err(decision) ==> screen_spec(login@, password@, window@, views(directory@))
            == Err::<SearchView, Decision>(decision),
{
    if login.is_empty() || password.is_empty() {
        return Err(Decision::DeniedBadInput);
    }
    let position = match find(directory, login) {
        Some(i) => i,
        None => {
            return Err(Decision::DeniedUnknownUser);
        },
    };
    assert(views(directory@)[position as int] == directory@[position as int]@);
    let seconds = match parse_window(window) {
        Some(w) => w,
        None => {
            return Err(Decision::DeniedBadInput);
        },
    };
    let epoch = match epoch_seconds(directory[position].epoch.as_str()) {
        Ok(second) => second,
        Err(_) => {
            return Err(Decision::DeniedBadInput);
        },
    };
    Ok(Search { position, epoch, window: seconds })
}

/// Decides on a login and a password at the second `now`, with a window of
/// seconds given as text and a directory of enrollment records.
///
/// Every second of the window is tried, so the time taken grows with the
/// window, and so does the chance that a password which was not derived for
/// this user matches by accident.
pub fn verify(
    login: &str,
    password: &str,
    window: &str,
    now: i64,
    directory: &Vec<UserRecord>,
) -> (r: Decision)
    ensures
        r == verify_spec(login@, password@, window@, now as int, views(directory@)),
        login@.len() == 0 || password@.len() == 0 ==> r == Decision::DeniedBadInput,
        login@.len() > 0 && password@.len() > 0 && position_of(views(directory@), login@) is None
            ==> r == Decision::DeniedUnknownUser,
{
    let search = match screen(login, password, window, directory) {
        Ok(search) => search,
        Err(decision) => {
            return decision;
        },
    };
    let user = &directory[search.position];
    assert(views(directory@)[search.position as int] == user@);
    match search_window(user.key.as_str(), search.epoch, now, search.window, password) {
        Some(_) => Decision::Granted,
        None => Decision::DeniedBadPassword,
    }
}

/// Whether a verification gets as far as the search of the window: the
/// login and the password are not empty, the directory holds a record with
/// the login, and the window and the epoch of that record can be read.
pub open spec fn reaches_search(
    login: Seq<char>,
    password: Seq<char>,
    window: Seq<char>,
    directory: Seq<UserRecordView>,
) -> bool {
    screen_spec(login, password, window, directory) is Ok
}

/// The first record of `directory` with the login `login`.
pub open spec fn user_of(directory: Seq<UserRecordView>, login: Seq<char>) -> UserRecordView {
    directory[position_of(directory, login)->Some_0]
}

/// The second of the enrollment epoch of the first record with the login
/// `login`.
pub open spec fn epoch_of(directory: Seq<UserRecordView>, login: Seq<char>) -> int {
    epoch_seconds_spec(user_of(directory, login).epoch)->Some_0 as int
}

/// An empty login or an empty password is bad input, whatever the window,
/// the second and the directory: the screening decides so before it looks
/// anything up.
pub proof fn lemma_empty_input_is_bad_input(
    login: Seq<char>,
    password: Seq<char>,
    window: Seq<char>,
    now: int,
    directory: Seq<UserRecordView>,
)
    requires
        login.len() == 0 || password.len() == 0,
    ensures
        screen_spec(login, password, window, directory) == Err::<SearchView, Decision>(
            Decision::DeniedBadInput,
        ),
        verify_spec(login, password, window, now, directory) == Decision::DeniedBadInput,
{
}

/// A login that no record of the directory has is an unknown user, whatever
/// the password, the window and the second. The screening decides so:
/// neither the window nor any key has a part in it, and the cipher is not
/// asked.
pub proof fn lemma_unknown_login_is_unknown_user(
    login: Seq<char>,
    password: Seq<char>,
    window: Seq<char>,
    now: int,
    directory: Seq<UserRecordView>,
)
    requires
        login.len() > 0,
        password.len() > 0,
        forall|j: int| 0 <= j < directory.len() ==> (#[trigger] directory[j]).login != login,
    ensures
        screen_spec(login, password, window, directory) == Err::<SearchView, Decision>(
            Decision::DeniedUnknownUser,
        ),
        verify_spec(login, password, window, now, directory) == Decision::DeniedUnknownUser,
{
    lemma_position_of(directory, login);
}

/// With a window of zero seconds, access is granted exactly where the
/// submitted password, in upper case, is the one password expected at
/// `now`; any other password is a bad password.
pub proof fn lemma_zero_window_is_equality(
    login: Seq<char>,
    password: Seq<char>,
    window: Seq<char>,
    now: int,
    directory: Seq<UserRecordView>,
)
    requires
        reaches_search(login, password, window, directory),
        window_of(window) == Some(0int),
    ensures
        verify_spec(login, password, window, now, directory) == Decision::Granted
            <==> expected_password(
            user_of(directory, login).key,
            epoch_of(directory, login),
            now,
        ) == Some(upper(password)),
        verify_spec(login, password, window, now, directory) != Decision::Granted ==> verify_spec(
            login,
            password,
            window,
            now,
            directory,
        ) == Decision::DeniedBadPassword,
{
    let key = user_of(directory, login).key;
    let epoch = epoch_of(directory, login);
    if expected_password(key, epoch, now) == Some(upper(password)) {
        assert(matches_at(key, epoch, now, 0, password));
    }
    if matches_within(key, epoch, now, 0, password) {
        let offset = choose|offset: int|
            -0 <= offset <= 0 && #[trigger] matches_at(key, epoch, now, offset, password);
        assert(offset == 0);
    }
}

/// The server expects at the second `now` the password that the client
/// derives at that second from the same key and the same epoch.
pub proof fn lemma_server_expects_client_password(
    pin: Seq<char>,
    secret: Seq<char>,
    epoch_text: Seq<char>,
    now: i64,
    stored_epoch_text: Seq<char>,
)
    requires
        derive_spec(pin, secret, epoch_text, now as int) is Ok,
        epoch_seconds_spec(stored_epoch_text) == epoch_seconds_spec(epoch_text),
    ensures
        expected_password(
            derive_spec(pin, secret, epoch_text, now as int)->Ok_0.assembled_key,
            epoch_seconds_spec(stored_epoch_text)->Some_0 as int,
            now as int,
        ) == Some(derive_spec(pin, secret, epoch_text, now as int)->Ok_0.password),
        upper(derive_spec(pin, secret, epoch_text, now as int)->Ok_0.password) == derive_spec(
            pin,
            secret,
            epoch_text,
            now as int,
        )->Ok_0.password,
{
    crate::timeblock::lemma_capacity_16();
    let d = derive_spec(pin, secret, epoch_text, now as int)->Ok_0;
    let epoch = epoch_seconds_spec(epoch_text)->Some_0;
    let bytes = des_ciphertext(
        hex_bytes(d.assembled_key),
        hex_bytes(d.time_block),
    );
    lemma_upper_hex_text_round_trip(bytes);
    assert(upper(d.password) =~= d.password) by {
        assert forall|i: int| 0 <= i < d.password.len() implies crate::text::upper_char(
            #[trigger] d.password[i],
        ) == d.password[i] by {
            assert(crate::hexcode::is_upper_hex_digit(d.password[i]));
        }
    }
}

/// A password that the client derived at `now` is granted by the server at
/// the same second, with any window, where the user's record holds the
/// client's key and an epoch that names the client's second.
pub proof fn lemma_client_password_is_granted(
    pin: Seq<char>,
    secret: Seq<char>,
    epoch_text: Seq<char>,
    now: i64,
    login: Seq<char>,
    window: Seq<char>,
    directory: Seq<UserRecordView>,
)
    requires
        derive_spec(pin, secret, epoch_text, now as int) is Ok,
        derive_spec(pin, secret, epoch_text, now as int)->Ok_0.password.len() == 16,
        login.len() > 0,
        position_of(directory, login) is Some,
        window_of(window) is Some,
        user_of(directory, login).key == derive_spec(
            pin,
            secret,
            epoch_text,
            now as int,
        )->Ok_0.assembled_key,
        epoch_seconds_spec(user_of(directory, login).epoch) == epoch_seconds_spec(epoch_text),
    ensures
        verify_spec(
            login,
            derive_spec(pin, secret, epoch_text, now as int)->Ok_0.password,
            window,
            now as int,
            directory,
        ) == Decision::Granted,
{
    let d = derive_spec(pin, secret, epoch_text, now as int)->Ok_0;
    lemma_server_expects_client_password(
        pin,
        secret,
        epoch_text,
        now,
        user_of(directory, login).epoch,
    );
    assert(matches_at(
        user_of(directory, login).key,
        epoch_of(directory, login),
        now as int,
        0,
        d.password,
    ));
}

/// Access is granted where the submitted password is the one expected at an
/// offset within the window, the two ends of the window included.
pub proof fn lemma_match_within_window_is_granted(
    login: Seq<char>,
    password: Seq<char>,
    window: Seq<char>,
    now: int,
    directory: Seq<UserRecordView>,
    offset: int,
)
    requires
        reaches_search(login, password, window, directory),
        -window_of(window)->Some_0 <= offset <= window_of(window)->Some_0,
        matches_at(
            user_of(directory, login).key,
            epoch_of(directory, login),
            now,
            offset,
            password,
        ),
    ensures
        verify_spec(login, password, window, now, directory) == Decision::Granted,
{
}

/// A password that is expected one second outside the window, before it or
/// after it, and at no second inside it, is a bad password.
pub proof fn lemma_match_outside_window_is_denied(
    login: Seq<char>,
    password: Seq<char>,
    window: Seq<char>,
    now: int,
    directory: Seq<UserRecordView>,
    offset: int,
)
    requires
        reaches_search(login, password, window, directory),
        offset == window_of(window)->Some_0 + 1 || offset == -(window_of(window)->Some_0 + 1),
        matches_at(
            user_of(directory, login).key,
            epoch_of(directory, login),
            now,
            offset,
            password,
        ),
        forall|inside: int|
            -window_of(window)->Some_0 <= inside <= window_of(window)->Some_0 ==> !#[trigger] matches_at(
                user_of(directory, login).key,
                epoch_of(directory, login),
                now,
                inside,
                password,
            ),
    ensures
        verify_spec(login, password, window, now, directory) == Decision::DeniedBadPassword,
{
}

/// Whether the cipher, under the key that `key` denotes, tells blocks
/// apart: two blocks of eight bytes with the same ciphertext are the same
/// block. Nothing here says that the cipher does so; a law that needs it
/// asks for it.
pub open spec fn cipher_tells_blocks_apart(key: Seq<char>) -> bool {
    forall|a: Seq<u8>, b: Seq<u8>|
        #![trigger des_ciphertext(hex_bytes(key), a), des_ciphertext(hex_bytes(key), b)]
        a.len() == 8 && b.len() == 8 && des_ciphertext(hex_bytes(key), a) == des_ciphertext(
            hex_bytes(key),
            b,
        ) ==> a == b
}

/// Under a key with which the cipher tells blocks apart, two seconds with
/// different time blocks have different passwords.
pub proof fn lemma_other_block_has_other_password(key: Seq<char>, epoch: int, at: int, other: int)
    requires
        cipher_tells_blocks_apart(key),
        expected_password(key, epoch, at) is Some,
        encode_spec(at, epoch) != encode_spec(other, epoch),
    ensures
        expected_password(key, epoch, at) != expected_password(key, epoch, other),
{
    if expected_password(key, epoch, other) is Some {
        let first = encode_spec(at, epoch);
        let second = encode_spec(other, epoch);
        lemma_time_block_shape(elapsed(at, epoch));
        lemma_time_block_shape(elapsed(other, epoch));
        let one = des_ciphertext(hex_bytes(key), hex_bytes(first));
        let two = des_ciphertext(hex_bytes(key), hex_bytes(second));
        if upper_hex_text(one) == upper_hex_text(two) {
            lemma_upper_hex_text_round_trip(one);
            lemma_upper_hex_text_round_trip(two);
            assert(one == two);
            assert(hex_bytes(first) == hex_bytes(second));
            lemma_hex_bytes_round_trip(first);
            lemma_hex_bytes_round_trip(second);
            assert(first == second);
        }
    }
}

/// A password that is expected one second outside the window, before it or
/// after it, is a bad password where the time block of that second is the
/// time block of no second inside the window, and the cipher tells blocks
/// apart under the user's key.
pub proof fn lemma_one_second_outside_is_denied(
    login: Seq<char>,
    password: Seq<char>,
    window: Seq<char>,
    now: int,
    directory: Seq<UserRecordView>,
    offset: int,
)
    requires
        reaches_search(login, password, window, directory),
        offset == window_of(window)->Some_0 + 1 || offset == -(window_of(window)->Some_0 + 1),
        matches_at(
            user_of(directory, login).key,
            epoch_of(directory, login),
            now,
            offset,
            password,
        ),
        cipher_tells_blocks_apart(user_of(directory, login).key),
        forall|inside: int|
            -window_of(window)->Some_0 <= inside <= window_of(window)->Some_0 ==> #[trigger] encode_spec(
                now + inside,
                epoch_of(directory, login),
            ) != encode_spec(now + offset, epoch_of(directory, login)),
    ensures
        verify_spec(login, password, window, now, directory) == Decision::DeniedBadPassword,
{
    let key = user_of(directory, login).key;
    let epoch = epoch_of(directory, login);
    let w = window_of(window)->Some_0;
    assert forall|inside: int| -w <= inside <= w implies !#[trigger] matches_at(
        key,
        epoch,
        now,
        inside,
        password,
    ) by {
        assert(encode_spec(now + inside, epoch) != encode_spec(now + offset, epoch));
        lemma_other_block_has_other_password(key, epoch, now + offset, now + inside);
    }
    lemma_match_outside_window_is_denied(login, password, window, now, directory, offset);
}

/// A wider window grants whatever a narrower one grants.
pub proof fn lemma_wider_window_grants_more(
    key: Seq<char>,
    epoch: int,
    now: int,
    narrow: int,
    wide: int,
    submitted: Seq<char>,
)
    requires
        narrow <= wide,
        matches_within(key, epoch, now, narrow, submitted),
    ensures
        matches_within(key, epoch, now, wide, submitted),
{
    let offset = choose|offset: int|
        -narrow <= offset <= narrow && #[trigger] matches_at(key, epoch, now, offset, submitted);
    assert(matches_at(key, epoch, now, offset, submitted));
}

} // verus!
