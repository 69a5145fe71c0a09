//! The user directory: enrollment records read from text, one record a
//! line, and the lookup of a record by login.

use vstd::prelude::*;
use crate::text::append;
use crate::text::chars_of;
use crate::text::fields;
use crate::text::index_of;
use crate::text::lemma_index_of_bound;
use crate::text::split_at_char;
use crate::text::split_fields;
use crate::text::split_on;
use crate::text::string_of;
use crate::text::texts;
use crate::text::to_upper;
use crate::text::upper;

verus! {

/// The number of fields that a line must have to be a record.
pub const RECORD_FIELDS: usize = 5;

/// The enrollment record of one user.
#[derive(Clone, Debug, PartialEq, Eq)]
pub struct UserRecord {
    /// The name shown for the user.
    pub name: String,
    /// The login by which the record is found.
    pub login: String,
    /// The user's cipher key, in upper case.
    pub key: String,
    /// The user's enrollment epoch: a date, one space, and a time.
    pub epoch: String,
}

/// A user record as plain text.
pub struct UserRecordView {
    pub name: Seq<char>,
    pub login: Seq<char>,
    pub key: Seq<char>,
    pub epoch: Seq<char>,
}

impl View for UserRecord {
    type V = UserRecordView;

    open spec fn view(&self) -> UserRecordView {
        UserRecordView { name: self.name@, login: self.login@, key: self.key@, epoch: self.epoch@ }
    }
}

/// The views of the records of `users`, in order.
pub open spec fn views(users: Seq<UserRecord>) -> Seq<UserRecordView> {
    Seq::new(users.len(), |i: int| users[i]@)
}

/// The record that the line `line` holds, if it has at least five fields
/// between whitespace: name, login, key, date and time, in this order. The
/// key is put in upper case; the epoch is the date, one space, and the time.
/// Fields after the fifth are not read.
pub open spec fn record_of(line: Seq<char>) -> Option<UserRecordView> {
    let f = fields(line);
    if f.len() >= 5 {
        Some(
            UserRecordView {
                name: f[0],
                login: f[1],
                key: upper(f[2]),
                epoch: f[3] + seq![' '] + f[4],
            },
        )
    } else {
        None
    }
}

/// The records that the lines `lines` hold, in the order of the lines. A
/// line that holds no record is passed over.
pub open spec fn records_of(lines: Seq<Seq<char>>) -> Seq<UserRecordView>
    decreases lines.len(),
{
    if lines.len() == 0 {
        Seq::empty()
    } else {
        match record_of(lines.last()) {
            Some(record) => records_of(lines.drop_last()).push(record),
            None => records_of(lines.drop_last()),
        }
    }
}

/// The directory that the text `text` holds: the records of its lines.
pub open spec fn directory_of(text: Seq<char>) -> Seq<UserRecordView> {
    records_of(split_on(text, '\n'))
}

/// The index of the first record of `directory` with the login `login`.
pub open spec fn position_of(directory: Seq<UserRecordView>, login: Seq<char>) -> Option<int>
    decreases directory.len(),
{
    if directory.len() == 0 {
        None
    } else if directory[0].login == login {
        Some(0)
    } else {
        match position_of(directory.drop_first(), login) {
            Some(i) => Some(i + 1),
            None => None,
        }
    }
}

/// A found record has the login looked for, and no record before it has;
/// where none is found, no record has the login.
pub proof fn lemma_position_of(directory: Seq<UserRecordView>, login: Seq<char>)
    ensures
        match position_of(directory, login) {
            Some(i) => 0 <= i < directory.len() && directory[i].login == login && forall|j: int|
                0 <= j < i ==> (#[trigger] directory[j]).login != login,
            None => forall|j: int|
                0 <= j < directory.len() ==> (#[trigger] directory[j]).login != login,
        },
    decreases directory.len(),
{
    if directory.len() > 0 && directory[0].login != login {
        let rest = directory.drop_first();
        lemma_position_of(rest, login);
        match position_of(rest, login) {
            Some(i) => {
                assert forall|j: int| 0 <= j < i + 1 implies (#[trigger] directory[j]).login
                    != login by {
                    if j > 0 {
                        assert(directory[j] == rest[j - 1]);
                    }
                }
            },
            None => {
                assert forall|j: int| 0 <= j < directory.len() implies (
                #[trigger] directory[j]).login != login by {
                    if j > 0 {
                        assert(directory[j] == rest[j - 1]);
                    }
                }
            },
        }
    }
}

/// Reads the record of one line, if the line holds one.
pub fn parse_line(line: &Vec<char>) -> (r: Option<UserRecord>)
    ensures
        match r {
            Some(record) => record_of(line@) == Some(record@),
            None => record_of(line@) is None,
        },
{
    let f = split_fields(line);
    if f.len() < RECORD_FIELDS {
        return None;
    }
    proof {
        let t = texts(f@);
        assert(t[0] == f@[0]@ && t[1] == f@[1]@ && t[2] == f@[2]@ && t[3] == f@[3]@ && t[4]
            == f@[4]@);
    }
    let mut epoch: Vec<char> = Vec::new();
    append(&mut epoch, &f[3]);
    epoch.push(' ');
    append(&mut epoch, &f[4]);
    assert(epoch@ =~= f@[3]@ + seq![' '] + f@[4]@);
    Some(
        UserRecord {
            name: string_of(&f[0]),
            login: string_of(&f[1]),
            key: string_of(&to_upper(&f[2])),
            epoch: string_of(&epoch),
        },
    )
}

/// Reads a directory from text: one record a line, its fields between
/// whitespace; a line with fewer than five fields is passed over. The
/// records stand in the order of their lines.
pub fn parse(text: &str) -> (r: Vec<UserRecord>)
    ensures
        views(r@) == directory_of(text@),
{
    let chars = chars_of(text);
    let lines = split_at_char(&chars, '\n');
    let ghost all = texts(lines@);
    let mut r: Vec<UserRecord> = Vec::new();
    let mut i: usize = 0;
    assert(all.take(0) =~= Seq::<Seq<char>>::empty());
    assert(views(r@) =~= Seq::<UserRecordView>::empty());
    while i < lines.len()
        invariant
            i <= lines.len(),
            all == texts(lines@),
            views(r@) == records_of(all.take(i as int)),
        decreases lines.len() - i,
    {
        proof {
            let upto = all.take(i + 1);
            assert(upto.drop_last() =~= all.take(i as int));
            assert(upto.last() == lines@[i as int]@);
        }
        match parse_line(&lines[i]) {
            Some(record) => {
                assert(views(r@.push(record)) =~= views(r@).push(record@));
                r.push(record);
            },
            None => {},
        }
        i += 1;
    }
    assert(all.take(lines.len() as int) =~= all);
    r
}

/// The index of the first record of `directory` with the login `login`.
pub fn find(directory: &Vec<UserRecord>, login: &str) -> (r: Option<usize>)
    ensures
        match r {
            Some(i) => position_of(views(directory@), login@) == Some(i as int) && i
                < directory.len(),
            None => position_of(views(directory@), login@) is None,
        },
{
    let wanted = chars_of(login);
    let ghost all = views(directory@);
    let mut i: usize = 0;
    assert(all.skip(0) =~= all);
    while i < directory.len()
        invariant
            i <= directory.len(),
            all == views(directory@),
            wanted@ == login@,
            match position_of(all.skip(i as int), login@) {
                Some(k) => position_of(all, login@) == Some(k + i),
                None => position_of(all, login@) is None,
            },
        decreases directory.len() - i,
    {
        let here = chars_of(directory[i].login.as_str());
        assert(all.skip(i as int)[0] == directory@[i as int]@);
        if crate::text::same_text(&here, &wanted) {
            return Some(i);
        }
        assert(all.skip(i as int).drop_first() =~= all.skip(i + 1));
        i += 1;
    }
    None
}

/// The records of two runs of lines, one after the other, are the records
/// of the first run followed by those of the second: records keep the order
/// of their lines.
pub proof fn lemma_records_keep_order(first: Seq<Seq<char>>, second: Seq<Seq<char>>)
    ensures
        records_of(first + second) == records_of(first) + records_of(second),
    decreases second.len(),
{
    if second.len() == 0 {
        assert(first + second =~= first);
        assert(records_of(first) + records_of(second) =~= records_of(first));
    } else {
        let all = first + second;
        assert(all.drop_last() =~= first + second.drop_last());
        assert(all.last() == second.last());
        lemma_records_keep_order(first, second.drop_last());
        match record_of(second.last()) {
            Some(record) => {
                assert((records_of(first) + records_of(second.drop_last())).push(record)
                    =~= records_of(first) + records_of(second.drop_last()).push(record));
            },
            None => {},
        }
    }
}

/// A line with fewer than five fields adds nothing to the records; a line
/// with five fields or more adds its record after those of the lines before
/// it.
pub proof fn lemma_records_of_line(lines: Seq<Seq<char>>, line: Seq<char>)
    ensures
        fields(line).len() < 5 ==> records_of(lines.push(line)) == records_of(lines),
        fields(line).len() >= 5 ==> records_of(lines.push(line)) == records_of(lines).push(
            record_of(line)->Some_0,
        ),
{
    assert(lines.push(line).drop_last() =~= lines);
}

/// The pieces of a text, a separator and another text are the pieces of the
/// first text followed by those of the second.
pub proof fn lemma_split_on_joined(a: Seq<char>, b: Seq<char>, sep: char)
    ensures
        split_on(a + seq![sep] + b, sep) == split_on(a, sep) + split_on(b, sep),
    decreases a.len(),
{
    let joined = a + seq![sep] + b;
    let n = index_of(a, sep) as int;
    lemma_index_of_bound(a, sep);
    lemma_index_of_joined(a, seq![sep] + b, sep);
    assert(a + (seq![sep] + b) =~= joined);
    if n < a.len() {
        assert(index_of(joined, sep) == n);
        assert(joined.take(n) =~= a.take(n));
        assert(joined.skip(n + 1) =~= a.skip(n + 1) + seq![sep] + b);
        lemma_split_on_joined(a.skip(n + 1), b, sep);
        assert(seq![a.take(n)] + (split_on(a.skip(n + 1), sep) + split_on(b, sep)) =~= (seq![
            a.take(n),
        ] + split_on(a.skip(n + 1), sep)) + split_on(b, sep));
    } else {
        assert(index_of(joined, sep) == a.len());
        assert(joined.take(n) =~= a);
        assert(joined.skip(n + 1) =~= b);
    }
}

/// Up to the first separator of a text, what follows the text does not
/// matter: the first separator of `a` followed by `b` is that of `a`, or,
/// where `a` has none, the first of `b` counted from the end of `a`.
pub proof fn lemma_index_of_joined(a: Seq<char>, b: Seq<char>, sep: char)
    ensures
        index_of(a + b, sep) == if index_of(a, sep) < a.len() {
            index_of(a, sep)
        } else {
            a.len() + index_of(b, sep)
        },
    decreases a.len(),
{
    lemma_index_of_bound(a, sep);
    if a.len() == 0 {
        assert(a + b =~= b);
    } else if a[0] == sep {
    } else {
        assert((a + b).drop_first() =~= a.drop_first() + b);
        lemma_index_of_joined(a.drop_first(), b, sep);
        lemma_index_of_bound(a.drop_first(), sep);
    }
}

/// A text of one line holds the record of that line, or nothing.
pub proof fn lemma_directory_of_one_line(line: Seq<char>)
    requires
        forall|j: int| 0 <= j < line.len() ==> #[trigger] line[j] != '\n',
    ensures
        directory_of(line) == match record_of(line) {
            Some(record) => seq![record],
            None => Seq::<UserRecordView>::empty(),
        },
        fields(line).len() < 5 ==> directory_of(line) == Seq::<UserRecordView>::empty(),
{
    lemma_no_separator(line, '\n');
    let lines = seq![line];
    assert(split_on(line, '\n') == lines);
    assert(lines.drop_last() =~= Seq::<Seq<char>>::empty());
    assert(lines.last() == line);
    assert(records_of(lines.drop_last()) =~= Seq::<UserRecordView>::empty());
    match record_of(line) {
        Some(record) => {
            assert(records_of(lines) =~= seq![record]);
        },
        None => {},
    }
}

/// In a text that does not hold the separator, the first separator is at
/// the end.
pub proof fn lemma_no_separator(s: Seq<char>, sep: char)
    requires
        forall|j: int| 0 <= j < s.len() ==> #[trigger] s[j] != sep,
    ensures
        index_of(s, sep) == s.len(),
    decreases s.len(),
{
    if s.len() > 0 {
        let rest = s.drop_first();
        assert(s[0] != sep);
        assert forall|j: int| 0 <= j < rest.len() implies #[trigger] rest[j] != sep by {
            assert(rest[j] == s[j + 1]);
        }
        lemma_no_separator(rest, sep);
    }
}

/// The directory of two texts with a line break between them is the
/// directory of the first followed by that of the second: what a text adds
/// to a directory does not depend on what stands before or after it.
pub proof fn lemma_directory_of_joined(first: Seq<char>, second: Seq<char>)
    ensures
        directory_of(first + seq!['\n'] + second) == directory_of(first) + directory_of(second),
{
    lemma_split_on_joined(first, second, '\n');
    lemma_records_keep_order(split_on(first, '\n'), split_on(second, '\n'));
}

} // verus!
