//! Character-level text handling: conversion between strings and character
//! vectors, whitespace, trimming, splitting into fields, and upper-casing.
//!
//! Every function is specified over `Seq<char>`, the view of a string.

use vstd::prelude::*;

verus! {

/// `String::push` of the standard library appends one character to the end of
/// the string and changes nothing else.
pub assume_specification[ String::push ](s: &mut String, c: char)
    ensures
        final(s)@ == old(s)@.push(c),
;

/// The characters of `s`, in order.
pub fn chars_of(s: &str) -> (v: Vec<char>)
    ensures
        v@ == s@,
{
    let mut v: Vec<char> = Vec::new();
    for c in it: s.chars()
        invariant
            it.seq() == s@,
            v@ == it.seq().take(it.index() as int),
    {
        v.push(c);
    }
    v
}

/// The string that holds the characters of `v`, in order.
pub fn string_of(v: &Vec<char>) -> (s: String)
    ensures
        s@ == v@,
{
    let mut s = String::new();
    let mut i: usize = 0;
    while i < v.len()
        invariant
            i <= v.len(),
            s@ == v@.take(i as int),
        decreases v.len() - i,
    {
        s.push(v[i]);
        assert(v@.take(i as int).push(v@[i as int]) =~= v@.take(i + 1));
        i += 1;
    }
    assert(v@.take(v.len() as int) =~= v@);
    s
}

/// A copy of the characters of `v` from index `from` up to, not including, `to`.
pub fn slice_of(v: &Vec<char>, from: usize, to: usize) -> (r: Vec<char>)
    requires
        from <= to <= v.len(),
    ensures
        r@ == v@.subrange(from as int, to as int),
{
    let mut r: Vec<char> = Vec::new();
    let mut i: usize = from;
    while i < to
        invariant
            from <= i <= to <= v.len(),
            r@ == v@.subrange(from as int, i as int),
        decreases to - i,
    {
        r.push(v[i]);
        assert(v@.subrange(from as int, i as int).push(v@[i as int]) =~= v@.subrange(
            from as int,
            i + 1,
        ));
        i += 1;
    }
    r
}

/// `a` followed by `b`.
pub fn joined(a: &Vec<char>, b: &Vec<char>) -> (r: Vec<char>)
    ensures
        r@ == a@ + b@,
{
    let mut r: Vec<char> = Vec::new();
    append(&mut r, a);
    append(&mut r, b);
    assert(Seq::<char>::empty() + a@ + b@ =~= a@ + b@);
    r
}

/// Appends the characters of `tail` to `v`.
pub fn append(v: &mut Vec<char>, tail: &Vec<char>)
    ensures
        final(v)@ == old(v)@ + tail@,
{
    let mut i: usize = 0;
    assert(old(v)@ + tail@.take(0) =~= old(v)@);
    while i < tail.len()
        invariant
            i <= tail.len(),
            v@ == old(v)@ + tail@.take(i as int),
        decreases tail.len() - i,
    {
        v.push(tail[i]);
        assert((old(v)@ + tail@.take(i as int)).push(tail@[i as int]) =~= old(v)@ + tail@.take(
            i + 1,
        ));
        i += 1;
    }
    assert(tail@.take(tail.len() as int) =~= tail@);
}

/// Whether two character vectors hold the same text.
pub fn same_text(a: &Vec<char>, b: &Vec<char>) -> (r: bool)
    ensures
        r == (a@ == b@),
{
    if a.len() != b.len() {
        return false;
    }
    let mut i: usize = 0;
    while i < a.len()
        invariant
            i <= a.len(),
            a.len() == b.len(),
            a@.take(i as int) == b@.take(i as int),
        decreases a.len() - i,
    {
        if a[i] != b[i] {
            return false;
        }
        assert(a@.take(i + 1) =~= a@.take(i as int).push(a@[i as int]));
        assert(b@.take(i + 1) =~= b@.take(i as int).push(b@[i as int]));
        i += 1;
    }
    assert(a@.take(a.len() as int) =~= a@);
    assert(b@.take(b.len() as int) =~= b@);
    true
}

/// The whitespace characters: those that Unicode marks as White_Space.
pub open spec fn is_space(c: char) -> bool {
    let n = c as u32;
    ||| 0x09 <= n <= 0x0D
    ||| n == 0x20
    ||| n == 0x85
    ||| n == 0xA0
    ||| n == 0x1680
    ||| 0x2000 <= n <= 0x200A
    ||| n == 0x2028
    ||| n == 0x2029
    ||| n == 0x202F
    ||| n == 0x205F
    ||| n == 0x3000
}

/// Whether `c` is a whitespace character.
pub fn is_whitespace(c: char) -> (b: bool)
    ensures
        b == is_space(c),
{
    let n: u32 = c as u32;
    (0x09 <= n && n <= 0x0D) || n == 0x20 || n == 0x85 || n == 0xA0 || n == 0x1680 || (0x2000 <= n
        && n <= 0x200A) || n == 0x2028 || n == 0x2029 || n == 0x202F || n == 0x205F || n == 0x3000
}

/// `s` without its leading whitespace.
pub open spec fn trim_start(s: Seq<char>) -> Seq<char>
    decreases s.len(),
{
    if s.len() > 0 && is_space(s[0]) {
        trim_start(s.drop_first())
    } else {
        s
    }
}

/// `s` without its trailing whitespace.
pub open spec fn trim_end(s: Seq<char>) -> Seq<char>
    decreases s.len(),
{
    if s.len() > 0 && is_space(s.last()) {
        trim_end(s.drop_last())
    } else {
        s
    }
}

/// `s` without leading and trailing whitespace.
pub open spec fn trimmed(s: Seq<char>) -> Seq<char> {
    trim_end(trim_start(s))
}

/// `v` without leading and trailing whitespace.
pub fn trim(v: &Vec<char>) -> (r: Vec<char>)
    ensures
        r@ == trimmed(v@),
{
    let n: usize = v.len();
    let mut i: usize = 0;
    assert(v@.skip(0) =~= v@);
    while i < n && is_whitespace(v[i])
        invariant
            i <= n == v.len(),
            trim_start(v@) == trim_start(v@.skip(i as int)),
        decreases n - i,
    {
        assert(v@.skip(i as int).drop_first() =~= v@.skip(i + 1));
        i += 1;
    }
    assert(trim_start(v@) == v@.skip(i as int));
    let mut j: usize = n;
    assert(v@.skip(i as int) =~= v@.subrange(i as int, n as int));
    while j > i && is_whitespace(v[j - 1])
        invariant
            i <= j <= n == v.len(),
            trimmed(v@) == trim_end(v@.subrange(i as int, j as int)),
        decreases j,
    {
        assert(v@.subrange(i as int, j as int).drop_last() =~= v@.subrange(i as int, j - 1));
        j -= 1;
    }
    slice_of(v, i, j)
}

/// The text `s` without leading and trailing whitespace.
pub fn trim_text(s: &str) -> (r: String)
    ensures
        r@ == trimmed(s@),
{
    string_of(&trim(&chars_of(s)))
}

/// The text that an optional string holds.
pub open spec fn text_of(content: Option<&str>) -> Option<Seq<char>> {
    match content {
        Some(s) => Some(s@),
        None => None,
    }
}

/// The upper-case form of an ASCII letter; any other character unchanged.
pub open spec fn upper_char(c: char) -> char {
    if 'a' <= c <= 'z' {
        ((c as u32) - 32) as char
    } else {
        c
    }
}

/// `s` with every ASCII letter in upper case.
pub open spec fn upper(s: Seq<char>) -> Seq<char> {
    Seq::new(s.len(), |i: int| upper_char(s[i]))
}

/// The upper-case form of an ASCII letter; any other character unchanged.
pub fn to_upper_char(c: char) -> (r: char)
    ensures
        r == upper_char(c),
{
    match c {
        'a' => 'A',
        'b' => 'B',
        'c' => 'C',
        'd' => 'D',
        'e' => 'E',
        'f' => 'F',
        'g' => 'G',
        'h' => 'H',
        'i' => 'I',
        'j' => 'J',
        'k' => 'K',
        'l' => 'L',
        'm' => 'M',
        'n' => 'N',
        'o' => 'O',
        'p' => 'P',
        'q' => 'Q',
        'r' => 'R',
        's' => 'S',
        't' => 'T',
        'u' => 'U',
        'v' => 'V',
        'w' => 'W',
        'x' => 'X',
        'y' => 'Y',
        'z' => 'Z',
        _ => c,
    }
}

/// `v` with every ASCII letter in upper case.
pub fn to_upper(v: &Vec<char>) -> (r: Vec<char>)
    ensures
        r@ == upper(v@),
{
    let mut r: Vec<char> = Vec::new();
    let mut i: usize = 0;
    while i < v.len()
        invariant
            i <= v.len(),
            r@ == upper(v@.take(i as int)),
        decreases v.len() - i,
    {
        r.push(to_upper_char(v[i]));
        assert(upper(v@.take(i as int)).push(upper_char(v@[i as int])) =~= upper(
            v@.take(i + 1),
        ));
        i += 1;
    }
    assert(v@.take(v.len() as int) =~= v@);
    r
}

/// The length of the leading run of non-whitespace characters of `s`.
pub open spec fn token_len(s: Seq<char>) -> nat
    decreases s.len(),
{
    if s.len() == 0 || is_space(s[0]) {
        0
    } else {
        1 + token_len(s.drop_first())
    }
}

/// The leading run of non-whitespace characters lies within the text.
pub proof fn lemma_token_len_bound(s: Seq<char>)
    ensures
        token_len(s) <= s.len(),
    decreases s.len(),
{
    if s.len() > 0 && !is_space(s[0]) {
        lemma_token_len_bound(s.drop_first());
    }
}

/// The maximal runs of non-whitespace characters of `s`, in order: what is
/// left of `s` after splitting it at whitespace and dropping the empty
/// pieces.
pub open spec fn fields(s: Seq<char>) -> Seq<Seq<char>>
    decreases s.len(),
{
    if s.len() == 0 {
        Seq::empty()
    } else if is_space(s[0]) {
        fields(s.drop_first())
    } else {
        proof {
            lemma_token_len_bound(s);
        }
        let n = token_len(s) as int;
        seq![s.take(n)] + fields(s.skip(n))
    }
}

/// The leading run of non-whitespace characters holds no whitespace, and
/// what follows it is empty or starts with whitespace.
pub proof fn lemma_token_is_maximal(s: Seq<char>)
    ensures
        token_len(s) <= s.len(),
        forall|j: int| 0 <= j < token_len(s) ==> !is_space(#[trigger] s[j]),
        token_len(s) < s.len() ==> is_space(s[token_len(s) as int]),
    decreases s.len(),
{
    if s.len() > 0 && !is_space(s[0]) {
        let rest = s.drop_first();
        lemma_token_is_maximal(rest);
        assert forall|j: int| 0 <= j < token_len(s) implies !is_space(#[trigger] s[j]) by {
            if j > 0 {
                assert(s[j] == rest[j - 1]);
            }
        }
    }
}

/// Whether `f` is a run of at least one character, none of them whitespace.
pub open spec fn is_field(f: Seq<char>) -> bool {
    f.len() > 0 && forall|j: int| 0 <= j < f.len() ==> !is_space(#[trigger] f[j])
}

/// Every field is a run of at least one character, none of them whitespace.
pub proof fn lemma_fields_hold_no_space(s: Seq<char>)
    ensures
        forall|i: int| 0 <= i < fields(s).len() ==> is_field(#[trigger] fields(s)[i]),
    decreases s.len(),
{
    if s.len() == 0 {
        assert(fields(s).len() == 0);
    } else if is_space(s[0]) {
        lemma_fields_hold_no_space(s.drop_first());
        assert(fields(s) == fields(s.drop_first()));
    } else {
        lemma_token_is_maximal(s);
        let n = token_len(s) as int;
        let first = s.take(n);
        let rest = fields(s.skip(n));
        lemma_fields_hold_no_space(s.skip(n));
        assert(fields(s) == seq![first] + rest);
        assert(is_field(first)) by {
            assert forall|j: int| 0 <= j < first.len() implies !is_space(#[trigger] first[j]) by {
                assert(first[j] == s[j]);
            }
        }
        assert forall|i: int| 0 <= i < fields(s).len() implies is_field(#[trigger] fields(s)[i]) by {
            if i == 0 {
                assert(fields(s)[0] == first);
            } else {
                assert(fields(s)[i] == rest[i - 1]);
            }
        }
    }
}

/// A text without whitespace is its own single field; a text of whitespace
/// alone has no field.
pub proof fn lemma_fields_of_plain_text(s: Seq<char>)
    ensures
        is_field(s) ==> fields(s) == seq![s],
        (forall|j: int| 0 <= j < s.len() ==> is_space(#[trigger] s[j])) ==> fields(s)
            == Seq::<Seq<char>>::empty(),
    decreases s.len(),
{
    if s.len() > 0 {
        let rest = s.drop_first();
        if forall|j: int| 0 <= j < s.len() ==> is_space(#[trigger] s[j]) {
            assert(is_space(s[0]));
            assert forall|j: int| 0 <= j < rest.len() implies is_space(#[trigger] rest[j]) by {
                assert(rest[j] == s[j + 1]);
            }
            lemma_fields_of_plain_text(rest);
        }
        if is_field(s) {
            assert(!is_space(s[0]));
            lemma_token_is_maximal(s);
            let n = token_len(s) as int;
            if n < s.len() {
                assert(!is_space(s[n]));
            }
            assert(s.take(n) =~= s);
            assert(s.skip(n) =~= Seq::<char>::empty());
            assert(fields(s.skip(n)) =~= Seq::<Seq<char>>::empty());
            assert(fields(s) =~= seq![s]);
        }
    }
}

/// The views of the vectors of `v`, in order.
pub open spec fn texts(v: Seq<Vec<char>>) -> Seq<Seq<char>> {
    Seq::new(v.len(), |i: int| v[i]@)
}

/// Splits `v` at whitespace into its non-empty fields.
pub fn split_fields(v: &Vec<char>) -> (r: Vec<Vec<char>>)
    ensures
        texts(r@) == fields(v@),
{
    let n: usize = v.len();
    let mut r: Vec<Vec<char>> = Vec::new();
    let mut i: usize = 0;
    assert(v@.skip(0) =~= v@);
    assert(texts(r@) + fields(v@) =~= fields(v@));
    while i < n
        invariant
            i <= n == v.len(),
            fields(v@) == texts(r@) + fields(v@.skip(i as int)),
        decreases n - i,
    {
        let ghost rest = v@.skip(i as int);
        if is_whitespace(v[i]) {
            assert(rest.drop_first() =~= v@.skip(i + 1));
            i += 1;
        } else {
            let mut j: usize = i + 1;
            assert(rest.drop_first() =~= v@.skip(j as int));
            while j < n && !is_whitespace(v[j])
                invariant
                    i < j <= n == v.len(),
                    token_len(rest) == (j - i) + token_len(v@.skip(j as int)),
                    rest == v@.skip(i as int),
                decreases n - j,
            {
                assert(v@.skip(j as int).drop_first() =~= v@.skip(j + 1));
                j += 1;
            }
            let token = slice_of(v, i, j);
            proof {
                assert(token_len(rest) == j - i);
                assert(rest.take(j - i) =~= token@);
                assert(rest.skip(j - i) =~= v@.skip(j as int));
                let ghost before = texts(r@);
                assert(texts(r@.push(token)) =~= before + seq![token@]);
                assert(before + (seq![token@] + fields(v@.skip(j as int))) =~= (before
                    + seq![token@]) + fields(v@.skip(j as int)));
            }
            r.push(token);
            i = j;
        }
    }
    assert(texts(r@) + Seq::<Seq<char>>::empty() =~= texts(r@));
    r
}

/// The index of the first occurrence of `sep` in `s`, or the length of `s`
/// if there is none.
pub open spec fn index_of(s: Seq<char>, sep: char) -> nat
    decreases s.len(),
{
    if s.len() == 0 || s[0] == sep {
        0
    } else {
        1 + index_of(s.drop_first(), sep)
    }
}

/// The first occurrence of a separator lies within the text, or at its end.
pub proof fn lemma_index_of_bound(s: Seq<char>, sep: char)
    ensures
        index_of(s, sep) <= s.len(),
    decreases s.len(),
{
    if s.len() > 0 && s[0] != sep {
        lemma_index_of_bound(s.drop_first(), sep);
    }
}

/// The pieces of `s` between occurrences of `sep`, in order, empty pieces
/// included. There is always at least one piece.
pub open spec fn split_on(s: Seq<char>, sep: char) -> Seq<Seq<char>>
    decreases s.len(),
{
    let n = index_of(s, sep) as int;
    if n < s.len() {
        seq![s.take(n)] + split_on(s.skip(n + 1), sep)
    } else {
        seq![s]
    }
}

/// Splits `v` at every occurrence of `sep`.
pub fn split_at_char(v: &Vec<char>, sep: char) -> (r: Vec<Vec<char>>)
    ensures
        texts(r@) == split_on(v@, sep),
{
    let n: usize = v.len();
    let mut r: Vec<Vec<char>> = Vec::new();
    let mut start: usize = 0;
    let mut j: usize = 0;
    assert(v@.skip(0) =~= v@);
    assert(texts(r@) + split_on(v@, sep) =~= split_on(v@, sep));
    while j < n
        invariant
            start <= j <= n == v.len(),
            split_on(v@, sep) == texts(r@) + split_on(v@.skip(start as int), sep),
            index_of(v@.skip(start as int), sep) == (j - start) + index_of(v@.skip(j as int), sep),
        decreases n - j,
    {
        let ghost rest = v@.skip(start as int);
        if v[j] == sep {
            let piece = slice_of(v, start, j);
            proof {
                assert(index_of(rest, sep) == j - start);
                assert(rest.take(j - start) =~= piece@);
                assert(rest.skip(j - start + 1) =~= v@.skip(j + 1));
                let ghost before = texts(r@);
                assert(texts(r@.push(piece)) =~= before + seq![piece@]);
                assert(before + (seq![piece@] + split_on(v@.skip(j + 1), sep)) =~= (before
                    + seq![piece@]) + split_on(v@.skip(j + 1), sep));
            }
            r.push(piece);
            start = j + 1;
            j = start;
        } else {
            assert(v@.skip(j as int).drop_first() =~= v@.skip(j + 1));
            j += 1;
        }
    }
    let last = slice_of(v, start, n);
    proof {
        let ghost rest = v@.skip(start as int);
        assert(index_of(rest, sep) == rest.len());
        assert(rest =~= last@);
        assert(texts(r@.push(last)) =~= texts(r@) + seq![last@]);
    }
    r.push(last);
    r
}

} // verus!
