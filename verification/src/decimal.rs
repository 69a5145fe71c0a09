//! Decimal integers as text: reading an integer with an optional sign, and
//! writing one with zero padding.

use vstd::prelude::*;

verus! {

/// Whether `c` is one of the ten decimal digits.
pub open spec fn is_digit(c: char) -> bool {
    '0' <= c <= '9'
}

/// The number that the decimal digit `c` stands for.
pub open spec fn digit_value(c: char) -> int {
    c as int - 48
}

/// Whether every character of `s` is a decimal digit.
pub open spec fn all_digits(s: Seq<char>) -> bool {
    forall|i: int| 0 <= i < s.len() ==> is_digit(#[trigger] s[i])
}

/// The number that the digit string `s` denotes, leading zeros allowed. The
/// empty string denotes zero.
pub open spec fn decimal_value(s: Seq<char>) -> int
    decreases s.len(),
{
    if s.len() == 0 {
        0
    } else {
        10 * decimal_value(s.drop_last()) + digit_value(s.last())
    }
}

/// A digit string denotes a number that is not negative.
pub proof fn lemma_decimal_value_nonnegative(s: Seq<char>)
    requires
        all_digits(s),
    ensures
        decimal_value(s) >= 0,
    decreases s.len(),
{
    if s.len() > 0 {
        lemma_decimal_value_nonnegative(s.drop_last());
    }
}

/// Whether `s` starts with a plus or a minus sign.
pub open spec fn has_sign(s: Seq<char>) -> bool {
    s.len() > 0 && (s[0] == '+' || s[0] == '-')
}

/// The digits of `s`: all of it but a leading sign.
pub open spec fn digits_of(s: Seq<char>) -> Seq<char> {
    if has_sign(s) {
        s.drop_first()
    } else {
        s
    }
}

/// The integer that `s` denotes, if `s` is an optional sign followed by at
/// least one decimal digit and the number lies between `min` and `max`.
/// A minus sign is accepted only where negative numbers are (`min < 0`).
/// Nothing else may stand in `s`: no whitespace, no separators.
pub open spec fn integer_of(s: Seq<char>, min: int, max: int) -> Option<int> {
    let digits = digits_of(s);
    let negative = s.len() > 0 && s[0] == '-';
    let value = if negative {
        -decimal_value(digits)
    } else {
        decimal_value(digits)
    };
    if digits.len() > 0 && all_digits(digits) && (negative ==> min < 0) && min <= value <= max {
        Some(value)
    } else {
        None
    }
}

/// Reads a decimal integer between `min` and `max` from `v`: an optional
/// sign, then decimal digits and nothing else. A minus sign is accepted only
/// where `min` is negative.
pub fn parse_integer(v: &Vec<char>, min: i64, max: i64) -> (r: Option<i64>)
    ensures
        match r {
            Some(x) => integer_of(v@, min as int, max as int) == Some(x as int),
            None => integer_of(v@, min as int, max as int) is None,
        },
{
    let n: usize = v.len();
    if n == 0 {
        return None;
    }
    let negative: bool = v[0] == '-';
    let start: usize = if v[0] == '+' || v[0] == '-' {
        1
    } else {
        0
    };
    let ghost digits = digits_of(v@);
    assert(digits =~= v@.subrange(start as int, n as int));
    if start == n || (negative && min >= 0) {
        return None;
    }
    let mut acc: i128 = 0;
    let mut over: bool = false;
    let mut k: usize = start;
    assert(digits.take(0) =~= Seq::<char>::empty());
    while k < n
        invariant
            start <= k <= n == v.len(),
            digits == digits_of(v@),
            digits == v@.subrange(start as int, n as int),
            all_digits(digits.take(k - start)),
            !over ==> acc == decimal_value(digits.take(k - start)) && 0 <= acc
                <= 0x8000_0000_0000_0000,
            over ==> decimal_value(digits.take(k - start)) > 0x8000_0000_0000_0000,
        decreases n - k,
    {
        let c: char = v[k];
        let ghost before = digits.take(k - start);
        let ghost after = digits.take(k - start + 1);
        proof {
            assert(after.drop_last() =~= before);
            assert(after.last() == c);
            lemma_decimal_value_nonnegative(before);
        }
        if !(c >= '0' && c <= '9') {
            assert(!is_digit(digits[k - start]));
            return None;
        }
        let d: i128 = (c as u32 - 48) as i128;
        assert(d == digit_value(c));
        if !over {
            acc = acc * 10 + d;
            if acc > 0x8000_0000_0000_0000 {
                over = true;
            }
        }
        assert(all_digits(after)) by {
            assert forall|i: int| 0 <= i < after.len() implies is_digit(#[trigger] after[i]) by {
                if i < before.len() {
                    assert(after[i] == before[i]);
                }
            }
        }
        k += 1;
    }
    assert(digits.take(n - start) =~= digits);
    if over {
        return None;
    }
    let value: i128 = if negative {
        -acc
    } else {
        acc
    };
    if min as i128 <= value && value <= max as i128 {
        Some(value as i64)
    } else {
        None
    }
}

/// The number that `s` denotes, if `s` is exactly `width` decimal digits and
/// nothing else, and the number fits in 32 bits. No sign is accepted, and no
/// digit may be left out or added.
pub open spec fn fixed_number(s: Seq<char>, width: nat) -> Option<int> {
    if s.len() == width && all_digits(s) && decimal_value(s) <= u32::MAX {
        Some(decimal_value(s))
    } else {
        None
    }
}

/// Reads a number that is written with exactly `width` decimal digits.
pub fn parse_fixed(v: &Vec<char>, width: usize) -> (r: Option<u32>)
    ensures
        match r {
            Some(x) => fixed_number(v@, width as nat) == Some(x as int),
            None => fixed_number(v@, width as nat) is None,
        },
{
    if v.len() != width {
        return None;
    }
    if width == 0 {
        return Some(0);
    }
    if v[0] == '+' || v[0] == '-' {
        assert(!is_digit(v@[0]));
        return None;
    }
    assert(digits_of(v@) == v@);
    proof {
        if all_digits(v@) {
            lemma_decimal_value_nonnegative(v@);
        }
    }
    match parse_integer(v, 0, 0xFFFF_FFFF) {
        Some(x) => Some(x as u32),
        None => None,
    }
}

/// The character of the decimal digit `d`.
pub open spec fn digit_char(d: int) -> char {
    (d + 48) as char
}

/// The decimal digits of `n`, most significant first, without leading zeros.
pub open spec fn decimal_text(n: nat) -> Seq<char>
    decreases n,
{
    if n < 10 {
        seq![digit_char(n as int)]
    } else {
        decimal_text(n / 10).push(digit_char((n % 10) as int))
    }
}

/// A run of `k` zero digits.
pub open spec fn zeros(k: nat) -> Seq<char> {
    Seq::new(k, |i: int| '0')
}

/// The number `n` written in decimal and padded with zeros to at least
/// `width` characters. A negative number starts with a minus sign, which
/// counts toward the width and stands before the zeros.
pub open spec fn padded(n: int, width: nat) -> Seq<char> {
    let sign = if n < 0 {
        seq!['-']
    } else {
        Seq::<char>::empty()
    };
    let digits = decimal_text(
        (if n < 0 {
            -n
        } else {
            n
        }) as nat,
    );
    let fill = if sign.len() + digits.len() < width {
        zeros((width - sign.len() - digits.len()) as nat)
    } else {
        Seq::<char>::empty()
    };
    sign + fill + digits
}

/// The character of the decimal digit `d`.
fn digit_to_char(d: u64) -> (c: char)
    requires
        d < 10,
    ensures
        c == digit_char(d as int),
        is_digit(c),
{
    match d {
        0 => '0',
        1 => '1',
        2 => '2',
        3 => '3',
        4 => '4',
        5 => '5',
        6 => '6',
        7 => '7',
        8 => '8',
        _ => '9',
    }
}

/// Writes `n` in decimal, padded with zeros to at least `width` characters.
pub fn render_padded(n: i64, width: usize) -> (r: Vec<char>)
    ensures
        r@ == padded(n as int, width as nat),
{
    let magnitude: u64 = if n < 0 {
        (-(n as i128)) as u64
    } else {
        n as u64
    };
    let mut reversed: Vec<char> = Vec::new();
    let mut m: u64 = magnitude;
    assert(decimal_text(m as nat) + reversed@.reverse() =~= decimal_text(m as nat));
    while m >= 10
        invariant
            decimal_text(magnitude as nat) == decimal_text(m as nat) + reversed@.reverse(),
        decreases m,
    {
        let c = digit_to_char(m % 10);
        proof {
            let ghost shorter = decimal_text((m / 10) as nat);
            assert(reversed@.push(c).reverse() =~= seq![c] + reversed@.reverse());
            assert(shorter.push(c) + reversed@.reverse() =~= shorter + (seq![c]
                + reversed@.reverse()));
        }
        reversed.push(c);
        m = m / 10;
    }
    let c = digit_to_char(m);
    proof {
        assert(reversed@.push(c).reverse() =~= seq![c] + reversed@.reverse());
    }
    reversed.push(c);
    let ghost digits = decimal_text(magnitude as nat);
    assert(digits == reversed@.reverse());
    let mut r: Vec<char> = Vec::new();
    if n < 0 {
        r.push('-');
    }
    let ghost sign = r@;
    let used: usize = r.len();
    let count: usize = reversed.len();
    let have: u128 = used as u128 + count as u128;
    let wanted: usize = if have < width as u128 {
        (width as u128 - have) as usize
    } else {
        0
    };
    let mut fill: usize = 0;
    assert(sign + zeros(0) =~= sign);
    while fill < wanted
        invariant
            fill <= wanted,
            r@ == sign + zeros(fill as nat),
        decreases wanted - fill,
    {
        r.push('0');
        assert((sign + zeros(fill as nat)).push('0') =~= sign + zeros((fill + 1) as nat));
        fill += 1;
    }
    let ghost fill_text = zeros(fill as nat);
    let mut k: usize = count;
    assert(digits.take(0) =~= Seq::<char>::empty());
    assert(sign + fill_text + digits.take(0) =~= sign + fill_text);
    while k > 0
        invariant
            k <= count == reversed.len(),
            digits == reversed@.reverse(),
            r@ == sign + fill_text + digits.take(count - k),
        decreases k,
    {
        k -= 1;
        r.push(reversed[k]);
        assert(digits[count - 1 - k] == reversed@[k as int]);
        assert((sign + fill_text + digits.take(count - k - 1)).push(digits[count - 1 - k]) =~= sign
            + fill_text + digits.take(count - k));
    }
    assert(digits.take(count as int) =~= digits);
    r
}

} // verus!
