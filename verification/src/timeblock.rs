//! The time block: the seconds elapsed since the enrollment epoch, written
//! as sixteen upper-case hexadecimal digits.

use vstd::prelude::*;
use crate::decimal::zeros;
use crate::hexcode::all_upper_hex;
use crate::hexcode::hex_bytes;
use crate::hexcode::hex_digits;
use crate::hexcode::hex_value;
use crate::hexcode::is_hex_text;
use crate::hexcode::lemma_hex_digits_shape;
use crate::hexcode::render_hex16;
use crate::hexcode::upper_hex_char;
use crate::text::string_of;

verus! {

/// The seconds from `epoch` to `now`, or zero where `now` is not after
/// `epoch`.
pub open spec fn elapsed(now: int, epoch: int) -> nat {
    if now > epoch {
        (now - epoch) as nat
    } else {
        0
    }
}

/// The number of values that `width` hexadecimal digits can tell apart.
pub open spec fn capacity(width: nat) -> nat
    decreases width,
{
    if width == 0 {
        1
    } else {
        16 * capacity((width - 1) as nat)
    }
}

/// The time block for a number of elapsed seconds.
pub open spec fn time_block(seconds: nat) -> Seq<char> {
    hex_digits(seconds, 16)
}

/// The time block at the second `now` for an epoch at the second `epoch`.
pub open spec fn encode_spec(now: int, epoch: int) -> Seq<char> {
    time_block(elapsed(now, epoch))
}

/// The order of texts in which the first character that differs decides,
/// and a text comes after each of its beginnings.
pub open spec fn text_le(a: Seq<char>, b: Seq<char>) -> bool {
    ||| a.len() <= b.len() && a == b.take(a.len() as int)
    ||| exists|k: int| 0 <= k < a.len() && k < b.len() && a.take(k) == b.take(k) && a[k] < b[k]
}

/// Whether `a` and `b` are the same up to some place, where `a` has the
/// smaller character.
pub open spec fn text_lt_at(a: Seq<char>, b: Seq<char>, k: int) -> bool {
    0 <= k < a.len() && k < b.len() && a.take(k) == b.take(k) && a[k] < b[k]
}

/// The number that the hexadecimal digits `s` denote, most significant digit
/// first. The empty text denotes zero.
pub open spec fn hex_number(s: Seq<char>) -> nat
    decreases s.len(),
{
    if s.len() == 0 {
        0
    } else {
        (16 * hex_number(s.drop_last()) + hex_value(s.last())) as nat
    }
}

/// The digits of a number that fits in `width` hexadecimal digits denote
/// that number.
pub proof fn lemma_hex_digits_denote(n: nat, width: nat)
    requires
        n < capacity(width),
    ensures
        hex_number(hex_digits(n, width)) == n,
    decreases width,
{
    if width > 0 {
        let shorter = hex_digits(n / 16, (width - 1) as nat);
        let all = hex_digits(n, width);
        lemma_hex_digits_denote(n / 16, (width - 1) as nat);
        assert(all.drop_last() =~= shorter);
        assert(hex_value(all.last()) == n % 16);
    }
}

/// A time block denotes the seconds elapsed: the digits of the block, read
/// as a number with the most significant digit first, are the seconds from
/// the epoch to "now", or zero where "now" is not after the epoch.
pub proof fn lemma_time_block_denotes_elapsed(now: i64, epoch: i64)
    ensures
        hex_number(encode_spec(now as int, epoch as int)) == elapsed(now as int, epoch as int),
        now > epoch ==> hex_number(encode_spec(now as int, epoch as int)) == now - epoch,
        now <= epoch ==> hex_number(encode_spec(now as int, epoch as int)) == 0,
{
    lemma_capacity_16();
    lemma_hex_digits_denote(elapsed(now as int, epoch as int), 16);
}

/// Sixteen hexadecimal digits tell apart as many values as 64 bits do.
pub proof fn lemma_capacity_16()
    ensures
        capacity(16) == 0x1_0000_0000_0000_0000,
{
    reveal_with_fuel(capacity, 17);
}

/// Of two numbers that fit in `width` hexadecimal digits, the smaller one
/// has the digits that come first: at the first place where the digits
/// differ, its digit is the smaller.
pub proof fn lemma_hex_digits_strictly_ordered(x: nat, y: nat, width: nat) -> (k: int)
    requires
        x < y < capacity(width),
    ensures
        text_lt_at(hex_digits(x, width), hex_digits(y, width), k),
    decreases width,
{
    lemma_hex_digits_shape(x, width);
    lemma_hex_digits_shape(y, width);
    if width == 0 {
        0
    } else {
        let w = (width - 1) as nat;
        let hx = hex_digits(x, width);
        let hy = hex_digits(y, width);
        let sx = hex_digits(x / 16, w);
        let sy = hex_digits(y / 16, w);
        lemma_hex_digits_shape(x / 16, w);
        lemma_hex_digits_shape(y / 16, w);
        if x / 16 < y / 16 {
            let k = lemma_hex_digits_strictly_ordered(x / 16, y / 16, w);
            assert(hx.take(k) =~= sx.take(k));
            assert(hy.take(k) =~= sy.take(k));
            assert(hx[k] == sx[k] && hy[k] == sy[k]);
            k
        } else {
            assert(x / 16 == y / 16);
            assert(x % 16 < y % 16);
            assert(hx.take(w as int) =~= sx);
            assert(hy.take(w as int) =~= sy);
            assert(upper_hex_char((x % 16) as int) < upper_hex_char((y % 16) as int));
            w as int
        }
    }
}

/// A later "now" never gives an earlier time block: for a fixed epoch the
/// time block does not decrease, in the order of texts, as "now" grows.
pub proof fn lemma_encode_monotonic(now: i64, later: i64, epoch: i64)
    requires
        now <= later,
    ensures
        text_le(encode_spec(now as int, epoch as int), encode_spec(later as int, epoch as int)),
        elapsed(now as int, epoch as int) <= elapsed(later as int, epoch as int),
{
    let x = elapsed(now as int, epoch as int);
    let y = elapsed(later as int, epoch as int);
    lemma_capacity_16();
    lemma_hex_digits_shape(x, 16);
    lemma_hex_digits_shape(y, 16);
    if x < y {
        let k = lemma_hex_digits_strictly_ordered(x, y, 16);
    } else {
        assert(x == y);
        assert(time_block(y).take(16) =~= time_block(y));
    }
}

/// Two "now"s with different elapsed times give different time blocks.
pub proof fn lemma_encode_injective(now: i64, other: i64, epoch: i64)
    requires
        encode_spec(now as int, epoch as int) == encode_spec(other as int, epoch as int),
    ensures
        elapsed(now as int, epoch as int) == elapsed(other as int, epoch as int),
{
    let x = elapsed(now as int, epoch as int);
    let y = elapsed(other as int, epoch as int);
    lemma_capacity_16();
    if x < y {
        let k = lemma_hex_digits_strictly_ordered(x, y, 16);
    } else if y < x {
        let k = lemma_hex_digits_strictly_ordered(y, x, 16);
    }
}

/// The time block of zero elapsed seconds is sixteen zeros.
pub proof fn lemma_time_block_zero()
    ensures
        time_block(0) == zeros(16),
        time_block(0) == "0000000000000000"@,
{
    reveal_with_fuel(hex_digits, 17);
    assert(time_block(0) =~= zeros(16));
    reveal_strlit("0000000000000000");
    assert(zeros(16) =~= "0000000000000000"@);
}

/// A "now" that is not after the epoch gives the time block of sixteen
/// zeros.
pub proof fn lemma_encode_not_after_epoch(now: int, epoch: int)
    requires
        now <= epoch,
    ensures
        encode_spec(now, epoch) == "0000000000000000"@,
{
    lemma_time_block_zero();
}

/// A time block is sixteen upper-case hexadecimal digits, and so denotes
/// eight bytes.
pub proof fn lemma_time_block_shape(seconds: nat)
    ensures
        time_block(seconds).len() == 16,
        all_upper_hex(time_block(seconds)),
        is_hex_text(time_block(seconds)),
        hex_bytes(time_block(seconds)).len() == 8,
{
    lemma_hex_digits_shape(seconds, 16);
}

/// The time block for `seconds` elapsed seconds.
pub fn encode_elapsed(seconds: u64) -> (r: String)
    ensures
        r@ == time_block(seconds as nat),
        r@.len() == 16,
{
    proof {
        lemma_time_block_shape(seconds as nat);
    }
    string_of(&render_hex16(seconds))
}

/// The seconds from `epoch` to `now`, or zero where `now` is not after
/// `epoch`.
pub fn elapsed_seconds(now: i64, epoch: i64) -> (r: u64)
    ensures
        r == elapsed(now as int, epoch as int),
{
    if now > epoch {
        (now as i128 - epoch as i128) as u64
    } else {
        0
    }
}

/// The time block at `now` for an enrollment epoch at `epoch`, both in
/// seconds: the seconds elapsed since the epoch as sixteen upper-case
/// hexadecimal digits, and sixteen zeros where `now` is not after the epoch.
pub fn encode(now: i64, epoch: i64) -> (r: String)
    ensures
        r@ == encode_spec(now as int, epoch as int),
        r@.len() == 16,
        now <= epoch ==> r@ == "0000000000000000"@,
{
    proof {
        lemma_time_block_zero();
    }
    encode_elapsed(elapsed_seconds(now, epoch))
}

/// The time block at `offset` seconds after `now`, where the seconds elapsed
/// since the epoch then fit in sixteen hexadecimal digits; `None` where they
/// do not.
pub fn encode_at(now: i64, offset: i64, epoch: i64) -> (r: Option<String>)
    ensures
        match r {
            Some(block) => elapsed(now + offset, epoch as int) < capacity(16) && block@
                == encode_spec(now + offset, epoch as int),
            None => elapsed(now + offset, epoch as int) >= capacity(16),
        },
{
    proof {
        lemma_capacity_16();
    }
    let distance: i128 = now as i128 + offset as i128 - epoch as i128;
    if distance <= 0 {
        Some(encode_elapsed(0))
    } else if distance <= 0xFFFF_FFFF_FFFF_FFFF {
        Some(encode_elapsed(distance as u64))
    } else {
        None
    }
}

} // verus!
