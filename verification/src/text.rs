//! Exact decimal formatting for report and signal text.
//!
//! The specification functions define the decimal digit string of a
//! number, and the executable builders are proved to produce exactly that
//! character sequence, so contracts elsewhere can pin whole description
//! strings down to the character.

use vstd::prelude::*;

use crate::SCALE;

verus! {

/// The character of one decimal digit.
pub open spec fn digit_char(d: int) -> char {
    if d == 0 {
        '0'
    } else if d == 1 {
        '1'
    } else if d == 2 {
        '2'
    } else if d == 3 {
        '3'
    } else if d == 4 {
        '4'
    } else if d == 5 {
        '5'
    } else if d == 6 {
        '6'
    } else if d == 7 {
        '7'
    } else if d == 8 {
        '8'
    } else {
        '9'
    }
}

/// The decimal digit string of a non-negative number, most significant
/// digit first, without leading zeros (a lone zero for 0).
pub open spec fn dec_str(n: int) -> Seq<char>
    decreases n,
{
    if n < 10 {
        seq![digit_char(n)]
    } else {
        dec_str(n / 10).push(digit_char(n % 10))
    }
}

/// A fixed-point value of [`SCALE`] units rendered with two decimal
/// places, truncated: the whole part, a point, tenths and hundredths.
pub open spec fn two_dp_str(x: int) -> Seq<char> {
    dec_str(x / SCALE as int).push('.').push(digit_char((x % SCALE as int) / 100_000)).push(
        digit_char(((x % SCALE as int) / 10_000) % 10),
    )
}

/// One decimal digit as a string slice.
fn digit_str(d: u64) -> (r: &'static str)
    requires
        d < 10,
    ensures
        r@ == seq![digit_char(d as int)],
{
    proof {
        reveal_strlit("0");
        reveal_strlit("1");
        reveal_strlit("2");
        reveal_strlit("3");
        reveal_strlit("4");
        reveal_strlit("5");
        reveal_strlit("6");
        reveal_strlit("7");
        reveal_strlit("8");
        reveal_strlit("9");
    }
    match d {
        0 => "0",
        1 => "1",
        2 => "2",
        3 => "3",
        4 => "4",
        5 => "5",
        6 => "6",
        7 => "7",
        8 => "8",
        _ => "9",
    }
}

/// Append the decimal digits of `n` to `s`.
pub fn push_u64(s: &mut String, n: u64)
    ensures
        final(s)@ == old(s)@ + dec_str(n as int),
    decreases n,
{
    if n < 10 {
        s.append(digit_str(n));
    } else {
        push_u64(s, n / 10);
        s.append(digit_str(n % 10));
    }
}

/// The decimal digit string of `n`.
pub fn fmt_u64(n: u64) -> (r: String)
    ensures
        r@ == dec_str(n as int),
{
    let mut s = String::new();
    push_u64(&mut s, n);
    proof {
        assert(Seq::<char>::empty() + dec_str(n as int) =~= dec_str(n as int));
    }
    s
}

/// Append a fixed-point value with two decimal places to `s`.
pub fn push_scaled_2dp(s: &mut String, x: u64)
    ensures
        final(s)@ == old(s)@ + two_dp_str(x as int),
{
    push_u64(s, x / SCALE);
    proof {
        reveal_strlit(".");
    }
    s.append(".");
    let frac = x % SCALE;
    s.append(digit_str(frac / 100_000));
    s.append(digit_str((frac / 10_000) % 10));
    proof {
        assert(s@ =~= old(s)@ + two_dp_str(x as int));
    }
}

} // verus!
