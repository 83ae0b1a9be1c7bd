//! Decimal rendering of fixed-point values.
//!
//! A value counting thousandths is printed as a plain decimal with up to
//! three fractional digits and no trailing zeros: `10000` prints as `10`,
//! `10500` as `10.5`, `-500` as `-0.5`. The spec functions here define the
//! exact character sequences; the executable functions append them to a
//! `String` and are proved to match.

use vstd::prelude::*;

verus! {

/// The decimal digit character for `n < 10`.
pub open spec fn digit_char(n: int) -> char {
    if n == 0 {
        '0'
    } else if n == 1 {
        '1'
    } else if n == 2 {
        '2'
    } else if n == 3 {
        '3'
    } else if n == 4 {
        '4'
    } else if n == 5 {
        '5'
    } else if n == 6 {
        '6'
    } else if n == 7 {
        '7'
    } else if n == 8 {
        '8'
    } else {
        '9'
    }
}

/// Decimal digits of a nonnegative integer, most significant first.
pub open spec fn dec_chars(n: nat) -> Seq<char>
    decreases n,
{
    if n < 10 {
        seq![digit_char(n as int)]
    } else {
        dec_chars(n / 10).push(digit_char((n % 10) as int))
    }
}

/// The fractional suffix for `f` thousandths (`0 <= f < 1000`): empty when
/// zero, otherwise a point followed by the significant digits.
pub open spec fn frac_chars(f: nat) -> Seq<char>
    recommends
        f < 1000,
{
    if f == 0 {
        Seq::<char>::empty()
    } else if f % 100 == 0 {
        seq!['.', digit_char((f / 100) as int)]
    } else if f % 10 == 0 {
        seq!['.', digit_char((f / 100) as int), digit_char(((f / 10) % 10) as int)]
    } else {
        seq![
            '.',
            digit_char((f / 100) as int),
            digit_char(((f / 10) % 10) as int),
            digit_char((f % 10) as int),
        ]
    }
}

/// The printed form of a fixed-point value counting thousandths.
#[verifier::opaque]
pub open spec fn milli_chars(v: int) -> Seq<char> {
    let a = crate::num::abs_int(v) as nat;
    let sign: Seq<char> = if v < 0 {
        seq!['-']
    } else {
        Seq::<char>::empty()
    };
    sign + dec_chars(a / 1000) + frac_chars(a % 1000)
}

/// The printed form of a nonnegative integer (a count, not a coordinate).
pub open spec fn uint_chars(n: nat) -> Seq<char> {
    dec_chars(n)
}

/// Append the digit character for `d` to `s`.
fn append_digit(s: &mut String, d: u64)
    requires
        d < 10,
    ensures
        final(s)@ == old(s)@ + seq![digit_char(d as int)],
{
    proof {
        reveal_strlit("0");
        reveal_strlit("1");
        reveal_strlit("2");
        reveal_strlit("3");
        reveal_strlit("4");
        reveal_strlit("5");
        reveal_strlit("6");
        reveal_strlit("7");
        reveal_strlit("8");
        reveal_strlit("9");
    }
    if d == 0 {
        s.append("0");
    } else if d == 1 {
        s.append("1");
    } else if d == 2 {
        s.append("2");
    } else if d == 3 {
        s.append("3");
    } else if d == 4 {
        s.append("4");
    } else if d == 5 {
        s.append("5");
    } else if d == 6 {
        s.append("6");
    } else if d == 7 {
        s.append("7");
    } else if d == 8 {
        s.append("8");
    } else {
        s.append("9");
    }
    proof {
        assert(s@ =~= old(s)@ + seq![digit_char(d as int)]);
    }
}

/// Append the decimal digits of `n` to `s`.
pub fn append_uint(s: &mut String, n: u64)
    ensures
        final(s)@ == old(s)@ + dec_chars(n as nat),
    decreases n,
{
    if n < 10 {
        append_digit(s, n);
    } else {
        append_uint(s, n / 10);
        append_digit(s, n % 10);
        proof {
            assert(s@ =~= old(s)@ + dec_chars(n as nat));
        }
    }
}

/// Append the printed form of the fixed-point value `v` to `s`.
pub fn append_milli(s: &mut String, v: i64)
    ensures
        final(s)@ == old(s)@ + milli_chars(v as int),
{
    proof {
        reveal(milli_chars);
    }
    let a: u64 = if v < 0 {
        proof {
            reveal_strlit("-");
        }
        s.append("-");
        if v == i64::MIN {
            0x8000_0000_0000_0000u64
        } else {
            (-v) as u64
        }
    } else {
        v as u64
    };
    let ip = a / 1000;
    let f = a % 1000;
    append_uint(s, ip);
    if f != 0 {
        proof {
            reveal_strlit(".");
        }
        s.append(".");
        if f % 100 == 0 {
            append_digit(s, f / 100);
        } else if f % 10 == 0 {
            append_digit(s, f / 100);
            append_digit(s, (f / 10) % 10);
        } else {
            append_digit(s, f / 100);
            append_digit(s, (f / 10) % 10);
            append_digit(s, f % 10);
        }
    }
    proof {
        assert(s@ =~= old(s)@ + milli_chars(v as int));
    }
}

} // verus!
