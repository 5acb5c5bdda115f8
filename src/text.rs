//! Rendering of numbers and strings as text, as they appear in messages and query documents.

use vstd::prelude::*;

verus! {

/// The decimal digit character for `d` (which is below ten).
pub open spec fn digit_char(d: nat) -> char {
    if d == 0 { '0' }
    else if d == 1 { '1' }
    else if d == 2 { '2' }
    else if d == 3 { '3' }
    else if d == 4 { '4' }
    else if d == 5 { '5' }
    else if d == 6 { '6' }
    else if d == 7 { '7' }
    else if d == 8 { '8' }
    else { '9' }
}

/// Decimal representation of `n`, without leading zeros.
pub open spec fn decimal(n: nat) -> Seq<char>
    decreases n,
{
    if n < 10 {
        seq![digit_char(n)]
    } else {
        decimal(n / 10).push(digit_char(n % 10))
    }
}

/// The last `width` decimal digits of `n`, padded with leading zeros.
pub open spec fn padded_decimal(n: nat, width: nat) -> Seq<char>
    decreases width,
{
    if width == 0 {
        Seq::empty()
    } else {
        padded_decimal(n / 10, (width - 1) as nat).push(digit_char(n % 10))
    }
}

/// Number of fractional digits of a fixed-point value in millionths.
pub open spec fn micro_scale() -> nat {
    1_000_000
}

/// Decimal text of a value given in millionths: sign, integer part, point, six digits.
pub open spec fn micro_decimal(v: int) -> Seq<char> {
    let m: nat = if v < 0 { (-v) as nat } else { v as nat };
    let sign: Seq<char> = if v < 0 { seq!['-'] } else { Seq::empty() };
    sign + decimal(m / micro_scale()) + seq!['.'] + padded_decimal(m % micro_scale(), 6)
}

fn digit_str(d: u64) -> (r: &'static str)
    requires
        d < 10,
    ensures
        r@ == seq![digit_char(d as nat)],
{
    proof {
        reveal_strlit("0");
        reveal_strlit("1");
        reveal_strlit("2");
        reveal_strlit("3");
        reveal_strlit("4");
        reveal_strlit("5");
        reveal_strlit("6");
        reveal_strlit("7");
        reveal_strlit("8");
        reveal_strlit("9");
    }
    match d {
        0 => "0",
        1 => "1",
        2 => "2",
        3 => "3",
        4 => "4",
        5 => "5",
        6 => "6",
        7 => "7",
        8 => "8",
        _ => "9",
    }
}

/// Appends the decimal representation of `n` to `s`.
pub fn push_decimal(s: &mut String, n: u64)
    ensures
        final(s)@ == old(s)@ + decimal(n as nat),
    decreases n,
{
    if n >= 10 {
        push_decimal(s, n / 10);
    }
    s.append(digit_str(n % 10));
    proof {
        if n >= 10 {
            assert(decimal(n as nat) == decimal((n / 10) as nat).push(digit_char((n % 10) as nat)));
        }
    }
    assert(s@ =~= old(s)@ + decimal(n as nat));
}

/// Appends the last `width` digits of `n`, zero-padded.
fn push_padded_decimal(s: &mut String, n: u64, width: u64)
    ensures
        final(s)@ == old(s)@ + padded_decimal(n as nat, width as nat),
    decreases width,
{
    if width > 0 {
        push_padded_decimal(s, n / 10, width - 1);
        s.append(digit_str(n % 10));
        assert(s@ =~= old(s)@ + padded_decimal(n as nat, width as nat));
    } else {
        assert(s@ =~= old(s)@ + padded_decimal(n as nat, width as nat));
    }
}

/// Appends the decimal text of a value in millionths, e.g. `-12.500000` for `-12_500_000`.
pub fn push_micro_decimal(s: &mut String, v: i64)
    ensures
        final(s)@ == old(s)@ + micro_decimal(v as int),
{
    let m: u64 = if v < 0 { (0i128 - v as i128) as u64 } else { v as u64 };
    let ghost before = s@;
    if v < 0 {
        proof { reveal_strlit("-"); }
        s.append("-");
    }
    push_decimal(s, m / 1_000_000);
    proof { reveal_strlit("."); }
    s.append(".");
    push_padded_decimal(s, m % 1_000_000, 6);
    assert(s@ =~= before + micro_decimal(v as int));
}

} // verus!
