//! Verified text building: comparison of strings and decimal rendering of
//! integers and fixed-point values.

use vstd::prelude::*;
use vstd::string::*;

verus! {

/// Whether two strings hold the same characters.
pub fn same_text(a: &str, b: &str) -> (r: bool)
    ensures
        r == (a@ == b@),
{
    let n = a.unicode_len();
    if n != b.unicode_len() {
        return false;
    }
    let mut i: usize = 0;
    while i < n
        invariant
            n == a@.len() == b@.len(),
            i <= n,
            a@.subrange(0, i as int) == b@.subrange(0, i as int),
        decreases n - i,
    {
        if a.get_char(i) != b.get_char(i) {
            assert(a@[i as int] != b@[i as int]);
            return false;
        }
        assert(a@.subrange(0, i + 1) =~= a@.subrange(0, i as int).push(a@[i as int]));
        assert(b@.subrange(0, i + 1) =~= b@.subrange(0, i as int).push(b@[i as int]));
        i = i + 1;
    }
    assert(a@ =~= a@.subrange(0, n as int));
    assert(b@ =~= b@.subrange(0, n as int));
    true
}

/// The character of a decimal digit.
pub open spec fn digit_char(d: nat) -> char {
    if d == 0 { '0' }
    else if d == 1 { '1' }
    else if d == 2 { '2' }
    else if d == 3 { '3' }
    else if d == 4 { '4' }
    else if d == 5 { '5' }
    else if d == 6 { '6' }
    else if d == 7 { '7' }
    else if d == 8 { '8' }
    else { '9' }
}

/// Decimal digits of a natural number, most significant first, without leading zeros.
pub open spec fn decimal(n: nat) -> Seq<char>
    decreases n,
{
    if n < 10 {
        seq![digit_char(n)]
    } else {
        decimal(n / 10).push(digit_char(n % 10))
    }
}

/// Decimal text of an integer, with a leading '-' when negative.
pub open spec fn signed_decimal(n: int) -> Seq<char> {
    if n < 0 {
        seq!['-'] + decimal((-n) as nat)
    } else {
        decimal(n as nat)
    }
}

/// Fixed-point text of `v / 10^places`, places being 1 or 2: the whole part,
/// a point, and exactly `places` fractional digits.
pub open spec fn fixed_point(v: nat, places: nat) -> Seq<char> {
    if places == 1 {
        decimal(v / 10) + seq!['.', digit_char(v % 10)]
    } else {
        decimal(v / 100) + seq!['.', digit_char((v / 10) % 10), digit_char(v % 10)]
    }
}

/// `v / d` rounded to the nearest integer, halves upward.
pub open spec fn rounded_div(v: nat, d: nat) -> nat
    recommends
        d > 0,
{
    ((v + d / 2) / d) as nat
}

fn digit_text(d: u64) -> (r: &'static str)
    requires
        d < 10,
    ensures
        r@ == seq![digit_char(d as nat)],
{
    proof {
        reveal_strlit("0");
        reveal_strlit("1");
        reveal_strlit("2");
        reveal_strlit("3");
        reveal_strlit("4");
        reveal_strlit("5");
        reveal_strlit("6");
        reveal_strlit("7");
        reveal_strlit("8");
        reveal_strlit("9");
    }
    if d == 0 {
        "0"
    } else if d == 1 {
        "1"
    } else if d == 2 {
        "2"
    } else if d == 3 {
        "3"
    } else if d == 4 {
        "4"
    } else if d == 5 {
        "5"
    } else if d == 6 {
        "6"
    } else if d == 7 {
        "7"
    } else if d == 8 {
        "8"
    } else {
        "9"
    }
}

/// Appends the decimal digits of `n`.
pub fn push_decimal(out: &mut String, n: u64)
    ensures
        final(out)@ == old(out)@ + decimal(n as nat),
{
    push_wide_decimal(out, n as u128);
}

/// Appends the decimal digits of `n`.
pub fn push_wide_decimal(out: &mut String, n: u128)
    ensures
        final(out)@ == old(out)@ + decimal(n as nat),
    decreases n,
{
    if n >= 10 {
        push_wide_decimal(out, n / 10);
    }
    out.append(digit_text((n % 10) as u64));
    assert(decimal(n as nat) == if n < 10 {
        seq![digit_char(n as nat)]
    } else {
        decimal((n / 10) as nat).push(digit_char((n % 10) as nat))
    });
    assert(final(out)@ =~= old(out)@ + decimal(n as nat));
}

/// Appends the decimal text of `n`, signed.
pub fn push_signed(out: &mut String, n: i64)
    ensures
        final(out)@ == old(out)@ + signed_decimal(n as int),
{
    if n < 0 {
        proof {
            reveal_strlit("-");
        }
        out.append("-");
        let m: u64 = (0i128 - n as i128) as u64;
        push_decimal(out, m);
        assert(final(out)@ =~= old(out)@ + signed_decimal(n as int));
    } else {
        push_decimal(out, n as u64);
    }
}

/// Appends `v / 10^places` in fixed point, places being 1 or 2.
pub fn push_fixed(out: &mut String, v: u64, places: u64)
    requires
        places == 1 || places == 2,
    ensures
        final(out)@ == old(out)@ + fixed_point(v as nat, places as nat),
{
    push_wide_fixed(out, v as u128, places);
}

/// Appends `v / 10^places` in fixed point, places being 1 or 2.
pub fn push_wide_fixed(out: &mut String, v: u128, places: u64)
    requires
        places == 1 || places == 2,
    ensures
        final(out)@ == old(out)@ + fixed_point(v as nat, places as nat),
{
    proof {
        reveal_strlit(".");
    }
    let ghost start = out@;
    if places == 1 {
        push_wide_decimal(out, v / 10);
        out.append(".");
        out.append(digit_text((v % 10) as u64));
    } else {
        push_wide_decimal(out, v / 100);
        out.append(".");
        out.append(digit_text(((v / 10) % 10) as u64));
        out.append(digit_text((v % 10) as u64));
    }
    assert(out@ =~= start + fixed_point(v as nat, places as nat));
}

/// `v / d` rounded to the nearest integer, halves upward.
pub fn round_div_wide(v: u128, d: u128) -> (r: u128)
    requires
        d > 0,
        v <= u64::MAX as u128 * 1024,
    ensures
        r == rounded_div(v as nat, d as nat),
{
    proof {
        assert((v as int + d as int / 2) / (d as int) <= v as int + d as int / 2) by (nonlinear_arith)
            requires d >= 1, v >= 0;
        assert(d / 2 < d);
    }
    (v + d / 2) / d
}

/// `v / d` rounded to the nearest integer, halves upward.
pub fn round_div(v: u64, d: u64) -> (r: u64)
    requires
        d > 0,
    ensures
        r == rounded_div(v as nat, d as nat),
{
    let q = v / d;
    let rem = v % d;
    proof {
        let (vi, di) = (v as int, d as int);
        assert(vi == (vi / di) * di + vi % di) by (nonlinear_arith)
            requires di > 0;
        assert(0 <= vi % di < di) by (nonlinear_arith)
            requires di > 0;
        let h = di / 2;
        assert(vi + h == (vi / di) * di + (vi % di + h));
        if vi % di + h >= di {
            assert((vi + h) / di == vi / di + 1) by (nonlinear_arith)
                requires vi + h == (vi / di) * di + (vi % di + h), di <= vi % di + h < 2 * di;
            assert(vi / di < vi) by (nonlinear_arith)
                requires di >= 2, vi >= 1;
        } else {
            assert((vi + h) / di == vi / di) by (nonlinear_arith)
                requires vi + h == (vi / di) * di + (vi % di + h), 0 <= vi % di + h < di;
        }
    }
    if rem >= d - d / 2 {
        q + 1
    } else {
        q
    }
}

} // verus!
