//! Fixed-decimal texts of readings: volts with three decimals, and amperes,
//! watts and degrees with one.
use vstd::prelude::*;
use crate::text::{dec_padded, dec_str, push_decimal, push_decimal_padded, push_str};

verus! {

/// `m` thousandths as a decimal with three decimals.
pub open spec fn milli_text(m: nat) -> Seq<char> {
    dec_str(m / 1000) + "."@ + dec_padded(m % 1000, 3)
}

/// A whole number with one decimal.
pub open spec fn whole_text(n: nat) -> Seq<char> {
    dec_str(n) + ".0"@
}

/// `a / 65536` rounded to tenths, halves to the even tenth.
pub open spec fn q16_tenths(a: nat) -> nat {
    let num = a * 10;
    let q = num / 65536;
    let rem = num % 65536;
    if rem > 32768 || (rem == 32768 && q % 2 == 1) {
        q + 1
    } else {
        q
    }
}

/// `q / 65536` with one decimal, rounded half to even, with a minus sign
/// when `q` is negative.
pub open spec fn q16_text(q: int) -> Seq<char> {
    let a: nat = if q < 0 {
        (-q) as nat
    } else {
        q as nat
    };
    let t = q16_tenths(a);
    (if q < 0 {
        "-"@
    } else {
        Seq::empty()
    }) + dec_str(t / 10) + "."@ + dec_str(t % 10)
}

/// Appends `m` thousandths as a decimal with three decimals.
pub fn push_millis(s: &mut String, m: u32)
    ensures
        final(s)@ == old(s)@ + milli_text(m as nat),
{
    push_decimal(s, (m / 1000) as u64);
    push_str(s, ".");
    push_decimal_padded(s, (m % 1000) as u64, 3);
    assert(final(s)@ =~= old(s)@ + milli_text(m as nat));
}

/// Appends a whole number with one decimal.
pub fn push_whole(s: &mut String, n: u32)
    ensures
        final(s)@ == old(s)@ + whole_text(n as nat),
{
    push_decimal(s, n as u64);
    push_str(s, ".0");
    assert(final(s)@ =~= old(s)@ + whole_text(n as nat));
}

/// Appends `q / 65536` with one decimal.
pub fn push_q16(s: &mut String, q: i64)
    ensures
        final(s)@ == old(s)@ + q16_text(q as int),
{
    let a: u128 = if q < 0 {
        (0i128 - q as i128) as u128
    } else {
        q as u128
    };
    let num: u128 = a * 10;
    let qt = num / 65536;
    let rem = num % 65536;
    let t: u128 = if rem > 32768 || (rem == 32768 && qt % 2 == 1) {
        qt + 1
    } else {
        qt
    };
    assert(t == q16_tenths(a as nat));
    if q < 0 {
        push_str(s, "-");
    }
    push_decimal(s, (t / 10) as u64);
    push_str(s, ".");
    push_decimal(s, (t % 10) as u64);
    assert(final(s)@ =~= old(s)@ + q16_text(q as int));
}

} // verus!
