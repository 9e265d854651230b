//! Byte counts as text: binary units with one decimal place.
//!
//! A count is taken at the precision of a double (53 significant bits, ties to even) before it is
//! scaled, so that the label is that of the double nearest to the count.
use crate::text::{decimal, decimal_text, Text};
use vstd::prelude::*;

verus! {

/// 2 to the 53rd: below it every count is a double.
pub const DOUBLE_EXACT: u64 = 9007199254740992;

pub const KIB: u64 = 1024;

pub const MIB: u64 = 1048576;

pub const GIB: u64 = 1073741824;

pub const TIB: u64 = 1099511627776;

/// `n / d` rounded to the nearest integer, a tie to the even one.
pub open spec fn nearest_even(n: nat, d: nat) -> nat {
    let q = n / d;
    let r = n % d;
    if 2 * r < d || (2 * r == d && q % 2 == 0) {
        q
    } else {
        q + 1
    }
}

/// The distance between the doubles around `n`, for `n` of at least 2 to the 52nd; 1 below.
pub open spec fn double_step(n: nat) -> nat
    decreases n,
{
    if n < DOUBLE_EXACT {
        1
    } else {
        2 * double_step(n / 2)
    }
}

/// The double nearest to `n`.
pub open spec fn as_double(n: nat) -> nat {
    nearest_even(n, double_step(n)) * double_step(n)
}

/// `n / d` with one decimal place, a tie to the even digit.
pub open spec fn one_decimal(n: nat, d: nat) -> Text {
    let tenths = nearest_even(10 * n, d);
    decimal(tenths / 10) + "."@ + decimal(tenths % 10)
}

/// The bytes of the largest unit that `n` reaches.
pub open spec fn unit_bytes(n: nat) -> nat {
    if n >= TIB {
        TIB as nat
    } else if n >= GIB {
        GIB as nat
    } else if n >= MIB {
        MIB as nat
    } else if n >= KIB {
        KIB as nat
    } else {
        1
    }
}

/// The name of the largest unit that `n` reaches.
pub open spec fn unit_name(n: nat) -> Text {
    if n >= TIB {
        "TiB"@
    } else if n >= GIB {
        "GiB"@
    } else if n >= MIB {
        "MiB"@
    } else if n >= KIB {
        "KiB"@
    } else {
        "B"@
    }
}

/// The label of `bytes`: scaled to the largest unit that it reaches, one decimal place, the unit.
pub open spec fn human_size(bytes: nat) -> Text {
    let n = as_double(bytes);
    one_decimal(n, unit_bytes(n)) + " "@ + unit_name(n)
}

/// `n / d` rounded to the nearest integer, a tie to the even one.
pub(crate) fn round_even(n: u128, d: u128) -> (r: u128)
    requires
        0 < d <= 0x1_0000_0000_0000_0000,
        n <= 0xff_ffff_ffff_ffff_ffff_ffff,
    ensures
        r == nearest_even(n as nat, d as nat),
        r <= n / d + 1,
{
    let q: u128 = n / d;
    let r: u128 = n % d;
    assert(q <= n) by (nonlinear_arith)
        requires
            q == n / d,
            d > 0,
    ;
    if 2 * r < d || (2 * r == d && q % 2 == 0) {
        q
    } else {
        q + 1
    }
}

fn step_of(n: u64) -> (r: u64)
    ensures
        r == double_step(n as nat),
        r >= 1,
        r <= 4095,
        n < DOUBLE_EXACT || r as nat * 4503599627370496 <= n,
    decreases n,
{
    if n < DOUBLE_EXACT {
        1
    } else {
        let half: u64 = step_of(n / 2);
        2 * half
    }
}

/// The double nearest to `n`.
pub(crate) fn nearest_double(n: u64) -> (r: u128)
    ensures
        r == as_double(n as nat),
        r <= 0x1_0000_0000_0000_1000,
{
    let step: u64 = step_of(n);
    let whole: u128 = round_even(n as u128, step as u128);
    proof {
        let q = n as nat / step as nat;
        assert(q * step <= n) by (nonlinear_arith)
            requires
                q == n as nat / step as nat,
                step > 0,
        ;
        assert((q + 1) * step == q * step + step) by (nonlinear_arith);
        assert(whole * step <= (q + 1) * step) by (nonlinear_arith)
            requires
                whole <= q + 1,
                step > 0,
        ;
    }
    whole * step as u128
}

/// `n / d` with one decimal place, a tie to the even digit.
pub(crate) fn one_decimal_text(n: u128, d: u128) -> (r: String)
    requires
        0 < d <= 0x1_0000_0000_0000_0000,
        n <= 0xf_ffff_ffff_ffff_ffff_ffff,
        n / d <= 0xffff_ffff_ffff_fff,
    ensures
        r@ == one_decimal(n as nat, d as nat),
{
    let tenths: u128 = round_even(10 * n, d);
    proof {
        assert(10 * n / d as int <= 10 * (n / d) + 10) by (nonlinear_arith)
            requires
                d > 0,
                n >= 0,
        ;
    }
    let whole: u64 = (tenths / 10) as u64;
    let rest: u64 = (tenths % 10) as u64;
    let a = decimal_text(whole);
    let b = decimal_text(rest);
    crate::text::cat3(a.as_str(), ".", b.as_str())
}

/// The label of `bytes`, such as `1.0 GiB`.
pub fn format_human_size(bytes: u64) -> (r: String)
    ensures
        r@ == human_size(bytes as nat),
{
    let n: u128 = nearest_double(bytes);
    let (d, name): (u64, &str) = if n >= TIB as u128 {
        (TIB, "TiB")
    } else if n >= GIB as u128 {
        (GIB, "GiB")
    } else if n >= MIB as u128 {
        (MIB, "MiB")
    } else if n >= KIB as u128 {
        (KIB, "KiB")
    } else {
        (1, "B")
    };
    let number = one_decimal_text(n, d as u128);
    crate::text::cat3(number.as_str(), " ", name)
}

}
