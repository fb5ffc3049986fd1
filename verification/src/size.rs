//! Sizes in binary units, rounded as IEEE 754 double precision rounds them.
use crate::text::{decimal, decimal_text};
use vstd::prelude::*;
use vstd::string::*;

verus! {

/// `a / b` rounded to the nearest integer; halfway between two, to the even one.
pub open spec fn round_half_even(a: nat, b: nat) -> nat {
    let quotient = a / b;
    let rest = a % b;
    if 2 * rest < b || (2 * rest == b && quotient % 2 == 0) {
        quotient
    } else {
        quotient + 1
    }
}

/// The step between doubles at the size of `n`: the least power of two, from `step` on, that `n`
/// is less than 2^53 times of.
pub open spec fn double_step(n: nat, step: nat) -> nat
    decreases n - step,
{
    if step == 0 || n < 0x20_0000_0000_0000 * step {
        step
    } else {
        double_step(n, 2 * step)
    }
}

/// The double that is nearest to an integer, the even one of two that are as near.
pub open spec fn nearest_double(n: nat) -> nat {
    round_half_even(n, double_step(n, 1)) * double_step(n, 1)
}

/// The unit that a size is told in: the largest that the size reaches.
pub open spec fn unit_of(bytes: u64) -> (Seq<char>, nat) {
    if bytes < 0x400 {
        ("B"@, 1)
    } else if bytes < 0x10_0000 {
        ("KiB"@, 0x400)
    } else if bytes < 0x4000_0000 {
        ("MiB"@, 0x10_0000)
    } else if bytes < 0x100_0000_0000 {
        ("GiB"@, 0x4000_0000)
    } else {
        ("TiB"@, 0x100_0000_0000)
    }
}

/// How many tenths of a unit a size is.
pub open spec fn tenths_of_unit(bytes: u64) -> nat {
    round_half_even(10 * nearest_double(bytes as nat), unit_of(bytes).1)
}

/// How a size is told: in bytes below one KiB, and else with one decimal place.
pub open spec fn size_text(bytes: u64) -> Seq<char> {
    if bytes < 0x400 {
        decimal_text(bytes as nat) + " "@ + "B"@
    } else {
        decimal_text(tenths_of_unit(bytes) / 10) + "."@ + decimal_text(tenths_of_unit(bytes) % 10)
            + " "@ + unit_of(bytes).0
    }
}

/// `a / b` rounded to the nearest integer; halfway between two, to the even one.
fn divide_rounding(a: u128, b: u128) -> (res: u128)
    requires
        0 < b <= 0x100_0000_0000,
        a <= 0xff_ffff_ffff_ffff_ffff,
    ensures
        res == round_half_even(a as nat, b as nat),
        res <= a / b + 1,
{
    let quotient: u128 = a / b;
    let rest: u128 = a % b;
    assert(quotient <= a) by (nonlinear_arith)
        requires
            quotient == a / b,
            b > 0,
    ;
    if 2 * rest < b || (2 * rest == b && quotient % 2 == 0) {
        quotient
    } else {
        quotient + 1
    }
}

/// The double that is nearest to `n`.
fn to_double(n: u64) -> (res: u128)
    ensures
        res == nearest_double(n as nat),
        res <= 0x1_0000_0000_0000_1000,
        n < 0x20_0000_0000_0000 ==> res == n,
{
    let mut step: u128 = 1;
    while n as u128 >= 0x20_0000_0000_0000 * step
        invariant
            1 <= step <= 0x1000,
            step == 1 || 0x20_0000_0000_0000 * step <= 2 * n,
            double_step(n as nat, 1) == double_step(n as nat, step as nat),
        decreases n - step,
    {
        step = 2 * step;
    }
    let whole = divide_rounding(n as u128, step);
    assert(whole * step <= n + step) by (nonlinear_arith)
        requires
            whole <= (n as u128) / step + 1,
            step > 0,
    ;
    whole * step
}

/// A size in the largest unit that it reaches.
pub fn format_bytes(bytes: u64) -> (text: String)
    ensures
        text@ == size_text(bytes),
{
    if bytes < 0x400 {
        return decimal(bytes).concat(" ").concat("B");
    }
    let (unit, divisor): (&str, u128) = if bytes < 0x10_0000 {
        ("KiB", 0x400)
    } else if bytes < 0x4000_0000 {
        ("MiB", 0x10_0000)
    } else if bytes < 0x100_0000_0000 {
        ("GiB", 0x4000_0000)
    } else {
        ("TiB", 0x100_0000_0000)
    };
    let value = to_double(bytes);
    let tenths = divide_rounding(10 * value, divisor);
    assert(tenths <= 0xffff_ffff_ffff) by (nonlinear_arith)
        requires
            tenths <= (10 * value) / (divisor as int) + 1,
            value <= 0x1_0000_0000_0000_1000,
            divisor >= 0x100_0000_0000 || (value <= 0x100_0000_0000 && divisor >= 0x400),
    ;
    decimal((tenths / 10) as u64).concat(".").concat(decimal((tenths % 10) as u64).as_str()).concat(
        " ",
    ).concat(unit)
}

/// Rounding a quotient is off by half at most.
proof fn lemma_rounding_is_near(a: nat, b: nat)
    requires
        b > 0,
    ensures
        -(b as int) <= 2 * (round_half_even(a, b) * b - a) <= b,
{
    let quotient = a / b;
    assert(a == quotient * b + a % b && a % b < b) by (nonlinear_arith)
        requires
            b > 0,
            quotient == a / b,
    ;
    assert((quotient + 1) * b == quotient * b + b) by (nonlinear_arith);
}

/// Sizes that a double holds exactly are told right to half a tenth of their unit, and in a unit
/// that they reach; up to a TiB they are told with less than five digits.
pub proof fn told_sizes_are_near(bytes: u64)
    requires
        bytes < 0x20_0000_0000_0000,
    ensures
        nearest_double(bytes as nat) == bytes,
        ({
            let unit = unit_of(bytes).1;
            let tenths = tenths_of_unit(bytes);
            &&& -(unit as int) <= 2 * (tenths * unit - 10 * bytes) <= unit
            &&& bytes >= 0x400 ==> bytes >= unit
            &&& 0x400 <= bytes < 0x100_0000_0000 ==> 10 <= tenths <= 10240
        }),
{
    let unit = unit_of(bytes).1;
    let tenths = tenths_of_unit(bytes);
    assert(double_step(bytes as nat, 1) == 1);
    let step = double_step(bytes as nat, 1);
    let whole = round_half_even(bytes as nat, step);
    assert(whole == bytes);
    assert(whole * step == whole) by (nonlinear_arith)
        requires
            step == 1,
    ;
    lemma_rounding_is_near(10 * nearest_double(bytes as nat), unit);
    if 0x400 <= bytes < 0x100_0000_0000 {
        assert(tenths >= 10) by (nonlinear_arith)
            requires
                2 * (tenths * unit - 10 * bytes) >= -(unit as int),
                bytes >= unit,
                unit > 0,
        ;
        assert(tenths <= 10240) by (nonlinear_arith)
            requires
                2 * (tenths * unit - 10 * bytes) <= unit,
                bytes < 0x400 * unit,
                unit > 0,
        ;
    }
}

} // verus!
