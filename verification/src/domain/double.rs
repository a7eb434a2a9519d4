//! Time left at a measured rate, as double-precision arithmetic gives it, on
//! whole numbers.
//!
//! A double is written as a fraction: its significand over a power of two.

use vstd::prelude::*;

verus! {

/// The smallest significand with all 53 bits of a double.
pub const SMALLEST: u128 = 0x10_0000_0000_0000;

/// `a / b` rounded to the nearest whole number, a half to the even one.
pub open spec fn nearest_even(a: nat, b: nat) -> nat {
    if 2 * (a % b) < b || (2 * (a % b) == b && (a / b) % 2 == 0) {
        a / b
    } else {
        a / b + 1
    }
}

/// The power of two that brings `n / d` up to a significand of 53 bits, where
/// it has no more than those before its binary point.
pub open spec fn unit(n: nat, d: nat) -> nat
    decreases
            if n < SMALLEST * d {
                SMALLEST * d - n
            } else {
                0
            },
{
    if n == 0 || n >= SMALLEST * d {
        1
    } else {
        2 * unit(2 * n, d)
    }
}

/// The double nearest to `n / d`, as the two parts of a fraction.
pub open spec fn double(n: nat, d: nat) -> (nat, nat) {
    (nearest_even(n * unit(n, d), d), unit(n, d))
}

/// A span in seconds: its whole seconds, and what is left of them divided by a
/// billion, added up.
pub open spec fn seconds(span: nat) -> (nat, nat) {
    let (rest, part) = double(span % 1_000_000_000, 1_000_000_000);
    double((span / 1_000_000_000) * part + rest, part)
}

/// The percent lost in a second when `drop` percent took `span` nanoseconds.
pub open spec fn rate(span: nat, drop: nat) -> (nat, nat) {
    let (secs, part) = seconds(span);
    double(drop * part, secs)
}

/// How many nanoseconds `percent` lasts when `drop` percent took `span`.
pub open spec fn time_left(percent: nat, span: nat, drop: nat) -> nat {
    let (lost, part) = rate(span, drop);
    let (secs, unit) = double(percent * part, lost);
    nearest_even(secs * 1_000_000_000, unit)
}

fn round_even(a: u128, b: u128) -> (r: u128)
    requires
        1 <= b,
        2 * b <= u128::MAX,
        a < u128::MAX,
    ensures
        r == nearest_even(a as nat, b as nat),
{
    let q: u128 = a / b;
    let rest: u128 = a % b;
    proof {
        assert(q <= a) by (nonlinear_arith)
            requires
                q == a / b,
                b >= 1,
        ;
    }
    if 2 * rest < b || (2 * rest == b && q % 2 == 0) {
        q
    } else {
        q + 1
    }
}

/// What rounding gives is at least any whole number that the quotient reaches,
/// and at most any that it does not pass.
proof fn rounding_keeps_bounds(a: nat, b: nat, k: nat)
    requires
        1 <= b,
    ensures
        k * b <= a ==> k <= nearest_even(a, b),
        a <= k * b ==> nearest_even(a, b) <= k,
{
    let q = a / b;
    let rest = a % b;
    assert(a == q * b + rest && 0 <= rest < b) by (nonlinear_arith)
        requires
            q == a / b,
            rest == a % b,
            1 <= b,
    ;
    if k * b <= a {
        assert(k <= q) by (nonlinear_arith)
            requires
                k * b <= a < q * b + b,
                1 <= b,
        ;
    }
    if a <= k * b {
        if rest == 0 {
            assert(q <= k) by (nonlinear_arith)
                requires
                    q * b <= k * b,
                    1 <= b,
            ;
        } else {
            assert(q + 1 <= k) by (nonlinear_arith)
                requires
                    q * b < k * b,
                    1 <= b,
            ;
        }
    }
}

/// A common factor changes no rounding.
proof fn rounding_cancels(a: nat, b: nat, c: nat)
    requires
        1 <= b,
        1 <= c,
    ensures
        nearest_even(a * c, b * c) == nearest_even(a, b),
{
    let q = a / b;
    let rest = a % b;
    assert(a == q * b + rest && 0 <= rest < b) by (nonlinear_arith)
        requires
            q == a / b,
            rest == a % b,
            1 <= b,
    ;
    let x = a * c;
    let y = b * c;
    assert(y >= 1 && x == q * y + rest * c && 0 <= rest * c < y) by (nonlinear_arith)
        requires
            x == a * c,
            y == b * c,
            a == q * b + rest,
            0 <= rest < b,
            1 <= c,
    ;
    vstd::arithmetic::div_mod::lemma_fundamental_div_mod_converse(
        x as int,
        y as int,
        q as int,
        (rest * c) as int,
    );
    assert((2 * (rest * c) < y) == (2 * rest < b)) by (nonlinear_arith)
        requires
            y == b * c,
            1 <= c,
    ;
    assert((2 * (rest * c) == y) == (2 * rest == b)) by (nonlinear_arith)
        requires
            y == b * c,
            1 <= c,
    ;
}

proof fn nothing_is_nothing(d: nat)
    requires
        1 <= d,
    ensures
        nearest_even(0, d) == 0,
        double(0, d) == (0nat, 1nat),
{
    assert(0nat % d == 0 && 0nat / d == 0) by (nonlinear_arith)
        requires
            1 <= d,
    ;
}

/// Whether a number can be halved down to one.
spec fn is_power(u: nat) -> bool
    decreases u,
{
    u == 1 || (u > 1 && u % 2 == 0 && is_power(u / 2))
}

proof fn units_are_powers(n: nat, d: nat)
    ensures
        is_power(unit(n, d)),
        unit(n, d) >= 1,
    decreases
            if n < SMALLEST * d {
                SMALLEST * d - n
            } else {
                0
            },
{
    if !(n == 0 || n >= SMALLEST * d) {
        units_are_powers(2 * n, d);
        assert((2 * unit(2 * n, d)) / 2 == unit(2 * n, d));
    }
}

/// The double nearest to `n / d`.
fn rounded(n: u128, d: u128) -> (r: (u128, u128))
    requires
        1 <= n < 2 * (SMALLEST * d),
        1 <= d <= 2 * SMALLEST,
    ensures
        (r.0 as nat, r.1 as nat) == double(n as nat, d as nat),
        r.0 <= 2 * SMALLEST,
        SMALLEST * d <= n * r.1 ==> SMALLEST <= r.0,
        n < SMALLEST * d ==> SMALLEST * d <= n * r.1,
        n * r.1 < 2 * (SMALLEST * d),
        1 <= r.1 <= n * r.1,
{
    let limit: u128 = SMALLEST * d;
    let mut a: u128 = n;
    let mut part: u128 = 1;
    assert(n * 1 == n);
    while a < limit
        invariant
            1 <= n,
            1 <= d <= 2 * SMALLEST,
            limit == SMALLEST * d,
            a < 2 * limit,
            1 <= part <= a,
            a == n * part,
            unit(n as nat, d as nat) == part * unit(a as nat, d as nat),
        decreases
                if a < limit {
                    limit - a
                } else {
                    0
                },
    {
        proof {
            assert(n * (2 * part) == 2 * (n * part)) by (nonlinear_arith);
            let u = unit((2 * a) as nat, d as nat);
            assert(part * (2 * u) == (2 * part) * u) by (nonlinear_arith);
        }
        a = 2 * a;
        part = 2 * part;
    }
    assert(part * 1 == part);
    proof {
        rounding_keeps_bounds(a as nat, d as nat, SMALLEST as nat);
        rounding_keeps_bounds(a as nat, d as nat, (2 * SMALLEST) as nat);
        assert((2 * SMALLEST) * d == 2 * (SMALLEST * d)) by (nonlinear_arith);
    }
    (round_even(a, d), part)
}

/// What a sum of whole seconds and a part of one comes to: `whole + rest / part`,
/// where the fraction is a double below one.
fn add_part(whole: u128, rest: u128, part: u128) -> (r: (u128, u128))
    requires
        1800 <= whole < 0x3_0000_0000,
        rest <= part,
        SMALLEST < part < 0x8_0000_0000_0000_0000_0000,
        is_power(part as nat),
    ensures
        (r.0 as nat, r.1 as nat) == double((whole * part + rest) as nat, part as nat),
        SMALLEST <= r.0 <= 2 * SMALLEST,
        1 <= r.1 < 0x800_0000_0000,
        r.0 <= 0x4_0000_0000 * r.1,
{
    proof {
        assert(1800 * part <= whole * part <= 0x3_0000_0000 * part) by (nonlinear_arith)
            requires
                1800 <= whole < 0x3_0000_0000,
                0 <= part,
        ;
    }
    let sum: u128 = whole * part + rest;
    let reach: u128 = sum / SMALLEST;
    let mut left: u128 = part;
    let mut taken: u128 = 1;
    assert(part * 1 == part && sum * 1 == sum);
    while reach < left
        invariant
            reach == sum / SMALLEST,
            1800 * part <= sum <= 0x3_0000_0001 * part,
            SMALLEST < part < 0x8_0000_0000_0000_0000_0000,
            is_power(left as nat),
            1 <= left,
            1 <= taken <= part,
            part == left * taken,
            sum * taken < 2 * (SMALLEST * part),
            unit(sum as nat, part as nat) == taken * unit((sum * taken) as nat, part as nat),
        decreases left,
    {
        proof {
            assert(sum < SMALLEST * left) by (nonlinear_arith)
                requires
                    reach == sum / SMALLEST,
                    reach < left,
                    SMALLEST >= 1,
            ;
            assert(sum * taken < SMALLEST * part) by (nonlinear_arith)
                requires
                    sum < SMALLEST * left,
                    part == left * taken,
                    1 <= taken,
            ;
            if left == 1 {
                assert(sum < SMALLEST);
                assert(false);
            }
            assert(left % 2 == 0 && is_power((left / 2) as nat));
            let half = left / 2;
            assert(left == 2 * half);
            assert(half * (2 * taken) == (2 * half) * taken && sum * (2 * taken) == 2 * (sum
                * taken)) by (nonlinear_arith);
            assert(1 <= half);
            assert(2 * taken <= half * (2 * taken)) by (nonlinear_arith)
                requires
                    1 <= half,
                    1 <= taken,
            ;
            assert(sum * taken >= 1) by (nonlinear_arith)
                requires
                    sum >= 1,
                    taken >= 1,
            ;
            let u = unit((2 * (sum * taken)) as nat, part as nat);
            assert(unit((sum * taken) as nat, part as nat) == 2 * u);
            assert(taken * (2 * u) == (2 * taken) * u) by (nonlinear_arith);
        }
        left = left / 2;
        taken = 2 * taken;
    }
    proof {
        assert(SMALLEST * left <= sum) by (nonlinear_arith)
            requires
                reach == sum / SMALLEST,
                left <= reach,
                SMALLEST >= 1,
        ;
        assert(SMALLEST * part <= sum * taken) by (nonlinear_arith)
            requires
                SMALLEST * left <= sum,
                part == left * taken,
                1 <= taken,
        ;
        assert(unit((sum * taken) as nat, part as nat) == 1);
        assert(taken * 1 == taken);
        rounding_cancels(sum as nat, left as nat, taken as nat);
        rounding_keeps_bounds((sum * taken) as nat, part as nat, SMALLEST as nat);
        rounding_keeps_bounds((sum * taken) as nat, part as nat, (2 * SMALLEST) as nat);
        rounding_keeps_bounds(
            (sum * taken) as nat,
            part as nat,
            (0x4_0000_0000 * taken) as nat,
        );
        assert((2 * SMALLEST) * part == 2 * (SMALLEST * part)) by (nonlinear_arith);
        assert(sum * taken <= (0x4_0000_0000 * taken) * part) by (nonlinear_arith)
            requires
                sum <= 0x3_0000_0001 * part,
                1 <= taken,
                1 <= part,
        ;
        assert(taken < 0x800_0000_0000) by (nonlinear_arith)
            requires
                1800 * part <= sum,
                sum * taken < 2 * (SMALLEST * part),
                SMALLEST == 0x10_0000_0000_0000,
                1 <= part,
        ;
    }
    (round_even(sum, left), taken)
}

fn seconds_of(span: u128) -> (r: (u128, u128))
    requires
        1_800_000_000_000 <= span <= i64::MAX,
    ensures
        (r.0 as nat, r.1 as nat) == seconds(span as nat),
        SMALLEST <= r.0 <= 2 * SMALLEST,
        1 <= r.1 < 0x800_0000_0000,
        r.0 <= 0x4_0000_0000 * r.1,
{
    let whole: u128 = span / 1_000_000_000;
    let nanos: u128 = span % 1_000_000_000;
    if nanos == 0 {
        proof {
            nothing_is_nothing(1_000_000_000);
        }
        let r = rounded(whole, 1);
        proof {
            rounding_keeps_bounds((whole * r.1) as nat, 1, (whole * r.1) as nat);
            assert(1800 * r.1 <= whole * r.1 <= 0x4_0000_0000 * r.1) by (nonlinear_arith)
                requires
                    1800 <= whole <= 0x4_0000_0000,
                    1 <= r.1,
            ;
        }
        r
    } else {
        let (rest, part): (u128, u128) = rounded(nanos, 1_000_000_000);
        proof {
            units_are_powers(nanos as nat, 1_000_000_000);
            assert(SMALLEST < part && part <= nanos * part) by (nonlinear_arith)
                requires
                    SMALLEST * 1_000_000_000 <= nanos * part,
                    1 <= nanos < 1_000_000_000,
                    1 <= part,
            ;
            assert(nanos * part <= part * 1_000_000_000) by (nonlinear_arith)
                requires
                    nanos < 1_000_000_000,
                    1 <= part,
            ;
            rounding_keeps_bounds((nanos * part) as nat, 1_000_000_000, part as nat);
        }
        add_part(whole, rest, part)
    }
}

/// How many nanoseconds `percent` lasts when `drop` percent took `span`, which is
/// at least the half hour below which no rate is measured.
pub fn lasting(percent: u8, span: u128, drop: u8) -> (nanos: u128)
    requires
        1 <= drop,
        1_800_000_000_000 <= span <= i64::MAX,
    ensures
        nanos == time_left(percent as nat, span as nat, drop as nat),
        nanos <= 2 * SMALLEST * 1_000_000_000,
{
    let (secs, part): (u128, u128) = seconds_of(span);
    proof {
        assert(part <= drop * part <= 255 * part) by (nonlinear_arith)
            requires
                1 <= drop <= 255,
                1 <= part,
        ;
    }
    let (lost, unit): (u128, u128) = rounded(drop as u128 * part, secs);
    assert(rate(span as nat, drop as nat) == (lost as nat, unit as nat));
    proof {
        assert(part * unit <= (drop * part) * unit) by (nonlinear_arith)
            requires
                part <= drop * part,
                1 <= unit,
        ;
        assert(part * unit < part * 0x100_0000_0000_0000_0000_0000);
        assert(unit < 0x100_0000_0000_0000_0000_0000) by (nonlinear_arith)
            requires
                part * unit < part * 0x100_0000_0000_0000_0000_0000,
                1 <= part,
        ;
    }
    if percent == 0 {
        proof {
            let whole = unit as nat;
            assert(percent * whole == 0) by (nonlinear_arith)
                requires
                    percent == 0,
            ;
            nothing_is_nothing(lost as nat);
            nothing_is_nothing(1);
            assert((percent * whole) as nat == 0nat);
        }
        return 0;
    }
    proof {
        assert(unit <= percent * unit <= 255 * unit) by (nonlinear_arith)
            requires
                1 <= percent <= 255,
                1 <= unit,
        ;
    }
    let (left, whole): (u128, u128) = rounded(percent as u128 * unit, lost);
    assert(double((percent * unit) as nat, lost as nat) == (left as nat, whole as nat));
    proof {
        rounding_keeps_bounds(
            (left * 1_000_000_000) as nat,
            whole as nat,
            (left * 1_000_000_000) as nat,
        );
        assert(left * 1_000_000_000 <= (left * 1_000_000_000) * whole) by (nonlinear_arith)
            requires
                1 <= whole,
        ;
    }
    round_even(left * 1_000_000_000, whole)
}

} // verus!
