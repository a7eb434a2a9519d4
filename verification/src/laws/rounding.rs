//! How close the remaining time is to the exact quotient.

use crate::domain::double;
use vstd::prelude::*;

verus! {

/// How finely a rounded number agrees with an exact one.
pub open spec fn fine() -> int {
    0x8_0000_0000_0000
}

/// Whether each of two numbers exceeds the other by no more than `parts` in so
/// fine a part of it.
pub open spec fn close(a: int, b: int, parts: int) -> bool {
    &&& a * fine() <= b * (fine() + parts)
    &&& b * fine() <= a * (fine() + parts)
}

proof fn close_both_ways(a: int, b: int, c: int, i: int, j: int)
    requires
        0 <= a,
        0 <= b,
        0 <= c,
        0 <= i <= 16,
        0 <= j <= 16,
        close(a, b, i),
        close(b, c, j),
    ensures
        close(a, c, i + j + 1),
{
    let m = fine();
    one_way(a, b, c, i, j, m);
    one_way(c, b, a, j, i, m);
}

proof fn one_way(a: int, b: int, c: int, i: int, j: int, m: int)
    requires
        0 <= a,
        0 <= b,
        0 <= c,
        0 <= i <= 16,
        0 <= j <= 16,
        m >= 256,
        a * m <= b * (m + i),
        b * m <= c * (m + j),
    ensures
        a * m <= c * (m + (i + j + 1)),
{
    assert(a * m * m <= b * (m + i) * m) by (nonlinear_arith)
        requires
            a * m <= b * (m + i),
            m >= 256,
    ;
    assert(b * (m + i) * m == b * m * (m + i)) by (nonlinear_arith);
    assert(b * m * (m + i) <= c * (m + j) * (m + i)) by (nonlinear_arith)
        requires
            b * m <= c * (m + j),
            m + i >= 0,
    ;
    assert((m + j) * (m + i) <= m * (m + (i + j + 1))) by (nonlinear_arith)
        requires
            0 <= i <= 16,
            0 <= j <= 16,
            m >= 256,
    ;
    let left = (m + j) * (m + i);
    let right = m * (m + (i + j + 1));
    assert(c * (m + j) * (m + i) == c * left) by (nonlinear_arith)
        requires
            left == (m + j) * (m + i),
    ;
    assert(c * left <= c * right) by (nonlinear_arith)
        requires
            left <= right,
            0 <= c,
    ;
    assert(c * right == c * (m + (i + j + 1)) * m) by (nonlinear_arith)
        requires
            right == m * (m + (i + j + 1)),
    ;
    let x = a * m;
    let y = c * (m + (i + j + 1));
    assert(x * m <= y * m);
    assert(x <= y) by (nonlinear_arith)
        requires
            x * m <= y * m,
            m >= 256,
    ;
}

proof fn scaled(a: int, b: int, k: int, parts: int)
    requires
        0 <= k,
        close(a, b, parts),
    ensures
        close(a * k, b * k, parts),
{
    let m = fine();
    assert(a * k * m <= b * k * (m + parts)) by (nonlinear_arith)
        requires
            a * m <= b * (m + parts),
            0 <= k,
    ;
    assert(b * k * m <= a * k * (m + parts)) by (nonlinear_arith)
        requires
            b * m <= a * (m + parts),
            0 <= k,
    ;
}

proof fn unscaled(a: int, b: int, k: int, parts: int)
    requires
        0 < k,
        close(a * k, b * k, parts),
    ensures
        close(a, b, parts),
{
    let m = fine();
    assert(a * m <= b * (m + parts)) by (nonlinear_arith)
        requires
            a * k * m <= b * k * (m + parts),
            0 < k,
    ;
    assert(b * m <= a * (m + parts)) by (nonlinear_arith)
        requires
            b * k * m <= a * k * (m + parts),
            0 < k,
    ;
}

/// A rounded quotient is off by half of one at most.
pub proof fn rounding_is_off_by_half_at_most(a: nat, b: nat)
    requires
        b > 0,
    ensures
        -b <= 2 * (double::nearest_even(a, b) * b - a) <= b,
{
    let q = a / b;
    let r = a % b;
    vstd::arithmetic::div_mod::lemma_fundamental_div_mod(a as int, b as int);
    assert(a == b * q + r);
    assert(0 <= r < b);
    let n = double::nearest_even(a, b);
    if n == q {
        assert(n * b == b * q) by (nonlinear_arith)
            requires
                n == q,
        ;
        assert(2 * r <= b);
    } else {
        assert(n * b == b * q + b) by (nonlinear_arith)
            requires
                n == q + 1,
        ;
        assert(2 * r >= b);
    }
}

proof fn the_unit_reaches(n: nat, d: nat)
    requires
        n > 0,
        d > 0,
    ensures
        double::unit(n, d) >= 1,
        n * double::unit(n, d) >= double::SMALLEST * d,
    decreases
            if n < double::SMALLEST * d {
                double::SMALLEST * d - n
            } else {
                0
            },
{
    let u = double::unit(n, d);
    if n >= double::SMALLEST * d {
        assert(n * 1 == n);
    } else {
        the_unit_reaches(2 * n, d);
        let v = double::unit(2 * n, d);
        assert(n * u == (2 * n) * v) by (nonlinear_arith)
            requires
                u == 2 * v,
        ;
    }
}

/// A double is as close to the fraction it stands for as its digits reach.
proof fn a_double_is_close(n: nat, d: nat)
    requires
        n > 0,
        d > 0,
    ensures
        close((double::double(n, d).0 * d) as int, (n * double::double(n, d).1) as int, 1),
        double::double(n, d).0 > 0,
        double::double(n, d).1 > 0,
{
    let (s, u) = double::double(n, d);
    the_unit_reaches(n, d);
    let exact = n * u;
    rounding_is_off_by_half_at_most(exact, d);
    let got = s * d;
    let k = 2 * double::SMALLEST;
    let off = got - exact;
    assert(-(d as int) <= 2 * off <= d);
    assert(exact >= double::SMALLEST * d);
    assert(k == 0x20_0000_0000_0000);
    assert(-(exact as int) <= off * k <= exact);
    let m = fine();
    assert(got * 0x8_0000_0000_0000int <= exact * 0x8_0000_0000_0001int);
    assert(exact * 0x8_0000_0000_0000int <= got * 0x8_0000_0000_0001int);
    assert(got * m <= exact * (m + 1) && exact * m <= got * (m + 1)) by (nonlinear_arith)
        requires
            m == 0x8_0000_0000_0000int,
            got * 0x8_0000_0000_0000int <= exact * 0x8_0000_0000_0001int,
            exact * 0x8_0000_0000_0000int <= got * 0x8_0000_0000_0001int,
    ;
    assert(s > 0) by (nonlinear_arith)
        requires
            got == s * d,
            got > 0,
            d > 0,
    ;
}

proof fn seconds_are_close(span: nat)
    requires
        span > 0,
    ensures
        close(
            (double::seconds(span).0 * 1_000_000_000) as int,
            (span * double::seconds(span).1) as int,
            3,
        ),
        double::seconds(span).0 > 0,
        double::seconds(span).1 > 0,
{
    let billion: nat = 1_000_000_000;
    let m = span % billion;
    let whole = span / billion;
    let (rest, part) = double::double(m, billion);
    if m == 0 {
        assert(part == 1);
        assert(double::nearest_even(0, billion) == 0);
        assert(0 * part == 0);
        assert(rest == 0);
    } else {
        a_double_is_close(m, billion);
    }
    let x = whole * part + rest;
    assert(part > 0);
    let k = fine();
    // The sum is as close to the span as its fraction is.
    let exact = span * part;
    let got = x * billion;
    assert(exact == whole * part * billion + m * part) by (nonlinear_arith)
        requires
            exact == span * part,
            span == whole * billion + m,
    ;
    assert(got == whole * part * billion + rest * billion) by (nonlinear_arith)
        requires
            got == x * billion,
            x == whole * part + rest,
    ;
    let lead = whole * part * billion;
    assert(lead >= 0);
    assert(close((rest * billion) as int, (m * part) as int, 1));
    assert(close(got as int, exact as int, 1));
    assert(exact > 0) by (nonlinear_arith)
        requires
            exact == span * part,
            span > 0,
            part > 0,
    ;
    assert(x > 0) by (nonlinear_arith)
        requires
            got == x * billion,
            got > 0,
            billion == 1_000_000_000,
    ;
    let (secs, unit) = double::double(x, part);
    a_double_is_close(x, part);
    // secs * part is close to x * unit, and x * billion to span * part.
    scaled((secs * part) as int, (x * unit) as int, billion as int, 1);
    scaled(got as int, exact as int, unit as int, 1);
    let a = secs * part * billion;
    let b = x * unit * billion;
    let c = span * part * unit;
    assert(got * unit == b) by (nonlinear_arith)
        requires
            got == x * billion,
            b == x * unit * billion,
    ;
    assert(exact * unit == c);
    close_both_ways(a as int, b as int, c as int, 1, 1);
    assert(a == (secs * billion) * part) by (nonlinear_arith)
        requires
            a == secs * part * billion,
    ;
    assert(c == (span * unit) * part) by (nonlinear_arith)
        requires
            c == span * part * unit,
    ;
    unscaled((secs * billion) as int, (span * unit) as int, part as int, 3);
}

proof fn the_quotient_is_close(percent: nat, span: nat, drop: nat)
    requires
        percent > 0,
        span > 0,
        drop > 0,
    ensures
        ({
            let (lost, part) = double::rate(span, drop);
            let (left, unit) = double::double(percent * part, lost);
            &&& close((left * 1_000_000_000 * drop) as int, (percent * span * unit) as int, 7)
            &&& unit > 0
        }),
{
    let billion: nat = 1_000_000_000;
    let (secs, p) = double::seconds(span);
    seconds_are_close(span);
    let (lost, q) = double::double(drop * p, secs);
    assert(drop * p > 0) by (nonlinear_arith)
        requires
            drop > 0,
            p > 0,
    ;
    a_double_is_close(drop * p, secs);
    let (left, u) = double::double(percent * q, lost);
    assert(percent * q > 0) by (nonlinear_arith)
        requires
            percent > 0,
            q > 0,
    ;
    a_double_is_close(percent * q, lost);
    // left * lost is close to percent * q * u, and lost * secs to drop * p * q.
    scaled((left * lost) as int, (percent * q * u) as int, secs as int, 1);
    scaled((lost * secs) as int, (drop * p * q) as int, left as int, 1);
    let a = left * lost * secs;
    let b = percent * q * u * secs;
    let c = drop * p * q * left;
    assert((lost * secs) * left == a) by (nonlinear_arith)
        requires
            a == left * lost * secs,
    ;
    assert(close(c as int, a as int, 1));
    assert(close(a as int, b as int, 1));
    close_both_ways(c as int, a as int, b as int, 1, 1);
    let c2 = left * drop * p;
    let b2 = percent * u * secs;
    assert(c == c2 * q) by (nonlinear_arith)
        requires
            c == drop * p * q * left,
            c2 == left * drop * p,
    ;
    assert(b == b2 * q) by (nonlinear_arith)
        requires
            b == percent * q * u * secs,
            b2 == percent * u * secs,
    ;
    unscaled(c2 as int, b2 as int, q as int, 3);
    scaled(c2 as int, b2 as int, billion as int, 3);
    // secs * billion is close to span * p.
    let factor = percent * u;
    scaled((secs * billion) as int, (span * p) as int, factor as int, 3);
    let d = c2 * billion;
    let e = b2 * billion;
    let f = span * p * factor;
    assert(secs * billion * factor == e) by (nonlinear_arith)
        requires
            e == b2 * billion,
            b2 == percent * u * secs,
            factor == percent * u,
    ;
    close_both_ways(d as int, e as int, f as int, 3, 3);
    let g = left * billion * drop;
    let h = percent * span * u;
    assert(d == g * p) by (nonlinear_arith)
        requires
            d == c2 * billion,
            c2 == left * drop * p,
            g == left * billion * drop,
    ;
    assert(f == h * p) by (nonlinear_arith)
        requires
            f == span * p * factor,
            factor == percent * u,
            h == percent * span * u,
    ;
    unscaled(g as int, h as int, p as int, 7);
}

/// The time left is the time it took to lose some percent, times the percent
/// there is, over the percent lost. It is off by no more than half a nanosecond
/// and seven parts in two to the fifty-first.
pub proof fn the_time_left_is_the_quotient(percent: nat, span: nat, drop: nat)
    requires
        span > 0,
        drop > 0,
    ensures
        ({
            let left = double::time_left(percent, span, drop);
            let fine = 0x8_0000_0000_0000int;
            &&& (2 * (left * drop) - drop) * fine <= 2 * (percent * span) * (fine + 7)
            &&& 2 * (percent * span) * fine <= (2 * (left * drop) + drop) * (fine + 7)
        }),
{
    let m = fine();
    let t = double::time_left(percent, span, drop);
    let (lost, part) = double::rate(span, drop);
    let (left, unit) = double::double(percent * part, lost);
    if percent == 0 {
        assert(percent * part == 0);
        assert(double::unit(0, lost) == 1);
        assert(0nat * 1 == 0);
        seconds_are_close(span);
        let (secs, p) = double::seconds(span);
        assert(drop * p > 0) by (nonlinear_arith)
            requires
                drop > 0,
                p > 0,
        ;
        a_double_is_close(drop * p, secs);
        assert(double::nearest_even(0, lost) == 0) by {
            assert(0nat / lost == 0) by (nonlinear_arith)
                requires
                    lost > 0,
            ;
            assert(0nat % lost == 0) by (nonlinear_arith)
                requires
                    lost > 0,
            ;
        }
        assert(left == 0);
        assert(t == double::nearest_even(0, 1));
        assert(t == 0);
        assert(t * drop == 0) by (nonlinear_arith)
            requires
                t == 0,
        ;
        assert(percent * span == 0) by (nonlinear_arith)
            requires
                percent == 0,
        ;
    } else {
        the_quotient_is_close(percent, span, drop);
        let nanos = left * 1_000_000_000;
        rounding_is_off_by_half_at_most(nanos, unit);
        let g = nanos * drop;
        let h = percent * span * unit;
        assert(g * m <= h * (m + 7));
        assert(h * m <= g * (m + 7));
        let w = t * unit;
        assert(-(unit as int) <= 2 * (w - nanos) <= unit);
        let x = t * drop;
        let y = percent * span;
        // Both sides times the unit.
        assert(2 * w * drop <= 2 * g + unit * drop && 2 * g <= 2 * w * drop + unit * drop)
            by (nonlinear_arith)
            requires
                -(unit as int) <= 2 * (w - nanos) <= unit,
                g == nanos * drop,
                drop > 0,
        ;
        assert(w * drop == x * unit) by (nonlinear_arith)
            requires
                w == t * unit,
                x == t * drop,
        ;
        assert(2 * w * drop == 2 * (x * unit)) by (nonlinear_arith)
            requires
                w * drop == x * unit,
        ;
        assert(unit * drop == drop * unit) by (nonlinear_arith);
        assert(h == y * unit);
        let z = drop;
        assert(2 * x * m <= 2 * y * (m + 7) + z * m) by (nonlinear_arith)
            requires
                2 * (x * unit) <= 2 * g + z * unit,
                g * m <= (y * unit) * (m + 7),
                unit > 0,
                m > 0,
        ;
        assert(2 * y * m <= (2 * x + z) * (m + 7)) by (nonlinear_arith)
            requires
                2 * g <= 2 * (x * unit) + z * unit,
                (y * unit) * m <= g * (m + 7),
                unit > 0,
                m > 0,
        ;
    }
}

} // verus!
