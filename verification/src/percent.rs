//! The percentage of a preset that a seed has enabled, computed in single precision.

use crate::single;
use vstd::prelude::*;

verus! {

/// The single-precision quotient of two counts, each first rounded to single precision itself.
pub open spec fn fraction(enabled: nat, total: nat) -> (nat, nat) {
    let a = single::nearest(enabled, 1);
    let b = single::nearest(total, 1);
    single::nearest(a.0 * b.1, a.1 * b.0)
}

/// A hundred times `fraction`, rounded to single precision, without its fractional part.
pub open spec fn whole_percent(enabled: nat, total: nat) -> nat {
    let frac = fraction(enabled, total);
    let scaled = single::nearest(100 * frac.0, frac.1);
    scaled.0 / scaled.1
}

/// The percentage shown for `enabled` out of `total`. Zero is kept for none and a hundred for a
/// fraction of one; of nothing, zero percent is enabled.
pub open spec fn percent(enabled: nat, total: nat) -> int {
    if total == 0 {
        0
    } else {
        let frac = fraction(enabled, total);
        let whole = whole_percent(enabled, total);
        if whole == 0 && frac.0 > 0 {
            1
        } else if whole == 100 && frac.0 < frac.1 {
            99
        } else {
            whole as int
        }
    }
}

/// More of the same total is no smaller a fraction.
proof fn lemma_fraction_monotone(enabled: nat, more: nat, total: nat)
    requires
        enabled <= more,
        total > 0,
    ensures
        fraction(enabled, total).0 * fraction(more, total).1 <= fraction(more, total).0 * fraction(
            enabled,
            total,
        ).1,
        fraction(enabled, total).1 > 0,
        fraction(more, total).1 > 0,
{
    let a1 = single::nearest(enabled, 1);
    let a2 = single::nearest(more, 1);
    let b = single::nearest(total, 1);
    single::lemma_nearest_positive(enabled, 1);
    single::lemma_nearest_positive(more, 1);
    single::lemma_nearest_positive(total, 1);
    single::lemma_nearest_monotone(enabled, 1, more, 1);
    assert((a1.0 * b.1) * (a2.1 * b.0) <= (a2.0 * b.1) * (a1.1 * b.0)) by (nonlinear_arith)
        requires
            a1.0 * a2.1 <= a2.0 * a1.1,
    {
        assert((a1.0 * b.1) * (a2.1 * b.0) == (a1.0 * a2.1) * (b.1 * b.0));
        assert((a2.0 * b.1) * (a1.1 * b.0) == (a2.0 * a1.1) * (b.1 * b.0));
    }
    assert(a1.1 * b.0 > 0) by (nonlinear_arith)
        requires
            a1.1 > 0,
            b.0 > 0,
    ;
    assert(a2.1 * b.0 > 0) by (nonlinear_arith)
        requires
            a2.1 > 0,
            b.0 > 0,
    ;
    single::lemma_nearest_monotone(a1.0 * b.1, a1.1 * b.0, a2.0 * b.1, a2.1 * b.0);
    single::lemma_nearest_positive(a1.0 * b.1, a1.1 * b.0);
    single::lemma_nearest_positive(a2.0 * b.1, a2.1 * b.0);
}

/// More of the same total scales to no smaller a whole percentage.
proof fn lemma_whole_monotone(enabled: nat, more: nat, total: nat)
    requires
        enabled <= more,
        total > 0,
    ensures
        whole_percent(enabled, total) <= whole_percent(more, total),
{
    let f1 = fraction(enabled, total);
    let f2 = fraction(more, total);
    lemma_fraction_monotone(enabled, more, total);
    assert((100 * f1.0) * f2.1 <= (100 * f2.0) * f1.1) by (nonlinear_arith)
        requires
            f1.0 * f2.1 <= f2.0 * f1.1,
    ;
    lemma_scale_and_floor(f1, f2);
}

/// The same, for any two fractions.
proof fn lemma_scale_and_floor(f1: (nat, nat), f2: (nat, nat))
    requires
        f1.1 > 0,
        f2.1 > 0,
        (100 * f1.0) * f2.1 <= (100 * f2.0) * f1.1,
    ensures
        single::nearest(100 * f1.0, f1.1).0 / single::nearest(100 * f1.0, f1.1).1
            <= single::nearest(100 * f2.0, f2.1).0 / single::nearest(100 * f2.0, f2.1).1,
{
    let s1 = single::nearest(100 * f1.0, f1.1);
    let s2 = single::nearest(100 * f2.0, f2.1);
    single::lemma_nearest_monotone(100 * f1.0, f1.1, 100 * f2.0, f2.1);
    single::lemma_nearest_positive(100 * f1.0, f1.1);
    single::lemma_nearest_positive(100 * f2.0, f2.1);
    let w1 = s1.0 / s1.1;
    let w2 = s2.0 / s2.1;
    assert(w1 <= w2) by (nonlinear_arith)
        requires
            w1 == s1.0 / s1.1,
            w2 == s2.0 / s2.1,
            s1.1 > 0,
            s2.1 > 0,
            s1.0 * s2.1 <= s2.0 * s1.1,
    {
        assert(w1 * s1.1 <= s1.0);
        assert(s2.0 < (w2 + 1) * s2.1);
        if w1 >= w2 + 1 {
            assert(s1.0 * s2.1 >= (w1 * s1.1) * s2.1);
            assert((w1 * s1.1) * s2.1 >= ((w2 + 1) * s1.1) * s2.1);
            assert(((w2 + 1) * s1.1) * s2.1 == ((w2 + 1) * s2.1) * s1.1);
            assert(((w2 + 1) * s2.1) * s1.1 > s2.0 * s1.1);
        }
    }
}

/// All of a total is the fraction one, and a hundred percent.
proof fn lemma_all(total: nat)
    requires
        total > 0,
    ensures
        fraction(total, total).0 == fraction(total, total).1,
        fraction(total, total).1 > 0,
        whole_percent(total, total) == 100,
{
    let b = single::nearest(total, 1);
    single::lemma_nearest_positive(total, 1);
    let x = b.0 * b.1;
    assert(b.1 * b.0 == x) by (nonlinear_arith)
        requires
            x == b.0 * b.1,
    ;
    assert(x > 0) by (nonlinear_arith)
        requires
            x == b.0 * b.1,
            b.0 > 0,
            b.1 > 0,
    ;
    let f = single::nearest(x, x);
    let one = single::nearest(1, 1);
    single::lemma_nearest_exact(1);
    single::lemma_nearest_monotone(x, x, 1, 1);
    single::lemma_nearest_monotone(1, 1, x, x);
    single::lemma_nearest_positive(x, x);
    assert(f.0 == f.1) by (nonlinear_arith)
        requires
            f.0 * one.1 == one.0 * f.1,
            one.0 == one.1,
            one.1 > 0,
    ;
    let s = single::nearest(100 * f.0, f.1);
    let hundred = single::nearest(100, 1);
    single::lemma_nearest_exact(100);
    single::lemma_nearest_monotone(100 * f.0, f.1, 100, 1);
    single::lemma_nearest_monotone(100, 1, 100 * f.0, f.1);
    single::lemma_nearest_positive(100 * f.0, f.1);
    assert(s.0 == 100 * s.1) by (nonlinear_arith)
        requires
            s.0 * hundred.1 == hundred.0 * s.1,
            hundred.0 == 100 * hundred.1,
            hundred.1 > 0,
    ;
    assert(s.0 / s.1 == 100) by (nonlinear_arith)
        requires
            s.0 == 100 * s.1,
            s.1 > 0,
    ;
}

/// The percentage lies between 0 and 100 whenever no more is enabled than there is.
pub proof fn percent_is_a_percentage(enabled: nat, total: nat)
    requires
        enabled <= total,
    ensures
        0 <= percent(enabled, total) <= 100,
{
    if total > 0 {
        lemma_whole_monotone(enabled, total, total);
        lemma_all(total);
    }
}

/// Zero percent is shown exactly when nothing is enabled.
pub proof fn zero_percent_means_none(enabled: nat, total: nat)
    requires
        enabled <= total,
    ensures
        percent(enabled, total) == 0 <==> enabled == 0,
{
    if total > 0 {
        let a = single::nearest(enabled, 1);
        let b = single::nearest(total, 1);
        single::lemma_nearest_positive(enabled, 1);
        single::lemma_nearest_positive(total, 1);
        let q = a.1 * b.0;
        assert(q > 0) by (nonlinear_arith)
            requires
                q == a.1 * b.0,
                a.1 > 0,
                b.0 > 0,
        ;
        if enabled > 0 {
            assert(a.0 * b.1 > 0) by (nonlinear_arith)
                requires
                    a.0 > 0,
                    b.1 > 0,
            ;
            single::lemma_nearest_positive(a.0 * b.1, q);
        } else {
            single::lemma_nearest_exact(0);
            assert(a.0 == 0) by (nonlinear_arith)
                requires
                    a.0 == 0 * a.1,
            ;
            assert(a.0 * b.1 == 0) by (nonlinear_arith)
                requires
                    a.0 == 0,
            ;
            single::lemma_nearest_zero(q);
            assert(fraction(enabled, total).0 == 0);
            single::lemma_nearest_zero(fraction(enabled, total).1);
        }
    }
}

/// Enabling more of the same preset never lowers its percentage.
pub proof fn percent_is_monotone(enabled: nat, more: nat, total: nat)
    requires
        enabled <= more <= total,
    ensures
        percent(enabled, total) <= percent(more, total),
{
    if total > 0 {
        let f1 = fraction(enabled, total);
        let f2 = fraction(more, total);
        lemma_fraction_monotone(enabled, more, total);
        lemma_whole_monotone(enabled, more, total);
        lemma_whole_monotone(more, total, total);
        lemma_all(total);
        if f2.0 < f2.1 {
            assert(f1.0 < f1.1) by (nonlinear_arith)
                requires
                    f1.0 * f2.1 <= f2.0 * f1.1,
                    f2.0 < f2.1,
                    f1.1 > 0,
            ;
        }
        if f1.0 > 0 {
            assert(f2.0 > 0) by (nonlinear_arith)
                requires
                    f1.0 * f2.1 <= f2.0 * f1.1,
                    f1.0 > 0,
                    f2.1 > 0,
            ;
        }
    }
}

/// A hundred percent is shown exactly when the fraction rounds to one, as it does when all is
/// enabled.
pub proof fn hundred_percent_means_fraction_one(enabled: nat, total: nat)
    requires
        enabled <= total,
        total > 0,
    ensures
        percent(enabled, total) == 100 <==> fraction(enabled, total).0 == fraction(
            enabled,
            total,
        ).1,
        enabled == total ==> percent(enabled, total) == 100,
{
    let f = fraction(enabled, total);
    let all = fraction(total, total);
    lemma_all(total);
    lemma_fraction_monotone(enabled, total, total);
    assert(f.0 <= f.1) by (nonlinear_arith)
        requires
            f.0 * all.1 <= all.0 * f.1,
            all.0 == all.1,
            all.1 > 0,
    ;
    lemma_whole_monotone(enabled, total, total);
    if f.0 == f.1 {
        assert((100 * all.0) * f.1 == (100 * f.0) * all.1) by (nonlinear_arith)
            requires
                f.0 == f.1,
                all.0 == all.1,
        ;
        lemma_scale_and_floor(all, f);
    }
}

/// A hundred percent means that all is enabled, for totals up to which single precision holds
/// every count exactly. Beyond them two different counts may round to the same number.
pub proof fn hundred_percent_means_all(enabled: nat, total: nat)
    requires
        enabled <= total,
        0 < total <= single::MANTISSA_END,
    ensures
        percent(enabled, total) == 100 <==> enabled == total,
{
    if enabled == total {
        lemma_all(total);
    } else {
        let f = fraction(enabled, total);
        let a = single::nearest(enabled, 1);
        let b = single::nearest(total, 1);
        single::lemma_nearest_exact(enabled);
        single::lemma_nearest_exact(total);
        single::lemma_nearest_positive(total, 1);
        let p = a.0 * b.1;
        let q = a.1 * b.0;
        let end = single::MANTISSA_END as nat;
        let last = (end - 1) as nat;
        assert(q > 0) by (nonlinear_arith)
            requires
                q == a.1 * b.0,
                a.1 > 0,
                b.0 > 0,
        ;
        assert(p * end <= last * q) by (nonlinear_arith)
            requires
                p == a.0 * b.1,
                q == a.1 * b.0,
                a.0 == enabled * a.1,
                b.0 == total * b.1,
                last == end - 1,
                enabled + 1 <= total <= end,
        {
            let w = a.1 * b.1;
            assert(p == enabled * w);
            assert(q == total * w);
            assert(enabled * end <= last * total) by {
                assert(enabled * end <= (total - 1) * end);
                assert((total - 1) * end == total * end - end);
                assert(last * total == end * total - total);
            }
            assert(p * end == (enabled * end) * w);
            assert(last * q == (last * total) * w);
            assert((enabled * end) * w <= (last * total) * w);
        }
        single::lemma_nearest_monotone(p, q, last, end);
        single::lemma_nearest_below_one();
        single::lemma_nearest_positive(p, q);
        assert(f.0 < f.1) by (nonlinear_arith)
            requires
                f.0 * end <= last * f.1,
                last == end - 1,
                f.1 > 0,
        ;
    }
}

/// A quotient that is at most one, off by less than one part in 2^21, and then scaled and rounded
/// again, is less than a point off in percent.
proof fn lemma_close(enabled: nat, total: nat, f: (nat, nat), s: (nat, nat))
    requires
        enabled <= total,
        f.1 > 0,
        0x20_0000 * (f.0 * total) <= 0x20_0001 * (enabled * f.1),
        0x1f_ffff * (enabled * f.1) <= 0x20_0000 * (f.0 * total),
        single::MANTISSA_END * (s.0 * f.1) <= (single::MANTISSA_END + 1) * ((100 * f.0) * s.1),
        (single::MANTISSA_END - 1) * ((100 * f.0) * s.1) <= single::MANTISSA_END * (s.0 * f.1),
    ensures
        s.0 * total <= 100 * (enabled * s.1) + total * s.1,
        100 * (enabled * s.1) <= s.0 * total + total * s.1,
        0x4000 * (s.0 * total) <= 0x19_0000 * (enabled * s.1) + total * s.1,
        0x19_0000 * (enabled * s.1) <= 0x4000 * (s.0 * total) + total * s.1,
{
    let x = s.0 * total;
    let y = enabled * s.1;
    let z = total * s.1;
    let g = f.0 * total;
    let h = enabled * f.1;
    assert(y <= z) by (nonlinear_arith)
        requires
            y == enabled * s.1,
            z == total * s.1,
            enabled <= total,
    ;
    // Both chains are multiplied out to the common factor `f.1`, which is then cancelled.
    assert(h * s.1 == y * f.1) by (nonlinear_arith)
        requires
            h == enabled * f.1,
            y == enabled * s.1,
    ;
    assert((s.0 * f.1) * total == x * f.1) by (nonlinear_arith)
        requires
            x == s.0 * total,
    ;
    assert((f.0 * s.1) * total == g * s.1) by (nonlinear_arith)
        requires
            g == f.0 * total,
    ;
    let c = (s.0 * f.1) * total;
    let e = (f.0 * s.1) * total;
    assert(0x100_0000 * c <= 0x100_0001 * (100 * e)) by (nonlinear_arith)
        requires
            0x100_0000 * (s.0 * f.1) <= 0x100_0001 * ((100 * f.0) * s.1),
            c == (s.0 * f.1) * total,
            e == (f.0 * s.1) * total,
    {
        assert((100 * f.0) * s.1 == 100 * (f.0 * s.1));
        assert((0x100_0000 * (s.0 * f.1)) * total <= (0x100_0001 * (100 * (f.0 * s.1))) * total);
    }
    assert(0xff_ffff * (100 * e) <= 0x100_0000 * c) by (nonlinear_arith)
        requires
            0xff_ffff * ((100 * f.0) * s.1) <= 0x100_0000 * (s.0 * f.1),
            c == (s.0 * f.1) * total,
            e == (f.0 * s.1) * total,
    {
        assert((100 * f.0) * s.1 == 100 * (f.0 * s.1));
        assert((0xff_ffff * (100 * (f.0 * s.1))) * total <= (0x100_0000 * (s.0 * f.1)) * total);
    }
    let k = y * f.1;
    assert(0x20_0000 * e <= 0x20_0001 * k) by (nonlinear_arith)
        requires
            0x20_0000 * g <= 0x20_0001 * h,
            e == g * s.1,
            k == h * s.1,
    ;
    assert(0x1f_ffff * k <= 0x20_0000 * e) by (nonlinear_arith)
        requires
            0x1f_ffff * h <= 0x20_0000 * g,
            e == g * s.1,
            k == h * s.1,
    ;
    let zf = z * f.1;
    assert(k <= zf) by (nonlinear_arith)
        requires
            k == y * f.1,
            zf == z * f.1,
            y <= z,
    ;
    assert(c <= 100 * k + zf);
    assert(100 * k <= c + zf);
    assert(0x4000 * c <= 0x19_0000 * k + zf);
    assert(0x19_0000 * k <= 0x4000 * c + zf);
    assert(x <= 100 * y + z) by (nonlinear_arith)
        requires
            c == x * f.1,
            k == y * f.1,
            zf == z * f.1,
            c <= 100 * k + zf,
            f.1 > 0,
    ;
    assert(100 * y <= x + z) by (nonlinear_arith)
        requires
            c == x * f.1,
            k == y * f.1,
            zf == z * f.1,
            100 * k <= c + zf,
            f.1 > 0,
    ;
    assert(0x4000 * x <= 0x19_0000 * y + z) by (nonlinear_arith)
        requires
            c == x * f.1,
            k == y * f.1,
            zf == z * f.1,
            0x4000 * c <= 0x19_0000 * k + zf,
            f.1 > 0,
    ;
    assert(0x19_0000 * y <= 0x4000 * x + z) by (nonlinear_arith)
        requires
            c == x * f.1,
            k == y * f.1,
            zf == z * f.1,
            0x19_0000 * k <= 0x4000 * c + zf,
            f.1 > 0,
    ;
}

/// The quotient of two rounded counts, rounded, is off by less than one part in 2^21.
proof fn lemma_fraction_error(enabled: nat, total: nat)
    requires
        total > 0,
    ensures
        fraction(enabled, total).1 > 0,
        0x20_0000 * (fraction(enabled, total).0 * total) <= 0x20_0001 * (enabled * fraction(
            enabled,
            total,
        ).1),
        0x1f_ffff * (enabled * fraction(enabled, total).1) <= 0x20_0000 * (fraction(
            enabled,
            total,
        ).0 * total),
{
    let a = single::nearest(enabled, 1);
    let b = single::nearest(total, 1);
    let p = a.0 * b.1;
    let q = a.1 * b.0;
    let f = fraction(enabled, total);
    single::lemma_nearest_positive(enabled, 1);
    single::lemma_nearest_positive(total, 1);
    single::lemma_nearest_error(enabled, 1);
    single::lemma_nearest_error(total, 1);
    assert(q > 0) by (nonlinear_arith)
        requires
            q == a.1 * b.0,
            a.1 > 0,
            b.0 > 0,
    ;
    single::lemma_nearest_positive(p, q);
    single::lemma_nearest_error(p, q);
    let x = f.0 * total;
    let y = enabled * f.1;
    // The four quantities that the three errors relate, with their common factors multiplied in.
    let w = a.1 * b.1;
    let exact = x * w;
    let fq = f.0 * q;
    let pf = p * f.1;
    let rounded = y * w;
    assert(w > 0) by (nonlinear_arith)
        requires
            w == a.1 * b.1,
            a.1 > 0,
            b.1 > 0,
    ;
    assert(0xff_ffff * exact <= 0x100_0000 * fq && 0x100_0000 * fq <= 0x100_0001 * exact)
        by (nonlinear_arith)
        requires
            0xff_ffff * (total * b.1) <= 0x100_0000 * (b.0 * 1),
            0x100_0000 * (b.0 * 1) <= 0x100_0001 * (total * b.1),
            exact == (f.0 * total) * (a.1 * b.1),
            fq == f.0 * (a.1 * b.0),
    {
        let c = f.0 * a.1;
        assert(exact == (total * b.1) * c);
        assert(fq == b.0 * c);
        assert((0xff_ffff * (total * b.1)) * c <= (0x100_0000 * b.0) * c);
        assert((0x100_0000 * b.0) * c <= (0x100_0001 * (total * b.1)) * c);
    }
    assert(0xff_ffff * rounded <= 0x100_0000 * pf && 0x100_0000 * pf <= 0x100_0001 * rounded)
        by (nonlinear_arith)
        requires
            0xff_ffff * (enabled * a.1) <= 0x100_0000 * (a.0 * 1),
            0x100_0000 * (a.0 * 1) <= 0x100_0001 * (enabled * a.1),
            rounded == (enabled * f.1) * (a.1 * b.1),
            pf == (a.0 * b.1) * f.1,
    {
        let c = b.1 * f.1;
        assert(rounded == (enabled * a.1) * c);
        assert(pf == a.0 * c);
        assert((0xff_ffff * (enabled * a.1)) * c <= (0x100_0000 * a.0) * c);
        assert((0x100_0000 * a.0) * c <= (0x100_0001 * (enabled * a.1)) * c);
    }
    assert(0x20_0000 * exact <= 0x20_0001 * rounded);
    assert(0x1f_ffff * rounded <= 0x20_0000 * exact);
    assert(0x20_0000 * x <= 0x20_0001 * y && 0x1f_ffff * y <= 0x20_0000 * x) by (nonlinear_arith)
        requires
            exact == x * w,
            rounded == y * w,
            w > 0,
            0x20_0000 * exact <= 0x20_0001 * rounded,
            0x1f_ffff * rounded <= 0x20_0000 * exact,
    ;
}

/// The percentage shown is at most one point above the exact one, and less than two below it.
pub proof fn percent_is_close(enabled: nat, total: nat)
    requires
        enabled <= total,
        total > 0,
    ensures
        percent(enabled, total) * total <= 100 * enabled + total,
        100 * enabled < (percent(enabled, total) + 2) * total,
{
    let f = fraction(enabled, total);
    let s = single::nearest(100 * f.0, f.1);
    lemma_fraction_error(enabled, total);
    single::lemma_nearest_positive(100 * f.0, f.1);
    single::lemma_nearest_error(100 * f.0, f.1);
    lemma_close(enabled, total, f, s);
    let whole = whole_percent(enabled, total);
    assert(whole * total <= 100 * enabled + total && 100 * enabled < (whole + 2) * total) by (
    nonlinear_arith)
        requires
            whole == s.0 / s.1,
            s.1 > 0,
            total > 0,
            s.0 * total <= 100 * (enabled * s.1) + total * s.1,
            100 * (enabled * s.1) <= s.0 * total + total * s.1,
    {
        assert(whole * s.1 <= s.0 < (whole + 1) * s.1);
        assert((whole * s.1) * total <= s.0 * total);
        assert(s.0 * total < ((whole + 1) * s.1) * total);
        assert((whole * total) * s.1 <= (100 * enabled + total) * s.1);
        assert((100 * enabled) * s.1 < ((whole + 2) * total) * s.1);
    }
    lemma_whole_monotone(enabled, total, total);
    lemma_all(total);
    let shown = percent(enabled, total);
    if shown != whole {
        assert(shown * total <= 100 * enabled + total && 100 * enabled < (shown + 2) * total)
            by (nonlinear_arith)
            requires
                whole == 0 && shown == 1 || whole == 100 && shown == 99,
                whole * total <= 100 * enabled + total,
                100 * enabled < (whole + 2) * total,
                enabled <= total,
                total > 0,
        ;
    }
}

/// Of fewer than 2^14 entries, the percentage shown is the exact one without its fractional part,
/// or one where that is zero. Only an exact percentage that is whole may be shown as one less.
pub proof fn percent_is_rounded_down(enabled: nat, total: nat)
    requires
        0 < enabled <= total < 0x4000,
    ensures
        (100 * enabled) % total != 0 ==> percent(enabled, total) == (if 100 * enabled < total {
            1
        } else {
            (100 * enabled) / total
        }) as int,
        (100 * enabled) % total == 0 ==> {
            ||| percent(enabled, total) == ((100 * enabled) / total) as int
            ||| percent(enabled, total) == ((100 * enabled) / total) as int - 1
        },
{
    let f = fraction(enabled, total);
    let s = single::nearest(100 * f.0, f.1);
    lemma_fraction_error(enabled, total);
    single::lemma_nearest_positive(100 * f.0, f.1);
    single::lemma_nearest_error(100 * f.0, f.1);
    lemma_close(enabled, total, f, s);
    zero_percent_means_none(enabled, total);
    hundred_percent_means_all(enabled, total);
    let whole = whole_percent(enabled, total);
    let k = (100 * enabled) / total;
    let r = (100 * enabled) % total;
    assert(100 * enabled == k * total + r && r < total) by (nonlinear_arith)
        requires
            total > 0,
            k == (100 * enabled) / total,
            r == (100 * enabled) % total,
    ;
    assert(whole * s.1 <= s.0 < (whole + 1) * s.1) by (nonlinear_arith)
        requires
            whole == s.0 / s.1,
            s.1 > 0,
    ;
    let x = s.0 * total;
    let z = total * s.1;
    let v = k * z;
    let w = r * s.1;
    assert(100 * (enabled * s.1) == v + w) by (nonlinear_arith)
        requires
            100 * enabled == k * total + r,
            v == k * (total * s.1),
            w == r * s.1,
    ;
    assert(z < 0x4000 * s.1) by (nonlinear_arith)
        requires
            z == total * s.1,
            total < 0x4000,
            s.1 > 0,
    ;
    assert(w <= z - s.1) by (nonlinear_arith)
        requires
            w == r * s.1,
            z == total * s.1,
            r + 1 <= total,
    ;
    // The scaled fraction lies below the next whole number, and above the one before.
    assert(x < v + z);
    assert(whole <= k) by (nonlinear_arith)
        requires
            x == s.0 * total,
            z == total * s.1,
            v == k * z,
            x < v + z,
            whole * s.1 <= s.0,
            s.1 > 0,
            total > 0,
    {
        if whole >= k + 1 {
            assert((k + 1) * s.1 <= whole * s.1);
            assert(((k + 1) * s.1) * total <= s.0 * total);
            assert(((k + 1) * s.1) * total == k * (total * s.1) + total * s.1);
        }
    }
    if r > 0 {
        assert(w >= s.1) by (nonlinear_arith)
            requires
                w == r * s.1,
                r >= 1,
        ;
        assert(x > v);
    }
    assert(x + z > v);
    assert(r > 0 ==> whole >= k) by (nonlinear_arith)
        requires
            x == s.0 * total,
            z == total * s.1,
            v == k * z,
            r > 0 ==> x > v,
            s.0 < (whole + 1) * s.1,
            s.1 > 0,
            total > 0,
    {
        if r > 0 && whole < k {
            assert((whole + 1) * s.1 <= k * s.1);
            assert(s.0 * total <= (k * s.1) * total);
            assert((k * s.1) * total == k * (total * s.1));
        }
    }
    assert(whole + 1 >= k) by (nonlinear_arith)
        requires
            x == s.0 * total,
            z == total * s.1,
            v == k * z,
            x + z > v,
            s.0 < (whole + 1) * s.1,
            s.1 > 0,
            total > 0,
    {
        if whole + 1 < k {
            assert((whole + 2) * s.1 <= k * s.1);
            assert((s.0 + s.1) * total <= (k * s.1) * total);
            assert((k * s.1) * total == k * (total * s.1));
            assert((s.0 + s.1) * total == s.0 * total + total * s.1);
        }
    }
    assert(r == 0 ==> k > 0) by (nonlinear_arith)
        requires
            100 * enabled == k * total + r,
            enabled > 0,
    ;
    assert(k == 0 <==> 100 * enabled < total) by (nonlinear_arith)
        requires
            100 * enabled == k * total + r,
            r < total,
    ;
    if enabled < total {
        assert(k < 100) by (nonlinear_arith)
            requires
                100 * enabled == k * total + r,
                enabled < total,
        ;
    } else {
        hundred_percent_means_fraction_one(enabled, total);
        assert(k == 100 && r == 0) by (nonlinear_arith)
            requires
                100 * total == k * total + r,
                0 <= r < total,
        ;
    }
}

/// The percentage that `enabled` is of `total`.
pub fn percent_of(enabled: usize, total: usize) -> (shown: isize)
    requires
        enabled <= total,
    ensures
        shown == percent(enabled as nat, total as nat),
{
    if total == 0 {
        return 0;
    }
    let a: (u128, u128) = single::round_to_single(enabled as u128, 1);
    let b: (u128, u128) = single::round_to_single(total as u128, 1);
    assert(a.1 <= 0x100_0000 && b.1 <= 0x100_0000) by (nonlinear_arith)
        requires
            a.1 == 1 || enabled * a.1 < 0x100_0000,
            b.1 == 1 || total * b.1 < 0x100_0000,
            enabled > 0 || a.1 == 1,
            total > 0,
    ;
    assert(a.0 <= 0x2_0000_0000_0000_0000 && b.0 <= 0x2_0000_0000_0000_0000);
    assert(a.0 * b.1 <= 0x2_0000_0000_0000_0000 * 0x100_0000) by (nonlinear_arith)
        requires
            a.0 <= 0x2_0000_0000_0000_0000,
            b.1 <= 0x100_0000,
    ;
    assert(a.1 * b.0 <= 0x2_0000_0000_0000_0000 * 0x100_0000) by (nonlinear_arith)
        requires
            b.0 <= 0x2_0000_0000_0000_0000,
            a.1 <= 0x100_0000,
    ;
    assert(a.1 * b.0 > 0) by (nonlinear_arith)
        requires
            a.1 > 0,
            b.0 > 0,
    ;
    let p: u128 = a.0 * b.1;
    let q: u128 = a.1 * b.0;
    let frac: (u128, u128) = single::round_to_single(p, q);
    assert(frac.1 < 0x10_0000_0000_0000_0000_0000_0000) by {
        if frac.1 != 1 {
            assert(enabled > 0) by {
                if enabled == 0 {
                    assert(p == 0) by (nonlinear_arith)
                        requires
                            p == a.0 * b.1,
                            a.0 == 0,
                    ;
                }
            }
            assert(p >= 0x80_0000) by (nonlinear_arith)
                requires
                    p == a.0 * b.1,
                    a.0 >= 0x80_0000,
                    b.1 >= 1,
            ;
            assert(0x80_0000 * frac.1 <= p * frac.1) by (nonlinear_arith)
                requires
                    p >= 0x80_0000,
            ;
        }
    }
    let scaled: (u128, u128) = single::round_to_single(100 * frac.0, frac.1);
    let whole: u128 = scaled.0 / scaled.1;
    proof {
        lemma_whole_monotone(enabled as nat, total as nat, total as nat);
        lemma_all(total as nat);
        assert(whole == whole_percent(enabled as nat, total as nat));
    }
    if whole == 0 && frac.0 > 0 {
        1
    } else if whole == 100 && frac.0 < frac.1 {
        99
    } else {
        whole as isize
    }
}

} // verus!
