//! Non-negative arithmetic in IEEE 754 single precision, carried out on integers.
//!
//! A single-precision number has 24 significant bits. Rounding `p / q` to one means choosing the
//! power of two that scales the quotient into `[2^23, 2^24)`, rounding the scaled quotient to the
//! nearest integer (a tie goes to the even one) and undoing the scaling. The quotients handled
//! here lie far inside the exponent range, so neither overflow nor a subnormal result occurs.

use vstd::arithmetic::power2::*;
use vstd::prelude::*;

verus! {

/// 2^23: the least integer with 24 significant bits.
pub const MANTISSA_MIN: u128 = 0x80_0000;

/// 2^24: the least integer with more than 24 significant bits.
pub const MANTISSA_END: u128 = 0x100_0000;

/// A bound under which doubling a number and adding to it stays within 128 bits.
const LIMIT: u128 = 0x4000_0000_0000_0000_0000_0000_0000_0000;

/// The integer nearest to `p / q`; of two equally near ones, the even one.
pub open spec fn half_even(p: nat, q: nat) -> nat {
    let floor = p / q;
    let rest = p % q;
    if 2 * rest < q || (2 * rest == q && floor % 2 == 0) {
        floor
    } else {
        floor + 1
    }
}

/// How often `p / q` has to be doubled to reach 2^23.
pub open spec fn doublings(p: nat, q: nat) -> nat
    decreases MANTISSA_END * q - p,
{
    if p == 0 || p >= MANTISSA_MIN * q {
        0
    } else {
        1 + doublings(2 * p, q)
    }
}

/// How often `p / q` has to be halved to drop below 2^24.
pub open spec fn halvings(p: nat, q: nat) -> nat
    decreases p - MANTISSA_MIN * q,
{
    if q == 0 || p < MANTISSA_END * q {
        0
    } else {
        1 + halvings(p, 2 * q)
    }
}

/// The single-precision number nearest to `p / q`, as a numerator and a denominator.
pub open spec fn nearest(p: nat, q: nat) -> (nat, nat) {
    let up = pow2(doublings(p, q));
    let down = pow2(halvings(p, q));
    (half_even(p * up, q * down) * down, up)
}

/// `p / q`, rounded to the nearest integer.
fn round_half_even(p: u128, q: u128) -> (r: u128)
    requires
        p < LIMIT,
        0 < q < LIMIT,
    ensures
        r == half_even(p as nat, q as nat),
{
    let floor: u128 = p / q;
    let rest: u128 = p % q;
    assert(floor <= p) by (nonlinear_arith)
        requires
            floor == p / q,
            q > 0,
    ;
    if 2 * rest < q || (2 * rest == q && floor % 2 == 0) {
        floor
    } else {
        floor + 1
    }
}

/// Where the scaling of a positive quotient by `nearest` ends up: the scaled quotient has 24
/// significant bits before the point, and only one of the two factors is more than one.
proof fn lemma_scaled(p: nat, q: nat)
    requires
        p > 0,
        q > 0,
    ensures
        MANTISSA_MIN * (q * pow2(halvings(p, q))) <= p * pow2(doublings(p, q)),
        p * pow2(doublings(p, q)) < MANTISSA_END * (q * pow2(halvings(p, q))),
        doublings(p, q) == 0 || halvings(p, q) == 0,
    decreases doublings(p, q) + halvings(p, q),
{
    lemma_pow2(0);
    assert(pow2(0) == 1) by {
        lemma2_to64();
    }
    if p < MANTISSA_MIN * q {
        lemma_scaled(2 * p, q);
        let d = doublings(2 * p, q);
        lemma_pow2_unfold((d + 1) as nat);
        assert(doublings(p, q) == d + 1);
        assert(halvings(p, q) == 0 && halvings(2 * p, q) == 0);
        assert(p * pow2((d + 1) as nat) == (2 * p) * pow2(d)) by (nonlinear_arith)
            requires
                pow2((d + 1) as nat) == 2 * pow2(d),
        ;
    } else if p >= MANTISSA_END * q {
        lemma_scaled(p, 2 * q);
        let h = halvings(p, 2 * q);
        lemma_pow2_unfold((h + 1) as nat);
        assert(halvings(p, q) == h + 1);
        assert(doublings(p, q) == 0 && doublings(p, 2 * q) == 0);
        assert(q * pow2((h + 1) as nat) == (2 * q) * pow2(h)) by (nonlinear_arith)
            requires
                pow2((h + 1) as nat) == 2 * pow2(h),
        ;
    } else {
        assert(doublings(p, q) == 0 && halvings(p, q) == 0);
    }
}

/// The mantissa of a positive quotient has 24 significant bits, or is 2^24 after rounding up.
proof fn lemma_mantissa(p: nat, q: nat)
    requires
        p > 0,
        q > 0,
    ensures
        q * pow2(halvings(p, q)) > 0,
        MANTISSA_MIN <= half_even(p * pow2(doublings(p, q)), q * pow2(halvings(p, q)))
            <= MANTISSA_END,
{
    lemma_scaled(p, q);
    lemma_pow2_pos(halvings(p, q));
    let n = p * pow2(doublings(p, q));
    let d = q * pow2(halvings(p, q));
    assert(d > 0) by (nonlinear_arith)
        requires
            d == q * pow2(halvings(p, q)),
            q > 0,
            pow2(halvings(p, q)) > 0,
    ;
    assert(MANTISSA_MIN <= n / d < MANTISSA_END) by (nonlinear_arith)
        requires
            MANTISSA_MIN * d <= n < MANTISSA_END * d,
            d > 0,
    ;
}

/// A positive quotient rounds to a positive number; the denominator is never zero.
pub proof fn lemma_nearest_positive(p: nat, q: nat)
    requires
        q > 0,
    ensures
        nearest(p, q).1 > 0,
        p > 0 ==> nearest(p, q).0 > 0,
{
    lemma_pow2_pos(doublings(p, q));
    lemma_pow2_pos(halvings(p, q));
    if p > 0 {
        lemma_mantissa(p, q);
        let m = half_even(p * pow2(doublings(p, q)), q * pow2(halvings(p, q)));
        assert(m * pow2(halvings(p, q)) > 0) by (nonlinear_arith)
            requires
                m > 0,
                pow2(halvings(p, q)) > 0,
        ;
    }
}

/// Zero rounds to zero.
pub proof fn lemma_nearest_zero(q: nat)
    requires
        q > 0,
    ensures
        nearest(0, q) == (0nat, 1nat),
{
    lemma2_to64();
    assert(0nat / q == 0 && 0nat % q == 0) by (nonlinear_arith)
        requires
            q > 0,
    ;
    assert(doublings(0, q) == 0 && halvings(0, q) == 0);
}

/// Rounds `p / q` to single precision. The bounds on the result are what its further use needs:
/// neither part of it outgrows the quotient it came from.
pub(crate) fn round_to_single(p: u128, q: u128) -> (r: (u128, u128))
    requires
        p < 0x10_0000_0000_0000_0000_0000_0000,
        0 < q < 0x10_0000_0000_0000_0000_0000_0000,
    ensures
        (r.0 as nat, r.1 as nat) == nearest(p as nat, q as nat),
        r.0 <= MANTISSA_END || r.0 <= 2 * p,
        p > 0 ==> r.0 >= MANTISSA_MIN,
        p == 0 ==> r.0 == 0 && r.1 == 1,
        r.1 > 0,
        r.1 == 1 || p * r.1 < MANTISSA_END * q,
{
    let mut n: u128 = p;
    let mut up: u128 = 1;
    let ghost mut k: nat = 0;
    proof {
        lemma2_to64();
    }
    while n > 0 && n < MANTISSA_MIN * q
        invariant
            n == p * up,
            up == pow2(k),
            doublings(p as nat, q as nat) == k + doublings(n as nat, q as nat),
            0 < q < 0x10_0000_0000_0000_0000_0000_0000,
            p < 0x10_0000_0000_0000_0000_0000_0000,
            n < MANTISSA_END * q || up == 1,
            p > 0 ==> n > 0,
            up > 0,
            p == 0 ==> up == 1,
        decreases MANTISSA_END * q - n,
    {
        proof {
            lemma_pow2_unfold((k + 1) as nat);
            k = k + 1;
            assert(up <= n) by (nonlinear_arith)
                requires
                    n == p * up,
                    n > 0,
            ;
            assert(p * (2 * up) == 2 * n) by (nonlinear_arith)
                requires
                    n == p * up,
            ;
        }
        n = 2 * n;
        up = 2 * up;
    }
    let mut d: u128 = q;
    let mut down: u128 = 1;
    let ghost mut j: nat = 0;
    while p >= MANTISSA_END * d
        invariant
            d == q * down,
            down == pow2(j),
            halvings(p as nat, q as nat) == j + halvings(p as nat, d as nat),
            0 < q < 0x10_0000_0000_0000_0000_0000_0000,
            p < 0x10_0000_0000_0000_0000_0000_0000,
            d < 0x10_0000_0000_0000_0000_0000_0000,
            down == 1 || MANTISSA_MIN * d <= p,
            0 < down <= d,
        decreases p - MANTISSA_MIN * d,
    {
        proof {
            lemma_pow2_unfold((j + 1) as nat);
            j = j + 1;
            assert(q * (2 * down) == 2 * d) by (nonlinear_arith)
                requires
                    d == q * down,
            ;
        }
        d = 2 * d;
        down = 2 * down;
    }
    let m: u128 = round_half_even(n, d);
    proof {
        assert(k == doublings(p as nat, q as nat));
        assert(j == halvings(p as nat, q as nat));
        if p > 0 {
            lemma_scaled(p as nat, q as nat);
            lemma_mantissa(p as nat, q as nat);
            assert(m * down <= MANTISSA_END * down) by (nonlinear_arith)
                requires
                    m <= MANTISSA_END,
            ;
            assert(m <= m * down) by (nonlinear_arith)
                requires
                    down >= 1,
            ;
        } else {
            assert(0nat / (d as nat) == 0 && 0nat % (d as nat) == 0);
            assert(m * down == 0);
        }
    }
    (m * down, up)
}

/// Rounding to an integer keeps the order of two quotients.
proof fn lemma_half_even_monotone(p1: nat, q1: nat, p2: nat, q2: nat)
    requires
        q1 > 0,
        q2 > 0,
        p1 * q2 <= p2 * q1,
    ensures
        half_even(p1, q1) <= half_even(p2, q2),
{
    let f1 = p1 / q1;
    let r1 = p1 % q1;
    let f2 = p2 / q2;
    let r2 = p2 % q2;
    assert(p1 == f1 * q1 + r1 && r1 < q1) by (nonlinear_arith)
        requires
            f1 == p1 / q1,
            r1 == p1 % q1,
            q1 > 0,
    ;
    assert(p2 == f2 * q2 + r2 && r2 < q2) by (nonlinear_arith)
        requires
            f2 == p2 / q2,
            r2 == p2 % q2,
            q2 > 0,
    ;
    if f1 > f2 {
        assert(p1 * q2 > p2 * q1) by (nonlinear_arith)
            requires
                p1 == f1 * q1 + r1,
                p2 == f2 * q2 + r2,
                r2 < q2,
                f1 >= f2 + 1,
                q1 > 0,
                q2 > 0,
        ;
    } else if f1 == f2 {
        assert(r1 * q2 <= r2 * q1) by (nonlinear_arith)
            requires
                p1 == f1 * q1 + r1,
                p2 == f1 * q2 + r2,
                p1 * q2 <= p2 * q1,
        ;
        if 2 * r1 >= q1 {
            assert(2 * r2 >= q2) by (nonlinear_arith)
                requires
                    r1 * q2 <= r2 * q1,
                    2 * r1 >= q1,
                    q1 > 0,
                    q2 > 0,
            ;
        }
        if 2 * r1 > q1 {
            assert(2 * r2 > q2) by (nonlinear_arith)
                requires
                    r1 * q2 <= r2 * q1,
                    2 * r1 > q1,
                    q1 > 0,
                    q2 > 0,
            ;
        }
    }
}

/// A product of two powers of two that is less than another is at most half of it.
proof fn lemma_pow2_gap(a1: nat, a2: nat, b1: nat, b2: nat)
    requires
        pow2(a1) * pow2(a2) < pow2(b1) * pow2(b2),
    ensures
        2 * (pow2(a1) * pow2(a2)) <= pow2(b1) * pow2(b2),
{
    lemma_pow2_adds(a1, a2);
    lemma_pow2_adds(b1, b2);
    let a = a1 + a2;
    let b = b1 + b2;
    if b < a {
        lemma_pow2_strictly_increases(b, a);
    }
    lemma_pow2_unfold((a + 1) as nat);
    if a + 1 < b {
        lemma_pow2_strictly_increases((a + 1) as nat, b);
    }
}

/// Rounding to single precision keeps the order of two quotients.
pub proof fn lemma_nearest_monotone(p1: nat, q1: nat, p2: nat, q2: nat)
    requires
        q1 > 0,
        q2 > 0,
        p1 * q2 <= p2 * q1,
    ensures
        nearest(p1, q1).0 * nearest(p2, q2).1 <= nearest(p2, q2).0 * nearest(p1, q1).1,
{
    let u1 = pow2(doublings(p1, q1));
    let d1 = pow2(halvings(p1, q1));
    let u2 = pow2(doublings(p2, q2));
    let d2 = pow2(halvings(p2, q2));
    lemma_pow2_pos(doublings(p1, q1));
    lemma_pow2_pos(halvings(p1, q1));
    lemma_pow2_pos(doublings(p2, q2));
    lemma_pow2_pos(halvings(p2, q2));
    let n1 = p1 * u1;
    let s1 = q1 * d1;
    let n2 = p2 * u2;
    let s2 = q2 * d2;
    let m1 = half_even(n1, s1);
    let m2 = half_even(n2, s2);
    assert(s1 > 0) by (nonlinear_arith)
        requires
            s1 == q1 * d1,
            q1 > 0,
            d1 > 0,
    ;
    if p1 == 0 {
        assert(n1 == 0) by (nonlinear_arith)
            requires
                n1 == p1 * u1,
                p1 == 0,
        ;
        assert(n1 / s1 == 0 && n1 % s1 == 0) by (nonlinear_arith)
            requires
                n1 == 0,
                s1 > 0,
        ;
        assert((m1 * d1) * u2 == 0) by (nonlinear_arith)
            requires
                m1 == 0,
        ;
        assert((m2 * d2) * u1 >= 0) by (nonlinear_arith);
    } else {
        assert(p2 > 0) by (nonlinear_arith)
            requires
                p1 > 0,
                q2 > 0,
                p1 * q2 <= p2 * q1,
        ;
        lemma_scaled(p1, q1);
        lemma_scaled(p2, q2);
        lemma_mantissa(p1, q1);
        lemma_mantissa(p2, q2);
        let a = d1 * u2;
        let b = d2 * u1;
        if a == b {
            assert(n1 * s2 == (p1 * q2) * b) by (nonlinear_arith)
                requires
                    n1 == p1 * u1,
                    s2 == q2 * d2,
                    b == d2 * u1,
            ;
            assert(n2 * s1 == (p2 * q1) * b) by (nonlinear_arith)
                requires
                    n2 == p2 * u2,
                    s1 == q1 * d1,
                    b == d1 * u2,
            ;
            assert((p1 * q2) * b <= (p2 * q1) * b) by (nonlinear_arith)
                requires
                    p1 * q2 <= p2 * q1,
            ;
            lemma_half_even_monotone(n1, s1, n2, s2);
            assert(m1 * b <= m2 * b) by (nonlinear_arith)
                requires
                    m1 <= m2,
            ;
        } else if a < b {
            lemma_pow2_gap(
                halvings(p1, q1),
                doublings(p2, q2),
                halvings(p2, q2),
                doublings(p1, q1),
            );
            assert(m1 * a <= m2 * b) by (nonlinear_arith)
                requires
                    m1 <= MANTISSA_END,
                    MANTISSA_MIN <= m2,
                    2 * a <= b,
            ;
        } else {
            lemma_pow2_gap(
                halvings(p2, q2),
                doublings(p1, q1),
                halvings(p1, q1),
                doublings(p2, q2),
            );
            let w = q1 * q2;
            assert(p1 * q2 * (u1 * u2) >= MANTISSA_MIN * (w * a)) by (nonlinear_arith)
                requires
                    n1 >= MANTISSA_MIN * s1,
                    n1 == p1 * u1,
                    s1 == q1 * d1,
                    a == d1 * u2,
                    w == q1 * q2,
            {
                assert(n1 * (q2 * u2) >= (MANTISSA_MIN * s1) * (q2 * u2));
                assert(n1 * (q2 * u2) == p1 * q2 * (u1 * u2));
                assert((MANTISSA_MIN * s1) * (q2 * u2) == MANTISSA_MIN * (w * a));
            }
            assert(p2 * q1 * (u1 * u2) < MANTISSA_END * (w * b)) by (nonlinear_arith)
                requires
                    n2 < MANTISSA_END * s2,
                    n2 == p2 * u2,
                    s2 == q2 * d2,
                    b == d2 * u1,
                    w == q1 * q2,
                    q1 > 0,
                    u1 > 0,
            {
                assert(q1 * u1 > 0);
                assert(n2 * (q1 * u1) < (MANTISSA_END * s2) * (q1 * u1));
                assert(n2 * (q1 * u1) == p2 * q1 * (u1 * u2));
                assert((MANTISSA_END * s2) * (q1 * u1) == MANTISSA_END * (w * b));
            }
            assert(w * (2 * b) <= w * a) by (nonlinear_arith)
                requires
                    2 * b <= a,
            ;
            assert(w * (2 * b) == 2 * (w * b)) by (nonlinear_arith);
            assert(p1 * q2 * (u1 * u2) <= p2 * q1 * (u1 * u2)) by (nonlinear_arith)
                requires
                    p1 * q2 <= p2 * q1,
            ;
            assert(false);
        }
        assert((m1 * d1) * u2 == m1 * a) by (nonlinear_arith)
            requires
                a == d1 * u2,
        ;
        assert((m2 * d2) * u1 == m2 * b) by (nonlinear_arith)
            requires
                b == d2 * u1,
        ;
    }
}

/// A number of at most 24 bits is its own single-precision value, and so is 2^24.
pub proof fn lemma_nearest_exact(n: nat)
    requires
        n <= MANTISSA_END,
    ensures
        nearest(n, 1).0 == n * nearest(n, 1).1,
        nearest(n, 1).1 > 0,
{
    let up = pow2(doublings(n, 1));
    lemma_pow2_pos(doublings(n, 1));
    lemma2_to64();
    if n < MANTISSA_END {
        assert(halvings(n, 1) == 0);
        let v = n * up;
        assert(v / 1 == v && v % 1 == 0);
        assert(half_even(v, 1) == v);
    } else {
        assert(halvings(n, 2) == 0);
        assert(halvings(n, 1) == 1);
        assert(doublings(n, 1) == 0);
        assert(half_even(n, 2) == MANTISSA_MIN);
    }
}

/// Rounding to single precision is off by at most one part in 2^24.
pub proof fn lemma_nearest_error(p: nat, q: nat)
    requires
        q > 0,
    ensures
        MANTISSA_END * (nearest(p, q).0 * q) <= (MANTISSA_END + 1) * (p * nearest(p, q).1),
        (MANTISSA_END - 1) * (p * nearest(p, q).1) <= MANTISSA_END * (nearest(p, q).0 * q),
{
    if p == 0 {
        lemma_nearest_zero(q);
        assert(0nat * q == 0 && 0nat * 1nat == 0);
    } else {
        lemma_scaled(p, q);
        lemma_mantissa(p, q);
        let up = pow2(doublings(p, q));
        let down = pow2(halvings(p, q));
        let n = p * up;
        let d = q * down;
        let m = half_even(n, d);
        let f = n / d;
        let r = n % d;
        assert(n == f * d + r && r < d) by (nonlinear_arith)
            requires
                f == n / d,
                r == n % d,
                d > 0,
        ;
        assert(2 * (m * d) <= 2 * n + d && 2 * n <= 2 * (m * d) + d) by (nonlinear_arith)
            requires
                n == f * d + r,
                r < d,
                m == f && 2 * r <= d || m == f + 1 && 2 * r >= d,
        ;
        assert((m * down) * q == m * d) by (nonlinear_arith)
            requires
                d == q * down,
        ;
    }
}

/// The greatest single-precision number below one is `(2^24 - 1) / 2^24`.
pub proof fn lemma_nearest_below_one()
    ensures
        nearest((MANTISSA_END - 1) as nat, MANTISSA_END as nat) == (
            (MANTISSA_END - 1) as nat,
            MANTISSA_END as nat,
        ),
{
    let p = (MANTISSA_END - 1) as nat;
    let q = MANTISSA_END as nat;
    lemma2_to64();
    lemma_scaled(p, q);
    assert(halvings(p, q) == 0);
    let k = doublings(p, q);
    assert(p * pow2(k) == 0xff_ffff * pow2(k)) by (nonlinear_arith)
        requires
            p == 0xff_ffff,
    ;
    assert(q * pow2(0) == 0x100_0000);
    if k < 24 {
        if k < 23 {
            lemma_pow2_strictly_increases(k, 23);
        }
    } else if k > 24 {
        if k > 25 {
            lemma_pow2_strictly_increases(25, k);
        }
    }
    assert(k == 24);
    assert((p * q) / q == p && (p * q) % q == 0);
}

/// Scaled by a power of two to 24 significant bits before the point, `p / q` is off `mantissa` by
/// half at most, and by half only where `mantissa` is even.
pub open spec fn is_mantissa(p: nat, q: nat, mantissa: nat, up: nat, down: nat) -> bool {
    let scaled = p * pow2(up);
    let unit = q * pow2(down);
    &&& up == 0 || down == 0
    &&& 0x80_0000 * unit <= scaled < 0x100_0000 * unit
    &&& 2 * scaled <= (2 * mantissa + 1) * unit
    &&& (2 * mantissa - 1) * unit <= 2 * scaled
    &&& 2 * scaled == (2 * mantissa + 1) * unit ==> mantissa % 2 == 0
    &&& 2 * scaled == (2 * mantissa - 1) * unit ==> mantissa % 2 == 0
}

/// A number, as a numerator and a denominator, is `p / q` correctly rounded to single precision.
pub open spec fn is_rounding(p: nat, q: nat, number: (nat, nat)) -> bool {
    &&& number.1 > 0
    &&& p == 0 ==> number.0 == 0
    &&& p > 0 ==> exists|mantissa: nat, up: nat, down: nat| #[trigger]
        is_mantissa(p, q, mantissa, up, down) && number == (mantissa * pow2(down), pow2(up))
}

/// The nearest single-precision number is the correctly rounded one.
pub proof fn nearest_is_correctly_rounded(p: nat, q: nat)
    requires
        q > 0,
    ensures
        is_rounding(p, q, nearest(p, q)),
{
    lemma_nearest_positive(p, q);
    if p == 0 {
        lemma_nearest_zero(q);
    } else {
        let up = doublings(p, q);
        let down = halvings(p, q);
        lemma_scaled(p, q);
        lemma_mantissa(p, q);
        let scaled = p * pow2(up);
        let unit = q * pow2(down);
        let floor = scaled / unit;
        let rest = scaled % unit;
        let mantissa = half_even(scaled, unit);
        assert(scaled == floor * unit + rest && rest < unit) by (nonlinear_arith)
            requires
                unit > 0,
                floor == scaled / unit,
                rest == scaled % unit,
        ;
        assert((2 * mantissa + 1) * unit == 2 * (mantissa * unit) + unit) by (nonlinear_arith);
        assert((2 * mantissa - 1) * unit == 2 * (mantissa * unit) - unit) by (nonlinear_arith);
        assert((floor + 1) * unit == floor * unit + unit) by (nonlinear_arith);
        assert(is_mantissa(p, q, mantissa, up, down));
    }
}

} // verus!
