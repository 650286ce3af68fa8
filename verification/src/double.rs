//! Doubles (IEEE 754, 64 bits wide) as plain integers: a value is held by its
//! bits, and what the rules compute from it is computed on them.

use vstd::arithmetic::power2::{
    lemma2_to64, lemma2_to64_rest, lemma_pow2_adds, lemma_pow2_pos, lemma_pow2_strictly_increases,
    lemma_pow2_unfold, pow2,
};
use vstd::prelude::*;

verus! {

/// What the significand of a double stays below.
pub const SIGNIFICAND_END: u64 = 0x20_0000_0000_0000;

/// The smallest significand of a normal double.
pub const SIGNIFICAND_START: u64 = 0x10_0000_0000_0000;

/// The bits of positive infinity.
pub const INFINITY_BITS: u64 = 0x7ff0_0000_0000_0000;

/// The bit that is set in negative doubles.
pub const SIGN_BIT: u64 = 0x8000_0000_0000_0000;

/// A double, held by its bits.
#[derive(Clone, Copy, Debug, PartialEq, Eq, Structural)]
pub struct Double {
    pub bits: u64,
}

impl DeepView for Double {
    type V = u64;

    open spec fn deep_view(&self) -> u64 {
        self.bits
    }
}

/// The quotient `a / b`, rounded to the nearest integer, and to the even one of
/// two that are equally near.
pub open spec fn nearest(a: nat, b: nat) -> nat {
    let q = a / b;
    let r = a % b;
    if 2 * r < b {
        q
    } else if 2 * r > b {
        q + 1
    } else if q % 2 == 0 {
        q
    } else {
        q + 1
    }
}

/// The significand and the exponent of a positive finite double: its value is
/// the one times two to the other.
pub open spec fn parts(bits: u64) -> (nat, int) {
    let exponent = (bits / SIGNIFICAND_START) as int;
    let fraction = (bits % SIGNIFICAND_START) as nat;
    if exponent == 0 {
        (fraction, -1074)
    } else {
        (SIGNIFICAND_START as nat + fraction, exponent - 1075)
    }
}

/// The least integer that is no less than `m` times two to the `k`.
pub open spec fn ceiling(m: nat, k: int) -> nat {
    if k >= 0 {
        m * pow2(k as nat)
    } else {
        (m + pow2((-k) as nat) - 1) as nat / pow2((-k) as nat)
    }
}

/// A number of approvals, cut off at what a `u32` holds.
pub open spec fn cut_u32(n: nat) -> u32 {
    if n <= u32::MAX {
        n as u32
    } else {
        u32::MAX
    }
}

/// How many low bits of `p` a significand has no room for.
pub open spec fn excess(p: nat) -> nat
    decreases p,
{
    if p < SIGNIFICAND_END {
        0
    } else {
        1 + excess(p / 2)
    }
}

/// `p` rounded to a significand, and the exponent that goes with it.
pub open spec fn to_significand(p: nat) -> (nat, nat) {
    (nearest(p, pow2(excess(p))), excess(p))
}

/// The significand scaled to the normal range, and the exponent that goes with
/// it.
pub open spec fn normal(m: nat, k: int) -> (nat, int)
    decreases
        if m < SIGNIFICAND_START {
            SIGNIFICAND_START - m
        } else {
            0
        },
{
    if 0 < m < SIGNIFICAND_START {
        normal(2 * m, k - 1)
    } else {
        (m, k)
    }
}

/// A hundredth of a positive double, rounded to a significand. It is free of the
/// limits of the exponent: what they would change is far below one.
pub open spec fn hundredth(m: nat, k: int) -> (nat, int) {
    let (n, e) = normal(m, k);
    if n * 128 / 100 < SIGNIFICAND_END {
        (nearest(n * 128, 100), e - 7)
    } else {
        (nearest(n * 64, 100), e - 6)
    }
}

/// The count as a double: rounded to a significand.
pub open spec fn count_value(total: nat) -> nat {
    let (m, t) = to_significand(total);
    m * pow2(t)
}

/// The share of `total` that a positive finite double states in percent:
/// divided by a hundred, times the total, each rounded as doubles are, and then
/// up to an integer. Exponents are not bounded here: a quotient that is too small
/// for a double still counts as more than nothing.
pub open spec fn share(bits: u64, total: nat) -> nat {
    let (m, k) = parts(bits);
    let (q, e) = hundredth(m, k);
    let (p, t) = to_significand(q * count_value(total));
    ceiling(p, e + t)
}

/// The bits of the double nearest to a positive count.
pub open spec fn count_bits(n: nat) -> nat {
    let (m, t) = to_significand(n);
    let (s, k) = normal(m, t as int);
    ((k + 1075) * SIGNIFICAND_START + (s - SIGNIFICAND_START)) as nat
}

/// The bits of the double nearest to an integer.
pub open spec fn integer_bits(i: int) -> u64 {
    if i == 0 {
        0
    } else if i > 0 {
        count_bits(i as nat) as u64
    } else {
        (SIGN_BIT + count_bits((-i) as nat)) as u64
    }
}

impl Double {
    /// The double nearest to the count.
    pub fn from_u64(n: u64) -> (r: Self)
        ensures
            r.bits == integer_bits(n as int),
            n > 0 ==> r.bits == count_bits(n as nat),
            r.bits < INFINITY_BITS,
    {
        if n == 0 {
            return Double { bits: 0 };
        }
        let (m, t): (u64, u32) = round(n as u128);
        proof {
            count_excess(n as nat);
        }
        let (s, k): (u64, i64) = normalize(m, t as i64);
        let exponent: u64 = (k + 1075) as u64;
        assert(exponent * SIGNIFICAND_START <= 1100 * SIGNIFICAND_START) by (nonlinear_arith)
            requires
                exponent <= 1100,
        ;
        Double { bits: exponent * SIGNIFICAND_START + (s - SIGNIFICAND_START) }
    }

    /// The double nearest to the negative integer.
    pub fn from_negative(n: i64) -> (r: Self)
        requires
            n < 0,
        ensures
            r.bits == integer_bits(n as int),
    {
        let size: u64 = (-1 - n) as u64 + 1;
        let d: Double = Double::from_u64(size);
        Double { bits: SIGN_BIT + d.bits }
    }

    /// The double with the bits.
    pub fn from_bits(bits: u64) -> (r: Self)
        ensures
            r.bits == bits,
    {
        Double { bits }
    }

    /// The bits of the double.
    pub fn to_bits(self) -> (r: u64)
        ensures
            r == self.bits,
    {
        self.bits
    }

    /// Whether the double is greater than zero: neither zero, nor negative, nor
    /// no number at all.
    pub open spec fn positive(self) -> bool {
        0 < self.bits <= INFINITY_BITS
    }

    /// The least integer that is no less than the value, cut off at `u32::MAX`.
    pub open spec fn ceiling_u32(self) -> u32 {
        if self.bits == INFINITY_BITS {
            u32::MAX
        } else {
            let (m, k) = parts(self.bits);
            cut_u32(ceiling(m, k))
        }
    }

    /// The share of the total that the value states in percent, rounded up and
    /// cut off at `u32::MAX`.
    pub open spec fn share_u32(self, total: nat) -> u32 {
        if self.bits == INFINITY_BITS {
            u32::MAX
        } else {
            cut_u32(share(self.bits, total))
        }
    }

    /// Whether the double is greater than zero.
    pub fn is_positive(self) -> (r: bool)
        ensures
            r == self.positive(),
    {
        0 < self.bits && self.bits <= INFINITY_BITS
    }

    /// The value rounded up to an integer, cut off at `u32::MAX`.
    pub fn round_up(self) -> (r: u32)
        requires
            self.positive(),
        ensures
            r == self.ceiling_u32(),
    {
        if self.bits == INFINITY_BITS {
            return u32::MAX;
        }
        let (m, k): (u64, i64) = split(self.bits);
        ceiling_of(m, k)
    }

    /// The share of the total that the value states in percent, rounded up to an
    /// integer and cut off at `u32::MAX`.
    pub fn round_up_share(self, total: u64) -> (r: u32)
        requires
            self.positive(),
            total > 0,
        ensures
            r == self.share_u32(total as nat),
    {
        if self.bits == INFINITY_BITS {
            return u32::MAX;
        }
        let (m, k): (u64, i64) = split(self.bits);
        let (q, e): (u64, i64) = divide_by_hundred(m, k);
        let (n, s): (u64, u32) = round(total as u128);
        proof {
            count_excess(total as nat);
        }
        let n_value: u128 = times_power(n, s);
        let ghost product = q as nat * count_value(total as nat);
        assert(0 < n_value);
        assert(q as int * n_value as int <= 0x20_0000_0000_0000int * 0x1_0000_0000_0000_0000int)
            by (nonlinear_arith)
            requires
                q <= 0x20_0000_0000_0000,
                n_value <= 0x1_0000_0000_0000_0000,
        ;
        assert(q as int * n_value as int >= 0x10_0000_0000_0000int) by (nonlinear_arith)
            requires
                q >= 0x10_0000_0000_0000,
                n_value >= 1,
        ;
        let p: u128 = (q as u128) * n_value;
        let (pm, t): (u64, u32) = round(p);
        ceiling_of(pm, e + t as i64)
    }
}

/// The significand and the exponent of a positive finite double.
fn split(bits: u64) -> (r: (u64, i64))
    requires
        0 < bits < INFINITY_BITS,
    ensures
        (r.0 as nat, r.1 as int) == parts(bits),
        0 < r.0 < SIGNIFICAND_END,
        -1074 <= r.1 <= 971,
        r.1 > -1074 ==> r.0 >= SIGNIFICAND_START,
{
    let exponent: u64 = bits / SIGNIFICAND_START;
    let fraction: u64 = bits % SIGNIFICAND_START;
    if exponent == 0 {
        (fraction, -1074)
    } else {
        (SIGNIFICAND_START + fraction, exponent as i64 - 1075)
    }
}

/// Two to the `n`.
fn power_of_two(n: u32) -> (r: u128)
    requires
        n <= 120,
    ensures
        r == pow2(n as nat),
{
    let mut r: u128 = 1;
    let mut i: u32 = 0;
    proof {
        lemma2_to64();
    }
    while i < n
        invariant
            i <= n <= 120,
            r == pow2(i as nat),
        decreases n - i,
    {
        proof {
            lemma_pow2_unfold((i + 1) as nat);
            pow2_at_most_120((i + 1) as nat);
        }
        r = r * 2;
        i = i + 1;
    }
    r
}

proof fn pow2_at_most_120(n: nat)
    requires
        n <= 120,
    ensures
        pow2(n) <= 0x100_0000_0000_0000_0000_0000_0000_0000,
{
    lemma2_to64();
    lemma2_to64_rest();
    lemma_pow2_adds(60, 60);
    assert(pow2(60) * pow2(60) == 0x100_0000_0000_0000_0000_0000_0000_0000) by {
        assert(pow2(60) == 0x1000_0000_0000_0000);
        assert(0x1000_0000_0000_0000int * 0x1000_0000_0000_0000int
            == 0x100_0000_0000_0000_0000_0000_0000_0000int) by (nonlinear_arith);
    }
    if n < 120 {
        lemma_pow2_strictly_increases(n, 120);
    }
}

/// The quotient rounded to the nearest integer, ties to even.
fn nearest_of(a: u128, b: u128) -> (r: u128)
    requires
        0 < b <= 0x100_0000_0000_0000_0000_0000_0000_0000,
        a <= 0x100_0000_0000_0000_0000_0000_0000_0000,
    ensures
        r == nearest(a as nat, b as nat),
{
    let q: u128 = a / b;
    let rest: u128 = a % b;
    assert(q <= a) by (nonlinear_arith)
        requires
            q == a / b,
            b > 0,
    ;
    if 2 * rest < b {
        q
    } else if 2 * rest > b {
        q + 1
    } else if q % 2 == 0 {
        q
    } else {
        q + 1
    }
}

proof fn excess_bounds(p: nat)
    ensures
        p < SIGNIFICAND_END * pow2(excess(p)),
        excess(p) > 0 ==> p >= SIGNIFICAND_START * pow2(excess(p)),
    decreases p,
{
    lemma2_to64();
    if p >= SIGNIFICAND_END {
        let h = p / 2;
        excess_bounds(h);
        lemma_pow2_unfold((excess(h) + 1) as nat);
        let w = pow2(excess(h));
        assert(p < SIGNIFICAND_END * (2 * w)) by (nonlinear_arith)
            requires
                h < SIGNIFICAND_END * w,
                h == p / 2,
        ;
        if excess(h) > 0 {
            assert(p >= SIGNIFICAND_START * (2 * w)) by (nonlinear_arith)
                requires
                    h >= SIGNIFICAND_START * w,
                    h == p / 2,
            ;
        }
    }
}

proof fn count_excess(total: nat)
    requires
        0 < total < 0x1_0000_0000_0000_0000,
    ensures
        excess(total) <= 11,
{
    excess_bounds(total);
    let t = excess(total);
    if t > 11 {
        lemma2_to64();
        if t > 12 {
            lemma_pow2_strictly_increases(12, t);
        }
        assert(SIGNIFICAND_START * pow2(t) >= 0x1_0000_0000_0000_0000) by (nonlinear_arith)
            requires
                pow2(t) >= 0x1000,
                SIGNIFICAND_START == 0x10_0000_0000_0000,
        ;
    }
}

proof fn nearest_bounds(a: nat, b: nat, low: nat, high: nat)
    requires
        b > 0,
        low * b <= a,
        a < high * b,
    ensures
        low <= nearest(a, b) <= high,
{
    assert(low <= a / b < high) by (nonlinear_arith)
        requires
            b > 0,
            low * b <= a,
            a < high * b,
    ;
}

/// `p` rounded to a significand, and the exponent that goes with it.
fn round(p: u128) -> (r: (u64, u32))
    requires
        p <= 0x100_0000_0000_0000_0000_0000_0000_0000,
    ensures
        (r.0 as nat, r.1 as nat) == to_significand(p as nat),
        r.0 <= SIGNIFICAND_END,
        r.1 <= 68,
        p >= SIGNIFICAND_START ==> r.0 >= SIGNIFICAND_START,
        r.1 == excess(p as nat),
        p < SIGNIFICAND_END ==> r.0 == p && r.1 == 0,
{
    let mut t: u32 = 0;
    let mut rest: u128 = p;
    proof {
        lemma2_to64();
        lemma2_to64_rest();
    }
    while rest >= SIGNIFICAND_END as u128
        invariant
            excess(p as nat) == t + excess(rest as nat),
            t <= 68,
            rest as int * pow2(t as nat) as int <= p as int,
            p <= 0x100_0000_0000_0000_0000_0000_0000_0000,
        decreases rest,
    {
        proof {
            lemma_pow2_unfold((t + 1) as nat);
            let w = pow2(t as nat);
            assert((rest / 2) as int * (2 * w) as int <= rest as int * w as int)
                by (nonlinear_arith);
            if t >= 68 {
                lemma2_to64_rest();
                lemma_pow2_adds(60, 8);
                lemma2_to64();
                assert(rest as int * w as int > 0x100_0000_0000_0000_0000_0000_0000_0000int)
                    by (nonlinear_arith)
                    requires
                        rest >= 0x20_0000_0000_0000,
                        w == 0x1000_0000_0000_0000int * 0x100int,
                ;
            }
        }
        rest = rest / 2;
        t = t + 1;
    }
    proof {
        excess_bounds(p as nat);
        lemma_pow2_pos(t as nat);
        pow2_at_most_120(t as nat);
        if p >= SIGNIFICAND_START as u128 {
            if t == 0 {
                assert(SIGNIFICAND_START * pow2(0) == SIGNIFICAND_START);
            }
            nearest_bounds(
                p as nat,
                pow2(t as nat),
                SIGNIFICAND_START as nat,
                SIGNIFICAND_END as nat,
            );
        } else {
            nearest_bounds(p as nat, pow2(t as nat), 0, SIGNIFICAND_END as nat);
        }
        if p < SIGNIFICAND_END as u128 {
            assert(t == 0);
            assert(p as nat / 1 == p as nat);
            assert(p as nat % 1 == 0);
        }
    }
    let d: u128 = power_of_two(t);
    let m: u128 = nearest_of(p, d);
    (m as u64, t)
}

/// The rounded count, times the power of two that goes with it.
fn times_power(m: u64, t: u32) -> (r: u128)
    requires
        0 < m <= SIGNIFICAND_END,
        t <= 11,
    ensures
        r == m as nat * pow2(t as nat),
        0 < r <= 0x1_0000_0000_0000_0000,
{
    let d: u128 = power_of_two(t);
    proof {
        lemma2_to64();
        if t < 11 {
            lemma_pow2_strictly_increases(t as nat, 11);
        }
        lemma_pow2_pos(t as nat);
        assert(0 < m as int * d as int <= 0x1_0000_0000_0000_0000int) by (nonlinear_arith)
            requires
                0 < m <= 0x20_0000_0000_0000,
                0 < d <= 0x800,
        ;
    }
    (m as u128) * d
}

/// The significand scaled to the normal range.
fn normalize(m: u64, k: i64) -> (r: (u64, i64))
    requires
        0 < m <= SIGNIFICAND_END,
        -1074 <= k <= 971,
    ensures
        (r.0 as nat, r.1 as int) == normal(m as nat, k as int),
        SIGNIFICAND_START <= r.0 <= SIGNIFICAND_END,
        m < SIGNIFICAND_END ==> r.0 < SIGNIFICAND_END,
        k - 53 <= r.1 <= k,
{
    let mut n: u64 = m;
    let mut e: i64 = k;
    let ghost mut steps: int = 0;
    proof {
        lemma2_to64();
    }
    while n < SIGNIFICAND_START
        invariant
            0 < n <= SIGNIFICAND_END,
            m < SIGNIFICAND_END ==> n < SIGNIFICAND_END,
            normal(m as nat, k as int) == normal(n as nat, e as int),
            e == k - steps,
            0 <= steps <= 52,
            -1074 <= k <= 971,
            n >= pow2(steps as nat),
        decreases
            if n < SIGNIFICAND_START {
                SIGNIFICAND_START - n
            } else {
                0
            },
    {
        proof {
            lemma_pow2_unfold((steps + 1) as nat);
            if steps >= 52 {
                lemma2_to64_rest();
                lemma2_to64();
            }
            steps = steps + 1;
        }
        n = n * 2;
        e = e - 1;
    }
    assert(normal(m as nat, k as int) == (n as nat, e as int));
    (n, e)
}

/// A hundredth of a positive double, rounded to a significand.
fn divide_by_hundred(m: u64, k: i64) -> (r: (u64, i64))
    requires
        0 < m < SIGNIFICAND_END,
        -1074 <= k <= 971,
    ensures
        (r.0 as nat, r.1 as int) == hundredth(m as nat, k as int),
        SIGNIFICAND_START <= r.0 <= SIGNIFICAND_END,
        -1200 <= r.1 <= 971,
{
    let (n, e): (u64, i64) = normalize(m, k);
    let wide: u128 = (n as u128) * 128;
    if wide / 100 < SIGNIFICAND_END as u128 {
        proof {
            nearest_bounds(
                wide as nat,
                100,
                SIGNIFICAND_START as nat,
                SIGNIFICAND_END as nat,
            );
        }
        (nearest_of(wide, 100) as u64, e - 7)
    } else {
        let half: u128 = (n as u128) * 64;
        proof {
            nearest_bounds(
                half as nat,
                100,
                SIGNIFICAND_START as nat,
                SIGNIFICAND_END as nat,
            );
        }
        (nearest_of(half, 100) as u64, e - 6)
    }
}

/// The least integer that is no less than `m` times two to the `k`, cut off at
/// `u32::MAX`.
fn ceiling_of(m: u64, k: i64) -> (r: u32)
    requires
        0 < m <= SIGNIFICAND_END,
        k >= 0 ==> m >= SIGNIFICAND_START,
        -1300 <= k <= 1300,
    ensures
        r == cut_u32(ceiling(m as nat, k as int)),
{
    if k >= 0 {
        proof {
            lemma_pow2_pos(k as nat);
            assert(m as int * pow2(k as nat) as int >= m as int) by (nonlinear_arith)
                requires
                    pow2(k as nat) >= 1,
                    m > 0,
            ;
        }
        u32::MAX
    } else if k <= -64 {
        proof {
            lemma2_to64();
            lemma2_to64_rest();
            let d = pow2((-k) as nat);
            if k < -64 {
                lemma_pow2_strictly_increases(64, (-k) as nat);
            }
            assert((m + d - 1) / d as int == 1) by (nonlinear_arith)
                requires
                    0 < m <= d,
                    d > 0,
            ;
        }
        1
    } else {
        let d: u128 = power_of_two((-k) as u32);
        proof {
            lemma_pow2_pos((-k) as nat);
            lemma2_to64();
            lemma2_to64_rest();
            if k > -64 {
                lemma_pow2_strictly_increases((-k) as nat, 64);
            }
        }
        let up: u128 = ((m as u128) + d - 1) / d;
        if up <= u32::MAX as u128 {
            up as u32
        } else {
            u32::MAX
        }
    }
}

// ---------------------------------------------------------------------------
// What always holds
// ---------------------------------------------------------------------------

/// Rounding to the nearest integer is off by half at most, and by half only where
/// the result is even.
pub proof fn nearest_is_near(a: nat, b: nat)
    requires
        b > 0,
    ensures
        2 * (nearest(a, b) * b - a) <= b,
        2 * (a - nearest(a, b) * b) <= b,
        2 * (nearest(a, b) * b - a) == b || 2 * (a - nearest(a, b) * b) == b ==> nearest(a, b) % 2
            == 0,
        a % b == 0 ==> nearest(a, b) == a / b,
{
    let q = a / b;
    let r = a % b;
    vstd::arithmetic::div_mod::lemma_fundamental_div_mod(a as int, b as int);
    assert(q * b == b * q) by (nonlinear_arith);
    assert((q + 1) * b == b * q + b) by (nonlinear_arith);
    assert(r < b) by {
        vstd::arithmetic::div_mod::lemma_mod_bound(a as int, b as int);
    }
}

/// Rounding up gives the least integer that is no less than the value.
pub proof fn ceiling_is_least(m: nat, k: int)
    ensures
        k >= 0 ==> ceiling(m, k) == m * pow2(k as nat),
        k < 0 ==> m <= ceiling(m, k) * pow2((-k) as nat),
        k < 0 && m > 0 ==> ceiling(m, k) > 0 && (ceiling(m, k) - 1) * pow2((-k) as nat) < m,
        k < 0 && m == 0 ==> ceiling(m, k) == 0,
{
    if k < 0 {
        let d = pow2((-k) as nat) as int;
        lemma_pow2_pos((-k) as nat);
        let up = m + d - 1;
        let c = up / d;
        vstd::arithmetic::div_mod::lemma_fundamental_div_mod(up, d);
        vstd::arithmetic::div_mod::lemma_mod_bound(up, d);
        assert(c * d == d * c) by (nonlinear_arith);
        assert((c - 1) * d == d * c - d) by (nonlinear_arith);
        if m > 0 {
            assert(c >= 1) by (nonlinear_arith)
                requires
                    up == d * c + up % d,
                    up % d < d,
                    up >= d,
                    d > 0,
            ;
        } else {
            assert(c == 0) by (nonlinear_arith)
                requires
                    up == d * c + up % d,
                    up % d >= 0,
                    0 <= up < d,
                    d > 0,
                    c == up / d,
            ;
        }
    }
}

/// A double is greater than zero exactly where it is neither zero, nor has its sign
/// bit set, nor is beyond infinity, where there are no numbers.
pub proof fn positive_means_greater_than_zero(d: Double)
    ensures
        d.bits == 0 ==> !d.positive(),
        d.bits >= 0x8000_0000_0000_0000 ==> !d.positive(),
        0x7ff0_0000_0000_0000 < d.bits < 0x8000_0000_0000_0000 ==> !d.positive(),
        0 < d.bits <= 0x7ff0_0000_0000_0000 ==> d.positive(),
{
}

/// Scaling changes the significand by a power of two and the exponent to match.
proof fn normal_keeps_the_value(m: nat, k: int)
    requires
        0 < m < SIGNIFICAND_END,
    ensures
        ({
            let (n, e) = normal(m, k);
            &&& SIGNIFICAND_START <= n < SIGNIFICAND_END
            &&& e <= k
            &&& n == m * pow2((k - e) as nat)
            &&& k - e <= 52
        }),
    decreases
        if m < SIGNIFICAND_START {
            SIGNIFICAND_START - m
        } else {
            0
        },
{
    lemma2_to64();
    lemma2_to64_rest();
    if m < SIGNIFICAND_START {
        normal_keeps_the_value(2 * m, k - 1);
        let (n, e) = normal(2 * m, k - 1);
        lemma_pow2_unfold((k - e) as nat);
        let w = pow2((k - 1 - e) as nat);
        assert(pow2((k - e) as nat) == 2 * w);
        assert((2 * m) * w == m * (2 * w)) by (nonlinear_arith);
        assert(k - e <= 52) by {
            if k - e > 52 {
                assert(w >= 0x10_0000_0000_0000) by {
                    if k - 1 - e > 52 {
                        lemma_pow2_strictly_increases(52, (k - 1 - e) as nat);
                    }
                    assert(pow2(52) == 0x10_0000_0000_0000);
                }
                assert((2 * m) * w >= 0x20_0000_0000_0000) by (nonlinear_arith)
                    requires
                        m >= 1,
                        w >= 0x10_0000_0000_0000,
                ;
            }
        }
    } else {
        assert(m * 1 == m);
    }
}

/// The double of a count below two to the 53 has the value of the count.
proof fn count_parts(n: nat)
    requires
        0 < n < SIGNIFICAND_END,
    ensures
        ({
            let (s, k) = parts(integer_bits(n as int));
            &&& -52 <= k <= 0
            &&& SIGNIFICAND_START <= s < SIGNIFICAND_END
            &&& s == n * pow2((-k) as nat)
        }),
        0 < integer_bits(n as int) < INFINITY_BITS,
        count_bits(n) < INFINITY_BITS,
{
    lemma2_to64();
    assert(excess(n) == 0);
    assert(n / 1 == n && n % 1 == 0);
    assert(to_significand(n) == (n, 0nat));
    normal_keeps_the_value(n, 0);
    let (s, k) = normal(n, 0);
    let exponent = k + 1075;
    let bits = exponent * SIGNIFICAND_START + (s - SIGNIFICAND_START);
    assert(count_bits(n) == bits as nat);
    assert(0 < bits < INFINITY_BITS) by (nonlinear_arith)
        requires
            bits == exponent * 0x10_0000_0000_0000 + (s - 0x10_0000_0000_0000),
            1023 <= exponent <= 1075,
            0x10_0000_0000_0000 <= s < 0x20_0000_0000_0000,
            SIGNIFICAND_START == 0x10_0000_0000_0000,
    ;
    let b = integer_bits(n as int);
    assert(b == bits);
    let fraction = s - SIGNIFICAND_START;
    assert(bits / (SIGNIFICAND_START as int) == exponent && bits % (SIGNIFICAND_START as int)
        == fraction) by {
        vstd::arithmetic::div_mod::lemma_fundamental_div_mod_converse(
            bits,
            SIGNIFICAND_START as int,
            exponent,
            fraction,
        );
    }
}

/// A whole number is kept when it becomes a double and is rounded up again, up to
/// what a number of approvals can be.
pub proof fn whole_numbers_are_kept(n: nat)
    requires
        0 < n <= u32::MAX,
    ensures
        (Double { bits: integer_bits(n as int) }).positive(),
        (Double { bits: integer_bits(n as int) }).ceiling_u32() == n,
{
    count_parts(n);
    let (s, k) = parts(integer_bits(n as int));
    ceiling_of_multiple(s, k, n);
}

proof fn ceiling_of_multiple(s: nat, k: int, n: nat)
    requires
        k <= 0,
        s == n * pow2((-k) as nat),
    ensures
        ceiling(s, k) == n,
{
    lemma2_to64();
    if k == 0 {
        assert(n * 1 == n);
        assert(s * 1 == s);
    } else {
        let d = pow2((-k) as nat) as int;
        lemma_pow2_pos((-k) as nat);
        ceiling_is_least(s, k);
        let c = ceiling(s, k) as int;
        if n == 0 {
            assert(0 * d == 0);
        } else {
            assert(n * d > 0) by (nonlinear_arith)
                requires
                    n > 0,
                    d > 0,
            ;
            assert(c == n) by (nonlinear_arith)
                requires
                    n * d <= c * d,
                    (c - 1) * d < n * d,
                    d > 0,
            ;
        }
    }
}

/// A hundred percent of a count is the count.
pub proof fn a_hundred_percent_is_all(total: nat)
    requires
        0 < total <= u32::MAX,
    ensures
        integer_bits(100) == 0x4059_0000_0000_0000,
        (Double { bits: 0x4059_0000_0000_0000 }).positive(),
        (Double { bits: 0x4059_0000_0000_0000 }).share_u32(total) == total,
{
    lemma2_to64();
    lemma2_to64_rest();
    let bits = 0x4059_0000_0000_0000u64;
    assert(bits / 0x10_0000_0000_0000u64 == 1029 && bits % 0x10_0000_0000_0000u64
        == 0x9_0000_0000_0000);
    let m = 0x19_0000_0000_0000nat;
    assert(parts(bits) == (m, -46int));
    assert(normal(m, -46) == (m, -46int));
    assert(m * 128 / 100 == 0x20_0000_0000_0000nat);
    nearest_is_near(m * 64, 100);
    assert(m * 64 == 100 * 0x10_0000_0000_0000nat);
    let q = 0x10_0000_0000_0000nat;
    assert(hundredth(m, -46) == (q, -52int));
    assert(excess(total) == 0);
    assert(total / 1 == total && total % 1 == 0);
    assert(count_value(total) == total * 1);
    let p = q * total;
    excess_bounds(p);
    let t = excess(p);
    assert(p == 0x10_0000_0000_0000int * total);
    lemma_pow2_pos(t);
    assert(t <= 32) by {
        if t > 32 {
            if t > 33 {
                lemma_pow2_strictly_increases(33, t);
            }
            assert(pow2(33) == 0x2_0000_0000);
            assert(0x10_0000_0000_0000int * pow2(t) > 0x10_0000_0000_0000int * total)
                by (nonlinear_arith)
                requires
                    pow2(t) >= 0x2_0000_0000,
                    total <= 0xffff_ffff,
            ;
        }
    }
    lemma_pow2_adds(t, (52 - t) as nat);
    let w = pow2(t);
    let d = pow2((52 - t) as nat);
    assert(w * d == q);
    let kept = d * total;
    assert(p == w * kept) by (nonlinear_arith)
        requires
            p == q * total,
            q == w * d,
            kept == d * total,
    ;
    assert(p % w == 0 && p / w == kept) by {
        vstd::arithmetic::div_mod::lemma_fundamental_div_mod_converse(
            p as int,
            w as int,
            kept as int,
            0,
        );
    }
    nearest_is_near(p, w);
    assert(to_significand(p) == (kept, t));
    assert(kept == total * d) by (nonlinear_arith)
        requires
            kept == d * total,
    ;
    ceiling_of_multiple(kept, -52 + t, total);
    hundred_as_bits();
}

proof fn hundred_as_bits()
    ensures
        integer_bits(100) == 0x4059_0000_0000_0000,
{
    count_parts(100);
    lemma2_to64();
    lemma2_to64_rest();
    let (s, k) = normal(100, 0);
    normal_keeps_the_value(100, 0);
    assert(excess(100) == 0);
    assert(100nat / 1 == 100 && 100nat % 1 == 0);
    assert(to_significand(100) == (100nat, 0nat));
    assert(k == -46) by {
        if k < -46 {
            if k < -47 {
                lemma_pow2_strictly_increases(47, (-k) as nat);
            }
            assert(100 * pow2((-k) as nat) >= 100 * pow2(47));
        }
        if k > -46 {
            if k > -45 {
                lemma_pow2_strictly_increases((-k) as nat, 45);
            }
            assert(100 * pow2((-k) as nat) <= 100 * pow2(45));
        }
    }
    assert(s == 0x19_0000_0000_0000);
}

/// Two roundings that are each off by half a unit in the last of 53 places leave a
/// share near its exact value.
proof fn near_after_two_roundings(
    y: int,
    g: int,
    d: int,
    p: int,
    pw: int,
    r: int,
    total: int,
    x: int,
)
    requires
        g > 0,
        d > 0,
        p > 0,
        y >= 0,
        x == y * g,
        r * (g * d) >= pw,
        (r - 1) * (g * d) < pw,
        0x20_0000_0000_0000 * (p - pw) <= p,
        0x20_0000_0000_0000 * (pw - p) <= p,
        100 * p + 50 * total >= x,
        100 * p - 50 * total <= x,
        0x10_0000_0000_0000 * total <= p,
    ensures
        100 * d * r * 0x20_0000_0000_0001 >= y * 0x1f_ffff_ffff_ffff,
        100 * d * (r - 1) * 0x1f_ffff_ffff_ffff < y * 0x20_0000_0000_0001,
{
    let b = 0x20_0000_0000_0000int;
    assert(100 * p * (b + 1) >= x * b) by (nonlinear_arith)
        requires
            100 * p + 50 * total >= x,
            0x10_0000_0000_0000 * total <= p,
            b == 0x20_0000_0000_0000,
    ;
    assert(100 * p * (b - 1) <= x * b) by (nonlinear_arith)
        requires
            100 * p - 50 * total <= x,
            0x10_0000_0000_0000 * total <= p,
            b == 0x20_0000_0000_0000,
    ;
    let gd = g * d;
    assert(r * gd * b >= p * (b - 1)) by (nonlinear_arith)
        requires
            r * gd >= pw,
            b * (p - pw) <= p,
            b > 0,
    ;
    assert((r - 1) * gd * b < p * (b + 1)) by (nonlinear_arith)
        requires
            (r - 1) * gd < pw,
            b * (pw - p) <= p,
            b > 0,
    ;
    let gb = g * b;
    assert(gb > 0) by (nonlinear_arith)
        requires
            gb == g * b,
            g > 0,
            b > 0,
    ;
    let low = 100 * d * r * (b + 1);
    assert(low * gb >= y * (b - 1) * gb) by {
        assert(low * gb == 100 * (r * gd * b) * (b + 1)) by (nonlinear_arith)
            requires
                low == 100 * d * r * (b + 1),
                gb == g * b,
                gd == g * d,
        ;
        assert(100 * (r * gd * b) * (b + 1) >= 100 * (p * (b - 1)) * (b + 1)) by (nonlinear_arith)
            requires
                r * gd * b >= p * (b - 1),
                b > 0,
        ;
        assert(100 * (p * (b - 1)) * (b + 1) == (100 * p * (b + 1)) * (b - 1)) by (nonlinear_arith);
        assert((100 * p * (b + 1)) * (b - 1) >= (x * b) * (b - 1)) by (nonlinear_arith)
            requires
                100 * p * (b + 1) >= x * b,
                b > 1,
        ;
        assert((x * b) * (b - 1) == y * (b - 1) * gb) by (nonlinear_arith)
            requires
                x == y * g,
                gb == g * b,
        ;
    }
    assert(low >= y * (b - 1)) by (nonlinear_arith)
        requires
            low * gb >= y * (b - 1) * gb,
            gb > 0,
    ;
    let high = 100 * d * (r - 1) * (b - 1);
    assert(high * gb < y * (b + 1) * gb) by {
        assert(high * gb == 100 * ((r - 1) * gd * b) * (b - 1)) by (nonlinear_arith)
            requires
                high == 100 * d * (r - 1) * (b - 1),
                gb == g * b,
                gd == g * d,
        ;
        assert(100 * ((r - 1) * gd * b) * (b - 1) < 100 * (p * (b + 1)) * (b - 1))
            by (nonlinear_arith)
            requires
                (r - 1) * gd * b < p * (b + 1),
                b > 1,
        ;
        assert(100 * (p * (b + 1)) * (b - 1) == (100 * p * (b - 1)) * (b + 1)) by (nonlinear_arith);
        assert((100 * p * (b - 1)) * (b + 1) <= (x * b) * (b + 1)) by (nonlinear_arith)
            requires
                100 * p * (b - 1) <= x * b,
                b > 1,
        ;
        assert((x * b) * (b + 1) == y * (b + 1) * gb) by (nonlinear_arith)
            requires
                x == y * g,
                gb == g * b,
        ;
    }
    assert(high < y * (b + 1)) by (nonlinear_arith)
        requires
            high * gb < y * (b + 1) * gb,
            gb > 0,
    ;
}

/// Rounding a product to a significand is off by half a unit in its last place.
proof fn significand_is_near(p: nat)
    requires
        p > 0,
    ensures
        ({
            let (m, t) = to_significand(p);
            &&& 0x20_0000_0000_0000 * (p - m * pow2(t)) <= p
            &&& 0x20_0000_0000_0000 * (m * pow2(t) - p) <= p
        }),
{
    let t = excess(p);
    let w = pow2(t);
    lemma2_to64();
    lemma_pow2_pos(t);
    excess_bounds(p);
    nearest_is_near(p, w);
    if t == 0 {
        assert(p / 1 == p && p % 1 == 0);
        assert(p * 1 == p);
    } else {
        let m = nearest(p, w);
        assert(0x20_0000_0000_0000 * (p - m * w) <= p && 0x20_0000_0000_0000 * (m * w - p) <= p)
            by (nonlinear_arith)
            requires
                2 * (m * w - p) <= w,
                2 * (p - m * w) <= w,
                p >= 0x10_0000_0000_0000 * w,
        ;
    }
}

/// A share of a count is the part of it that the percentage says, rounded up, as near
/// as doubles can tell: a hundred times the share is no less than percentage times
/// count, and a hundred times one less than the share is less than that, each within
/// the last of 53 binary places. The percentage is `m` times two to the `k`.
pub proof fn shares_are_near_what_is_said(bits: u64, total: nat)
    requires
        0 < bits < INFINITY_BITS,
        0 < total < SIGNIFICAND_END,
        parts(bits).1 < 0,
    ensures
        ({
            let (m, k) = parts(bits);
            let d = pow2((-k) as nat) as int;
            let r = share(bits, total) as int;
            &&& 100 * d * r * 0x20_0000_0000_0001 >= m * total * 0x1f_ffff_ffff_ffff
            &&& 100 * d * (r - 1) * 0x1f_ffff_ffff_ffff < m * total * 0x20_0000_0000_0001
        }),
{
    let (m, k) = parts(bits);
    let d = pow2((-k) as nat) as int;
    lemma2_to64();
    lemma_pow2_pos((-k) as nat);
    assert(0 < m < SIGNIFICAND_END) by {
        assert(bits / SIGNIFICAND_START == 0 ==> bits % SIGNIFICAND_START == bits);
    }
    normal_keeps_the_value(m, k);
    let (n, e0) = normal(m, k);
    let w1 = pow2((k - e0) as nat);
    lemma_pow2_pos((k - e0) as nat);
    let wide = n * 128 / 100 < SIGNIFICAND_END;
    let j: nat = if wide {
        7
    } else {
        6
    };
    let f: nat = if wide {
        128
    } else {
        64
    };
    assert(f == pow2(j));
    let (q, e) = hundredth(m, k);
    assert(q == nearest(n * f, 100) && e == e0 - j);
    if wide {
        nearest_bounds(n * 128, 100, SIGNIFICAND_START as nat, SIGNIFICAND_END as nat);
    } else {
        nearest_bounds(n * 64, 100, SIGNIFICAND_START as nat, SIGNIFICAND_END as nat);
    }
    nearest_is_near(n * f, 100);
    assert(excess(total) == 0);
    assert(total / 1 == total && total % 1 == 0);
    assert(total * 1 == total);
    assert(count_value(total) == total);
    let p = q * total;
    assert(p > 0 && 0x10_0000_0000_0000 * total <= p) by (nonlinear_arith)
        requires
            p == q * total,
            q >= 0x10_0000_0000_0000,
            total > 0,
    ;
    let (pm, t) = to_significand(p);
    let w = pow2(t);
    let pw = pm * w;
    significand_is_near(p);
    lemma_pow2_pos(t);
    let r = ceiling(pm, e + t);
    assert(r == share(bits, total));
    let g = f * w1;
    assert(g > 0) by (nonlinear_arith)
        requires
            g == f * w1,
            f > 0,
            w1 > 0,
    ;
    lemma_pow2_adds((-k) as nat, (k - e0) as nat);
    lemma_pow2_adds((-e0) as nat, j);
    let full = pow2((-e) as nat);
    assert(full == g * d) by (nonlinear_arith)
        requires
            full == (d * w1) * f,
            g == f * w1,
    ;
    ceiling_is_least(pm, e + t);
    let whole = full as int;
    lemma_pow2_pos((-e) as nat);
    assert(r * whole >= pw && (r - 1) * whole < pw) by {
        if e + t >= 0 {
            lemma_pow2_adds((-e) as nat, (e + t) as nat);
            let up = pow2((e + t) as nat);
            assert(r * whole == pw) by (nonlinear_arith)
                requires
                    r == pm * up,
                    pw == pm * w,
                    w == whole * up,
            ;
            assert((r - 1) * whole < r * whole) by (nonlinear_arith)
                requires
                    whole > 0,
            ;
        } else {
            let down = pow2((-(e + t)) as nat);
            lemma_pow2_adds((-(e + t)) as nat, t);
            assert(whole == down * w);
            assert(r * whole >= pw) by (nonlinear_arith)
                requires
                    pm <= r * down,
                    whole == down * w,
                    pw == pm * w,
                    w > 0,
            ;
            assert(pm > 0) by {
                if pm == 0 {
                    assert(0 * w == 0);
                }
            }
            assert((r - 1) * whole < pw) by (nonlinear_arith)
                requires
                    (r - 1) * down < pm,
                    whole == down * w,
                    pw == pm * w,
                    w > 0,
            ;
        }
    }
    let x = n * f * total;
    let y = m * total;
    assert(x == y * g) by (nonlinear_arith)
        requires
            x == n * f * total,
            n == m * w1,
            y == m * total,
            g == f * w1,
    ;
    assert(100 * p + 50 * total >= x && 100 * p - 50 * total <= x) by (nonlinear_arith)
        requires
            2 * (q * 100 - n * f) <= 100,
            2 * (n * f - q * 100) <= 100,
            p == q * total,
            x == n * f * total,
            total > 0,
    ;
    near_after_two_roundings(
        y as int,
        g as int,
        d,
        p as int,
        pw as int,
        r as int,
        total as int,
        x as int,
    );
}

/// A whole number below zero becomes a double with its sign bit set, and zero one
/// without any.
pub proof fn the_sign_is_kept(n: nat)
    requires
        0 < n < SIGNIFICAND_END,
    ensures
        integer_bits(-n) == 0x8000_0000_0000_0000 + integer_bits(n as int),
        !(Double { bits: integer_bits(-n) }).positive(),
        (Double { bits: integer_bits(n as int) }).positive(),
        integer_bits(0) == 0,
{
    count_parts(n);
    assert(-(-n) == n);
}

} // verus!
