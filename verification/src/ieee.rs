//! IEEE 754 numbers held as their bit patterns.
//!
//! Scene attributes are floating-point numbers, and the library only stores,
//! narrows and compares them. All three are integer operations on the bit
//! pattern, so they are written and proved here as such. Arithmetic on the
//! numbers is left to the caller.

use vstd::prelude::*;

verus! {

/// A binary32 number, as its bit pattern.
#[derive(Debug, Clone, Copy, Default, PartialEq, Eq, Structural, Hash)]
pub struct Single {
    pub bits: u32,
}

/// A binary64 number, as its bit pattern.
#[derive(Debug, Clone, Copy, Default, PartialEq, Eq, Structural, Hash)]
pub struct Double {
    pub bits: u64,
}

/// The bits of `1.0` in binary32; those of `0.0` are zero.
pub const SINGLE_ONE: u32 = 0x3f80_0000;

/// The bits of `1.0` in binary64.
pub const DOUBLE_ONE: u64 = 0x3ff0_0000_0000_0000;

/// The magnitude (the bits below the sign) of the binary32 infinity. Every
/// larger magnitude is a NaN.
pub const SINGLE_INFINITY: u32 = 0x7f80_0000;

/// The magnitude of the binary64 infinity.
pub const DOUBLE_INFINITY: u64 = 0x7ff0_0000_0000_0000;

/// `m / 2^k` rounded to the nearest integer, a tie going to the even one.
pub open spec fn round_half_even(m: nat, k: nat) -> nat {
    let p = vstd::arithmetic::power2::pow2(k);
    let q = m / p;
    let r = m % p;
    if 2 * r > p || (2 * r == p && q % 2 == 1) {
        q + 1
    } else {
        q
    }
}

/// The number of binary digits of `m`; zero has none.
pub open spec fn binary_digits(m: nat) -> nat
    decreases m,
{
    if m == 0 {
        0
    } else {
        1 + binary_digits(m / 2)
    }
}

/// A magnitude no larger than that of infinity.
pub open spec fn saturate(magnitude: int) -> int {
    if magnitude > SINGLE_INFINITY {
        SINGLE_INFINITY as int
    } else {
        magnitude
    }
}

impl Single {
    pub open spec fn sign(self) -> int {
        self.bits as int / 0x8000_0000
    }

    pub open spec fn magnitude(self) -> int {
        self.bits as int % 0x8000_0000
    }

    pub open spec fn nan(self) -> bool {
        self.magnitude() > SINGLE_INFINITY
    }

    /// The place of the number among all numbers: a larger number has a larger
    /// place, and the two zeros share one.
    pub open spec fn place(self) -> int {
        if self.sign() == 0 {
            self.magnitude()
        } else {
            -self.magnitude()
        }
    }

    /// `self < other`, which is false where either is a NaN.
    pub open spec fn below(self, other: Single) -> bool {
        !self.nan() && !other.nan() && self.place() < other.place()
    }

    /// Whether the number is a NaN.
    pub fn is_nan(self) -> (r: bool)
        ensures
            r == self.nan(),
    {
        self.bits % 0x8000_0000 > SINGLE_INFINITY
    }

    /// The number without its sign.
    pub open spec fn absolute(self) -> Single {
        Single { bits: self.magnitude() as u32 }
    }

    /// The number without its sign.
    pub fn abs(self) -> (r: Single)
        ensures
            r == self.absolute(),
    {
        Single { bits: self.bits % 0x8000_0000 }
    }

    /// `self < other`, which is false where either is a NaN.
    pub fn less(self, other: Single) -> (r: bool)
        ensures
            r == self.below(other),
    {
        if self.is_nan() || other.is_nan() {
            return false;
        }
        let a: u32 = self.bits % 0x8000_0000;
        let b: u32 = other.bits % 0x8000_0000;
        if self.bits < 0x8000_0000 {
            other.bits < 0x8000_0000 && a < b
        } else if other.bits < 0x8000_0000 {
            a > 0 || b > 0
        } else {
            b < a
        }
    }

    /// The larger of two numbers; the other one where one is a NaN.
    pub open spec fn greater(self, other: Single) -> Single {
        if self.nan() || self.below(other) {
            other
        } else {
            self
        }
    }

    /// The larger of two numbers; the other one where one is a NaN.
    pub fn max(self, other: Single) -> (r: Single)
        ensures
            r == self.greater(other),
    {
        if self.is_nan() || self.less(other) {
            other
        } else {
            self
        }
    }

    /// The single nearest to an integer.
    pub fn from_int(i: i64) -> (r: Single)
        ensures
            r == Single::nearest_int(i),
    {
        let m: u64 = if i < 0 { (-(i as i128)) as u64 } else { i as u64 };
        let sign: u32 = if i < 0 { 0x8000_0000 } else { 0 };
        if m == 0 {
            return Single { bits: 0 };
        }
        let n: u32 = digits(m);
        proof {
            lemma_binary_digits(m as nat);
            vstd::arithmetic::power2::lemma2_to64();
        }
        let q: u32 = if n <= 24 {
            proof {
                let ghost shift: u64 = (24 - n) as u64;
                let ghost p = vstd::arithmetic::power2::pow2((24 - n) as nat);
                let ghost d = vstd::arithmetic::power2::pow2(n as nat);
                vstd::arithmetic::power2::lemma_pow2_adds(n as nat, (24 - n) as nat);
                vstd::arithmetic::power2::lemma_pow2_pos((24 - n) as nat);
                assert(m * p < d * p) by (nonlinear_arith)
                    requires
                        m < d,
                        p > 0,
                ;
                vstd::bits::lemma_u64_shl_is_mul(m, shift);
                assert(m << ((24 - n) as u32) == m << shift) by (bit_vector)
                    requires
                        shift == (24 - n) as u64,
                        n <= 24,
                ;
            }
            (m << (24 - n)) as u32
        } else {
            proof {
                vstd::arithmetic::power2::lemma_pow2_adds(24, (n - 24) as nat);
                lemma_round_bound(m as nat, (n - 24) as nat, 0x100_0000);
            }
            round_shift(m, n - 24) as u32
        };
        Single { bits: sign + (n + 125) * 0x80_0000 + q }
    }

    /// The single nearest to an integer, a tie going to the even one.
    pub open spec fn nearest_int(i: i64) -> Single {
        let m: nat = if i < 0 { (-i) as nat } else { i as nat };
        let n = binary_digits(m);
        let q: nat = if n <= 24 {
            m * vstd::arithmetic::power2::pow2((24 - n) as nat)
        } else {
            round_half_even(m, (n - 24) as nat)
        };
        let magnitude = if m == 0 { 0 } else { (n + 125) * 0x80_0000 + q };
        Single { bits: ((if i < 0 { 0x8000_0000int } else { 0 }) + magnitude) as u32 }
    }
}

impl Double {
    pub open spec fn sign(self) -> int {
        self.bits as int / 0x8000_0000_0000_0000
    }

    pub open spec fn magnitude(self) -> int {
        self.bits as int % 0x8000_0000_0000_0000
    }

    pub open spec fn nan(self) -> bool {
        self.magnitude() > DOUBLE_INFINITY
    }

    pub open spec fn place(self) -> int {
        if self.sign() == 0 {
            self.magnitude()
        } else {
            -self.magnitude()
        }
    }

    /// `self < other`, which is false where either is a NaN.
    pub open spec fn below(self, other: Double) -> bool {
        !self.nan() && !other.nan() && self.place() < other.place()
    }

    /// `self == other`: a NaN equals nothing, and the two zeros are equal.
    pub open spec fn same(self, other: Double) -> bool {
        !self.nan() && !other.nan() && self.place() == other.place()
    }

    /// The number without its sign.
    pub open spec fn absolute(self) -> Double {
        Double { bits: self.magnitude() as u64 }
    }

    /// The magnitude of the single nearest to this number.
    ///
    /// A number of exponent field `e` and fraction field `f` is
    /// `(2^52 + f) * 2^(e - 1075)`. From `e = 897` on the result keeps 24 of
    /// the 53 digits, and its exponent field is `e - 896`; below that it is
    /// subnormal, a multiple of `2^-149`, and the shift grows as `e` falls.
    pub open spec fn narrow_magnitude(self) -> int {
        let e = self.magnitude() / 0x10_0000_0000_0000;
        let f = self.magnitude() % 0x10_0000_0000_0000;
        let m = (0x10_0000_0000_0000 + f) as nat;
        if e == 2047 && f == 0 {
            SINGLE_INFINITY as int
        } else if e == 2047 {
            let payload = f / 0x2000_0000;
            SINGLE_INFINITY + (if payload < 0x40_0000 { payload + 0x40_0000 } else { payload })
        } else if e == 0 {
            0
        } else if e >= 897 {
            saturate((e - 897) * 0x80_0000 + round_half_even(m, 29))
        } else {
            round_half_even(m, (926 - e) as nat) as int
        }
    }

    /// The single nearest to this number: ties go to the even one, what is too
    /// large becomes infinite, and a NaN stays one.
    pub open spec fn nearest(self) -> Single {
        Single { bits: (self.sign() * 0x8000_0000 + self.narrow_magnitude()) as u32 }
    }

    /// `self < other`, which is false where either is a NaN.
    pub fn less(self, other: Double) -> (r: bool)
        ensures
            r == self.below(other),
    {
        let a: u64 = self.bits % 0x8000_0000_0000_0000;
        let b: u64 = other.bits % 0x8000_0000_0000_0000;
        if a > DOUBLE_INFINITY || b > DOUBLE_INFINITY {
            return false;
        }
        if self.bits < 0x8000_0000_0000_0000 {
            other.bits < 0x8000_0000_0000_0000 && a < b
        } else if other.bits < 0x8000_0000_0000_0000 {
            a > 0 || b > 0
        } else {
            b < a
        }
    }

    /// `self == other`: a NaN equals nothing, and the two zeros are equal.
    pub fn equals(self, other: Double) -> (r: bool)
        ensures
            r == self.same(other),
    {
        let a: u64 = self.bits % 0x8000_0000_0000_0000;
        let b: u64 = other.bits % 0x8000_0000_0000_0000;
        if a > DOUBLE_INFINITY || b > DOUBLE_INFINITY {
            return false;
        }
        self.bits == other.bits || (a == 0 && b == 0)
    }

    /// The number without its sign.
    pub fn abs(self) -> (r: Double)
        ensures
            r == self.absolute(),
    {
        Double { bits: self.bits % 0x8000_0000_0000_0000 }
    }

    /// The single nearest to this number.
    pub fn narrow(self) -> (r: Single)
        ensures
            r == self.nearest(),
    {
        let magnitude: u64 = self.bits % 0x8000_0000_0000_0000;
        let e: u64 = magnitude / 0x10_0000_0000_0000;
        let f: u64 = magnitude % 0x10_0000_0000_0000;
        let m: u64 = 0x10_0000_0000_0000 + f;
        let sign: u32 = if self.bits < 0x8000_0000_0000_0000 { 0 } else { 0x8000_0000 };
        let low: u32 = if e == 2047 {
            let payload: u32 = (f / 0x2000_0000) as u32;
            if f == 0 {
                SINGLE_INFINITY
            } else if payload < 0x40_0000 {
                SINGLE_INFINITY + payload + 0x40_0000
            } else {
                SINGLE_INFINITY + payload
            }
        } else if e == 0 {
            0
        } else if e >= 897 {
            let q: u64 = round_shift(m, 29);
            proof {
                vstd::arithmetic::power2::lemma2_to64();
                lemma_round_bound(m as nat, 29, 0x100_0000);
            }
            let wide: u64 = (e - 897) * 0x80_0000 + q;
            if wide > SINGLE_INFINITY as u64 { SINGLE_INFINITY } else { wide as u32 }
        } else if e > 926 - 64 {
            let q: u64 = round_shift(m, (926 - e) as u32);
            proof {
                lemma_round_subnormal(m as nat, (926 - e) as nat);
            }
            q as u32
        } else {
            proof {
                lemma_round_to_zero(m as nat, (926 - e) as nat);
            }
            0
        };
        Single { bits: sign + low }
    }
}

/// Rounding `m / 2^k` when `m` is at most `limit * 2^k` stays within `limit`.
proof fn lemma_round_bound(m: nat, k: nat, limit: nat)
    requires
        m <= limit * vstd::arithmetic::power2::pow2(k),
    ensures
        round_half_even(m, k) <= limit,
{
    let p = vstd::arithmetic::power2::pow2(k);
    vstd::arithmetic::power2::lemma_pow2_pos(k);
    let q = m / p;
    let r = m % p;
    assert(m == q * p + r && r < p) by (nonlinear_arith)
        requires
            p > 0,
            q == m / p,
            r == m % p,
    ;
    if q >= limit {
        assert(q == limit && r == 0) by (nonlinear_arith)
            requires
                q >= limit,
                m == q * p + r,
                m <= limit * p,
                p > 0,
                r >= 0,
        ;
    }
}

/// A subnormal result has at most 23 digits, or is the smallest normal one.
proof fn lemma_round_subnormal(m: nat, k: nat)
    requires
        m < 0x20_0000_0000_0000,
        k >= 30,
    ensures
        round_half_even(m, k) <= 0x80_0000,
{
    vstd::arithmetic::power2::lemma2_to64();
    if k > 30 {
        vstd::arithmetic::power2::lemma_pow2_strictly_increases(30, k);
    }
    lemma_round_bound(m, k, 0x80_0000);
}

/// What is below half of `2^k` rounds to zero.
proof fn lemma_round_to_zero(m: nat, k: nat)
    requires
        m < 0x20_0000_0000_0000,
        k >= 64,
    ensures
        round_half_even(m, k) == 0,
{
    let p = vstd::arithmetic::power2::pow2(k);
    vstd::arithmetic::power2::lemma2_to64();
    vstd::arithmetic::power2::lemma2_to64_rest();
    if k > 64 {
        vstd::arithmetic::power2::lemma_pow2_strictly_increases(64, k);
    }
    assert(m / p == 0 && m % p == m) by (nonlinear_arith)
        requires
            0 <= m < p,
    ;
}

/// `m / 2^k`, rounded to the nearest integer, a tie going to the even one.
fn round_shift(m: u64, k: u32) -> (q: u64)
    requires
        1 <= k <= 63,
    ensures
        q == round_half_even(m as nat, k as nat),
{
    let p: u64 = 1u64 << k;
    proof {
        let ghost one: u64 = 1;
        let ghost shift: u64 = k as u64;
        vstd::arithmetic::power2::lemma2_to64();
        vstd::arithmetic::power2::lemma2_to64_rest();
        if k < 63 {
            vstd::arithmetic::power2::lemma_pow2_strictly_increases(k as nat, 63);
        }
        vstd::bits::lemma_u64_shl_is_mul(one, shift);
        assert(one << shift == p) by (bit_vector)
            requires
                one == 1u64,
                shift == k as u64,
                p == 1u64 << k,
                k <= 63,
        ;
        vstd::arithmetic::power2::lemma_pow2_unfold(k as nat);
        vstd::arithmetic::power2::lemma_pow2_pos((k - 1) as nat);
        assert(m / p <= m / 2) by (nonlinear_arith)
            requires
                p >= 2,
        ;
    }
    let q: u64 = m / p;
    let r: u64 = m % p;
    let half: u64 = p / 2;
    if r > half || (r == half && q % 2 == 1) {
        q + 1
    } else {
        q
    }
}

/// A number of `n` digits lies between `2^(n - 1)` and `2^n`.
proof fn lemma_binary_digits(m: nat)
    ensures
        m < vstd::arithmetic::power2::pow2(binary_digits(m)),
        m > 0 ==> binary_digits(m) > 0 && m >= vstd::arithmetic::power2::pow2(
            (binary_digits(m) - 1) as nat,
        ),
    decreases m,
{
    vstd::arithmetic::power2::lemma2_to64();
    if m > 0 {
        lemma_binary_digits(m / 2);
        vstd::arithmetic::power2::lemma_pow2_unfold(binary_digits(m));
        if m / 2 > 0 {
            vstd::arithmetic::power2::lemma_pow2_unfold((binary_digits(m) - 1) as nat);
        }
    }
}

/// The number of binary digits of `m`; zero has none.
fn digits(m: u64) -> (n: u32)
    ensures
        n == binary_digits(m as nat),
        n <= 64,
{
    proof {
        lemma_binary_digits(m as nat);
        vstd::arithmetic::power2::lemma2_to64();
        vstd::arithmetic::power2::lemma2_to64_rest();
        if binary_digits(m as nat) > 65 {
            vstd::arithmetic::power2::lemma_pow2_strictly_increases(
                64,
                (binary_digits(m as nat) - 1) as nat,
            );
        }
    }
    let mut rest: u64 = m;
    let mut n: u32 = 0;
    while rest > 0
        invariant
            n + binary_digits(rest as nat) == binary_digits(m as nat),
            binary_digits(m as nat) <= 64,
        decreases rest,
    {
        rest = rest / 2;
        n = n + 1;
    }
    n
}

/// Rounding to the nearest integer moves a quotient by at most one half.
pub proof fn rounding_is_nearest(m: nat, k: nat)
    ensures
        2 * (round_half_even(m, k) * vstd::arithmetic::power2::pow2(k) - m)
            <= vstd::arithmetic::power2::pow2(k),
        2 * (m - round_half_even(m, k) * vstd::arithmetic::power2::pow2(k))
            <= vstd::arithmetic::power2::pow2(k),
{
    let p = vstd::arithmetic::power2::pow2(k);
    vstd::arithmetic::power2::lemma_pow2_pos(k);
    let q = m / p;
    let r = m % p;
    assert(m == q * p + r && r < p) by (nonlinear_arith)
        requires
            p > 0,
            q == m / p,
            r == m % p,
    ;
    assert((q + 1) * p == q * p + p) by (nonlinear_arith);
}

/// A larger number does not round to a smaller one.
proof fn lemma_round_monotone(a: nat, b: nat, k: nat)
    requires
        a <= b,
    ensures
        round_half_even(a, k) <= round_half_even(b, k),
{
    let p = vstd::arithmetic::power2::pow2(k);
    vstd::arithmetic::power2::lemma_pow2_pos(k);
    vstd::arithmetic::div_mod::lemma_div_is_ordered(a as int, b as int, p as int);
    vstd::arithmetic::div_mod::lemma_fundamental_div_mod(a as int, p as int);
    vstd::arithmetic::div_mod::lemma_fundamental_div_mod(b as int, p as int);
}

/// Twice a number, divided by twice as much, rounds to the same.
proof fn lemma_round_doubled(m: nat, k: nat)
    ensures
        round_half_even(2 * m, k + 1) == round_half_even(m, k),
{
    let p = vstd::arithmetic::power2::pow2(k);
    vstd::arithmetic::power2::lemma_pow2_pos(k);
    vstd::arithmetic::power2::lemma_pow2_unfold(k + 1);
    let q = m / p;
    let r = m % p;
    vstd::arithmetic::div_mod::lemma_fundamental_div_mod(m as int, p as int);
    assert(2 * m == q * (2 * p) + 2 * r) by (nonlinear_arith)
        requires
            m == p * q + r,
    ;
    vstd::arithmetic::div_mod::lemma_fundamental_div_mod_converse(
        2 * m as int,
        2 * p as int,
        q as int,
        2 * r as int,
    );
}

/// The magnitude of the single nearest to a number of exponent field `e` and
/// digits `m`, before it is cut off at infinity.
spec fn uncut_magnitude(e: int, m: nat) -> int {
    if e >= 897 {
        (e - 897) * 0x80_0000 + round_half_even(m, 29)
    } else {
        round_half_even(m, (926 - e) as nat) as int
    }
}

/// The end of one exponent is the beginning of the next.
proof fn lemma_exponents_meet(e: int)
    requires
        1 <= e,
    ensures
        uncut_magnitude(e, 0x20_0000_0000_0000) == uncut_magnitude(e + 1, 0x10_0000_0000_0000),
{
    vstd::arithmetic::power2::lemma2_to64();
    if e <= 896 {
        lemma_round_doubled(0x10_0000_0000_0000, (925 - e) as nat);
    }
}

/// Of two numbers of different exponents, the one of the larger exponent does
/// not become the smaller one.
proof fn lemma_exponents_decide(e: int, m: nat, f: int, n: nat)
    requires
        1 <= e < f,
        m <= 0x20_0000_0000_0000,
        0x10_0000_0000_0000 <= n,
    ensures
        uncut_magnitude(e, m) <= uncut_magnitude(f, n),
    decreases f - e,
{
    let end: nat = 0x20_0000_0000_0000;
    let begin: nat = 0x10_0000_0000_0000;
    lemma_round_monotone(m, end, if e >= 897 { 29 } else { (926 - e) as nat });
    lemma_exponents_meet(e);
    if e + 1 < f {
        lemma_exponents_decide(e + 1, begin, f, n);
    } else {
        lemma_round_monotone(begin, n, if f >= 897 { 29 } else { (926 - f) as nat });
    }
}

/// A larger magnitude does not become a smaller one, and none becomes a NaN.
proof fn lemma_magnitudes_keep_their_order(a: Double, b: Double)
    requires
        a.magnitude() <= b.magnitude() <= DOUBLE_INFINITY,
    ensures
        0 <= a.narrow_magnitude() <= b.narrow_magnitude() <= SINGLE_INFINITY,
{
    let unit = 0x10_0000_0000_0000int;
    let e = a.magnitude() / unit;
    let f = b.magnitude() / unit;
    let m = (unit + a.magnitude() % unit) as nat;
    let n = (unit + b.magnitude() % unit) as nat;
    if 1 <= e < f {
        lemma_exponents_decide(e, m, f, n);
    } else if e == f {
        lemma_round_monotone(m, n, if e >= 897 { 29 } else { (926 - e) as nat });
    }
    if 1 <= e < 897 {
        lemma_round_subnormal(m, (926 - e) as nat);
    }
    if 1 <= f < 897 {
        lemma_round_subnormal(n, (926 - f) as nat);
    }
    assert(0 <= e <= f <= 2047);
    assert(f == 2047 ==> b.magnitude() == DOUBLE_INFINITY);
    assert(1 <= e < 2047 ==> a.narrow_magnitude() == if e >= 897 {
        saturate(uncut_magnitude(e, m))
    } else {
        uncut_magnitude(e, m)
    });
    assert(1 <= f < 2047 ==> b.narrow_magnitude() == if f >= 897 {
        saturate(uncut_magnitude(f, n))
    } else {
        uncut_magnitude(f, n)
    });
}

/// Narrowing keeps numbers numbers, and keeps their order: of two numbers the
/// larger one never becomes the smaller one.
pub proof fn narrowing_keeps_the_order(a: Double, b: Double)
    requires
        !a.nan(),
        !b.nan(),
        a.place() <= b.place(),
    ensures
        !a.nearest().nan(),
        !b.nearest().nan(),
        a.nearest().place() <= b.nearest().place(),
{
    if a.magnitude() <= b.magnitude() {
        lemma_magnitudes_keep_their_order(a, b);
    } else {
        lemma_magnitudes_keep_their_order(b, a);
    }
}

/// Narrowing keeps a NaN one.
pub proof fn narrowing_keeps_nans(a: Double)
    requires
        a.nan(),
    ensures
        a.nearest().nan(),
{
}

/// Two singles that are numbers are ordered by their bits where they have no sign,
/// against them where both have one, and one with a sign is below one without,
/// unless both are zero. Nothing is above or below a NaN.
/// The place of a single is its bits where it has no sign, and as far below zero where
/// it has one.
pub proof fn singles_are_ordered_by_their_bits(a: Single, b: Single)
    ensures
        a.nan() <==> 0x7f80_0000 < a.bits < 0x8000_0000 || 0xff80_0000 < a.bits,
        a.bits == a.sign() * 0x8000_0000 + a.magnitude(),
        0 <= a.magnitude() < 0x8000_0000,
        a.place() == if a.bits < 0x8000_0000 {
            a.bits as int
        } else {
            0x8000_0000 - a.bits
        },
        a.nan() || b.nan() ==> !a.below(b),
        !a.nan() && !b.nan() ==> {
            &&& a.bits < 0x8000_0000 && b.bits < 0x8000_0000 ==> (a.below(b) <==> a.bits < b.bits)
            &&& a.bits >= 0x8000_0000 && b.bits >= 0x8000_0000 ==> (a.below(b) <==> a.bits > b.bits)
            &&& a.bits >= 0x8000_0000 && b.bits < 0x8000_0000 ==> (a.below(b) <==> a.bits
                != 0x8000_0000 || b.bits != 0)
            &&& a.bits < 0x8000_0000 && b.bits >= 0x8000_0000 ==> !a.below(b)
            &&& a.below(b) <==> a.place() < b.place()
        },
{
}

/// Two doubles that are numbers are ordered as singles are, and have their places as
/// singles do. They are the same where neither is below the other.
pub proof fn doubles_are_ordered_by_their_bits(a: Double, b: Double)
    ensures
        a.nan() <==> 0x7ff0_0000_0000_0000 < a.bits < 0x8000_0000_0000_0000
            || 0xfff0_0000_0000_0000 < a.bits,
        a.bits == a.sign() * 0x8000_0000_0000_0000 + a.magnitude(),
        0 <= a.magnitude() < 0x8000_0000_0000_0000,
        a.place() == if a.bits < 0x8000_0000_0000_0000 {
            a.bits as int
        } else {
            0x8000_0000_0000_0000 - a.bits
        },
        a.nan() || b.nan() ==> !a.below(b) && !a.same(b),
        !a.nan() && !b.nan() ==> {
            let half = 0x8000_0000_0000_0000u64;
            &&& a.bits < half && b.bits < half ==> (a.below(b) <==> a.bits < b.bits)
            &&& a.bits >= half && b.bits >= half ==> (a.below(b) <==> a.bits > b.bits)
            &&& a.bits >= half && b.bits < half ==> (a.below(b) <==> a.bits != half || b.bits != 0)
            &&& a.bits < half && b.bits >= half ==> !a.below(b)
            &&& a.same(b) <==> !a.below(b) && !b.below(a)
            &&& a.below(b) <==> a.place() < b.place()
        },
{
}

/// A number without its sign keeps its magnitude, and is at its distance from zero.
pub proof fn absolutes_drop_the_sign(a: Single, b: Double)
    ensures
        a.absolute().bits < 0x8000_0000,
        a.absolute().magnitude() == a.magnitude(),
        a.absolute().place() == if a.place() < 0 {
            -a.place()
        } else {
            a.place()
        },
        b.absolute().bits < 0x8000_0000_0000_0000,
        b.absolute().magnitude() == b.magnitude(),
        b.absolute().place() == if b.place() < 0 {
            -b.place()
        } else {
            b.place()
        },
{
}

/// The larger of two numbers is one of them, and neither is above it; where one is
/// a NaN it is the other.
pub proof fn the_greater_is_one_of_both(a: Single, b: Single)
    ensures
        a.greater(b) == a || a.greater(b) == b,
        !a.greater(b).below(a),
        !a.greater(b).below(b),
        a.nan() ==> a.greater(b) == b,
        b.nan() && !a.nan() ==> a.greater(b) == a,
{
}

/// A tie between two integers is rounded to the even one.
pub proof fn ties_are_rounded_to_even(m: nat, k: nat)
    requires
        2 * (m % vstd::arithmetic::power2::pow2(k)) == vstd::arithmetic::power2::pow2(k),
    ensures
        round_half_even(m, k) % 2 == 0,
{
    let p = vstd::arithmetic::power2::pow2(k);
    let q = m / p;
    vstd::arithmetic::power2::lemma_pow2_pos(k);
    vstd::arithmetic::div_mod::lemma_div_pos_is_pos(m as int, p as int);
    assert(round_half_even(m, k) == if q % 2 == 1 {
        q + 1
    } else {
        q
    });
    assert(q % 2 == 1 ==> (q + 1) % 2 == 0);
}

/// Narrowing keeps the sign. What is as large as a single can be told apart from
/// its neighbours becomes the nearest of the two between which it lies, and the one
/// of them whose last bit is zero where it is halfway; what lies above the largest
/// of them becomes infinite.
///
/// A double of that size has the bits of a single, moved up by 29 places with the
/// exponents 896 apart, and 29 more, which say how far it is on the way to the next.
pub proof fn narrowing_finds_the_nearest(a: Double)
    requires
        0x3810_0000_0000_0000 <= a.magnitude() <= 0x7ff0_0000_0000_0000,
    ensures
        ({
            let unit = 0x2000_0000int;
            let low = (a.magnitude() - 0x3800_0000_0000_0000) / unit;
            let over = (a.magnitude() - 0x3800_0000_0000_0000) % unit;
            &&& a.nearest().sign() == a.sign()
            &&& low >= 0x7f80_0000 ==> a.nearest().magnitude() == 0x7f80_0000
            &&& low < 0x7f80_0000 && (2 * over < unit || (2 * over == unit && low % 2 == 0))
                ==> a.nearest().magnitude() == low
            &&& low < 0x7f80_0000 && (2 * over > unit || (2 * over == unit && low % 2 == 1))
                ==> a.nearest().magnitude() == low + 1
        }),
{
    vstd::arithmetic::power2::lemma2_to64();
    let e = a.magnitude() / 0x10_0000_0000_0000;
    let f = a.magnitude() % 0x10_0000_0000_0000;
    let m = (0x10_0000_0000_0000 + f) as nat;
    assert(vstd::arithmetic::power2::pow2(29) == 0x2000_0000);
    let q = m / 0x2000_0000;
    let r = m % 0x2000_0000;
    assert(q == 0x80_0000 + f / 0x2000_0000 && r == f % 0x2000_0000);
    assert(a.magnitude() == e * 0x10_0000_0000_0000 + f);
    let low = (a.magnitude() - 0x3800_0000_0000_0000) / 0x2000_0000;
    assert(low == (e - 896) * 0x80_0000 + f / 0x2000_0000);
    assert((a.magnitude() - 0x3800_0000_0000_0000) % 0x2000_0000 == r);
    assert(q % 2 == low % 2);
    if e < 2047 {
        assert(round_half_even(m, 29) == q || round_half_even(m, 29) == q + 1);
        assert(a.narrow_magnitude() == saturate((e - 897) * 0x80_0000 + round_half_even(m, 29)));
        assert((e - 897) * 0x80_0000 + q == low);
        if low >= 0x7f80_0000 {
            assert(a.narrow_magnitude() == 0x7f80_0000);
        }
    }
    assert(0 <= a.narrow_magnitude() <= 0x7f80_0000);
}

/// Narrowing keeps the sign of what is smaller. With exponent field `e` and 53
/// digits `m`, it becomes the nearest multiple of the smallest single, which is
/// `m / 2^(926 - e)` of them, and an even multiple where it is halfway; what has no
/// exponent field is too small for any.
pub proof fn narrowing_finds_the_nearest_multiple(a: Double)
    requires
        a.magnitude() < 0x3810_0000_0000_0000,
    ensures
        ({
            let e = a.magnitude() / 0x10_0000_0000_0000;
            let m = 0x10_0000_0000_0000 + a.magnitude() % 0x10_0000_0000_0000;
            let p = vstd::arithmetic::power2::pow2((926 - e) as nat);
            let n = a.nearest().magnitude();
            &&& a.nearest().sign() == a.sign()
            &&& e == 0 ==> n == 0
            &&& e > 0 ==> 2 * (n * p - m) <= p && 2 * (m - n * p) <= p
            &&& e > 0 && (2 * (n * p - m) == p || 2 * (m - n * p) == p) ==> n % 2 == 0
        }),
{
    let e = a.magnitude() / 0x10_0000_0000_0000;
    let m = (0x10_0000_0000_0000 + a.magnitude() % 0x10_0000_0000_0000) as nat;
    if e > 0 {
        let k = (926 - e) as nat;
        let p = vstd::arithmetic::power2::pow2(k);
        lemma_round_subnormal(m, k);
        rounding_is_nearest(m, k);
        lemma_halves_are_ties(m, k);
        assert(a.nearest().magnitude() == round_half_even(m, k));
    }
}

/// A number that is rounded by half a unit is a tie.
proof fn lemma_halves_are_ties(m: nat, k: nat)
    ensures
        ({
            let p = vstd::arithmetic::power2::pow2(k);
            let n = round_half_even(m, k);
            2 * (n * p - m) == p || 2 * (m - n * p) == p ==> n % 2 == 0
        }),
{
    let p = vstd::arithmetic::power2::pow2(k);
    vstd::arithmetic::power2::lemma_pow2_pos(k);
    let q = m / p;
    let r = m % p;
    vstd::arithmetic::div_mod::lemma_fundamental_div_mod(m as int, p as int);
    assert((q + 1) * p == q * p + p) by (nonlinear_arith);
    assert(p * q == q * p) by (nonlinear_arith);
}

/// The sign and the magnitude of the single nearest to an integer of `n` binary
/// digits that is not zero.
proof fn lemma_integer_magnitude(i: i64, m: nat, n: nat)
    requires
        i != 0,
        n > 0,
        m == if i < 0 {
            -i
        } else {
            i as int
        },
        vstd::arithmetic::power2::pow2((n - 1) as nat) <= m < vstd::arithmetic::power2::pow2(n),
    ensures
        Single::nearest_int(i).sign() == if i < 0 {
            1int
        } else {
            0
        },
        Single::nearest_int(i).magnitude() == (n + 125) * 0x80_0000 + if n <= 24 {
            m * vstd::arithmetic::power2::pow2((24 - n) as nat)
        } else {
            round_half_even(m, (n - 24) as nat)
        },
{
    lemma_binary_digits(m);
    let d = binary_digits(m);
    if d < n {
        if d < n - 1 {
            vstd::arithmetic::power2::lemma_pow2_strictly_increases(d, (n - 1) as nat);
        }
    } else if n < d {
        if n < d - 1 {
            vstd::arithmetic::power2::lemma_pow2_strictly_increases(n, (d - 1) as nat);
        }
    }
    assert(d == n);
    vstd::arithmetic::power2::lemma2_to64();
    vstd::arithmetic::power2::lemma2_to64_rest();
    if n > 64 {
        vstd::arithmetic::power2::lemma_pow2_strictly_increases(63, (n - 1) as nat);
    }
    let q: nat = if n <= 24 {
        m * vstd::arithmetic::power2::pow2((24 - n) as nat)
    } else {
        round_half_even(m, (n - 24) as nat)
    };
    if n <= 24 {
        let p = vstd::arithmetic::power2::pow2((24 - n) as nat);
        vstd::arithmetic::power2::lemma_pow2_adds(n, (24 - n) as nat);
        vstd::arithmetic::power2::lemma_pow2_pos((24 - n) as nat);
        assert(m * p < vstd::arithmetic::power2::pow2(n) * p) by (nonlinear_arith)
            requires
                m < vstd::arithmetic::power2::pow2(n),
                p > 0,
        ;
    } else {
        vstd::arithmetic::power2::lemma_pow2_adds(24, (n - 24) as nat);
        lemma_round_bound(m, (n - 24) as nat, 0x100_0000);
    }
    assert(q <= 0x100_0000);
}

/// The bits of a single that stands for an integer of `n` binary digits, which is
/// not zero, are its sign, an exponent field of `n + 126`, and 23 digits behind the
/// first: all digits of the integer where there are up to 24, and else the nearest
/// 24, or the even ones where it is halfway.
pub proof fn integers_keep_their_digits(i: i64, n: nat)
    requires
        i != 0,
        n > 0,
        vstd::arithmetic::power2::pow2((n - 1) as nat) <= (if i < 0 {
            -i
        } else {
            i as int
        }) < vstd::arithmetic::power2::pow2(n),
    ensures
        ({
            let m = if i < 0 {
                -i
            } else {
                i as int
            };
            let q = Single::nearest_int(i).magnitude() - (n + 125) * 0x80_0000;
            let short = vstd::arithmetic::power2::pow2((24 - n) as nat);
            let long = vstd::arithmetic::power2::pow2((n - 24) as nat);
            &&& Single::nearest_int(i).sign() == if i < 0 {
                1int
            } else {
                0
            }
            &&& n <= 24 ==> q == m * short
            &&& n > 24 ==> 2 * (q * long - m) <= long && 2 * (m - q * long) <= long
            &&& n > 24 && (2 * (q * long - m) == long || 2 * (m - q * long) == long) ==> q % 2 == 0
        }),
{
    let m: nat = if i < 0 {
        (-i) as nat
    } else {
        i as nat
    };
    lemma_integer_magnitude(i, m, n);
    if n > 24 {
        rounding_is_nearest(m, (n - 24) as nat);
        lemma_halves_are_ties(m, (n - 24) as nat);
    }
}

/// The single nearest to zero is zero, and the one nearest to minus an integer is
/// minus the one nearest to it.
pub proof fn integers_are_narrowed_alike_on_both_sides(i: i64)
    requires
        0 < i,
    ensures
        Single::nearest_int(0).bits == 0,
        Single::nearest_int((-i) as i64).place() == -Single::nearest_int(i).place(),
{
    lemma_binary_digits(i as nat);
    let n = binary_digits(i as nat);
    lemma_integer_magnitude(i, i as nat, n);
    lemma_integer_magnitude((-i) as i64, i as nat, n);
}

/// A NaN keeps its sign and the upper 22 of its bits behind the one that makes it
/// quiet, which is set.
pub proof fn nans_keep_their_payload(a: Double)
    requires
        a.nan(),
    ensures
        a.nearest().sign() == a.sign(),
        a.nearest().magnitude() == 0x7fc0_0000 + (a.magnitude() / 0x2000_0000) % 0x40_0000,
{
    let f = a.magnitude() % 0x10_0000_0000_0000;
    assert(a.magnitude() == 2047 * 0x10_0000_0000_0000 + f);
    assert((a.magnitude() / 0x2000_0000) % 0x40_0000 == (f / 0x2000_0000) % 0x40_0000);
}

} // verus!
