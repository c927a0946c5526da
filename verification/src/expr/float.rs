//! Binary floating-point numbers of 64 bits, held by their bit patterns: how
//! they are told apart and ordered, and how an integer becomes one. Their
//! arithmetic is left to the machine.

use vstd::arithmetic::power2::{lemma2_to64, lemma2_to64_rest, lemma_pow2_adds, lemma_pow2_pos, lemma_pow2_unfold, pow2};
use vstd::prelude::*;

verus! {

/// The bit that holds the sign.
pub const SIGN_BIT: u64 = 0x8000_0000_0000_0000;

/// The bit pattern of positive infinity: every larger magnitude is no number.
pub const INFINITY_BITS: u64 = 0x7ff0_0000_0000_0000;

/// The weight of the significand's leading bit, which a normal number does
/// not store: two to the power of 52.
pub const HIDDEN_BIT: u64 = 0x10_0000_0000_0000;

/// The exponent field of the number one.
pub const EXPONENT_BIAS: u64 = 1023;

/// A floating-point number in the binary interchange format of 64 bits: from
/// the top, one bit of sign, eleven of exponent and fifty-two of significand.
#[derive(Clone, Copy, Debug, PartialEq, Eq, Structural)]
pub struct Float {
    pub bits: u64,
}

/// The place of the leading bit of a positive number.
pub open spec fn floor_log2(m: nat) -> nat
    decreases m,
{
    if m <= 1 {
        0
    } else {
        1 + floor_log2(m / 2)
    }
}

/// The quotient of `m` by `d`, rounded to the nearest integer, and to the even
/// one of two that are equally near.
pub open spec fn round_half_even(m: nat, d: nat) -> nat
    recommends
        d > 0,
{
    let q = m / d;
    let r = m % d;
    if 2 * r > d || (2 * r == d && q % 2 == 1) {
        q + 1
    } else {
        q
    }
}

/// The significand of the floating-point number nearest to the positive
/// integer `m`, with its leading bit: `m` scaled up to 53 bits where it has
/// fewer, which is exact, and rounded down to them where it has more.
pub open spec fn significand(m: nat) -> nat
    recommends
        m > 0,
{
    let p = floor_log2(m);
    if p <= 52 {
        m * pow2((52 - p) as nat)
    } else {
        round_half_even(m, pow2((p - 52) as nat))
    }
}

/// The bit pattern of the floating-point number nearest to `i`, ties going
/// to the even significand. A rounded significand of 54 bits carries into
/// the exponent.
pub open spec fn int_bits(i: int) -> int {
    if i == 0 {
        0
    } else {
        let m = if i < 0 {
            (-i) as nat
        } else {
            i as nat
        };
        let sign = if i < 0 {
            SIGN_BIT as int
        } else {
            0
        };
        sign + (floor_log2(m) + EXPONENT_BIAS) * HIDDEN_BIT + significand(m) - HIDDEN_BIT
    }
}

impl Float {
    /// The number without its sign.
    pub open spec fn magnitude(self) -> u64 {
        if self.bits >= SIGN_BIT {
            (self.bits - SIGN_BIT) as u64
        } else {
            self.bits
        }
    }

    /// Whether the sign bit is set.
    pub open spec fn is_negative(self) -> bool {
        self.bits >= SIGN_BIT
    }

    /// Not a number: the exponent is all ones and the significand is not zero.
    pub open spec fn spec_is_nan(self) -> bool {
        self.magnitude() > INFINITY_BITS
    }

    /// Positive or negative zero.
    pub open spec fn spec_is_zero(self) -> bool {
        self.magnitude() == 0
    }

    /// The place of the number in the total order of all bit patterns: the
    /// negative numbers from the largest magnitude up, then the positive ones.
    pub open spec fn spec_key(self) -> i64 {
        if self.is_negative() {
            (-1 - self.magnitude()) as i64
        } else {
            self.magnitude() as i64
        }
    }

    /// The number with the other sign.
    pub open spec fn spec_negated(self) -> Float {
        if self.bits >= SIGN_BIT {
            Float { bits: (self.bits - SIGN_BIT) as u64 }
        } else {
            Float { bits: (self.bits + SIGN_BIT) as u64 }
        }
    }

    /// The floating-point number nearest to `i`.
    pub open spec fn of_int(i: i64) -> Float {
        Float { bits: int_bits(i as int) as u64 }
    }

    /// The number with the given bit pattern.
    pub fn from_bits(bits: u64) -> (float: Self)
        ensures
            float.bits == bits,
    {
        Self { bits }
    }

    /// The bit pattern of the number.
    pub fn to_bits(self) -> (bits: u64)
        ensures
            bits == self.bits,
    {
        self.bits
    }

    /// Whether this is no number.
    #[verifier::when_used_as_spec(spec_is_nan)]
    pub fn is_nan(self) -> (nan: bool)
        ensures
            nan == self.spec_is_nan(),
    {
        let magnitude: u64 = if self.bits >= SIGN_BIT {
            self.bits - SIGN_BIT
        } else {
            self.bits
        };
        magnitude > INFINITY_BITS
    }

    /// Whether this is positive or negative zero.
    #[verifier::when_used_as_spec(spec_is_zero)]
    pub fn is_zero(self) -> (zero: bool)
        ensures
            zero == self.spec_is_zero(),
    {
        self.bits == 0 || self.bits == SIGN_BIT
    }

    /// The place of the number in the total order of all bit patterns.
    #[verifier::when_used_as_spec(spec_key)]
    pub fn key(self) -> (key: i64)
        ensures
            key == self.spec_key(),
    {
        if self.bits >= SIGN_BIT {
            -1 - ((self.bits - SIGN_BIT) as i64)
        } else {
            self.bits as i64
        }
    }

    /// The number with the other sign.
    #[verifier::when_used_as_spec(spec_negated)]
    pub fn negated(self) -> (float: Float)
        ensures
            float == self.spec_negated(),
    {
        if self.bits >= SIGN_BIT {
            Float { bits: self.bits - SIGN_BIT }
        } else {
            Float { bits: self.bits + SIGN_BIT }
        }
    }

    /// Converts an integer to the nearest floating-point number.
    pub fn from_int(i: i64) -> (float: Self)
        ensures
            float == Self::of_int(i),
    {
        if i == 0 {
            return Float { bits: 0 };
        }
        let m: u64 = if i == i64::MIN {
            SIGN_BIT
        } else if i < 0 {
            (-i) as u64
        } else {
            i as u64
        };
        let mut p: u64 = 0;
        let mut top: u64 = 1;
        proof {
            lemma2_to64();
        }
        while top <= m / 2
            invariant
                0 < top <= m,
                p <= 63,
                top == pow2(p as nat),
                floor_log2(m as nat) == p + floor_log2((m / top) as nat),
            decreases m - top,
        {
            proof {
                lemma_pow2_unfold((p + 1) as nat);
                lemma_halving(m as nat, top as nat);
                if p >= 63 {
                    lemma2_to64_rest();
                }
            }
            top = top * 2;
            p = p + 1;
        }
        proof {
            lemma2_to64_rest();
            lemma_between(m as nat, top as nat);
            lemma_scaling(p as nat);
        }
        let sig: u64 = if p <= 52 {
            let scale: u64 = HIDDEN_BIT / top;
            proof {
                lemma_pow2_pos((52 - p) as nat);
                lemma_scaled(m as nat, top as nat, scale as nat, pow2((52 - p) as nat));
            }
            m * scale
        } else {
            let d: u64 = top / HIDDEN_BIT;
            let q: u64 = m / d;
            let r: u64 = m % d;
            proof {
                lemma_pow2_pos((p - 52) as nat);
                lemma_rounded(m as nat, top as nat, d as nat, pow2((p - 52) as nat));
                lemma_pow2_unfold((p - 52) as nat);
            }
            if r > d / 2 || (r == d / 2 && q % 2 == 1) {
                q + 1
            } else {
                q
            }
        };
        let sign: u64 = if i < 0 {
            SIGN_BIT
        } else {
            0
        };
        assert((p + EXPONENT_BIAS) * HIDDEN_BIT <= 1086 * HIDDEN_BIT) by (nonlinear_arith)
            requires
                p <= 63,
                EXPONENT_BIAS == 1023,
        ;
        Float { bits: sign + (p + EXPONENT_BIAS) * HIDDEN_BIT + (sig - HIDDEN_BIT) }
    }
}

/// Halving the quotient by a divisor is dividing by its double.
proof fn lemma_halving(m: nat, top: nat)
    requires
        0 < top,
        2 * top <= m,
    ensures
        m / top >= 2,
        (m / top) / 2 == m / (2 * top),
{
    vstd::arithmetic::div_mod::lemma_div_denominator(m as int, top as int, 2);
    assert(top * 2 == 2 * top);
    vstd::arithmetic::div_mod::lemma_div_is_ordered((2 * top) as int, m as int, top as int);
    vstd::arithmetic::div_mod::lemma_div_multiples_vanish(2, top as int);
    assert(2 * top == top * 2);
}

/// A number from a power of two up to its double has the quotient one by it.
proof fn lemma_between(m: nat, top: nat)
    requires
        0 < top <= m,
        m < 2 * top,
    ensures
        m / top == 1,
{
    vstd::arithmetic::div_mod::lemma_fundamental_div_mod_converse(
        m as int,
        top as int,
        1,
        m - top,
    );
}

/// Two to the power of 52 is the product of the powers below and above a
/// split of its exponent.
proof fn lemma_scaling(p: nat)
    requires
        p <= 63,
    ensures
        p <= 52 ==> pow2(p) * pow2((52 - p) as nat) == HIDDEN_BIT,
        p > 52 ==> HIDDEN_BIT * pow2((p - 52) as nat) == pow2(p),
        pow2(p) > 0,
{
    lemma2_to64_rest();
    lemma_pow2_pos(p);
    if p <= 52 {
        lemma_pow2_adds(p, (52 - p) as nat);
    } else {
        lemma_pow2_adds(52, (p - 52) as nat);
    }
}

/// A number of at most 53 bits, scaled to 53 bits, has its leading bit there.
proof fn lemma_scaled(m: nat, top: nat, scale: nat, k: nat)
    requires
        0 < top <= m,
        m < 2 * top,
        scale == HIDDEN_BIT as nat / top,
        k > 0,
        top * k == HIDDEN_BIT,
    ensures
        scale == k,
        HIDDEN_BIT <= m * scale < 2 * HIDDEN_BIT,
{
    vstd::arithmetic::div_mod::lemma_div_multiples_vanish(k as int, top as int);
    assert(top * scale <= m * scale) by (nonlinear_arith)
        requires
            top <= m,
    ;
    assert(m * scale < 2 * top * scale) by (nonlinear_arith)
        requires
            m < 2 * top,
            scale > 0,
    ;
    assert(2 * top * scale == 2 * (top * scale)) by (nonlinear_arith);
}

/// A number of more than 53 bits, divided down to 53 bits, has its leading
/// bit there.
proof fn lemma_rounded(m: nat, top: nat, d: nat, k: nat)
    requires
        0 < top <= m,
        m < 2 * top,
        d == top / HIDDEN_BIT as nat,
        k > 0,
        HIDDEN_BIT * k == top,
    ensures
        d == k,
        HIDDEN_BIT <= m / d < 2 * HIDDEN_BIT,
{
    vstd::arithmetic::div_mod::lemma_div_multiples_vanish(k as int, HIDDEN_BIT as int);
    vstd::arithmetic::div_mod::lemma_div_is_ordered(top as int, m as int, d as int);
    assert(top == d * HIDDEN_BIT) by (nonlinear_arith)
        requires
            HIDDEN_BIT * d == top,
    ;
    vstd::arithmetic::div_mod::lemma_div_multiples_vanish(HIDDEN_BIT as int, d as int);
    assert(2 * top == (2 * HIDDEN_BIT) * d) by (nonlinear_arith)
        requires
            HIDDEN_BIT * d == top,
    ;
    vstd::arithmetic::div_mod::lemma_div_by_multiple_is_strongly_ordered(
        m as int,
        (2 * top) as int,
        (2 * HIDDEN_BIT) as int,
        d as int,
    );
    assert(2 * top == d * (2 * HIDDEN_BIT)) by (nonlinear_arith)
        requires
            HIDDEN_BIT * d == top,
    ;
    vstd::arithmetic::div_mod::lemma_div_multiples_vanish((2 * HIDDEN_BIT) as int, d as int);
}

/// The place of the leading bit is where the number lies between two powers
/// of two.
pub proof fn lemma_floor_log2(m: nat)
    requires
        m > 0,
    ensures
        pow2(floor_log2(m)) <= m < 2 * pow2(floor_log2(m)),
    decreases m,
{
    if m <= 1 {
        lemma2_to64();
    } else {
        lemma_floor_log2(m / 2);
        lemma_pow2_unfold(floor_log2(m));
    }
}

/// The significand is that of the nearest floating-point number: it has its
/// leading bit or has carried into the next one; scaled back to the place of
/// the integer, it is off by at most half a unit in its last place, and where
/// it is off by just half a unit it is even.
pub proof fn lemma_significand_is_nearest(m: nat)
    requires
        0 < m <= SIGN_BIT,
    ensures
        ({
            let p = floor_log2(m);
            let sig = significand(m);
            &&& p <= 63
            &&& HIDDEN_BIT <= sig <= 2 * HIDDEN_BIT
            &&& p <= 52 ==> sig == m * pow2((52 - p) as nat)
            &&& p > 52 ==> ({
                let unit = pow2((p - 52) as nat) as int;
                let off = sig * unit - m;
                &&& -unit <= 2 * off <= unit
                &&& (2 * off == unit || 2 * off == -unit) ==> sig % 2 == 0
            })
        }),
{
    let p = floor_log2(m);
    lemma2_to64();
    lemma2_to64_rest();
    lemma_floor_log2(m);
    if p > 63 {
        vstd::arithmetic::power2::lemma_pow2_strictly_increases(63, p);
    }
    lemma_pow2_pos(p);
    lemma_scaling(p);
    if p <= 52 {
        lemma_pow2_pos((52 - p) as nat);
        let scale = pow2((52 - p) as nat);
        vstd::arithmetic::div_mod::lemma_div_multiples_vanish(scale as int, pow2(p) as int);
        lemma_scaled(m, pow2(p), scale, scale);
    } else {
        lemma_pow2_pos((p - 52) as nat);
        let d = pow2((p - 52) as nat);
        vstd::arithmetic::div_mod::lemma_div_multiples_vanish(d as int, HIDDEN_BIT as int);
        lemma_rounded(m, pow2(p), d, d);
        vstd::arithmetic::div_mod::lemma_fundamental_div_mod(m as int, d as int);
        vstd::arithmetic::div_mod::lemma_mod_bound(m as int, d as int);
        let q = m / d;
        let r = m % d;
        assert(m == d * q + r);
        assert((q + 1) * d == d * q + d) by (nonlinear_arith);
        assert(q * d == d * q) by (nonlinear_arith);
    }
}

/// An integer converts to a finite number.
pub proof fn lemma_int_bits_finite(i: i64)
    ensures
        Float::of_int(i).magnitude() < INFINITY_BITS,
{
    if i != 0 {
        let m: nat = if i < 0 {
            (-i) as nat
        } else {
            i as nat
        };
        let p = floor_log2(m);
        lemma_significand_is_nearest(m);
        assert((p + EXPONENT_BIAS) * HIDDEN_BIT <= 1086 * HIDDEN_BIT) by (nonlinear_arith)
            requires
                p <= 63,
                EXPONENT_BIAS == 1023,
        ;
    }
}

} // verus!
