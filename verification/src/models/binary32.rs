//! Numbers in the IEEE 754 binary32 format, held by their bit patterns.
//!
//! The requests carry sampling parameters in this format. They are only ever
//! compared with a few bounds and shown in messages, so a number is kept as
//! the 32 bits that encode it, beside the text that shows it.
use vstd::arithmetic::power2::{
    lemma2_to64, lemma_pow2_adds, lemma_pow2_pos, lemma_pow2_strictly_increases, lemma_pow2_unfold,
    pow2,
};
use vstd::prelude::*;

verus! {

/// The bit that holds the sign.
pub const SIGN_BIT: u32 = 0x8000_0000;

/// The magnitude bits of the infinities; larger magnitudes are no numbers.
pub const INFINITY: u32 = 0x7f80_0000;

/// The bits of 0.
pub const ZERO: u32 = 0x0000_0000;

/// The bits of 1.
pub const ONE: u32 = 0x3f80_0000;

/// The bits of 2.
pub const TWO: u32 = 0x4000_0000;

/// The bits of -2.
pub const MINUS_TWO: u32 = 0xc000_0000;

/// The bits without the sign. Among numbers of one sign, a larger magnitude
/// encodes a number that is further from zero.
pub open spec fn magnitude(bits: u32) -> int {
    if bits >= SIGN_BIT {
        bits - SIGN_BIT
    } else {
        bits as int
    }
}

/// The bits encode no number (a NaN).
pub open spec fn is_nan(bits: u32) -> bool {
    magnitude(bits) > INFINITY
}

/// An integer that orders the bit patterns as the numbers they encode are
/// ordered: the magnitude, negated where the sign bit is set. Both zeros have
/// the key 0.
pub open spec fn order_key(bits: u32) -> int {
    if bits >= SIGN_BIT {
        -magnitude(bits)
    } else {
        magnitude(bits)
    }
}

/// The number encoded by `a` is less than the one encoded by `b`. A NaN is
/// neither less nor greater than anything.
pub open spec fn less_than(a: u32, b: u32) -> bool {
    &&& !is_nan(a)
    &&& !is_nan(b)
    &&& order_key(a) < order_key(b)
}

/// `bits` encode nothing that lies from `low` to `high`: a number below
/// `low`, a number above `high`, or no number at all. A NaN lies within no
/// range, so it lies outside of every one.
pub open spec fn outside(bits: u32, low: u32, high: u32) -> bool {
    is_nan(bits) || less_than(bits, low) || less_than(high, bits)
}

/// A binary32 number: its bits, and the text that shows it in a message.
#[derive(Debug, Clone)]
pub struct Binary32 {
    /// The 32 bits that encode the number.
    pub bits: u32,
    /// The number written out, as messages about it show it.
    pub shown: String,
}

fn key_of(bits: u32) -> (r: i64)
    ensures
        r == order_key(bits),
{
    if bits >= SIGN_BIT {
        -((bits - SIGN_BIT) as i64)
    } else {
        bits as i64
    }
}

fn nan(bits: u32) -> (r: bool)
    ensures
        r == is_nan(bits),
{
    if bits >= SIGN_BIT {
        bits - SIGN_BIT > INFINITY
    } else {
        bits > INFINITY
    }
}

fn less(a: u32, b: u32) -> (r: bool)
    ensures
        r == less_than(a, b),
{
    !nan(a) && !nan(b) && key_of(a) < key_of(b)
}

impl Binary32 {
    /// The number with the given bits, shown as `shown`.
    pub fn new(bits: u32, shown: String) -> (r: Self)
        ensures
            r.bits == bits,
            r.shown@ == shown@,
    {
        Binary32 { bits, shown }
    }

    /// Tells whether the number lies below `low` or above `high`, or is no
    /// number at all.
    pub fn is_outside(&self, low: u32, high: u32) -> (r: bool)
        ensures
            r == outside(self.bits, low, high),
    {
        nan(self.bits) || less(self.bits, low) || less(high, self.bits)
    }
}

/// The bits encode a number that is neither a NaN nor an infinity.
pub open spec fn is_finite(bits: u32) -> bool {
    magnitude(bits) < INFINITY
}

/// How far from zero the number with the magnitude bits `m` lies, counted in
/// steps of 2^-149, the smallest step between two numbers of the format. The
/// upper 8 bits of `m` are the exponent `e`, the lower 23 the fraction `f`.
/// With `e` = 0 the number is `f` steps from zero; with any other `e` it is
/// (2^23 + `f`) * 2^(`e` - 1) steps from zero.
pub open spec fn steps(m: int) -> int {
    let e = m / 0x80_0000;
    let f = m % 0x80_0000;
    if e == 0 {
        f
    } else {
        (0x80_0000 + f) * pow2((e - 1) as nat)
    }
}

/// The finite number that `bits` encode, counted in steps of 2^-149: what
/// the magnitude gives, with the sign that the sign bit gives.
pub open spec fn value(bits: u32) -> int {
    if bits >= SIGN_BIT {
        -steps(magnitude(bits))
    } else {
        steps(magnitude(bits))
    }
}

/// A larger magnitude lies further from zero.
pub proof fn lemma_steps_increase(m1: int, m2: int)
    requires
        0 <= m1 < m2 < INFINITY,
    ensures
        0 <= steps(m1) < steps(m2),
{
    let e1 = m1 / 0x80_0000;
    let f1 = m1 % 0x80_0000;
    let e2 = m2 / 0x80_0000;
    let f2 = m2 % 0x80_0000;
    if e1 >= 1 {
        lemma_pow2_pos((e1 - 1) as nat);
        assert(0 <= (0x80_0000 + f1) * pow2((e1 - 1) as nat)) by (nonlinear_arith)
            requires
                0 <= f1,
                0 < pow2((e1 - 1) as nat),
        ;
    }
    if e1 == e2 {
        if e1 >= 1 {
            let p = pow2((e1 - 1) as nat);
            assert((0x80_0000 + f1) * p < (0x80_0000 + f2) * p) by (nonlinear_arith)
                requires
                    f1 < f2,
                    0 < p,
            ;
        }
    } else {
        let upper = pow2((e2 - 1) as nat);
        lemma_pow2_pos((e2 - 1) as nat);
        assert(0x80_0000 * upper <= (0x80_0000 + f2) * upper) by (nonlinear_arith)
            requires
                0 <= f2,
                0 < upper,
        ;
        if e1 == 0 {
            assert(0x80_0000 * 1 <= 0x80_0000 * upper) by (nonlinear_arith)
                requires
                    1 <= upper,
            ;
        } else {
            let lower = pow2((e1 - 1) as nat);
            lemma_pow2_unfold(e1 as nat);
            if e1 < e2 - 1 {
                lemma_pow2_strictly_increases(e1 as nat, (e2 - 1) as nat);
            }
            assert((0x80_0000 + f1) * lower < 0x80_0000 * upper) by (nonlinear_arith)
                requires
                    0 <= f1 < 0x80_0000,
                    0 < lower,
                    2 * lower <= upper,
            ;
        }
    }
}

/// The magnitude 0 alone lies no step from zero.
pub proof fn lemma_steps_zero(m: int)
    requires
        0 <= m < INFINITY,
    ensures
        steps(m) >= 0,
        steps(m) == 0 <==> m == 0,
{
    if m > 0 {
        lemma_steps_increase(0, m);
    }
}

/// The bit patterns of finite numbers are ordered as the numbers themselves:
/// `less_than` holds of two of them just where the number of the first is
/// the smaller one.
pub proof fn law_order_of_finite_numbers(a: u32, b: u32)
    requires
        is_finite(a),
        is_finite(b),
    ensures
        less_than(a, b) <==> value(a) < value(b),
{
    let ma = magnitude(a);
    let mb = magnitude(b);
    lemma_steps_zero(ma);
    lemma_steps_zero(mb);
    if ma < mb {
        lemma_steps_increase(ma, mb);
    }
    if mb < ma {
        lemma_steps_increase(mb, ma);
    }
}

/// The bounds of the checks are the numbers 0, 1, 2 and -2: in steps of
/// 2^-149 they are 0, 2^149, 2^150 and -2^150.
pub proof fn law_bounds_are_what_they_say()
    ensures
        value(ZERO) == 0,
        value(ONE) == pow2(149),
        value(TWO) == 2 * pow2(149),
        value(MINUS_TWO) == -2 * pow2(149),
{
    lemma2_to64();
    lemma_pow2_adds(23, 126);
    lemma_pow2_adds(23, 127);
    lemma_pow2_unfold(150);
}

/// A finite number lies outside of a range with finite bounds just where it
/// is less than the lower bound or greater than the upper one. The two
/// infinities lie outside of every such range, and so does every NaN.
pub proof fn law_outside_by_value(bits: u32, low: u32, high: u32)
    requires
        is_finite(low),
        is_finite(high),
    ensures
        is_finite(bits) ==> (outside(bits, low, high) <==> value(bits) < value(low) || value(
            high,
        ) < value(bits)),
        !is_finite(bits) ==> outside(bits, low, high),
{
    if is_finite(bits) {
        law_order_of_finite_numbers(bits, low);
        law_order_of_finite_numbers(high, bits);
    }
}

} // verus!
