//! Runtime numbers.
//!
//! Every runtime value is a single-precision binary floating-point number,
//! held as its 32-bit pattern: one sign bit, eight exponent bits, twenty-three
//! fraction bits. What can be read off the pattern without rounding (sign,
//! order, zero test, integer part) is computed here. Operations that round
//! are requested from an arithmetic unit, a function value that the caller of
//! the interpreter supplies.

use vstd::prelude::*;
use vstd::arithmetic::power2::*;
use vstd::bits::*;
use crate::text::is_text;

verus! {

/// Pattern of `0.0`.
pub const ZERO: u32 = 0;

/// Pattern of `1.0`.
pub const ONE: u32 = 0x3F80_0000;

/// Pattern of the distance between `1.0` and the next larger number.
pub const EPSILON: u32 = 0x3400_0000;

/// Pattern of the smallest finite number.
pub const LOWEST: u32 = 0xFF7F_FFFF;

/// Pattern of the largest finite number.
pub const HIGHEST: u32 = 0x7F7F_FFFF;

/// A rounding operation on two numbers.
#[derive(Debug, Clone, Copy, PartialEq, Eq, Structural)]
pub enum FloatOp {
    Add,
    Sub,
    Mul,
    Div,
    Rem,
    Max,
    Min,
}

/// A function of one number.
#[derive(Debug, Clone, Copy, PartialEq, Eq, Structural)]
pub enum FloatFn {
    Sqrt,
    Sin,
    Cos,
    Exp,
    Ln,
}

/// A request to the arithmetic unit. The answer is the pattern of the result.
#[derive(Debug, Clone, PartialEq, Eq)]
pub enum FloatCall {
    /// The number nearest to an integer.
    FromInt(i64),
    /// The number that a decimal literal (digits, a point, digits) denotes.
    FromLiteral(String),
    /// A function applied to a number.
    Apply(FloatFn, u32),
    /// An operation applied to a left and a right number.
    Combine(FloatOp, u32, u32),
}

/// Model of [`FloatCall`].
pub enum FloatCallView {
    FromInt(i64),
    FromLiteral(Seq<char>),
    Apply(FloatFn, u32),
    Combine(FloatOp, u32, u32),
}

impl View for FloatCall {
    type V = FloatCallView;

    open spec fn view(&self) -> FloatCallView {
        match *self {
            FloatCall::FromInt(n) => FloatCallView::FromInt(n),
            FloatCall::FromLiteral(t) => FloatCallView::FromLiteral(t@),
            FloatCall::Apply(f, x) => FloatCallView::Apply(f, x),
            FloatCall::Combine(op, l, r) => FloatCallView::Combine(op, l, r),
        }
    }
}

/// A mathematical arithmetic unit: the answer to every request.
pub type FloatModel = spec_fn(FloatCallView) -> u32;

/// The unit accepts every request.
pub open spec fn unit_accepts_all<F: Fn(FloatCall) -> u32>(unit: F) -> bool {
    forall|c: FloatCall| #[trigger] unit.requires((c,))
}

/// Whatever the unit answers is the answer of `model`.
pub open spec fn unit_follows<F: Fn(FloatCall) -> u32>(unit: F, model: FloatModel) -> bool {
    forall|c: FloatCall, r: u32| #[trigger] unit.ensures((c,), r) ==> r == model(c@)
}

/// The pattern without its sign bit.
pub open spec fn magnitude(bits: u32) -> u32 {
    bits & 0x7FFF_FFFF
}

/// The sign bit is set.
pub open spec fn sign_set(bits: u32) -> bool {
    bits & 0x8000_0000 != 0
}

/// The pattern is not a number.
pub open spec fn is_nan(bits: u32) -> bool {
    magnitude(bits) > 0x7F80_0000
}

/// The pattern is `0.0` or `-0.0`.
pub open spec fn is_zero(bits: u32) -> bool {
    magnitude(bits) == 0
}

/// Place of a number in the order of all numbers: patterns of numbers
/// compare as their places do. Both zeros have place 0.
pub open spec fn place(bits: u32) -> int {
    if sign_set(bits) {
        -(magnitude(bits) as int)
    } else {
        magnitude(bits) as int
    }
}

/// `a < b` as numbers. False when either is not a number.
pub open spec fn less(a: u32, b: u32) -> bool {
    !is_nan(a) && !is_nan(b) && place(a) < place(b)
}

/// `a <= b` as numbers. False when either is not a number.
pub open spec fn less_eq(a: u32, b: u32) -> bool {
    !is_nan(a) && !is_nan(b) && place(a) <= place(b)
}

/// `1.0` for true, `0.0` for false.
pub open spec fn truth(b: bool) -> u32 {
    if b {
        ONE
    } else {
        ZERO
    }
}

/// The number with the opposite sign.
pub open spec fn negated(bits: u32) -> u32 {
    bits ^ 0x8000_0000
}

/// The biased exponent field.
pub open spec fn exponent(bits: u32) -> int {
    ((bits >> 23) & 0xFF) as int
}

/// The 24-bit significand of a normal number.
pub open spec fn significand(bits: u32) -> int {
    ((bits & 0x7F_FFFF) | 0x80_0000) as int
}

/// The integer part of a number, kept within the 64-bit signed range; 0 for
/// what is not a number. A normal number is its significand times two to the
/// power of its exponent less 150.
pub open spec fn truncated(bits: u32) -> int {
    let e = exponent(bits);
    if is_nan(bits) || e < 127 {
        0
    } else if e >= 190 {
        if sign_set(bits) {
            i64::MIN as int
        } else {
            i64::MAX as int
        }
    } else {
        let whole = if e >= 150 {
            significand(bits) * pow2((e - 150) as nat)
        } else {
            significand(bits) / (pow2((150 - e) as nat) as int)
        };
        if sign_set(bits) {
            -whole
        } else {
            whole
        }
    }
}

/// Flipping the sign twice gives the number back, and flipping it keeps the
/// magnitude.
pub proof fn lemma_negated(bits: u32)
    ensures
        negated(negated(bits)) == bits,
        magnitude(negated(bits)) == magnitude(bits),
        sign_set(negated(bits)) == !sign_set(bits),
        is_zero(negated(bits)) == is_zero(bits),
        is_nan(negated(bits)) == is_nan(bits),
{
    assert((bits ^ 0x8000_0000) ^ 0x8000_0000 == bits) by (bit_vector);
    assert((bits ^ 0x8000_0000) & 0x7FFF_FFFF == bits & 0x7FFF_FFFF) by (bit_vector);
    assert(((bits ^ 0x8000_0000) & 0x8000_0000 != 0) == !(bits & 0x8000_0000 != 0))
        by (bit_vector);
}

/// The magnitude has no sign, and is the number itself where that has none.
pub proof fn lemma_magnitude(bits: u32)
    ensures
        !sign_set(magnitude(bits)),
        magnitude(magnitude(bits)) == magnitude(bits),
        !sign_set(bits) ==> magnitude(bits) == bits,
        place(magnitude(bits)) >= 0,
{
    assert((bits & 0x7FFF_FFFF) & 0x8000_0000 == 0) by (bit_vector);
    assert((bits & 0x7FFF_FFFF) & 0x7FFF_FFFF == bits & 0x7FFF_FFFF) by (bit_vector);
    assert(bits & 0x8000_0000 == 0 ==> bits & 0x7FFF_FFFF == bits) by (bit_vector);
}

/// `<` on numbers is a strict order, `<=` is `<` or the same place, and two
/// numbers always compare one way or the other.
pub proof fn lemma_order(a: u32, b: u32, c: u32)
    ensures
        !less(a, a),
        less(a, b) ==> !less(b, a),
        less(a, b) && less(b, c) ==> less(a, c),
        less_eq(a, b) <==> less(a, b) || (!is_nan(a) && !is_nan(b) && place(a) == place(b)),
        !is_nan(a) && !is_nan(b) ==> less(a, b) || less_eq(b, a),
        !is_nan(a) ==> less_eq(a, a),
{
}

/// Tests a number for being nonzero; what is not a number counts as nonzero.
pub fn is_truthy(bits: u32) -> (r: bool)
    ensures
        r == !is_zero(bits),
{
    (bits & 0x7FFF_FFFF) != 0
}

/// `1.0` for true, `0.0` for false.
pub fn from_bool(b: bool) -> (r: u32)
    ensures
        r == truth(b),
{
    if b {
        ONE
    } else {
        ZERO
    }
}

/// Flips the sign.
pub fn negate(bits: u32) -> (r: u32)
    ensures
        r == negated(bits),
{
    bits ^ 0x8000_0000
}

/// Clears the sign.
pub fn absolute(bits: u32) -> (r: u32)
    ensures
        r == magnitude(bits),
{
    bits & 0x7FFF_FFFF
}

fn place_of(bits: u32) -> (r: i64)
    ensures
        r == place(bits),
{
    let m: u32 = bits & 0x7FFF_FFFF;
    if (bits & 0x8000_0000) != 0 {
        -(m as i64)
    } else {
        m as i64
    }
}

/// Compares two numbers with `<`.
pub fn is_less(a: u32, b: u32) -> (r: bool)
    ensures
        r == less(a, b),
{
    (a & 0x7FFF_FFFF) <= 0x7F80_0000 && (b & 0x7FFF_FFFF) <= 0x7F80_0000 && place_of(a)
        < place_of(b)
}

/// Compares two numbers with `<=`.
pub fn is_less_eq(a: u32, b: u32) -> (r: bool)
    ensures
        r == less_eq(a, b),
{
    (a & 0x7FFF_FFFF) <= 0x7F80_0000 && (b & 0x7FFF_FFFF) <= 0x7F80_0000 && place_of(a)
        <= place_of(b)
}

/// Converts a number to an integer: toward zero, saturating, 0 for what is
/// not a number.
pub fn to_int(bits: u32) -> (r: i64)
    ensures
        r == truncated(bits),
{
    let mag: u32 = bits & 0x7FFF_FFFF;
    let negative = (bits & 0x8000_0000) != 0;
    let e: u32 = (bits >> 23) & 0xFF;
    if mag > 0x7F80_0000 || e < 127 {
        0
    } else if e >= 190 {
        if negative {
            i64::MIN
        } else {
            i64::MAX
        }
    } else {
        let sig: u64 = ((bits & 0x7F_FFFF) | 0x80_0000) as u64;
        assert(sig < 0x100_0000) by (bit_vector)
            requires
                sig == ((bits & 0x7F_FFFF) | 0x80_0000) as u64,
        ;
        assert(e < 256) by (bit_vector)
            requires
                e == (bits >> 23) & 0xFF,
        ;
        let whole: u64 = if e >= 150 {
            let k: u64 = (e - 150) as u64;
            proof {
                lemma2_to64();
                lemma2_to64_rest();
                if k < 39 {
                    lemma_pow2_strictly_increases(k as nat, 39);
                }
                lemma_pow2_pos(k as nat);
                assert(sig * pow2(k as nat) < 0x100_0000 * pow2(39)) by (nonlinear_arith)
                    requires
                        sig < 0x100_0000,
                        0 < pow2(k as nat) <= pow2(39),
                ;
                lemma_u64_shl_is_mul(sig, k);
            }
            sig << k
        } else {
            let k: u64 = (150 - e) as u64;
            proof {
                lemma_u64_shr_is_div(sig, k);
                lemma_pow2_pos(k as nat);
                assert(sig as int / (pow2(k as nat) as int) <= sig) by (nonlinear_arith)
                    requires
                        0 < pow2(k as nat),
                ;
            }
            sig >> k
        };
        if negative {
            -(whole as i64)
        } else {
            whole as i64
        }
    }
}

/// The built-in function of a name, if it names one.
pub open spec fn builtin(name: Seq<char>) -> Option<FloatFn> {
    if name == "sqrt"@ {
        Some(FloatFn::Sqrt)
    } else if name == "sin"@ {
        Some(FloatFn::Sin)
    } else if name == "cos"@ {
        Some(FloatFn::Cos)
    } else if name == "exp"@ {
        Some(FloatFn::Exp)
    } else if name == "log"@ {
        Some(FloatFn::Ln)
    } else {
        None
    }
}

/// The built-in function of a name, if it names one.
pub fn builtin_of(name: &String) -> (r: Option<FloatFn>)
    ensures
        r == builtin(name@),
{
    if is_text(name, "sqrt") {
        Some(FloatFn::Sqrt)
    } else if is_text(name, "sin") {
        Some(FloatFn::Sin)
    } else if is_text(name, "cos") {
        Some(FloatFn::Cos)
    } else if is_text(name, "exp") {
        Some(FloatFn::Exp)
    } else if is_text(name, "log") {
        Some(FloatFn::Ln)
    } else {
        None
    }
}

} // verus!
