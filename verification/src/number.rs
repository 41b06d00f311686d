//! Numbers as IEEE 754 binary64 bit patterns.
//!
//! The library holds every number as the 64 bits of its binary64 encoding:
//! the sign in the top bit, below it eleven bits of exponent and fifty-two of
//! fraction. Sign changes and comparisons are decided here, on the bits.
//! Operations that round (arithmetic, square root, reading a decimal literal)
//! are asked of a numeric kernel that the caller supplies.

use vstd::prelude::*;

verus! {

/// The sign bit of a number.
pub const SIGN_BIT: u64 = 0x8000_0000_0000_0000;

/// Positive infinity.
pub const INFINITY_BITS: u64 = 0x7ff0_0000_0000_0000;

/// The not-a-number value that the constant `NaN` of the language holds.
pub const NAN_BITS: u64 = 0x7ff8_0000_0000_0000;

/// The bits of `bits` without the sign.
pub open spec fn magnitude(bits: u64) -> u64 {
    if bits >= SIGN_BIT {
        (bits - SIGN_BIT) as u64
    } else {
        bits
    }
}

/// Whether the sign bit is set.
pub open spec fn negative(bits: u64) -> bool {
    bits >= SIGN_BIT
}

/// Whether `bits` encodes a not-a-number value: all exponent bits set and a
/// fraction that is not zero.
pub open spec fn nan(bits: u64) -> bool {
    magnitude(bits) > INFINITY_BITS
}

/// An integer that orders the numbers other than not-a-number as their values
/// are ordered: the magnitude for a number without the sign bit, its negation
/// for one with it. Both zeros have rank 0.
pub open spec fn rank(bits: u64) -> int {
    if negative(bits) {
        -(magnitude(bits) as int)
    } else {
        magnitude(bits) as int
    }
}

/// Equality of numbers in the language: two not-a-number values are equal;
/// otherwise two numbers are equal where they have the same value, so that
/// the two zeros are equal and a not-a-number value equals no number.
pub open spec fn num_eq_spec(a: u64, b: u64) -> bool {
    if nan(a) && nan(b) {
        true
    } else {
        !nan(a) && !nan(b) && rank(a) == rank(b)
    }
}

/// `a < b` on numbers: false where either is not a number.
pub open spec fn num_lt_spec(a: u64, b: u64) -> bool {
    !nan(a) && !nan(b) && rank(a) < rank(b)
}

/// `a <= b` on numbers: false where either is not a number.
pub open spec fn num_le_spec(a: u64, b: u64) -> bool {
    !nan(a) && !nan(b) && rank(a) <= rank(b)
}

/// The number with the opposite sign.
pub open spec fn num_neg_spec(bits: u64) -> u64 {
    if bits >= SIGN_BIT {
        (bits - SIGN_BIT) as u64
    } else {
        (bits + SIGN_BIT) as u64
    }
}

/// The number without its sign.
pub open spec fn num_abs_spec(bits: u64) -> u64 {
    magnitude(bits)
}

/// Whether `bits` encodes a not-a-number value.
pub fn is_nan(bits: u64) -> (r: bool)
    ensures
        r == nan(bits),
{
    let m: u64 = if bits >= SIGN_BIT {
        bits - SIGN_BIT
    } else {
        bits
    };
    m > INFINITY_BITS
}

/// Reads the sign and magnitude of a number.
fn sign_magnitude(bits: u64) -> (r: (bool, u64))
    ensures
        r.0 == negative(bits),
        r.1 == magnitude(bits),
        r.1 < SIGN_BIT,
{
    if bits >= SIGN_BIT {
        (true, bits - SIGN_BIT)
    } else {
        (false, bits)
    }
}

/// Equality of numbers, with two not-a-number values equal.
pub fn num_eq(a: u64, b: u64) -> (r: bool)
    ensures
        r == num_eq_spec(a, b),
{
    if is_nan(a) && is_nan(b) {
        true
    } else if is_nan(a) || is_nan(b) {
        false
    } else {
        let (sa, ma) = sign_magnitude(a);
        let (sb, mb) = sign_magnitude(b);
        ma == mb && (sa == sb || ma == 0)
    }
}

/// `a < b` on numbers.
pub fn num_lt(a: u64, b: u64) -> (r: bool)
    ensures
        r == num_lt_spec(a, b),
{
    if is_nan(a) || is_nan(b) {
        false
    } else {
        let (sa, ma) = sign_magnitude(a);
        let (sb, mb) = sign_magnitude(b);
        if sa && sb {
            ma > mb
        } else if sa {
            ma != 0 || mb != 0
        } else if sb {
            false
        } else {
            ma < mb
        }
    }
}

/// `a <= b` on numbers.
pub fn num_le(a: u64, b: u64) -> (r: bool)
    ensures
        r == num_le_spec(a, b),
{
    if is_nan(a) || is_nan(b) {
        false
    } else {
        let (sa, ma) = sign_magnitude(a);
        let (sb, mb) = sign_magnitude(b);
        if sa && sb {
            ma >= mb
        } else if sa {
            true
        } else if sb {
            ma == 0 && mb == 0
        } else {
            ma <= mb
        }
    }
}

/// The number with the opposite sign.
pub fn num_neg(bits: u64) -> (r: u64)
    ensures
        r == num_neg_spec(bits),
{
    if bits >= SIGN_BIT {
        bits - SIGN_BIT
    } else {
        bits + SIGN_BIT
    }
}

/// The number without its sign.
pub fn num_abs(bits: u64) -> (r: u64)
    ensures
        r == num_abs_spec(bits),
{
    if bits >= SIGN_BIT {
        bits - SIGN_BIT
    } else {
        bits
    }
}

/// Equality of numbers is reflexive, not-a-number values included.
pub proof fn law_num_eq_reflexive(a: u64)
    ensures
        num_eq_spec(a, a),
{
}

/// The constant `NaN` is a not-a-number value and equals itself; infinity is
/// a number.
pub proof fn lemma_constants()
    ensures
        nan(NAN_BITS),
        !nan(INFINITY_BITS),
        num_eq_spec(NAN_BITS, NAN_BITS),
{
}

/// An arithmetic operation that rounds its result.
#[derive(Debug, Clone, Copy, PartialEq, Eq, Structural)]
pub enum ArithOp {
    Add,
    Sub,
    Mul,
    Div,
    /// The remainder of a division, with the sign of the dividend.
    Rem,
    /// The first operand raised to the power of the second.
    Pow,
}

/// What the library asks of the numeric kernel.
#[derive(Debug, PartialEq)]
pub enum NumRequest {
    /// The number nearest to the decimal literal with this text.
    Literal(String),
    /// The square root of a number.
    Sqrt(u64),
    /// An arithmetic operation on two numbers.
    Arith(ArithOp, u64, u64),
}

/// The mathematical value of a [`NumRequest`].
pub ghost enum NumRequestView {
    Literal(Seq<char>),
    Sqrt(u64),
    Arith(ArithOp, u64, u64),
}

impl View for NumRequest {
    type V = NumRequestView;

    open spec fn view(&self) -> NumRequestView {
        match self {
            NumRequest::Literal(s) => NumRequestView::Literal(s@),
            NumRequest::Sqrt(a) => NumRequestView::Sqrt(*a),
            NumRequest::Arith(op, a, b) => NumRequestView::Arith(*op, *a, *b),
        }
    }
}

/// A numeric kernel as a mathematical function: the bits of the answer to
/// each request.
pub type KernelModel = spec_fn(NumRequestView) -> u64;

/// What the library needs of a numeric kernel: that it answers every request,
/// and that its answer depends on the request's value alone.
pub open spec fn kernel_ready<K: Fn(NumRequest) -> u64>(kernel: &K) -> bool {
    &&& forall|q: NumRequest| #[trigger] kernel.requires((q,))
    &&& forall|q1: NumRequest, q2: NumRequest, r1: u64, r2: u64|
        q1@ == q2@ && #[trigger] kernel.ensures((q1,), r1) && #[trigger] kernel.ensures((q2,), r2)
            ==> r1 == r2
}

/// Whether `r` is an answer of the kernel to a request of value `v`.
pub open spec fn answers<K: Fn(NumRequest) -> u64>(kernel: &K, v: NumRequestView, r: u64) -> bool {
    exists|q: NumRequest| q@ == v && #[trigger] kernel.ensures((q,), r)
}

/// The function that a kernel computes.
pub open spec fn kernel_model<K: Fn(NumRequest) -> u64>(kernel: &K) -> KernelModel {
    |v: NumRequestView| choose|r: u64| answers(kernel, v, r)
}

/// Asks the kernel.
pub fn ask<K: Fn(NumRequest) -> u64>(kernel: &K, q: NumRequest) -> (r: u64)
    requires
        kernel_ready(kernel),
    ensures
        r == kernel_model(kernel)(q@),
{
    let ghost v = q@;
    let ghost q0 = q;
    let r = kernel(q);
    proof {
        assert(q0@ == v && kernel.ensures((q0,), r));
        assert(answers(kernel, v, r));
        let r2 = choose|r: u64| answers(kernel, v, r);
        let x2 = choose|x: NumRequest| x@ == v && #[trigger] kernel.ensures((x,), r2);
        assert(kernel.ensures((x2,), r2));
    }
    r
}

} // verus!

