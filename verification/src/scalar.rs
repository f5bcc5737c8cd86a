//! Scalars carried as IEEE 754 bit patterns.
//!
//! The verified kernel performs no floating-point arithmetic.  Every
//! coordinate and every numeric document field is held as the bit pattern
//! of its IEEE 754 encoding, and the facts the kernel needs about such a
//! value (its place in the floating-point ordering, whether it equals a
//! format-defined default) are plain integer functions of the pattern.
use vstd::prelude::*;

verus! {

/// Bit pattern of single-precision 1.0.
pub const F32_ONE: u32 = 0x3F80_0000;

/// Bit pattern of single-precision -1.0.
pub const F32_NEG_ONE: u32 = 0xBF80_0000;

/// Bit pattern of the largest finite single-precision value, the seed of a
/// running minimum over coordinates.
pub const F32_MAX_FINITE: u32 = 0x7F7F_FFFF;

/// Bit pattern of the most negative finite single-precision value, the seed
/// of a running maximum over coordinates.
pub const F32_MIN_FINITE: u32 = 0xFF7F_FFFF;

/// Bit pattern of double-precision +0.0.
pub const F64_ZERO: u64 = 0;

/// Bit pattern of double-precision -0.0.
pub const F64_NEG_ZERO: u64 = 0x8000_0000_0000_0000;

/// Bit pattern of double-precision 1.0.
pub const F64_ONE: u64 = 0x3FF0_0000_0000_0000;

/// Bit pattern of double-precision 0.5.
pub const F64_HALF: u64 = 0x3FE0_0000_0000_0000;

/// Monotone integer key for the IEEE 754 ordering of single-precision bit
/// patterns: patterns with the sign bit set map below the rest in reversed
/// magnitude order, the others keep their magnitude order above them.  On
/// non-NaN values the induced order agrees with the floating-point `<`
/// comparison, except that it puts the negative zero pattern strictly below
/// the positive zero pattern; NaN patterns sort beyond the infinities of
/// their sign.
pub open spec fn f32_order_key(bits: u32) -> u32 {
    if bits >= 0x8000_0000 {
        (0xFFFF_FFFFu32 - bits) as u32
    } else {
        (bits + 0x8000_0000) as u32
    }
}

/// The strict floating-point ordering of two single-precision bit patterns,
/// as induced by [`f32_order_key`].
pub open spec fn f32_lt(a: u32, b: u32) -> bool {
    f32_order_key(a) < f32_order_key(b)
}

/// The smaller of two single-precision bit patterns under [`f32_lt`]; the
/// first argument is kept on ties.
pub open spec fn f32_min_bits(a: u32, b: u32) -> u32 {
    if f32_lt(b, a) {
        b
    } else {
        a
    }
}

/// The larger of two single-precision bit patterns under [`f32_lt`]; the
/// first argument is kept on ties.
pub open spec fn f32_max_bits(a: u32, b: u32) -> u32 {
    if f32_lt(a, b) {
        b
    } else {
        a
    }
}

/// Computes [`f32_order_key`].
pub fn f32_key(bits: u32) -> (r: u32)
    ensures
        r == f32_order_key(bits),
{
    if bits >= 0x8000_0000 {
        0xFFFF_FFFFu32 - bits
    } else {
        bits + 0x8000_0000
    }
}

/// Decides [`f32_lt`].
pub fn f32_less(a: u32, b: u32) -> (r: bool)
    ensures
        r == f32_lt(a, b),
{
    f32_key(a) < f32_key(b)
}

/// True of the two bit patterns that IEEE 754 compares equal to 0.0.
pub open spec fn is_f64_zero(bits: u64) -> bool {
    bits == F64_ZERO || bits == F64_NEG_ZERO
}

/// True of the one bit pattern that IEEE 754 compares equal to 1.0.
pub open spec fn is_f64_one(bits: u64) -> bool {
    bits == F64_ONE
}

/// True of the one bit pattern that IEEE 754 compares equal to 0.5.
pub open spec fn is_f64_half(bits: u64) -> bool {
    bits == F64_HALF
}

/// A double-precision scalar of the document, held as its IEEE 754 bit
/// pattern together with its rendered JSON number text.  The kernel decides
/// defaults on the pattern and the serializer emits the text verbatim; the
/// caller that creates the value renders the text for the pattern.
pub struct Real {
    pub bits: u64,
    pub text: Vec<u8>,
}

impl Real {
    pub fn new(bits: u64, text: Vec<u8>) -> (r: Real)
        ensures
            r.bits == bits,
            r.text == text,
    {
        Real { bits, text }
    }

    /// True when the value equals 0.0 under the floating-point comparison.
    pub fn is_zero(&self) -> (r: bool)
        ensures
            r == is_f64_zero(self.bits),
    {
        self.bits == F64_ZERO || self.bits == F64_NEG_ZERO
    }

    /// True when the value equals 1.0 under the floating-point comparison.
    pub fn is_one(&self) -> (r: bool)
        ensures
            r == is_f64_one(self.bits),
    {
        self.bits == F64_ONE
    }
}

/// A single-precision scalar, held like [`Real`] as bit pattern plus
/// rendered JSON number text.
pub struct Real32 {
    pub bits: u32,
    pub text: Vec<u8>,
}

impl Real32 {
    pub fn new(bits: u32, text: Vec<u8>) -> (r: Real32)
        ensures
            r.bits == bits,
            r.text == text,
    {
        Real32 { bits, text }
    }
}

} // verus!
