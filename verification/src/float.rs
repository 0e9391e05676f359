//! A floating-point number kept as the bit pattern of its `f64`, compared
//! the way `f64` compares.

use core::cmp::Ordering;
use vstd::prelude::*;
use vstd::std_specs::cmp::{PartialEqSpec, PartialEqSpecImpl, PartialOrdSpec, PartialOrdSpecImpl};

verus! {

/// The bit pattern of an `f64` (`f64::to_bits`).
#[derive(Clone, Copy, Debug)]
pub struct F64Bits(pub u64);

/// The magnitude bits: all but the sign.
pub open spec fn magnitude(b: u64) -> u64 {
    b % 0x8000_0000_0000_0000
}

/// Whether the sign bit is set.
pub open spec fn is_negative(b: u64) -> bool {
    b >= 0x8000_0000_0000_0000
}

/// Whether `b` is a NaN: all exponent bits set and a fraction that is not
/// zero.
pub open spec fn is_nan(b: u64) -> bool {
    magnitude(b) > 0x7ff0_0000_0000_0000
}

/// Where `b` stands among the numbers that are not NaN: the magnitude, with
/// the sign; both zeros stand at 0.
pub open spec fn float_rank(b: u64) -> int {
    if is_negative(b) {
        0 - magnitude(b)
    } else {
        0 + magnitude(b)
    }
}

fn magnitude_of(b: u64) -> (m: u64)
    ensures
        m == magnitude(b),
{
    b % 0x8000_0000_0000_0000
}

fn nan(b: u64) -> (r: bool)
    ensures
        r == is_nan(b),
{
    magnitude_of(b) > 0x7ff0_0000_0000_0000
}

/// Whether `a` stands below `b` by `float_rank`.
fn rank_less(a: u64, b: u64) -> (r: bool)
    ensures
        r == (float_rank(a) < float_rank(b)),
{
    let ma = magnitude_of(a);
    let mb = magnitude_of(b);
    let na = a >= 0x8000_0000_0000_0000;
    let nb = b >= 0x8000_0000_0000_0000;
    if na && nb {
        ma > mb
    } else if na {
        !(ma == 0 && mb == 0)
    } else if nb {
        false
    } else {
        ma < mb
    }
}

impl PartialEq for F64Bits {
    fn eq(&self, other: &Self) -> (r: bool) {
        !nan(self.0) && !nan(other.0) && !rank_less(self.0, other.0) && !rank_less(other.0, self.0)
    }
}

impl PartialEqSpecImpl for F64Bits {
    open spec fn obeys_eq_spec() -> bool {
        true
    }

    /// Equal as `f64`s: neither is NaN, and they stand at the same place
    /// (so `0.0 == -0.0`).
    open spec fn eq_spec(&self, other: &F64Bits) -> bool {
        !is_nan(self.0) && !is_nan(other.0) && float_rank(self.0) == float_rank(other.0)
    }
}

impl PartialOrd for F64Bits {
    fn partial_cmp(&self, other: &Self) -> (r: Option<Ordering>) {
        if nan(self.0) || nan(other.0) {
            None
        } else if rank_less(self.0, other.0) {
            Some(Ordering::Less)
        } else if rank_less(other.0, self.0) {
            Some(Ordering::Greater)
        } else {
            Some(Ordering::Equal)
        }
    }
}

impl PartialOrdSpecImpl for F64Bits {
    open spec fn obeys_partial_cmp_spec() -> bool {
        true
    }

    /// Ordered as `f64`s: no order where either is NaN, else by
    /// `float_rank`.
    open spec fn partial_cmp_spec(&self, other: &F64Bits) -> Option<Ordering> {
        if is_nan(self.0) || is_nan(other.0) {
            None
        } else if float_rank(self.0) < float_rank(other.0) {
            Some(Ordering::Less)
        } else if float_rank(other.0) < float_rank(self.0) {
            Some(Ordering::Greater)
        } else {
            Some(Ordering::Equal)
        }
    }
}

/// `f64` equality on bit patterns: two floats are equal exactly when neither
/// is NaN and they have the same bits, or both are zeros (`0.0 == -0.0`).
/// So the sign counts: `1.0 != -1.0`.
pub proof fn lemma_float_eq_bits(a: F64Bits, b: F64Bits)
    ensures
        PartialEqSpec::eq_spec(&a, &b) == (!is_nan(a.0) && !is_nan(b.0) && (a.0 == b.0 || (magnitude(a.0) == 0
            && magnitude(b.0) == 0))),
{
}

/// Equality agrees with the order: two floats are equal exactly when they
/// compare as `Equal`.
pub proof fn lemma_float_eq_is_cmp_equal(a: F64Bits, b: F64Bits)
    ensures
        PartialEqSpec::eq_spec(&a, &b) == (PartialOrdSpec::partial_cmp_spec(&a, &b) == Some(Ordering::Equal)),
{
}

/// The order turns around when the operands do, and NaN is unordered.
pub proof fn lemma_float_cmp_flips(a: F64Bits, b: F64Bits)
    ensures
        (PartialOrdSpec::partial_cmp_spec(&a, &b) == Some(Ordering::Less)) == (PartialOrdSpec::partial_cmp_spec(&b, &a) == Some(
            Ordering::Greater,
        )),
        (PartialOrdSpec::partial_cmp_spec(&a, &b) is None) == (is_nan(a.0) || is_nan(b.0)),
{
}

/// A negative float that is not zero lies below every float whose sign bit is
/// clear; among floats of one sign the order follows the bits, upwards for
/// positive ones and downwards for negative ones.
pub proof fn lemma_float_cmp_by_sign(a: F64Bits, b: F64Bits)
    requires
        !is_nan(a.0),
        !is_nan(b.0),
    ensures
        is_negative(a.0) && magnitude(a.0) != 0 && !is_negative(b.0) ==> PartialOrdSpec::partial_cmp_spec(&a, &b)
            == Some(Ordering::Less),
        !is_negative(a.0) && !is_negative(b.0) && a.0 < b.0 ==> PartialOrdSpec::partial_cmp_spec(&a, &b) == Some(
            Ordering::Less,
        ),
        is_negative(a.0) && is_negative(b.0) && a.0 > b.0 ==> PartialOrdSpec::partial_cmp_spec(&a, &b) == Some(
            Ordering::Less,
        ),
{
}

} // verus!
