//! The arithmetic that the kernels need from an element type.
use vstd::prelude::*;

verus! {

/// An element type for matrices and vectors: a zero, and the step that adds
/// one product to a running sum (`acc + a * b`, multiply first, then add).
///
/// The two spec functions have defaults so that an impl written without the
/// verifier (a floating-point type, say) need not define them; the kernels'
/// contracts then say nothing of that type's values beyond the shapes.
pub trait Scalar: Copy + Sized {
    /// The zero of the type. Left unspecified unless the impl defines it.
    open spec fn spec_zero() -> Self {
        arbitrary()
    }

    /// `acc + a * b`. Left unspecified unless the impl defines it.
    open spec fn spec_add_product(acc: Self, a: Self, b: Self) -> Self {
        arbitrary()
    }

    fn zero() -> (r: Self)
        ensures
            r == Self::spec_zero(),
    ;

    fn add_product(acc: Self, a: Self, b: Self) -> (r: Self)
        ensures
            r == Self::spec_add_product(acc, a, b),
    ;
}

/// Unsigned 64-bit integers with wrapping arithmetic: the ring of integers
/// modulo 2^64, in which every ring identity of the integers holds.
impl Scalar for u64 {
    open spec fn spec_zero() -> u64 {
        0
    }

    open spec fn spec_add_product(acc: u64, a: u64, b: u64) -> u64 {
        vstd::wrapping::u64_specs::wrapping_add(acc, vstd::wrapping::u64_specs::wrapping_mul(a, b))
    }

    fn zero() -> (r: u64) {
        0
    }

    fn add_product(acc: u64, a: u64, b: u64) -> (r: u64) {
        acc.wrapping_add(a.wrapping_mul(b))
    }
}

} // verus!
