//! The number type that the kernel and the integrator compute with.
pub mod wrapping;

use vstd::prelude::*;

verus! {

/// A number type with a zero, addition, subtraction, multiplication and
/// fractions of small whole numbers.
///
/// Every operation is a function of its operands alone: the `spec_*` function
/// beside it names the result, and contracts elsewhere in the crate are stated
/// over these names. In specifications `a + b`, `a - b` and `a * b` on scalars
/// stand for `spec_add`, `spec_sub` and `spec_mul`. Nothing is assumed about
/// how the operations relate to each other; the laws that a proof needs are
/// hypotheses of that proof (see [`is_semiring`]).
///
/// An implementation that is compiled without being verified, such as one for
/// floating-point numbers, defines each `spec_*` function as the operation
/// that it names.
pub trait Scalar: Copy {
    /// The value that `zero` returns.
    spec fn spec_zero() -> Self;

    /// The value that `add` returns.
    spec fn spec_add(self, rhs: Self) -> Self;

    /// The value that `sub` returns.
    spec fn spec_sub(self, rhs: Self) -> Self;

    /// The value that `mul` returns.
    spec fn spec_mul(self, rhs: Self) -> Self;

    /// The value that `from_ratio` returns.
    spec fn spec_ratio(num: u32, den: u32) -> Self;

    /// The additive starting value of every accumulation.
    fn zero() -> (r: Self)
        ensures
            r == Self::spec_zero(),
    ;

    /// The sum of two scalars.
    fn add(self, rhs: Self) -> (r: Self)
        ensures
            r == self + rhs,
    ;

    /// The difference of two scalars.
    fn sub(self, rhs: Self) -> (r: Self)
        ensures
            r == self - rhs,
    ;

    /// The product of two scalars.
    fn mul(self, rhs: Self) -> (r: Self)
        ensures
            r == self * rhs,
    ;

    /// The scalar that stands for the fraction `num / den`, as closely as the
    /// type can hold it.
    fn from_ratio(num: u32, den: u32) -> (r: Self)
        requires
            den > 0,
        ensures
            r == Self::spec_ratio(num, den),
    ;
}

/// Addition gives the same result in either order.
pub open spec fn add_is_commutative<S: Scalar>() -> bool {
    forall|a: S, b: S| #[trigger] (a + b) == b + a
}

/// Addition gives the same result however a sum of three is grouped.
pub open spec fn add_is_associative<S: Scalar>() -> bool {
    forall|a: S, b: S, c: S| #[trigger] ((a + b) + c) == a + (b + c)
}

/// Adding zero on either side changes nothing.
pub open spec fn zero_is_neutral<S: Scalar>() -> bool {
    forall|a: S|
        #![trigger a + S::spec_zero()]
        #![trigger S::spec_zero() + a]
        a + S::spec_zero() == a && S::spec_zero() + a == a
}

/// Multiplying by zero on either side gives zero.
pub open spec fn zero_is_absorbing<S: Scalar>() -> bool {
    forall|a: S|
        #![trigger a * S::spec_zero()]
        #![trigger S::spec_zero() * a]
        a * S::spec_zero() == S::spec_zero() && S::spec_zero() * a == S::spec_zero()
}

/// Multiplication gives the same result however a product of three is grouped.
pub open spec fn mul_is_associative<S: Scalar>() -> bool {
    forall|a: S, b: S, c: S| #[trigger] ((a * b) * c) == a * (b * c)
}

/// Multiplication distributes over addition from both sides.
pub open spec fn mul_distributes<S: Scalar>() -> bool {
    &&& forall|a: S, b: S, c: S| #[trigger] (a * (b + c)) == a * b + a * c
    &&& forall|a: S, b: S, c: S| #[trigger] ((a + b) * c) == a * c + b * c
}

/// The laws of exact arithmetic that the algebraic identities of the kernel
/// rest on: addition is commutative and associative with zero as its neutral
/// element, multiplication is associative, distributes over addition and is
/// absorbed by zero. These are the laws of a semiring but for the unit of
/// multiplication, which the kernel never uses.
pub open spec fn is_semiring<S: Scalar>() -> bool {
    &&& add_is_commutative::<S>()
    &&& add_is_associative::<S>()
    &&& zero_is_neutral::<S>()
    &&& zero_is_absorbing::<S>()
    &&& mul_is_associative::<S>()
    &&& mul_distributes::<S>()
}

} // verus!
