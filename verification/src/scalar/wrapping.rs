//! Whole numbers of 64 bits as scalars.
use crate::scalar::{
    add_is_associative, add_is_commutative, is_semiring, mul_distributes, mul_is_associative,
    zero_is_absorbing, zero_is_neutral,
};
use vstd::arithmetic::div_mod::{
    lemma_add_mod_noop, lemma_mod_bound, lemma_mod_multiples_vanish, lemma_mul_mod_noop_left,
    lemma_mul_mod_noop_right, lemma_small_mod,
};
use vstd::prelude::*;
use vstd::wrapping::i64_specs::signed_crop;

verus! {

/// The whole numbers of 64 bits, with arithmetic that wraps around at the ends
/// of the range: exact as long as no result leaves the range. A fraction is
/// rounded down to a whole number.
impl crate::scalar::Scalar for i64 {
    open spec fn spec_zero() -> Self {
        0i64
    }

    open spec fn spec_add(self, rhs: Self) -> Self {
        self.wrapping_add(rhs)
    }

    open spec fn spec_sub(self, rhs: Self) -> Self {
        self.wrapping_sub(rhs)
    }

    open spec fn spec_mul(self, rhs: Self) -> Self {
        self.wrapping_mul(rhs)
    }

    open spec fn spec_ratio(num: u32, den: u32) -> Self {
        (num as int / den as int) as i64
    }

    fn zero() -> (r: Self) {
        0i64
    }

    fn add(self, rhs: Self) -> (r: Self) {
        self.wrapping_add(rhs)
    }

    fn sub(self, rhs: Self) -> (r: Self) {
        self.wrapping_sub(rhs)
    }

    fn mul(self, rhs: Self) -> (r: Self) {
        self.wrapping_mul(rhs)
    }

    fn from_ratio(num: u32, den: u32) -> (r: Self) {
        (num / den) as i64
    }
}

/// The number of values of 64 bits.
spec fn range() -> int {
    0x1_0000_0000_0000_0000
}

/// Cropping a number to 64 bits leaves its remainder as it is.
proof fn lemma_crop_keeps_remainder(v: int)
    ensures
        (signed_crop(v) as int) % range() == v % range(),
{
    let r = v % range();
    lemma_mod_bound(v, range());
    lemma_small_mod(r as nat, range() as nat);
    if r > i64::MAX {
        lemma_mod_multiples_vanish(-1, r, range());
    }
}

/// The sum of two scalars.
spec fn plus(x: i64, y: i64) -> i64 {
    crate::scalar::Scalar::spec_add(x, y)
}

/// The product of two scalars.
spec fn times(x: i64, y: i64) -> i64 {
    crate::scalar::Scalar::spec_mul(x, y)
}

/// A wrapping sum is the exact sum cropped to 64 bits.
proof fn lemma_sum_is_cropped(x: i64, y: i64)
    ensures
        plus(x, y) == signed_crop(x + y),
{
    let s = x + y;
    if 0 <= s {
        lemma_small_mod(s as nat, range() as nat);
    } else {
        lemma_mod_multiples_vanish(1, s, range());
        lemma_small_mod((s + range()) as nat, range() as nat);
    }
}

/// Cropping a factor before a multiplication does not change the cropped
/// product.
proof fn lemma_product_of_cropped(u: int, v: int)
    ensures
        signed_crop(signed_crop(u) * v) == signed_crop(u * v),
        signed_crop(v * signed_crop(u)) == signed_crop(v * u),
{
    lemma_crop_keeps_remainder(u);
    lemma_mul_mod_noop_left(signed_crop(u) as int, v, range());
    lemma_mul_mod_noop_left(u, v, range());
    lemma_mul_mod_noop_right(v, signed_crop(u) as int, range());
    lemma_mul_mod_noop_right(v, u, range());
}

/// Cropping the terms before an addition does not change the cropped sum.
proof fn lemma_sum_of_cropped(u: int, v: int)
    ensures
        signed_crop(signed_crop(u) + signed_crop(v)) == signed_crop(u + v),
{
    lemma_crop_keeps_remainder(u);
    lemma_crop_keeps_remainder(v);
    lemma_add_mod_noop(signed_crop(u) as int, signed_crop(v) as int, range());
    lemma_add_mod_noop(u, v, range());
}

/// Wrapping multiplication is associative.
proof fn lemma_times_associates(a: i64, b: i64, c: i64)
    ensures
        times(times(a, b), c) == times(a, times(b, c)),
{
    lemma_product_of_cropped(a * b, c as int);
    lemma_product_of_cropped(b * c, a as int);
    assert((a * b) * c == a * (b * c)) by (nonlinear_arith);
}

/// Wrapping multiplication distributes over wrapping addition.
proof fn lemma_times_distributes(a: i64, b: i64, c: i64)
    ensures
        times(a, plus(b, c)) == plus(times(a, b), times(a, c)),
        times(plus(a, b), c) == plus(times(a, c), times(b, c)),
{
    lemma_sum_is_cropped(b, c);
    lemma_product_of_cropped(b + c, a as int);
    lemma_sum_is_cropped(times(a, b), times(a, c));
    lemma_sum_of_cropped(a * b, a * c);
    assert(a * (b + c) == a * b + a * c) by (nonlinear_arith);
    lemma_sum_is_cropped(a, b);
    lemma_product_of_cropped(a + b, c as int);
    lemma_sum_is_cropped(times(a, c), times(b, c));
    lemma_sum_of_cropped(a * c, b * c);
    assert((a + b) * c == a * c + b * c) by (nonlinear_arith);
}

/// Whole numbers of 64 bits with wrapping arithmetic obey the laws of exact
/// arithmetic: they are the whole numbers modulo two to the power of 64.
pub proof fn lemma_wrapping_is_semiring()
    ensures
        is_semiring::<i64>(),
{
    assert(add_is_commutative::<i64>());
    assert(add_is_associative::<i64>());
    assert(zero_is_neutral::<i64>());
    assert(zero_is_absorbing::<i64>()) by {
        assert forall|a: i64| times(a, 0i64) == 0i64 && times(0i64, a) == 0i64 by {
            assert(a * 0 == 0) by (nonlinear_arith);
            assert(0 * a == 0) by (nonlinear_arith);
            lemma_small_mod(0, range() as nat);
        }
    }
    assert(mul_is_associative::<i64>()) by {
        assert forall|a: i64, b: i64, c: i64|
            #[trigger] crate::scalar::Scalar::spec_mul(crate::scalar::Scalar::spec_mul(a, b), c)
                == times(a, times(b, c)) by {
            lemma_times_associates(a, b, c);
        }
    }
    assert(mul_distributes::<i64>()) by {
        assert forall|a: i64, b: i64, c: i64|
            #[trigger] crate::scalar::Scalar::spec_mul(a, crate::scalar::Scalar::spec_add(b, c))
                == plus(times(a, b), times(a, c)) by {
            lemma_times_distributes(a, b, c);
        }
        assert forall|a: i64, b: i64, c: i64|
            #[trigger] crate::scalar::Scalar::spec_mul(crate::scalar::Scalar::spec_add(a, b), c)
                == plus(times(a, c), times(b, c)) by {
            lemma_times_distributes(a, b, c);
        }
    }
}

} // verus!
