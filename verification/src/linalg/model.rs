//! What the kernel computes, stated over sequences of scalars.
//!
//! A vector is modelled by the sequence of its entries, a matrix by the
//! sequence of its rows. Sums are accumulated from zero, one term after the
//! other from the left, which is the order the executable code follows.
use crate::scalar::Scalar;
use vstd::prelude::*;

verus! {

/// The terms added up from the left, starting from zero:
/// `((0 + t0) + t1) + ...`.
pub open spec fn sum<S: Scalar>(terms: Seq<S>) -> S
    decreases terms.len(),
{
    if terms.len() == 0 {
        S::spec_zero()
    } else {
        sum(terms.drop_last()) + terms.last()
    }
}

/// The products `a[j] * b[j]`, one for each position of `a`.
pub open spec fn products<S: Scalar>(a: Seq<S>, b: Seq<S>) -> Seq<S> {
    Seq::new(a.len(), |j: int| a[j] * b[j])
}

/// The inner product of two sequences of equal length.
pub open spec fn dot<S: Scalar>(a: Seq<S>, b: Seq<S>) -> S {
    sum(products(a, b))
}

/// Entry by entry, `a[i] + b[i]`.
pub open spec fn vec_add<S: Scalar>(a: Seq<S>, b: Seq<S>) -> Seq<S> {
    Seq::new(a.len(), |i: int| a[i] + b[i])
}

/// Entry by entry, `a[i] - b[i]`.
pub open spec fn vec_sub<S: Scalar>(a: Seq<S>, b: Seq<S>) -> Seq<S> {
    Seq::new(a.len(), |i: int| a[i] - b[i])
}

/// Entry by entry, `s * a[i]`.
pub open spec fn vec_scale<S: Scalar>(s: S, a: Seq<S>) -> Seq<S> {
    Seq::new(a.len(), |i: int| s * a[i])
}

/// The vector of `n` zeros.
pub open spec fn zeros<S: Scalar>(n: nat) -> Seq<S> {
    Seq::new(n, |i: int| S::spec_zero())
}

/// Whether `m` has `rows` rows of `cols` entries each.
pub open spec fn has_shape<S>(m: Seq<Seq<S>>, rows: nat, cols: nat) -> bool {
    &&& m.len() == rows
    &&& forall|i: int| 0 <= i < rows ==> (#[trigger] m[i]).len() == cols
}

/// Column `k` of a matrix, from the top.
pub open spec fn column<S>(m: Seq<Seq<S>>, k: int) -> Seq<S> {
    Seq::new(m.len(), |j: int| m[j][k])
}

/// Entry by entry, `a[i][j] + b[i][j]`.
pub open spec fn mat_add<S: Scalar>(a: Seq<Seq<S>>, b: Seq<Seq<S>>) -> Seq<Seq<S>> {
    Seq::new(a.len(), |i: int| vec_add(a[i], b[i]))
}

/// Entry by entry, `a[i][j] - b[i][j]`.
pub open spec fn mat_sub<S: Scalar>(a: Seq<Seq<S>>, b: Seq<Seq<S>>) -> Seq<Seq<S>> {
    Seq::new(a.len(), |i: int| vec_sub(a[i], b[i]))
}

/// Entry by entry, `s * a[i][j]`.
pub open spec fn mat_scale<S: Scalar>(s: S, a: Seq<Seq<S>>) -> Seq<Seq<S>> {
    Seq::new(a.len(), |i: int| vec_scale(s, a[i]))
}

/// The product of `a` with a matrix `b` of `cols` columns: entry `(i, k)` is
/// the inner product of row `i` of `a` with column `k` of `b`.
pub open spec fn mat_mul<S: Scalar>(a: Seq<Seq<S>>, b: Seq<Seq<S>>, cols: nat) -> Seq<Seq<S>> {
    Seq::new(a.len(), |i: int| Seq::new(cols, |k: int| dot(a[i], column(b, k))))
}

/// The product of a matrix with a vector: entry `i` is the inner product of
/// row `i` of `a` with `v`.
pub open spec fn mat_vec<S: Scalar>(a: Seq<Seq<S>>, v: Seq<S>) -> Seq<S> {
    Seq::new(a.len(), |i: int| dot(a[i], v))
}

/// Adding one more term to a sum of the first `n` terms gives the sum of the
/// first `n + 1`.
pub proof fn lemma_sum_take_next<S: Scalar>(terms: Seq<S>, n: int)
    requires
        0 <= n < terms.len(),
    ensures
        sum(terms.take(n + 1)) == sum(terms.take(n)) + terms[n],
{
    assert(terms.take(n + 1).drop_last() =~= terms.take(n));
}

} // verus!
