//! Identities of the kernel that hold for scalars with exact arithmetic.
//!
//! Each identity names the laws of the scalar that it rests on as its
//! hypotheses. Where a number type rounds, the two sides of an identity agree
//! only up to rounding.
use crate::linalg::model::{
    column, has_shape, mat_mul, mat_vec, products, sum, vec_add, vec_scale, zeros,
};
use crate::linalg::ndarray::{Matrix, Vector};
use crate::scalar::{
    add_is_associative, add_is_commutative, is_semiring, mul_distributes, zero_is_absorbing,
    zero_is_neutral, Scalar,
};
use vstd::prelude::*;
use vstd::std_specs::ops::{AddSpec, MulSpec};

verus! {

/// Entry `(i, k)` of a matrix product is the sum over `j`, accumulated from
/// zero in increasing `j`, of `a[(i, j)] * b[(j, k)]`.
pub proof fn lemma_product_entry<S: Scalar, const M: usize, const N: usize, const P: usize>(
    a: Matrix<S, M, N>,
    b: Matrix<S, N, P>,
    i: int,
    k: int,
)
    requires
        0 <= i < M,
        0 <= k < P,
    ensures
        a.mul_spec(b)[(i, k)] == sum(Seq::new(N as nat, |j: int| a[(i, j)] * b[(j, k)])),
{
    Matrix::<S, M, P>::lemma_of_view(mat_mul(a@, b@, P as nat));
    assert(products(a@[i], column(b@, k)) =~= Seq::new(N as nat, |j: int| a[(i, j)] * b[(j, k)]));
}

/// Entry `i` of the product of a matrix with a vector is the sum over `j`,
/// accumulated from zero in increasing `j`, of `a[(i, j)] * v[j]`.
pub proof fn lemma_matrix_vector_entry<S: Scalar, const M: usize, const N: usize>(
    a: Matrix<S, M, N>,
    v: Vector<S, N>,
    i: int,
)
    requires
        0 <= i < M,
    ensures
        a.mul_spec(v)[i] == sum(Seq::new(N as nat, |j: int| a[(i, j)] * v[j])),
{
    Vector::<S, M>::lemma_of_view(mat_vec(a@, v@));
    assert(products(a@[i], v@) =~= Seq::new(N as nat, |j: int| a[(i, j)] * v[j]));
}

/// Vector addition is commutative where the addition of scalars is.
pub proof fn lemma_vec_add_commutative<S: Scalar>(a: Seq<S>, b: Seq<S>)
    requires
        a.len() == b.len(),
        add_is_commutative::<S>(),
    ensures
        vec_add(a, b) == vec_add(b, a),
{
    assert(vec_add(a, b) =~= vec_add(b, a));
}

/// Vector addition is associative where the addition of scalars is.
pub proof fn lemma_vec_add_associative<S: Scalar>(a: Seq<S>, b: Seq<S>, c: Seq<S>)
    requires
        a.len() == b.len(),
        b.len() == c.len(),
        add_is_associative::<S>(),
    ensures
        vec_add(vec_add(a, b), c) == vec_add(a, vec_add(b, c)),
{
    assert(vec_add(vec_add(a, b), c) =~= vec_add(a, vec_add(b, c)));
}

/// For vectors of fixed dimension, `a + b` is `b + a` where the addition of
/// scalars is commutative.
pub proof fn lemma_vector_sum_commutes<S: Scalar, const N: usize>(a: Vector<S, N>, b: Vector<S, N>)
    requires
        add_is_commutative::<S>(),
    ensures
        a.add_spec(b) == b.add_spec(a),
{
    lemma_vec_add_commutative(a@, b@);
}

/// For vectors of fixed dimension, `(a + b) + c` is `a + (b + c)` where the
/// addition of scalars is associative.
pub proof fn lemma_vector_sum_associates<S: Scalar, const N: usize>(
    a: Vector<S, N>,
    b: Vector<S, N>,
    c: Vector<S, N>,
)
    requires
        add_is_associative::<S>(),
    ensures
        a.add_spec(b).add_spec(c) == a.add_spec(b.add_spec(c)),
{
    Vector::<S, N>::lemma_of_view(vec_add(a@, b@));
    Vector::<S, N>::lemma_of_view(vec_add(b@, c@));
    lemma_vec_add_associative(a@, b@, c@);
}

/// Entry by entry, `a[i] * s`.
pub open spec fn vec_scale_right<S: Scalar>(a: Seq<S>, s: S) -> Seq<S> {
    Seq::new(a.len(), |i: int| a[i] * s)
}

/// A sum of zeros is zero.
pub proof fn lemma_sum_of_zeros<S: Scalar>(n: nat)
    requires
        zero_is_neutral::<S>(),
    ensures
        sum(zeros::<S>(n)) == S::spec_zero(),
    decreases n,
{
    if n > 0 {
        lemma_sum_of_zeros::<S>((n - 1) as nat);
        assert(zeros::<S>(n).drop_last() =~= zeros::<S>((n - 1) as nat));
    }
}

/// `(a + b) + (c + d)` is `(a + c) + (b + d)`.
proof fn lemma_swap_inner<S: Scalar>(a: S, b: S, c: S, d: S)
    requires
        add_is_commutative::<S>(),
        add_is_associative::<S>(),
    ensures
        (a + b) + (c + d) == (a + c) + (b + d),
{
    assert((a + b) + (c + d) == a + (b + (c + d)));
    assert((b + c) + d == b + (c + d));
    assert(b + c == c + b);
    assert((c + b) + d == c + (b + d));
    assert((a + c) + (b + d) == a + (c + (b + d)));
}

/// The sum of the entrywise sums of two sequences is the sum of their sums.
pub proof fn lemma_sum_of_sums<S: Scalar>(u: Seq<S>, v: Seq<S>)
    requires
        u.len() == v.len(),
        add_is_commutative::<S>(),
        add_is_associative::<S>(),
        zero_is_neutral::<S>(),
    ensures
        sum(vec_add(u, v)) == sum(u) + sum(v),
    decreases u.len(),
{
    if u.len() == 0 {
        assert(S::spec_zero() + S::spec_zero() == S::spec_zero());
    } else {
        lemma_sum_of_sums(u.drop_last(), v.drop_last());
        assert(vec_add(u, v).drop_last() =~= vec_add(u.drop_last(), v.drop_last()));
        lemma_swap_inner(sum(u.drop_last()), sum(v.drop_last()), u.last(), v.last());
    }
}

/// A factor on the left can be taken out of a sum.
pub proof fn lemma_sum_scaled_left<S: Scalar>(c: S, t: Seq<S>)
    requires
        mul_distributes::<S>(),
        zero_is_absorbing::<S>(),
    ensures
        sum(vec_scale(c, t)) == c * sum(t),
    decreases t.len(),
{
    if t.len() == 0 {
        assert(c * S::spec_zero() == S::spec_zero());
    } else {
        lemma_sum_scaled_left(c, t.drop_last());
        assert(vec_scale(c, t).drop_last() =~= vec_scale(c, t.drop_last()));
        assert(c * (sum(t.drop_last()) + t.last()) == c * sum(t.drop_last()) + c * t.last());
    }
}

/// A factor on the right can be taken out of a sum.
pub proof fn lemma_sum_scaled_right<S: Scalar>(t: Seq<S>, c: S)
    requires
        mul_distributes::<S>(),
        zero_is_absorbing::<S>(),
    ensures
        sum(vec_scale_right(t, c)) == sum(t) * c,
    decreases t.len(),
{
    if t.len() == 0 {
        assert(S::spec_zero() * c == S::spec_zero());
    } else {
        lemma_sum_scaled_right(t.drop_last(), c);
        assert(vec_scale_right(t, c).drop_last() =~= vec_scale_right(t.drop_last(), c));
        assert((sum(t.drop_last()) + t.last()) * c == sum(t.drop_last()) * c + t.last() * c);
    }
}

/// The sums of the first `p` entries of each of the first `n` rows of a table.
pub open spec fn row_sums<S: Scalar>(f: spec_fn(int, int) -> S, n: nat, p: nat) -> Seq<S> {
    Seq::new(n, |j: int| sum(Seq::new(p, |k: int| f(j, k))))
}

/// The sums of the first `n` entries of each of the first `p` columns of a
/// table.
pub open spec fn column_sums<S: Scalar>(f: spec_fn(int, int) -> S, n: nat, p: nat) -> Seq<S> {
    Seq::new(p, |k: int| sum(Seq::new(n, |j: int| f(j, k))))
}

/// Adding up a table row by row gives the same as adding it up column by
/// column.
pub proof fn lemma_sum_exchange<S: Scalar>(f: spec_fn(int, int) -> S, n: nat, p: nat)
    requires
        add_is_commutative::<S>(),
        add_is_associative::<S>(),
        zero_is_neutral::<S>(),
    ensures
        sum(row_sums(f, n, p)) == sum(column_sums(f, n, p)),
    decreases n,
{
    if n == 0 {
        lemma_sum_of_zeros::<S>(p);
        assert forall|k: int| 0 <= k < p implies column_sums(f, 0, p)[k] == S::spec_zero() by {
            assert(Seq::new(0, |j: int| f(j, k)).len() == 0);
        }
        assert(column_sums(f, 0, p) =~= zeros::<S>(p));
    } else {
        let m = (n - 1) as nat;
        lemma_sum_exchange(f, m, p);
        let last_row = Seq::new(p, |k: int| f(m as int, k));
        assert(row_sums(f, n, p).drop_last() =~= row_sums(f, m, p));
        assert(row_sums(f, n, p).last() == sum(last_row));
        assert forall|k: int| 0 <= k < p implies column_sums(f, n, p)[k] == column_sums(f, m, p)[k]
            + last_row[k] by {
            let col = Seq::new(n, |j: int| f(j, k));
            assert(col.drop_last() =~= Seq::new(m, |j: int| f(j, k)));
        }
        assert(column_sums(f, n, p) =~= vec_add(column_sums(f, m, p), last_row));
        lemma_sum_of_sums(column_sums(f, m, p), last_row);
    }
}

/// The matrix product is associative for scalars that form a semiring:
/// `(a * b) * c` is `a * (b * c)` for `a` of `m` by `n`, `b` of `n` by `p` and
/// `c` of `p` by `q` entries.
pub proof fn lemma_mat_mul_associative<S: Scalar>(
    a: Seq<Seq<S>>,
    b: Seq<Seq<S>>,
    c: Seq<Seq<S>>,
    m: nat,
    n: nat,
    p: nat,
    q: nat,
)
    requires
        has_shape(a, m, n),
        has_shape(b, n, p),
        has_shape(c, p, q),
        is_semiring::<S>(),
    ensures
        mat_mul(mat_mul(a, b, p), c, q) == mat_mul(a, mat_mul(b, c, q), q),
{
    let ab = mat_mul(a, b, p);
    let bc = mat_mul(b, c, q);
    assert forall|i: int, l: int| 0 <= i < m && 0 <= l < q implies #[trigger] mat_mul(ab, c, q)[i][l]
        == mat_mul(a, bc, q)[i][l] by {
        let f = |j: int, k: int| a[i][j] * (b[j][k] * c[k][l]);
        assert forall|k: int| 0 <= k < p implies #[trigger] products(ab[i], column(c, l))[k]
            == column_sums(f, n, p)[k] by {
            let t = products(a[i], column(b, k));
            lemma_sum_scaled_right(t, c[k][l]);
            assert(vec_scale_right(t, c[k][l]) =~= Seq::new(n, |j: int| f(j, k))) by {
                assert forall|j: int| 0 <= j < n implies #[trigger] vec_scale_right(t, c[k][l])[j]
                    == f(j, k) by {
                    assert((a[i][j] * b[j][k]) * c[k][l] == a[i][j] * (b[j][k] * c[k][l]));
                }
            }
        }
        assert(products(ab[i], column(c, l)) =~= column_sums(f, n, p));
        assert forall|j: int| 0 <= j < n implies #[trigger] products(a[i], column(bc, l))[j]
            == row_sums(f, n, p)[j] by {
            let t = products(b[j], column(c, l));
            lemma_sum_scaled_left(a[i][j], t);
            assert(vec_scale(a[i][j], t) =~= Seq::new(p, |k: int| f(j, k)));
        }
        assert(products(a[i], column(bc, l)) =~= row_sums(f, n, p));
        lemma_sum_exchange(f, n, p);
    }
    assert forall|i: int| 0 <= i < m implies #[trigger] mat_mul(ab, c, q)[i] == mat_mul(a, bc, q)[i] by {
        assert(mat_mul(ab, c, q)[i] =~= mat_mul(a, bc, q)[i]);
    }
    assert(mat_mul(ab, c, q) =~= mat_mul(a, bc, q));
}

/// For matrices of fixed dimensions over a semiring,
/// `(a * b) * c` is `a * (b * c)`.
pub proof fn lemma_matrix_product_associates<
    S: Scalar,
    const M: usize,
    const N: usize,
    const P: usize,
    const Q: usize,
>(a: Matrix<S, M, N>, b: Matrix<S, N, P>, c: Matrix<S, P, Q>)
    requires
        is_semiring::<S>(),
    ensures
        a.mul_spec(b).mul_spec(c) == a.mul_spec(b.mul_spec(c)),
{
    Matrix::<S, M, P>::lemma_of_view(mat_mul(a@, b@, P as nat));
    Matrix::<S, N, Q>::lemma_of_view(mat_mul(b@, c@, Q as nat));
    lemma_mat_mul_associative(a@, b@, c@, M as nat, N as nat, P as nat, Q as nat);
}

} // verus!
