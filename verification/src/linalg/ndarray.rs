//! Matrices and vectors whose dimensions are part of their type.
use crate::linalg::model::{
    column, dot, has_shape, lemma_sum_take_next, mat_add, mat_mul, mat_scale, mat_sub, mat_vec,
    products, sum, vec_add, vec_scale, vec_sub, zeros,
};
use crate::scalar::Scalar;
use vstd::prelude::*;
use vstd::std_specs::ops::{AddSpecImpl, MulSpecImpl, SubSpecImpl};

verus! {

/// An index that lies outside the fixed dimensions of a matrix or vector.
#[derive(Clone, Copy, Debug, PartialEq, Eq, Structural)]
pub struct IndexOutOfBounds {
    /// The row that was asked for; the position, for a vector.
    pub row: usize,
    /// The column that was asked for; 0, for a vector.
    pub col: usize,
}

/// A matrix of `M` rows and `N` columns, stored row by row.
#[derive(Copy)]
pub struct Matrix<S, const M: usize, const N: usize> {
    pub data: [[S; N]; M],
}

impl<S: Copy, const M: usize, const N: usize> Clone for Matrix<S, M, N> {
    fn clone(&self) -> (r: Self)
        ensures
            r == *self,
    {
        *self
    }
}

impl<S, const M: usize, const N: usize> View for Matrix<S, M, N> {
    type V = Seq<Seq<S>>;

    /// The rows, top to bottom, each from left to right.
    open spec fn view(&self) -> Seq<Seq<S>> {
        Seq::new(M as nat, |i: int| self.data[i]@)
    }
}

/// A vector of `N` scalars.
#[derive(Copy, Debug)]
pub struct Vector<S, const N: usize> {
    pub data: [S; N],
}

impl<S: Copy, const N: usize> Clone for Vector<S, N> {
    fn clone(&self) -> (r: Self)
        ensures
            r == *self,
    {
        *self
    }
}

impl<S, const N: usize> View for Vector<S, N> {
    type V = Seq<S>;

    /// The entries, first to last.
    open spec fn view(&self) -> Seq<S> {
        self.data@
    }
}

impl<S: Scalar, const N: usize> Vector<S, N> {
    /// The entry at position `i`; in specifications, `v[i]`.
    pub open spec fn spec_index(self, i: int) -> S {
        self@[i]
    }

    /// The vector with the given entries.
    pub open spec fn of(entries: Seq<S>) -> Self {
        choose|v: Self| v@ == entries
    }

    /// There is a vector with any `N` given entries.
    pub proof fn lemma_of_view(entries: Seq<S>)
        requires
            entries.len() == N,
        ensures
            Self::of(entries)@ == entries,
    {
        Self::lemma_exists(entries, N as nat);
    }

    /// Some vector agrees with `entries` in its first `upto` positions.
    proof fn lemma_exists(entries: Seq<S>, upto: nat)
        requires
            entries.len() == N,
            upto <= N,
        ensures
            upto == N ==> exists|v: Self| v@ == entries,
            exists|v: Self| v@.take(upto as int) == entries.take(upto as int),
        decreases upto,
    {
        if upto == 0 {
            let zero = S::spec_zero();
            let v = Vector { data: vstd::array::spec_array_fill_for_copy_type::<S, N>(zero) };
            assert(v@.take(0) =~= entries.take(0));
        } else {
            Self::lemma_exists(entries, (upto - 1) as nat);
            let u = choose|v: Self| v@.take(upto - 1) == entries.take(upto - 1);
            let i = upto - 1;
            let v = Vector { data: vstd::array::spec_array_update(u.data, i, entries[i]) };
            assert forall|k: int| 0 <= k < upto implies v@[k] == entries[k] by {
                if k < i {
                    assert(u@.take(i)[k] == entries.take(i)[k]);
                }
            }
            assert(v@.take(upto as int) =~= entries.take(upto as int));
            if upto == N {
                assert(v@.take(upto as int) =~= v@);
                assert(entries.take(upto as int) =~= entries);
            }
        }
    }

    /// Two vectors with the same entries are the same vector.
    pub proof fn lemma_view_is_injective(a: Self, b: Self)
        requires
            a@ == b@,
        ensures
            a == b,
    {
        assert(a.data =~= b.data);
    }

    /// The vector of zeros.
    pub fn zero() -> (r: Self)
        ensures
            r@ == zeros::<S>(N as nat),
    {
        let r = Vector { data: [S::zero(); N] };
        assert(r@ =~= zeros::<S>(N as nat));
        r
    }

    /// The multiple `s * self`, entry by entry.
    pub fn scale(self, s: S) -> (r: Self)
        ensures
            r@ == vec_scale(s, self@),
    {
        let mut out = self.data;
        let mut i: usize = 0;
        while i < N
            invariant
                i <= N,
                forall|k: int| 0 <= k < i ==> #[trigger] out[k] == s * self.data[k],
            decreases N - i,
        {
            out[i] = s.mul(self.data[i]);
            i += 1;
        }
        let r = Vector { data: out };
        assert(r@ =~= vec_scale(s, self@));
        r
    }

    /// Adds `rhs` to this vector in place.
    pub fn add_assign(&mut self, rhs: Self)
        ensures
            final(self)@ == vec_add(old(self)@, rhs@),
    {
        let mut i: usize = 0;
        while i < N
            invariant
                i <= N,
                forall|k: int|
                    0 <= k < i ==> #[trigger] self.data[k] == old(self).data[k] + rhs.data[k],
                forall|k: int| i <= k < N ==> #[trigger] self.data[k] == old(self).data[k],
            decreases N - i,
        {
            self.data[i] = self.data[i].add(rhs.data[i]);
            i += 1;
        }
        assert(self@ =~= vec_add(old(self)@, rhs@));
    }

    /// Subtracts `rhs` from this vector in place.
    pub fn sub_assign(&mut self, rhs: Self)
        ensures
            final(self)@ == vec_sub(old(self)@, rhs@),
    {
        let mut i: usize = 0;
        while i < N
            invariant
                i <= N,
                forall|k: int|
                    0 <= k < i ==> #[trigger] self.data[k] == old(self).data[k] - rhs.data[k],
                forall|k: int| i <= k < N ==> #[trigger] self.data[k] == old(self).data[k],
            decreases N - i,
        {
            self.data[i] = self.data[i].sub(rhs.data[i]);
            i += 1;
        }
        assert(self@ =~= vec_sub(old(self)@, rhs@));
    }
}

impl<S: Scalar, const N: usize> std::ops::Add<Vector<S, N>> for Vector<S, N> {
    type Output = Vector<S, N>;

    /// The sum `self + rhs`, entry by entry.
    fn add(self, rhs: Vector<S, N>) -> (r: Vector<S, N>)
        ensures
            r@ == vec_add(self@, rhs@),
    {
        let mut out = self;
        out.add_assign(rhs);
        proof {
            Self::lemma_view_is_injective(out, Self::of(vec_add(self@, rhs@)));
        }
        out
    }
}

impl<S: Scalar, const N: usize> AddSpecImpl<Vector<S, N>> for Vector<S, N> {
    open spec fn obeys_add_spec() -> bool {
        true
    }

    open spec fn add_req(self, rhs: Vector<S, N>) -> bool {
        true
    }

    open spec fn add_spec(self, rhs: Vector<S, N>) -> Vector<S, N> {
        Self::of(vec_add(self@, rhs@))
    }
}

impl<S: Scalar, const N: usize> std::ops::Sub<Vector<S, N>> for Vector<S, N> {
    type Output = Vector<S, N>;

    /// The difference `self - rhs`, entry by entry.
    fn sub(self, rhs: Vector<S, N>) -> (r: Vector<S, N>)
        ensures
            r@ == vec_sub(self@, rhs@),
    {
        let mut out = self;
        out.sub_assign(rhs);
        proof {
            Self::lemma_view_is_injective(out, Self::of(vec_sub(self@, rhs@)));
        }
        out
    }
}

impl<S: Scalar, const N: usize> SubSpecImpl<Vector<S, N>> for Vector<S, N> {
    open spec fn obeys_sub_spec() -> bool {
        true
    }

    open spec fn sub_req(self, rhs: Vector<S, N>) -> bool {
        true
    }

    open spec fn sub_spec(self, rhs: Vector<S, N>) -> Vector<S, N> {
        Self::of(vec_sub(self@, rhs@))
    }
}

impl<S: Scalar, const N: usize> Vector<S, N> {
    /// The entry at `index`, or the error when `index` is not below `N`.
    pub fn get(&self, index: usize) -> (r: Result<S, IndexOutOfBounds>)
        ensures
            index < N ==> r == Ok::<S, IndexOutOfBounds>(self@[index as int]),
            index >= N ==> r == Err::<S, IndexOutOfBounds>(
                IndexOutOfBounds { row: index, col: 0 },
            ),
    {
        if index < N {
            Ok(self.data[index])
        } else {
            Err(IndexOutOfBounds { row: index, col: 0 })
        }
    }

    /// Replaces the entry at `index` by `value`. When `index` is not below
    /// `N` the vector stays as it is and the error is returned.
    pub fn set(&mut self, index: usize, value: S) -> (r: Result<(), IndexOutOfBounds>)
        ensures
            index < N ==> r.is_ok() && final(self)@ == old(self)@.update(index as int, value),
            index >= N ==> r == Err::<(), IndexOutOfBounds>(
                IndexOutOfBounds { row: index, col: 0 },
            ) && *final(self) == *old(self),
    {
        if index < N {
            self.data[index] = value;
            Ok(())
        } else {
            Err(IndexOutOfBounds { row: index, col: 0 })
        }
    }
}

impl<S: Scalar, const N: usize> std::ops::Index<usize> for Vector<S, N> {
    type Output = S;

    /// The entry at `index`, which must be below `N`.
    fn index(&self, index: usize) -> (r: &S)
        ensures
            *r == self[index as int],
    {
        &self.data[index]
    }
}

impl<S: Scalar, const N: usize> vstd::std_specs::core::IndexSpecImpl<usize> for Vector<S, N> {
    open spec fn index_req(&self, index: &usize) -> bool {
        *index < N
    }
}

impl<S: Scalar, const M: usize, const N: usize> Matrix<S, M, N> {
    /// The entry in row `at.0` and column `at.1`; in specifications,
    /// `m[(i, j)]`.
    pub open spec fn spec_index(self, at: (int, int)) -> S {
        self@[at.0][at.1]
    }

    /// The matrix with the given rows.
    pub open spec fn of(rows: Seq<Seq<S>>) -> Self {
        choose|m: Self| m@ == rows
    }

    /// There is a matrix with any `M` given rows of `N` entries.
    pub proof fn lemma_of_view(rows: Seq<Seq<S>>)
        requires
            has_shape(rows, M as nat, N as nat),
        ensures
            Self::of(rows)@ == rows,
    {
        Self::lemma_exists(rows, M as nat);
    }

    /// Some matrix agrees with `rows` in its first `upto` rows.
    proof fn lemma_exists(rows: Seq<Seq<S>>, upto: nat)
        requires
            has_shape(rows, M as nat, N as nat),
            upto <= M,
        ensures
            upto == M ==> exists|m: Self| m@ == rows,
            exists|m: Self| m@.take(upto as int) == rows.take(upto as int),
        decreases upto,
    {
        if upto == 0 {
            let zero_row = vstd::array::spec_array_fill_for_copy_type::<S, N>(S::spec_zero());
            let m = Matrix {
                data: vstd::array::spec_array_fill_for_copy_type::<[S; N], M>(zero_row),
            };
            assert(m@.take(0) =~= rows.take(0));
        } else {
            Self::lemma_exists(rows, (upto - 1) as nat);
            let u = choose|m: Self| m@.take(upto - 1) == rows.take(upto - 1);
            let i = upto - 1;
            Vector::<S, N>::lemma_of_view(rows[i]);
            let row = Vector::<S, N>::of(rows[i]);
            let m = Matrix { data: vstd::array::spec_array_update(u.data, i, row.data) };
            assert forall|k: int| 0 <= k < upto implies m@[k] == rows[k] by {
                if k < i {
                    assert(u@.take(i)[k] == rows.take(i)[k]);
                }
            }
            assert(m@.take(upto as int) =~= rows.take(upto as int));
            if upto == M {
                assert(m@.take(upto as int) =~= m@);
                assert(rows.take(upto as int) =~= rows);
            }
        }
    }

    /// Two matrices with the same rows are the same matrix.
    pub proof fn lemma_view_is_injective(a: Self, b: Self)
        requires
            a@ == b@,
        ensures
            a == b,
    {
        assert forall|i: int| 0 <= i < M implies a.data[i] == b.data[i] by {
            assert(a@[i] == b@[i]);
            assert(a.data[i] =~= b.data[i]);
        }
        assert(a.data =~= b.data);
    }

    /// The entry in row `row` and column `col`, or the error when the pair
    /// does not lie within the `M` rows and `N` columns.
    pub fn get(&self, row: usize, col: usize) -> (r: Result<S, IndexOutOfBounds>)
        ensures
            row < M && col < N ==> r == Ok::<S, IndexOutOfBounds>(self@[row as int][col as int]),
            !(row < M && col < N) ==> r == Err::<S, IndexOutOfBounds>(
                IndexOutOfBounds { row, col },
            ),
    {
        if row < M && col < N {
            Ok(self.data[row][col])
        } else {
            Err(IndexOutOfBounds { row, col })
        }
    }

    /// Replaces the entry in row `row` and column `col` by `value`. When the
    /// pair does not lie within the `M` rows and `N` columns the matrix stays
    /// as it is and the error is returned.
    pub fn set(&mut self, row: usize, col: usize, value: S) -> (r: Result<(), IndexOutOfBounds>)
        ensures
            row < M && col < N ==> r.is_ok() && final(self)@ == old(self)@.update(
                row as int,
                old(self)@[row as int].update(col as int, value),
            ),
            !(row < M && col < N) ==> r == Err::<(), IndexOutOfBounds>(
                IndexOutOfBounds { row, col },
            ) && *final(self) == *old(self),
    {
        if row < M && col < N {
            self.data[row][col] = value;
            assert(self@ =~= old(self)@.update(
                row as int,
                old(self)@[row as int].update(col as int, value),
            ));
            Ok(())
        } else {
            Err(IndexOutOfBounds { row, col })
        }
    }

    /// The multiple `s * self`, entry by entry.
    pub fn scale(self, s: S) -> (r: Self)
        ensures
            r@ == mat_scale(s, self@),
    {
        let mut out = self.data;
        let mut i: usize = 0;
        while i < M
            invariant
                i <= M,
                forall|a: int| 0 <= a < i ==> (#[trigger] out[a])@ == vec_scale(s, self.data[a]@),
            decreases M - i,
        {
            let row = Vector { data: self.data[i] }.scale(s);
            out[i] = row.data;
            i += 1;
        }
        let r = Matrix { data: out };
        assert(r@ =~= mat_scale(s, self@));
        r
    }
}

impl<S: Scalar, const M: usize, const N: usize> std::ops::Index<(usize, usize)> for Matrix<S, M, N> {
    type Output = S;

    /// The entry in row `index.0` and column `index.1`, which must lie within
    /// the `M` rows and `N` columns.
    fn index(&self, index: (usize, usize)) -> (r: &S)
        ensures
            *r == self[(index.0 as int, index.1 as int)],
    {
        &self.data[index.0][index.1]
    }
}

impl<S: Scalar, const M: usize, const N: usize> vstd::std_specs::core::IndexSpecImpl<(usize, usize)> for Matrix<S, M, N> {
    open spec fn index_req(&self, index: &(usize, usize)) -> bool {
        index.0 < M && index.1 < N
    }
}

impl<S: Scalar, const M: usize, const N: usize> std::ops::Add<Matrix<S, M, N>> for Matrix<S, M, N> {
    type Output = Matrix<S, M, N>;

    /// The sum `self + rhs`, entry by entry.
    fn add(self, rhs: Matrix<S, M, N>) -> (r: Matrix<S, M, N>)
        ensures
            r@ == mat_add(self@, rhs@),
    {
        let mut out = self.data;
        let mut i: usize = 0;
        while i < M
            invariant
                i <= M,
                forall|a: int|
                    0 <= a < i ==> (#[trigger] out[a])@ == vec_add(self.data[a]@, rhs.data[a]@),
            decreases M - i,
        {
            let row = Vector { data: self.data[i] } + Vector { data: rhs.data[i] };
            out[i] = row.data;
            i += 1;
        }
        let r = Matrix { data: out };
        assert(r@ =~= mat_add(self@, rhs@));
        proof {
            Self::lemma_view_is_injective(r, Self::of(mat_add(self@, rhs@)));
        }
        r
    }
}

impl<S: Scalar, const M: usize, const N: usize> AddSpecImpl<Matrix<S, M, N>> for Matrix<S, M, N> {
    open spec fn obeys_add_spec() -> bool {
        true
    }

    open spec fn add_req(self, rhs: Matrix<S, M, N>) -> bool {
        true
    }

    open spec fn add_spec(self, rhs: Matrix<S, M, N>) -> Matrix<S, M, N> {
        Self::of(mat_add(self@, rhs@))
    }
}

impl<S: Scalar, const M: usize, const N: usize> std::ops::Sub<Matrix<S, M, N>> for Matrix<S, M, N> {
    type Output = Matrix<S, M, N>;

    /// The difference `self - rhs`, entry by entry.
    fn sub(self, rhs: Matrix<S, M, N>) -> (r: Matrix<S, M, N>)
        ensures
            r@ == mat_sub(self@, rhs@),
    {
        let mut out = self.data;
        let mut i: usize = 0;
        while i < M
            invariant
                i <= M,
                forall|a: int|
                    0 <= a < i ==> (#[trigger] out[a])@ == vec_sub(self.data[a]@, rhs.data[a]@),
            decreases M - i,
        {
            let row = Vector { data: self.data[i] } - Vector { data: rhs.data[i] };
            out[i] = row.data;
            i += 1;
        }
        let r = Matrix { data: out };
        assert(r@ =~= mat_sub(self@, rhs@));
        proof {
            Self::lemma_view_is_injective(r, Self::of(mat_sub(self@, rhs@)));
        }
        r
    }
}

impl<S: Scalar, const M: usize, const N: usize> SubSpecImpl<Matrix<S, M, N>> for Matrix<S, M, N> {
    open spec fn obeys_sub_spec() -> bool {
        true
    }

    open spec fn sub_req(self, rhs: Matrix<S, M, N>) -> bool {
        true
    }

    open spec fn sub_spec(self, rhs: Matrix<S, M, N>) -> Matrix<S, M, N> {
        Self::of(mat_sub(self@, rhs@))
    }
}

impl<S: Scalar, const M: usize, const N: usize, const P: usize> std::ops::Mul<Matrix<S, N, P>> for Matrix<S, M, N> {
    type Output = Matrix<S, M, P>;

    /// The matrix product: entry `(i, k)` is the sum over `j`, accumulated
    /// from zero in increasing `j`, of `self[i][j] * rhs[j][k]`.
    fn mul(self, rhs: Matrix<S, N, P>) -> (r: Matrix<S, M, P>)
        ensures
            r@ == mat_mul(self@, rhs@, P as nat),
    {
        let mut output: [[S; P]; M] = [[S::zero(); P]; M];
        let mut i: usize = 0;
        while i < M
            invariant
                i <= M,
                forall|a: int, b: int|
                    0 <= a < i && 0 <= b < P ==> #[trigger] output[a][b] == dot(
                        self@[a],
                        column(rhs@, b),
                    ),
            decreases M - i,
        {
            let mut k: usize = 0;
            while k < P
                invariant
                    i < M,
                    k <= P,
                    forall|a: int, b: int|
                        0 <= a < i && 0 <= b < P ==> #[trigger] output[a][b] == dot(
                            self@[a],
                            column(rhs@, b),
                        ),
                    forall|b: int|
                        0 <= b < k ==> #[trigger] output[i as int][b] == dot(
                            self@[i as int],
                            column(rhs@, b),
                        ),
                decreases P - k,
            {
                let ghost terms = products(self@[i as int], column(rhs@, k as int));
                let mut acc = S::zero();
                let mut j: usize = 0;
                while j < N
                    invariant
                        i < M,
                        k < P,
                        j <= N,
                        terms == products(self@[i as int], column(rhs@, k as int)),
                        acc == sum(terms.take(j as int)),
                    decreases N - j,
                {
                    proof {
                        lemma_sum_take_next(terms, j as int);
                    }
                    acc = acc.add(self.data[i][j].mul(rhs.data[j][k]));
                    j += 1;
                }
                assert(terms.take(N as int) =~= terms);
                output[i][k] = acc;
                k += 1;
            }
            i += 1;
        }
        let r = Matrix { data: output };
        assert forall|a: int| 0 <= a < M implies r@[a] == mat_mul(self@, rhs@, P as nat)[a] by {
            assert(r@[a] =~= mat_mul(self@, rhs@, P as nat)[a]);
        }
        assert(r@ =~= mat_mul(self@, rhs@, P as nat));
        proof {
            Matrix::<S, M, P>::lemma_view_is_injective(
                r,
                Matrix::<S, M, P>::of(mat_mul(self@, rhs@, P as nat)),
            );
        }
        r
    }
}

impl<S: Scalar, const M: usize, const N: usize, const P: usize> MulSpecImpl<Matrix<S, N, P>> for Matrix<S, M, N> {
    open spec fn obeys_mul_spec() -> bool {
        true
    }

    open spec fn mul_req(self, rhs: Matrix<S, N, P>) -> bool {
        true
    }

    open spec fn mul_spec(self, rhs: Matrix<S, N, P>) -> Matrix<S, M, P> {
        Matrix::<S, M, P>::of(mat_mul(self@, rhs@, P as nat))
    }
}

impl<S: Scalar, const M: usize, const N: usize> std::ops::Mul<Vector<S, N>> for Matrix<S, M, N> {
    type Output = Vector<S, M>;

    /// The product with a vector: entry `i` is the sum over `j`, accumulated
    /// from zero in increasing `j`, of `self[i][j] * rhs[j]`.
    fn mul(self, rhs: Vector<S, N>) -> (r: Vector<S, M>)
        ensures
            r@ == mat_vec(self@, rhs@),
    {
        let mut output: [S; M] = [S::zero(); M];
        let mut i: usize = 0;
        while i < M
            invariant
                i <= M,
                forall|a: int| 0 <= a < i ==> #[trigger] output[a] == dot(self@[a], rhs@),
            decreases M - i,
        {
            let ghost terms = products(self@[i as int], rhs@);
            let mut acc = S::zero();
            let mut j: usize = 0;
            while j < N
                invariant
                    i < M,
                    j <= N,
                    terms == products(self@[i as int], rhs@),
                    acc == sum(terms.take(j as int)),
                decreases N - j,
            {
                proof {
                    lemma_sum_take_next(terms, j as int);
                }
                acc = acc.add(self.data[i][j].mul(rhs.data[j]));
                j += 1;
            }
            assert(terms.take(N as int) =~= terms);
            output[i] = acc;
            i += 1;
        }
        let r = Vector { data: output };
        assert(r@ =~= mat_vec(self@, rhs@));
        proof {
            Vector::<S, M>::lemma_view_is_injective(r, Vector::<S, M>::of(mat_vec(self@, rhs@)));
        }
        r
    }
}

impl<S: Scalar, const M: usize, const N: usize> MulSpecImpl<Vector<S, N>> for Matrix<S, M, N> {
    open spec fn obeys_mul_spec() -> bool {
        true
    }

    open spec fn mul_req(self, rhs: Vector<S, N>) -> bool {
        true
    }

    open spec fn mul_spec(self, rhs: Vector<S, N>) -> Vector<S, M> {
        Vector::<S, M>::of(mat_vec(self@, rhs@))
    }
}

} // verus!
