//! What holds of every step of the integrator.
use crate::diffeq::ivp::{
    advanced_state, entries_of, is_stage, is_step, lemma_coupled_sum_of_earlier_stages,
    weighted_sum,
};
use crate::diffeq::tableau::STAGES;
use crate::linalg::model::zeros;
use crate::linalg::ndarray::Vector;
use crate::scalar::{zero_is_absorbing, zero_is_neutral, Scalar};
use vstd::prelude::*;

verus! {

/// Whether `fun` returns at most one value for each time and state.
pub open spec fn is_function<S: Scalar, const N: usize, F: Fn(S, Vector<S, N>) -> Vector<S, N>>(
    fun: &F,
) -> bool {
    forall|t: S, x: Vector<S, N>, k1: Vector<S, N>, k2: Vector<S, N>|
        call_ensures(fun, (t, x), k1) && call_ensures(fun, (t, x), k2) ==> k1 == k2
}

/// Whether `fun` is the zero derivative: it returns the zero vector at every
/// time and state.
pub open spec fn is_zero_derivative<
    S: Scalar,
    const N: usize,
    F: Fn(S, Vector<S, N>) -> Vector<S, N>,
>(fun: &F) -> bool {
    forall|t: S, x: Vector<S, N>, k: Vector<S, N>|
        call_ensures(fun, (t, x), k) ==> k@ == zeros::<S>(N as nat)
}

/// Whether `n` steps of size `h` with the derivative function `fun` can lead
/// from `(t0, x0)` to `(t, x)`.
pub open spec fn reaches<S: Scalar, const N: usize, F: Fn(S, Vector<S, N>) -> Vector<S, N>>(
    fun: &F,
    t0: S,
    x0: Vector<S, N>,
    h: S,
    n: nat,
    t: S,
    x: Vector<S, N>,
) -> bool
    decreases n,
{
    if n == 0 {
        t == t0 && x == x0
    } else {
        exists|t_before: S, x_before: Vector<S, N>, ks: Seq<Vector<S, N>>|
            {
                &&& reaches(fun, t0, x0, h, (n - 1) as nat, t_before, x_before)
                &&& #[trigger] is_step(fun, t_before, x_before, h, ks, x)
                &&& t == t_before + h
            }
    }
}

/// The derivative function determines the step: where `fun` returns at most
/// one value for each time and state, two steps of the same size from the
/// same time and state pass through the same stages and end in the same
/// state.
pub proof fn lemma_step_is_determined<
    S: Scalar,
    const N: usize,
    F: Fn(S, Vector<S, N>) -> Vector<S, N>,
>(
    fun: &F,
    t: S,
    x: Vector<S, N>,
    h: S,
    ks1: Seq<Vector<S, N>>,
    x1: Vector<S, N>,
    ks2: Seq<Vector<S, N>>,
    x2: Vector<S, N>,
)
    requires
        is_function(fun),
        is_step(fun, t, x, h, ks1, x1),
        is_step(fun, t, x, h, ks2, x2),
    ensures
        ks1 == ks2,
        x1 == x2,
{
    lemma_stages_are_determined(fun, t, x, h, ks1, ks2, STAGES as nat);
    assert(ks1 =~= ks2);
    Vector::<S, N>::lemma_view_is_injective(x1, x2);
}

/// Two steps from the same time and state agree in their first `upto` stages.
proof fn lemma_stages_are_determined<
    S: Scalar,
    const N: usize,
    F: Fn(S, Vector<S, N>) -> Vector<S, N>,
>(fun: &F, t: S, x: Vector<S, N>, h: S, ks1: Seq<Vector<S, N>>, ks2: Seq<Vector<S, N>>, upto: nat)
    requires
        is_function(fun),
        ks1.len() == STAGES,
        ks2.len() == STAGES,
        forall|j: int| 0 <= j < STAGES ==> #[trigger] is_stage(fun, t, x, h, ks1, j, ks1[j]),
        forall|j: int| 0 <= j < STAGES ==> #[trigger] is_stage(fun, t, x, h, ks2, j, ks2[j]),
        upto <= STAGES,
    ensures
        forall|j: int| 0 <= j < upto ==> ks1[j] == ks2[j],
    decreases upto,
{
    if upto > 0 {
        let j = upto - 1;
        lemma_stages_are_determined(fun, t, x, h, ks1, ks2, j as nat);
        lemma_coupled_sum_of_earlier_stages(
            j,
            entries_of(ks1),
            entries_of(ks2),
            STAGES as nat,
            N as nat,
        );
        assert(is_stage(fun, t, x, h, ks1, j, ks1[j]));
        assert(is_stage(fun, t, x, h, ks2, j, ks2[j]));
    }
}

/// The weighted sum of zero vectors is the zero vector.
proof fn lemma_weighted_sum_of_zeros<S: Scalar>(ks: Seq<Seq<S>>, upto: nat, n: nat)
    requires
        upto <= ks.len(),
        forall|j: int| 0 <= j < ks.len() ==> ks[j] == zeros::<S>(n),
        zero_is_neutral::<S>(),
        zero_is_absorbing::<S>(),
    ensures
        weighted_sum(ks, upto, n) == zeros::<S>(n),
    decreases upto,
{
    if upto > 0 {
        lemma_weighted_sum_of_zeros(ks, (upto - 1) as nat, n);
        assert(weighted_sum(ks, upto, n) =~= zeros::<S>(n));
    }
}

/// A step with the zero derivative leaves the state as it is, whatever the
/// step size, for scalars whose zero is neutral in sums and absorbing in
/// products.
pub proof fn lemma_zero_derivative_step<
    S: Scalar,
    const N: usize,
    F: Fn(S, Vector<S, N>) -> Vector<S, N>,
>(fun: &F, t: S, x: Vector<S, N>, h: S, ks: Seq<Vector<S, N>>, x_new: Vector<S, N>)
    requires
        is_zero_derivative(fun),
        is_step(fun, t, x, h, ks, x_new),
        zero_is_neutral::<S>(),
        zero_is_absorbing::<S>(),
    ensures
        x_new == x,
{
    assert forall|j: int| 0 <= j < STAGES implies entries_of(ks)[j] == zeros::<S>(N as nat) by {
        assert(is_stage(fun, t, x, h, ks, j, ks[j]));
    }
    lemma_weighted_sum_of_zeros(entries_of(ks), STAGES as nat, N as nat);
    assert(advanced_state(x@, h, entries_of(ks)) =~= x@);
    Vector::<S, N>::lemma_view_is_injective(x_new, x);
}

/// Integrating the zero derivative leaves the state as it is, for any number
/// of steps of any size, for scalars whose zero is neutral in sums and
/// absorbing in products.
pub proof fn lemma_zero_derivative_keeps_state<
    S: Scalar,
    const N: usize,
    F: Fn(S, Vector<S, N>) -> Vector<S, N>,
>(fun: &F, t0: S, x0: Vector<S, N>, h: S, n: nat, t: S, x: Vector<S, N>)
    requires
        is_zero_derivative(fun),
        reaches(fun, t0, x0, h, n, t, x),
        zero_is_neutral::<S>(),
        zero_is_absorbing::<S>(),
    ensures
        x == x0,
    decreases n,
{
    if n > 0 {
        let (t_before, x_before, ks) = choose|
            t_before: S,
            x_before: Vector<S, N>,
            ks: Seq<Vector<S, N>>,
        |
            {
                &&& reaches(fun, t0, x0, h, (n - 1) as nat, t_before, x_before)
                &&& #[trigger] is_step(fun, t_before, x_before, h, ks, x)
                &&& t == t_before + h
            };
        lemma_zero_derivative_keeps_state(fun, t0, x0, h, (n - 1) as nat, t_before, x_before);
        lemma_zero_derivative_step(fun, t_before, x_before, h, ks, x);
    }
}

} // verus!
