//! One step of the classical Runge-Kutta method of order four.
use crate::diffeq::tableau::{
    coupling, spec_coupling, spec_time_fraction, spec_weight, time_fraction, weight, Fraction,
    STAGES,
};
use crate::linalg::model::{vec_add, vec_scale, zeros};
use crate::linalg::ndarray::Vector;
use crate::scalar::Scalar;
use vstd::prelude::*;

verus! {

/// The scalar that stands for a fraction of the tableau.
pub open spec fn scalar_of<S: Scalar>(f: Fraction) -> S {
    S::spec_ratio(f.num, f.den)
}

/// The entries of each vector of a sequence.
pub open spec fn entries_of<S, const N: usize>(ks: Seq<Vector<S, N>>) -> Seq<Seq<S>> {
    Seq::new(ks.len(), |l: int| ks[l]@)
}

/// The sum `A[j][0] * k[0] + ... + A[j][upto - 1] * k[upto - 1]` of vectors
/// of `n` entries, accumulated from the zero vector in increasing `l`,
/// without the terms whose coefficient is zero.
pub open spec fn coupled_sum<S: Scalar>(j: int, ks: Seq<Seq<S>>, upto: nat, n: nat) -> Seq<S>
    decreases upto,
{
    if upto == 0 {
        zeros(n)
    } else {
        let l = upto - 1;
        let before = coupled_sum(j, ks, l as nat, n);
        if spec_coupling(j, l).num == 0 {
            before
        } else {
            vec_add(before, vec_scale(scalar_of(spec_coupling(j, l)), ks[l]))
        }
    }
}

/// The sum `b[0] * k[0] + ... + b[upto - 1] * k[upto - 1]` of vectors of `n`
/// entries, accumulated from the zero vector in increasing `j`.
pub open spec fn weighted_sum<S: Scalar>(ks: Seq<Seq<S>>, upto: nat, n: nat) -> Seq<S>
    decreases upto,
{
    if upto == 0 {
        zeros(n)
    } else {
        let j = upto - 1;
        vec_add(weighted_sum(ks, j as nat, n), vec_scale(scalar_of(spec_weight(j)), ks[j]))
    }
}

/// The time at which stage `j` samples the derivative: `t + h * c[j]`.
pub open spec fn stage_time<S: Scalar>(t: S, h: S, j: int) -> S {
    t + h * scalar_of(spec_time_fraction(j))
}

/// The state at which stage `j` samples the derivative:
/// `x + h * (A[j][0] * k[0] + ... + A[j][3] * k[3])`.
pub open spec fn stage_state<S: Scalar>(x: Seq<S>, h: S, j: int, ks: Seq<Seq<S>>) -> Seq<S> {
    vec_add(x, vec_scale(h, coupled_sum(j, ks, STAGES as nat, x.len())))
}

/// The state after the step: `x + h * (b[0] * k[0] + ... + b[3] * k[3])`.
pub open spec fn advanced_state<S: Scalar>(x: Seq<S>, h: S, ks: Seq<Seq<S>>) -> Seq<S> {
    vec_add(x, vec_scale(h, weighted_sum(ks, STAGES as nat, x.len())))
}

/// Whether `k` is a value that `fun` may return for stage `j` of a step of
/// size `h` from `(t, x)`, the stages before it having returned `ks`.
pub open spec fn is_stage<S: Scalar, const N: usize, F: Fn(S, Vector<S, N>) -> Vector<S, N>>(
    fun: &F,
    t: S,
    x: Vector<S, N>,
    h: S,
    ks: Seq<Vector<S, N>>,
    j: int,
    k: Vector<S, N>,
) -> bool {
    call_ensures(
        fun,
        (stage_time(t, h, j), Vector::<S, N>::of(stage_state(x@, h, j, entries_of(ks)))),
        k,
    )
}

/// Whether a step of size `h` from `(t, x)` with the derivative function
/// `fun` can lead to the state `x_new`, the four stages having returned `ks`.
pub open spec fn is_step<S: Scalar, const N: usize, F: Fn(S, Vector<S, N>) -> Vector<S, N>>(
    fun: &F,
    t: S,
    x: Vector<S, N>,
    h: S,
    ks: Seq<Vector<S, N>>,
    x_new: Vector<S, N>,
) -> bool {
    &&& ks.len() == STAGES
    &&& forall|j: int| 0 <= j < STAGES ==> #[trigger] is_stage(fun, t, x, h, ks, j, ks[j])
    &&& x_new@ == advanced_state(x@, h, entries_of(ks))
}

/// A stage is coupled to earlier stages only: its sum is the same for two
/// sequences of stage values that agree before `j`.
pub proof fn lemma_coupled_sum_of_earlier_stages<S: Scalar>(
    j: int,
    ks1: Seq<Seq<S>>,
    ks2: Seq<Seq<S>>,
    upto: nat,
    n: nat,
)
    requires
        forall|l: int| 0 <= l < j ==> ks1[l] == ks2[l],
    ensures
        coupled_sum(j, ks1, upto, n) == coupled_sum(j, ks2, upto, n),
    decreases upto,
{
    if upto > 0 {
        lemma_coupled_sum_of_earlier_stages(j, ks1, ks2, (upto - 1) as nat, n);
    }
}

/// The state of an initial-value problem at one point in time.
pub struct RungeKutta4<S, const N: usize> {
    time: S,
    state: Vector<S, N>,
}

impl<S: Scalar, const N: usize> RungeKutta4<S, N> {
    /// The time that the integrator has reached.
    pub closed spec fn spec_time(&self) -> S {
        self.time
    }

    /// The state at that time.
    pub closed spec fn spec_state(&self) -> Vector<S, N> {
        self.state
    }

    /// An integrator that starts at `time` in `initial_state`.
    pub fn new(time: S, initial_state: Vector<S, N>) -> (r: Self)
        ensures
            r.time() == time,
            r.state() == initial_state,
    {
        Self { time, state: initial_state }
    }

    /// The time that the integrator has reached.
    #[verifier::when_used_as_spec(spec_time)]
    pub fn time(&self) -> (r: S)
        ensures
            r == self.time(),
    {
        self.time
    }

    /// The state at that time.
    #[verifier::when_used_as_spec(spec_state)]
    pub fn state(&self) -> (r: Vector<S, N>)
        ensures
            r == self.state(),
    {
        self.state
    }

    /// The value of stage `j` of a step of size `delta_time`: the derivative at
    /// the time and the state that the tableau prescribes for the stage. `ks`
    /// holds the values of the stages before `j`; its other entries are not
    /// read.
    fn calc_kj<F: Fn(S, Vector<S, N>) -> Vector<S, N>>(
        &self,
        j: usize,
        ks: &[Vector<S, N>; STAGES],
        fun: &F,
        delta_time: S,
    ) -> (k: Vector<S, N>)
        requires
            j < STAGES,
            forall|t: S, x: Vector<S, N>| call_requires(fun, (t, x)),
        ensures
            is_stage(fun, self.time(), self.state(), delta_time, ks@, j as int, k),
    {
        let mut inner_sum: Vector<S, N> = Vector::zero();
        let mut l: usize = 0;
        while l < STAGES
            invariant
                j < STAGES,
                l <= STAGES,
                inner_sum@ == coupled_sum(j as int, entries_of(ks@), l as nat, N as nat),
            decreases STAGES - l,
        {
            let a = coupling(j, l);
            if a.num != 0 {
                inner_sum.add_assign(ks[l].scale(S::from_ratio(a.num, a.den)));
            }
            l += 1;
        }
        let c = time_fraction(j);
        let at_time = self.time.add(delta_time.mul(S::from_ratio(c.num, c.den)));
        let at_state = self.state + inner_sum.scale(delta_time);
        proof {
            Vector::<S, N>::lemma_view_is_injective(
                at_state,
                Vector::<S, N>::of(stage_state(self.state@, delta_time, j as int, entries_of(ks@))),
            );
        }
        fun(at_time, at_state)
    }

    /// Advances time and state by one step of size `delta_time` and returns
    /// the new state. `fun` gives the derivative of the state at a time and
    /// a state; it is called once for each stage, in increasing order of the
    /// stages, and every stage value is kept for the stages after it.
    pub fn next_step<F: Fn(S, Vector<S, N>) -> Vector<S, N>>(
        &mut self,
        fun: &F,
        delta_time: S,
    ) -> (r: &Vector<S, N>)
        requires
            forall|t: S, x: Vector<S, N>| call_requires(fun, (t, x)),
        ensures
            final(self).time() == old(self).time() + delta_time,
            exists|ks: Seq<Vector<S, N>>|
                is_step(
                    fun,
                    old(self).time(),
                    old(self).state(),
                    delta_time,
                    ks,
                    final(self).state(),
                ),
            *r == final(self).state(),
    {
        let mut ks: [Vector<S, N>; STAGES] = [Vector::zero(); STAGES];
        let mut j: usize = 0;
        while j < STAGES
            invariant
                j <= STAGES,
                *self == *old(self),
                forall|t: S, x: Vector<S, N>| call_requires(fun, (t, x)),
                forall|m: int|
                    0 <= m < j ==> #[trigger] is_stage(
                        fun,
                        self.time(),
                        self.state(),
                        delta_time,
                        ks@,
                        m,
                        ks[m],
                    ),
            decreases STAGES - j,
        {
            let k = self.calc_kj(j, &ks, fun, delta_time);
            let ghost before = ks@;
            ks[j] = k;
            proof {
                assert forall|m: int| 0 <= m < j + 1 implies #[trigger] is_stage(
                    fun,
                    self.time(),
                    self.state(),
                    delta_time,
                    ks@,
                    m,
                    ks[m],
                ) by {
                    lemma_coupled_sum_of_earlier_stages(
                        m,
                        entries_of(ks@),
                        entries_of(before),
                        STAGES as nat,
                        N as nat,
                    );
                    if m < j {
                        assert(is_stage(
                            fun,
                            self.time(),
                            self.state(),
                            delta_time,
                            before,
                            m,
                            before[m],
                        ));
                    }
                }
            }
            j += 1;
        }
        let mut sum: Vector<S, N> = Vector::zero();
        let mut j: usize = 0;
        while j < STAGES
            invariant
                j <= STAGES,
                sum@ == weighted_sum(entries_of(ks@), j as nat, N as nat),
            decreases STAGES - j,
        {
            let b = weight(j);
            sum.add_assign(ks[j].scale(S::from_ratio(b.num, b.den)));
            j += 1;
        }
        self.time = self.time.add(delta_time);
        self.state.add_assign(sum.scale(delta_time));
        proof {
            assert(is_step(
                fun,
                old(self).time(),
                old(self).state(),
                delta_time,
                ks@,
                self.state(),
            ));
        }
        &self.state
    }
}

} // verus!
