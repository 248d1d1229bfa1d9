use csl::diffeq::ivp::RungeKutta4;
use csl::linalg::ndarray::Vector;
use csl::scalar::Scalar;
use std::cell::RefCell;

/// Single-precision numbers as scalars of the integrator.
#[derive(Clone, Copy, Debug, PartialEq)]
struct Real(f32);

impl Scalar for Real {
    fn spec_zero() -> Self {
        Real(0.0)
    }

    fn spec_add(self, rhs: Self) -> Self {
        Real(self.0 + rhs.0)
    }

    fn spec_sub(self, rhs: Self) -> Self {
        Real(self.0 - rhs.0)
    }

    fn spec_mul(self, rhs: Self) -> Self {
        Real(self.0 * rhs.0)
    }

    fn spec_ratio(num: u32, den: u32) -> Self {
        Real(num as f32 / den as f32)
    }

    fn zero() -> Self {
        Real(0.0)
    }

    fn add(self, rhs: Self) -> Self {
        Real(self.0 + rhs.0)
    }

    fn sub(self, rhs: Self) -> Self {
        Real(self.0 - rhs.0)
    }

    fn mul(self, rhs: Self) -> Self {
        Real(self.0 * rhs.0)
    }

    fn from_ratio(num: u32, den: u32) -> Self {
        Real(num as f32 / den as f32)
    }
}

fn real_vector<const N: usize>(entries: [f32; N]) -> Vector<Real, N> {
    Vector { data: entries.map(Real) }
}

fn floats<const N: usize>(v: &Vector<Real, N>) -> [f32; N] {
    v.data.map(|r| r.0)
}

/// Newton's law of cooling towards 20 degrees with rate 0.07.
fn cooling(_time: Real, temperature: Vector<Real, 1>) -> Vector<Real, 1> {
    (temperature + real_vector([20.0]).scale(Real(-1.0))).scale(Real(-0.07))
}

const B: [f32; 4] = [1.0 / 6.0, 1.0 / 3.0, 1.0 / 3.0, 1.0 / 6.0];
const C: [f32; 4] = [0.0, 0.5, 0.5, 1.0];
const A: [[f32; 4]; 4] = [
    [0.0, 0.0, 0.0, 0.0],
    [1.0 / 2.0, 0.0, 0.0, 0.0],
    [0.0, 1.0 / 2.0, 0.0, 0.0],
    [0.0, 0.0, 1.0, 0.0],
];

/// Stage `j` of a step written out with plain floats, every earlier stage
/// computed anew.
fn plain_stage<const N: usize>(
    time: f32,
    state: [f32; N],
    j: usize,
    fun: &dyn Fn(f32, [f32; N]) -> [f32; N],
    h: f32,
) -> [f32; N] {
    let mut inner_sum = [0.0f32; N];
    for l in 0..4 {
        if A[j][l] == 0.0 {
            continue;
        }
        let k = plain_stage(time, state, l, fun, h);
        for i in 0..N {
            inner_sum[i] += A[j][l] * k[i];
        }
    }
    let mut at = [0.0f32; N];
    for i in 0..N {
        at[i] = state[i] + h * inner_sum[i];
    }
    fun(time + h * C[j], at)
}

/// A whole step written out with plain floats.
fn plain_step<const N: usize>(
    time: &mut f32,
    state: &mut [f32; N],
    fun: &dyn Fn(f32, [f32; N]) -> [f32; N],
    h: f32,
) {
    let mut sum = [0.0f32; N];
    for j in 0..4 {
        let k = plain_stage(*time, *state, j, fun, h);
        for i in 0..N {
            sum[i] += B[j] * k[i];
        }
    }
    *time += h;
    for i in 0..N {
        state[i] += h * sum[i];
    }
}

#[test]
fn new_integrator_holds_what_it_was_given() {
    let solver = RungeKutta4::new(Real(1.5), real_vector([100.0, -3.0]));
    assert_eq!(solver.time(), Real(1.5));
    assert_eq!(floats(&solver.state()), [100.0, -3.0]);
}

#[test]
fn one_step_of_exponential_decay() {
    // dx/dt = -x from 24 with step 1: the stage values are -24, -12, -18 and
    // -6, their weighted sum is -15, and the new state is 24 * (9 / 24).
    let mut solver = RungeKutta4::new(Real(0.0), real_vector([24.0]));
    let next = *solver.next_step(&|_t, x: Vector<Real, 1>| x.scale(Real(-1.0)), Real(1.0));
    assert_eq!(floats(&next), [9.0]);
    assert_eq!(floats(&solver.state()), [9.0]);
    assert_eq!(solver.time(), Real(1.0));
}

#[test]
fn stages_are_sampled_once_each_in_order() {
    let seen: RefCell<Vec<(f32, f32)>> = RefCell::new(Vec::new());
    let mut solver = RungeKutta4::new(Real(2.0), real_vector([24.0]));
    solver.next_step(
        &|t: Real, x: Vector<Real, 1>| {
            seen.borrow_mut().push((t.0, x.data[0].0));
            x.scale(Real(-1.0))
        },
        Real(1.0),
    );
    assert_eq!(*seen.borrow(), vec![(2.0, 24.0), (2.5, 12.0), (2.5, 18.0), (3.0, 6.0)]);
}

#[test]
fn derivative_that_depends_on_time_only() {
    // dx/dt = t from x(0) = 0: the method integrates a polynomial of this
    // degree exactly, x(t) = t * t / 2.
    let mut solver = RungeKutta4::new(Real(0.0), real_vector([0.0]));
    for step in 1..=8 {
        let x = *solver.next_step(&|t: Real, _x: Vector<Real, 1>| Vector { data: [t] }, Real(0.5));
        let t = 0.5 * step as f32;
        assert_eq!(solver.time(), Real(t));
        assert!((x.data[0].0 - t * t / 2.0).abs() <= 1.0e-5);
    }
}

#[test]
fn zero_derivative_leaves_the_state_unchanged() {
    for h in [0.001f32, 0.1, 1.0, 250.0, -3.5] {
        let mut solver = RungeKutta4::new(Real(0.0), real_vector([100.0, -0.25, 3.0e7]));
        for step in 1..=50 {
            let x = *solver.next_step(&|_t, _x| real_vector([0.0, 0.0, 0.0]), Real(h));
            assert_eq!(floats(&x), [100.0, -0.25, 3.0e7]);
            assert!((solver.time().0 - h * step as f32).abs() <= 1.0e-3 * h.abs() * step as f32);
        }
    }
}

#[test]
fn cooling_follows_the_analytic_solution() {
    let mut solver = RungeKutta4::new(Real(0.0), real_vector([100.0]));
    let delta_time = 0.1f32;
    let mut last = 100.0f32;
    for step in 1..=100 {
        let state = *solver.next_step(&cooling, Real(delta_time));
        let x = state.data[0].0;
        assert!(x < last, "step {step}: {x} is not below {last}");
        assert!(x > 20.0);
        let t = 0.1f64 * step as f64;
        let exact = 20.0 + 80.0 * (-0.07 * t).exp();
        assert!((x as f64 - exact).abs() <= 1.0e-3, "step {step}: {x} against {exact}");
        last = x;
    }
    let exact_end = 20.0 + 80.0 * (-0.7f64).exp();
    assert!((exact_end - 59.7268).abs() <= 1.0e-4);
    assert!((last as f64 - exact_end).abs() <= 1.0e-3);
    assert!((solver.time().0 - 10.0).abs() <= 1.0e-4);
}

#[test]
fn local_error_is_of_fifth_order() {
    // One step of dx/dt = -(x - 2) from x = 3: the error against
    // 2 + exp(-h) shrinks about 32-fold when the step is halved.
    let error = |h: f32| -> f64 {
        let mut solver = RungeKutta4::new(Real(0.0), real_vector([3.0]));
        let x = *solver.next_step(
            &|_t, x: Vector<Real, 1>| (x - real_vector([2.0])).scale(Real(-1.0)),
            Real(h),
        );
        (x.data[0].0 as f64 - (2.0 + (-(h as f64)).exp())).abs()
    };
    let coarse = error(1.0);
    let fine = error(0.5);
    assert!(coarse <= 1.0 / 120.0);
    assert!(fine <= 0.5f64.powi(5) / 120.0);
    assert!(coarse / fine >= 16.0);
}

#[test]
fn agrees_with_the_step_written_out_in_plain_floats() {
    // A pendulum with friction, driven by a force that grows with time.
    let field = |t: f32, x: [f32; 2]| [x[1], -x[0].sin() - 0.3 * x[1] + 0.01 * t];
    let mut time = 0.25f32;
    let mut state = [1.0f32, -0.5];
    let mut solver = RungeKutta4::new(Real(time), real_vector(state));
    for _ in 0..200 {
        plain_step(&mut time, &mut state, &field, 0.05);
        let next = *solver.next_step(
            &|t: Real, x: Vector<Real, 2>| real_vector(field(t.0, floats(&x))),
            Real(0.05),
        );
        assert_eq!(floats(&next), state);
        assert_eq!(solver.time(), Real(time));
    }
}

#[test]
fn cooling_agrees_with_the_step_written_out_in_plain_floats() {
    let field = |_t: f32, x: [f32; 1]| [-0.07 * (x[0] + -1.0 * 20.0)];
    let mut time = 0.0f32;
    let mut state = [100.0f32];
    let mut solver = RungeKutta4::new(Real(0.0), real_vector([100.0]));
    for _ in 0..100 {
        plain_step(&mut time, &mut state, &field, 0.1);
        let next = *solver.next_step(&cooling, Real(0.1));
        assert_eq!(floats(&next), state);
    }
}
