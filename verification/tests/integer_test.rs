use csl::diffeq::ivp::RungeKutta4;
use csl::diffeq::tableau::{coupling, time_fraction, weight, Fraction, STAGES};
use csl::linalg::ndarray::{Matrix, Vector};
use csl::plot::layout::{EmptyLayout, Layout, LayoutPriority};
use csl::plot::window::PlotWindowProperties;
use csl::scalar::Scalar;

#[test]
fn integer_matrix_product() {
    let a: Matrix<i64, 4, 4> = Matrix {
        data: [[1, 2, 3, 4], [5, 6, 7, 8], [9, 10, 11, 12], [13, 14, 15, 16]],
    };
    let c = a * a;
    assert_eq!(
        c.data,
        [
            [90, 100, 110, 120],
            [202, 228, 254, 280],
            [314, 356, 398, 440],
            [426, 484, 542, 600],
        ]
    );
}

#[test]
fn integer_non_square_product() {
    let a: Matrix<i64, 2, 3> = Matrix { data: [[3, 2, 1], [1, 0, 2]] };
    let b: Matrix<i64, 3, 2> = Matrix { data: [[1, 2], [0, 1], [4, 0]] };
    assert_eq!((a * b).data, [[7, 8], [9, 2]]);
    assert_eq!((b * a).data, [[5, 2, 5], [1, 0, 2], [12, 8, 4]]);
}

#[test]
fn integer_matrix_times_vector() {
    let a: Matrix<i64, 4, 4> = Matrix {
        data: [[1, 2, 3, 4], [5, 6, 7, 8], [9, 10, 11, 12], [13, 14, 15, 16]],
    };
    let v: Vector<i64, 4> = Vector { data: [1, 2, 3, 4] };
    assert_eq!((a * v).data, [30, 70, 110, 150]);
}

#[test]
fn integer_product_is_associative() {
    let a: Matrix<i64, 2, 3> = Matrix { data: [[3, -2, 1], [1, 0, 2]] };
    let b: Matrix<i64, 3, 2> = Matrix { data: [[1, 2], [0, -1], [4, 0]] };
    let c: Matrix<i64, 2, 4> = Matrix { data: [[1, 2, 3, 4], [-5, 6, -7, 8]] };
    assert_eq!(((a * b) * c).data, (a * (b * c)).data);
    let big: Matrix<i64, 2, 2> = Matrix { data: [[i64::MAX, 3], [i64::MIN, -7]] };
    assert_eq!(((big * big) * big).data, (big * (big * big)).data);
}

#[test]
fn integer_vector_sum_is_commutative_and_associative() {
    let a: Vector<i64, 3> = Vector { data: [i64::MAX, -2, 7] };
    let b: Vector<i64, 3> = Vector { data: [5, i64::MIN, 11] };
    let c: Vector<i64, 3> = Vector { data: [1, -1, 13] };
    assert_eq!((a + b).data, (b + a).data);
    assert_eq!(((a + b) + c).data, (a + (b + c)).data);
    assert_eq!((a + c).data, [i64::MIN, -3, 20]);
}

#[test]
fn integer_scalar_operations() {
    assert_eq!(<i64 as Scalar>::zero(), 0);
    assert_eq!(Scalar::add(2i64, 3), 5);
    assert_eq!(Scalar::sub(2i64, 3), -1);
    assert_eq!(Scalar::mul(-2i64, 3), -6);
    assert_eq!(Scalar::add(i64::MAX, 1), i64::MIN);
    assert_eq!(Scalar::sub(i64::MIN, 1), i64::MAX);
    assert_eq!(Scalar::mul(i64::MAX, 2), -2);
    assert_eq!(<i64 as Scalar>::from_ratio(7, 2), 3);
    assert_eq!(<i64 as Scalar>::from_ratio(1, 6), 0);
    assert_eq!(<i64 as Scalar>::from_ratio(12, 3), 4);
}

#[test]
fn integer_zero_derivative_leaves_the_state_unchanged() {
    let start: Vector<i64, 2> = Vector { data: [41, -7] };
    let mut solver = RungeKutta4::new(0i64, start);
    for step in 1..=20 {
        let x = *solver.next_step(&|_t, _x| Vector { data: [0i64, 0] }, 3);
        assert_eq!(x.data, [41, -7]);
        assert_eq!(solver.time(), 3 * step);
    }
}

#[test]
fn integer_step_with_whole_coefficients_only() {
    // With fractions rounded down only c[3] = 1 and A[3][2] = 1 are left of
    // the tableau: the last stage samples at t + h and x + h * k[2], and no
    // stage has any weight in the step.
    let seen = std::cell::RefCell::new(Vec::new());
    let mut solver = RungeKutta4::new(10i64, Vector { data: [5i64] });
    let x = *solver.next_step(
        &|t: i64, x: Vector<i64, 1>| {
            seen.borrow_mut().push((t, x.data[0]));
            Vector { data: [x.data[0] + 1] }
        },
        2,
    );
    assert_eq!(*seen.borrow(), vec![(10, 5), (10, 5), (10, 5), (12, 17)]);
    assert_eq!(x.data, [5]);
    assert_eq!(solver.time(), 12);
}

#[test]
fn tableau_entries() {
    assert_eq!(STAGES, 4);
    let c: Vec<Fraction> = (0..4).map(time_fraction).collect();
    assert_eq!(
        c,
        vec![
            Fraction { num: 0, den: 1 },
            Fraction { num: 1, den: 2 },
            Fraction { num: 1, den: 2 },
            Fraction { num: 1, den: 1 },
        ]
    );
    let b: Vec<Fraction> = (0..4).map(weight).collect();
    assert_eq!(
        b,
        vec![
            Fraction { num: 1, den: 6 },
            Fraction { num: 1, den: 3 },
            Fraction { num: 1, den: 3 },
            Fraction { num: 1, den: 6 },
        ]
    );
    for j in 0..4 {
        for l in 0..4 {
            let expected = match (j, l) {
                (1, 0) | (2, 1) => Fraction { num: 1, den: 2 },
                (3, 2) => Fraction { num: 1, den: 1 },
                _ => Fraction { num: 0, den: 1 },
            };
            assert_eq!(coupling(j, l), expected);
        }
    }
}

#[test]
fn empty_layout_sizes() {
    let layout = EmptyLayout;
    assert_eq!(layout.calculate_size(None), (0, 0));
    assert_eq!(layout.calculate_size(Some((640, 480))), (0, 0));
    assert_eq!(layout.calculate_abs_size(None), (0, 0));
    assert_eq!(layout.calculate_abs_size(Some((640, 480))), (640, 480));
}

#[test]
fn default_layout_priority_is_maximize() {
    assert!(matches!(LayoutPriority::default(), LayoutPriority::Maximize));
}

#[test]
fn default_window_properties() {
    let properties = PlotWindowProperties::default();
    assert_eq!(properties.width, 300);
    assert_eq!(properties.height, 300);
    assert_eq!(properties.title, "CLS plot window");
    assert!(!properties.resizable);
}
