use makima_spline::{
    check_grid, column_points, locate, order_key, row_points, sort_points, vec_to_points, Segment,
    SplineError,
};

fn key(v: f64) -> i64 {
    order_key(v.to_bits())
}

#[test]
fn order_key_exact_values() {
    assert_eq!(order_key(1.0f64.to_bits()), 0x3FF0_0000_0000_0000);
    assert_eq!(order_key(0x8000_0000_0000_0001), -1);
    assert_eq!(order_key(0x7FF0_0000_0000_0000), 0x7FF0_0000_0000_0000);
}

#[test]
fn order_key_follows_number_line() {
    let values = [-1.0e300, -2.5, -1.0, -0.5, -1.0e-310, 0.0, 1.0e-310, 0.5, 1.0, 2.5, 1.0e300];
    for w in values.windows(2) {
        assert!(key(w[0]) < key(w[1]), "{} < {}", w[0], w[1]);
    }
}

#[test]
fn order_key_signed_zeros_agree() {
    assert_eq!(key(-0.0), 0);
    assert_eq!(key(0.0), 0);
}

#[test]
fn pairs_positions_with_values() {
    let x = vec![1., 2., 3.];
    let y = vec![3., 5., 2.];
    assert_eq!(vec_to_points(&x, &y), vec![(1., 3.), (2., 5.), (3., 2.)]);
    let none: Vec<f64> = Vec::new();
    assert_eq!(vec_to_points(&none, &none), Vec::<(f64, f64)>::new());
}

fn keyed(points: &[(f64, f64)]) -> Vec<(i64, (f64, f64))> {
    points.iter().map(|&p| (key(p.0), p)).collect()
}

#[test]
fn sorting_refuses_fewer_than_two_points() {
    assert_eq!(sort_points::<(f64, f64)>(Vec::new()), Err(SplineError::InsufficientData));
    assert_eq!(sort_points(keyed(&[(1.0, 2.0)])), Err(SplineError::InsufficientData));
}

#[test]
fn sorting_orders_by_position() {
    let sorted = sort_points(keyed(&[(3., 2.), (1., 3.), (-2., 0.5), (2., 5.)])).unwrap();
    let points: Vec<(f64, f64)> = sorted.into_iter().map(|(_, p)| p).collect();
    assert_eq!(points, vec![(-2., 0.5), (1., 3.), (2., 5.), (3., 2.)]);
}

#[test]
fn sorting_is_stable_on_equal_positions() {
    let sorted = sort_points(vec![(5, 'a'), (1, 'b'), (5, 'c'), (1, 'd'), (3, 'e')]).unwrap();
    assert_eq!(sorted, vec![(1, 'b'), (1, 'd'), (3, 'e'), (5, 'a'), (5, 'c')]);
}

#[test]
fn sorting_ignores_input_order() {
    let a = sort_points(keyed(&[(1., 3.), (2., 5.), (3., 2.), (4., 0.)])).unwrap();
    let b = sort_points(keyed(&[(3., 2.), (4., 0.), (1., 3.), (2., 5.)])).unwrap();
    let c = sort_points(keyed(&[(4., 0.), (3., 2.), (2., 5.), (1., 3.)])).unwrap();
    assert_eq!(a, b);
    assert_eq!(a, c);
}

#[test]
fn locate_edges_extrapolate() {
    let knots = vec![key(1.), key(2.), key(3.)];
    assert_eq!(locate(&knots, key(-5.)), Segment::Before);
    assert_eq!(locate(&knots, key(1.)), Segment::Before);
    assert_eq!(locate(&knots, key(3.)), Segment::After);
    assert_eq!(locate(&knots, key(7.5)), Segment::After);
}

#[test]
fn locate_interior_positions() {
    let xs = [1.0, 2.0, 3.0, 4.0, 5.0, 5.5, 7.0, 8.0, 9.0, 9.5, 10.0];
    let knots: Vec<i64> = xs.iter().map(|&v| key(v)).collect();
    assert_eq!(locate(&knots, key(1.5)), Segment::Within(0));
    assert_eq!(locate(&knots, key(5.2)), Segment::Within(4));
    assert_eq!(locate(&knots, key(9.99)), Segment::Within(9));
    for i in 1..xs.len() - 1 {
        assert_eq!(locate(&knots, key(xs[i])), Segment::Within(i));
    }
}

#[test]
fn locate_single_knot() {
    let knots = vec![key(0.0)];
    assert_eq!(locate(&knots, key(-1.0)), Segment::Before);
    assert_eq!(locate(&knots, key(1.0)), Segment::After);
}

#[test]
fn grid_length_mismatch_is_reported() {
    let x = vec![-1.0, 0.0, 2.0];
    let y = vec![0.0, 1.0];
    let f = vec![5.0, 4.0, 5.0, 1.0, 1.0];
    assert_eq!(
        check_grid(&x, &y, &f),
        Err(SplineError::DimensionMismatch { actual: 5, expected: 6 })
    );
    let empty: Vec<f64> = Vec::new();
    assert_eq!(
        check_grid(&x, &empty, &f),
        Err(SplineError::DimensionMismatch { actual: 5, expected: 0 })
    );
}

#[test]
fn grid_needs_two_rows_and_columns() {
    let x = vec![-1.0, 0.0, 2.0];
    let y = vec![0.0];
    assert_eq!(check_grid(&x, &y, &vec![1.0, 2.0, 3.0]), Err(SplineError::InsufficientData));
}

#[test]
fn grid_of_right_length_passes() {
    let x = vec![-1.0, 0.0, 2.0];
    let y = vec![0.0, 1.0];
    let f = vec![5.0, 4.0, 5.0, 1.0, 1.0, 1.0];
    assert_eq!(check_grid(&x, &y, &f), Ok(()));
}

#[test]
fn grid_rows_and_columns() {
    let x = vec![-1.0, 0.0, 2.0];
    let y = vec![0.0, 1.0];
    let f = vec![5.0, 4.0, 5.0, 1.0, 2.0, 3.0];
    assert_eq!(row_points(&x, &f, 0), vec![(-1.0, 5.0), (0.0, 4.0), (2.0, 5.0)]);
    assert_eq!(row_points(&x, &f, 1), vec![(-1.0, 1.0), (0.0, 2.0), (2.0, 3.0)]);
    assert_eq!(column_points(&y, &f, 3, 0), vec![(0.0, 5.0), (1.0, 1.0)]);
    assert_eq!(column_points(&y, &f, 3, 2), vec![(0.0, 5.0), (1.0, 3.0)]);
}
