use point::Point;

fn collect_line(src: Point, dest: Point) -> Vec<Point> {
    Point::plot_line(src, dest).collect_points()
}

#[test]
fn new_and_origin() {
    let p = Point::new(3, -7);
    assert_eq!(p.x, 3);
    assert_eq!(p.y, -7);
    assert_eq!(Point::origin(), Point::new(0, 0));
}

#[test]
fn rotate_90_cw_quarter_turns() {
    let p = Point::new(1, 0);
    assert_eq!(p.rotate_90_cw(), Point::new(0, -1));
    assert_eq!(p.rotate_90_cw().rotate_90_cw(), Point::new(-1, 0));
    assert_eq!(p.rotate_90_cw().rotate_90_cw().rotate_90_cw(), Point::new(0, 1));
}

#[test]
fn rotate_cycles_return_the_point() {
    let p = Point::new(3, -7);
    assert_eq!(p.rotate_90_cw().rotate_90_cw().rotate_90_cw().rotate_90_cw(), p);
    assert_eq!(p.rotate_180().rotate_180(), p);
    assert_eq!(p.rotate_90_cw().rotate_90_acw(), p);
    assert_eq!(p.rotate_90_acw().rotate_90_cw(), p);
}

#[test]
fn rotate_in_place_variants() {
    let mut p = Point::new(1, 0);
    p.rotate_90_cw_ip();
    assert_eq!(p, Point::new(0, -1));
    p.rotate_90_acw_ip();
    assert_eq!(p, Point::new(1, 0));
    let mut q = Point::new(2, 1);
    q.rotate_180_ip();
    assert_eq!(q, Point::new(-2, -1));
}

#[test]
fn rotate_90_acw_quarter_turn() {
    let p = Point::new(1, 0);
    assert_eq!(p.rotate_90_acw(), Point::new(0, 1));
}

#[test]
fn rotate_180_flips_both_signs() {
    assert_eq!(Point::new(2, 1).rotate_180(), Point::new(-2, -1));
}

#[test]
fn all_adjacent_order_and_distance() {
    let p = Point::new(0, 0);
    let expected: Vec<Point> = vec![(1, 0), (0, -1), (-1, 0), (0, 1)]
        .into_iter()
        .map(Point::from)
        .collect();
    assert_eq!(p.get_all_adjacent(), expected);
    for q in p.get_all_adjacent() {
        assert_eq!(p.manhattan_dist(q), 1);
    }
}

#[test]
fn all_adjacent_away_from_origin() {
    let p = Point::new(5, -3);
    let adj = p.get_all_adjacent();
    assert_eq!(
        adj,
        vec![
            Point::new(6, -3),
            Point::new(5, -4),
            Point::new(4, -3),
            Point::new(5, -2),
        ]
    );
}

#[test]
fn all_adjacent_diagonal_neighbourhood() {
    let p = Point::new(0, 0);
    let adj = p.get_all_adjacent_diagonal();
    assert_eq!(
        adj,
        vec![
            Point::new(-1, -1),
            Point::new(-1, 0),
            Point::new(-1, 1),
            Point::new(0, -1),
            Point::new(0, 1),
            Point::new(1, -1),
            Point::new(1, 0),
            Point::new(1, 1),
        ]
    );
}

#[test]
fn adjacent_with_bounds() {
    let p = Point::new(0, 0);
    let adj = p.get_adjacent(10, 10);
    assert_eq!(
        adj,
        vec![Some(Point::new(1, 0)), None, None, Some(Point::new(0, 1))]
    );
    let q = Point::new(9, 9);
    let adj_q = q.get_adjacent(10, 10);
    assert_eq!(
        adj_q,
        vec![None, Some(Point::new(9, 8)), Some(Point::new(8, 9)), None]
    );
}

#[test]
fn bounds_check_half_open() {
    assert!(Point::new(4, 5).bounds_check(10, 10));
    assert!(!Point::new(4, 5).bounds_check(4, 10));
    assert!(!Point::new(-4, 5).bounds_check(10, 10));
    assert!(Point::new(0, 0).bounds_check(1, 1));
    assert!(!Point::new(0, 1).bounds_check(1, 1));
}

#[test]
fn dir_maps_unit_points_to_distinct_indices() {
    let p0 = Point::new(0, -1);
    let p1 = Point::new(-1, 0);
    let p2 = Point::new(0, 1);
    let p3 = Point::new(1, 0);
    assert_eq!(p0.dir(), 0);
    assert_eq!(p1.dir(), 1);
    assert_eq!(p2.dir(), 2);
    assert_eq!(p3.dir(), 3);
    let mut seen = vec![p0.dir(), p1.dir(), p2.dir(), p3.dir()];
    seen.sort();
    seen.dedup();
    assert_eq!(seen.len(), 4);
}

#[test]
fn inv_dir_is_two_positions_away() {
    for p in [
        Point::new(0, -1),
        Point::new(-1, 0),
        Point::new(0, 1),
        Point::new(1, 0),
    ] {
        assert_eq!(p.inv_dir(), (p.dir() + 2) % 4);
    }
    assert_eq!(Point::new(0, -1).inv_dir(), 2);
    assert_eq!(Point::new(-1, 0).inv_dir(), 3);
    assert_eq!(Point::new(0, 1).inv_dir(), 0);
    assert_eq!(Point::new(1, 0).inv_dir(), 1);
}

#[test]
fn dist_squared_exact_values() {
    assert_eq!(Point::new(0, 0).dist_squared(Point::new(2, 1)), 5);
    assert_eq!(Point::new(3, 0).dist_squared(Point::new(11, 6)), 100);
    assert_eq!(Point::new(-2, -3).dist_squared(Point::new(1, 1)), 25);
}

#[test]
fn dist_squared_symmetric() {
    let p = Point::new(4, -9);
    let q = Point::new(-13, 2);
    assert_eq!(p.dist_squared(q), q.dist_squared(p));
}

#[test]
fn euclidean_distance_from_dist_squared() {
    let p = Point::new(3, 0);
    let q = Point::new(11, 6);
    let dist = (p.dist_squared(q) as f64).sqrt();
    assert_eq!(dist, 10.0f64);
    let d2 = (dist * dist - p.dist_squared(q) as f64).abs();
    assert!(d2 < 1e-9);
}

#[test]
fn manhattan_dist_exact_values() {
    assert_eq!(Point::new(0, 0).manhattan_dist(Point::new(2, 1)), 3);
    assert_eq!(Point::new(5, 5).manhattan_dist(Point::new(5, 5)), 0);
    assert_eq!(Point::new(-2, 3).manhattan_dist(Point::new(4, -1)), 10);
}

#[test]
fn convert_up_and_down_are_inverses() {
    let converted = Point::convert_up(4, 3);
    assert_eq!(converted, Point::new(1, 1));
    assert_eq!(converted.convert_down(3), 4);
    let width: usize = 7;
    for index in 0..width * 5 {
        assert_eq!(Point::convert_up(index, width).convert_down(width), index);
    }
}

#[test]
fn convert_up_splits_index() {
    let p = Point::convert_up(11, 4);
    assert_eq!(p, Point::new(3, 2));
    assert_eq!(Point::convert_up(0, 9), Point::new(0, 0));
}

#[test]
fn operator_add_sub_neg() {
    let a = Point::new(1, 2);
    let b = Point::new(3, -4);
    assert_eq!(a + b, Point::new(4, -2));
    assert_eq!(a - b, Point::new(-2, 6));
    assert_eq!(-b, Point::new(-3, 4));
}

#[test]
fn operator_div_truncates_toward_zero() {
    assert_eq!(Point::new(7, -7) / 2, Point::new(3, -3));
    assert_eq!(Point::new(9, 10) / 3, Point::new(3, 3));
    assert_eq!(Point::new(-9, 8) / -2, Point::new(4, -4));
}

#[test]
fn tuple_conversions_round_trip() {
    let p = Point::from((1, 0));
    assert_eq!(p, Point::new(1, 0));
    let t: (i32, i32) = Point::new(-5, 9).into();
    assert_eq!(t, (-5, 9));
}

#[test]
fn plot_line_short_diagonal() {
    let pts = collect_line(Point::new(0, 0), Point::new(3, 1));
    assert_eq!(pts.len(), 4);
    assert_eq!(pts[0], Point::new(0, 0));
    assert_eq!(pts[3], Point::new(3, 1));
    for w in pts.windows(2) {
        assert!((w[1].x - w[0].x).abs() <= 1);
        assert!((w[1].y - w[0].y).abs() <= 1);
    }
    assert_eq!(
        pts,
        vec![
            Point::new(0, 0),
            Point::new(1, 0),
            Point::new(2, 1),
            Point::new(3, 1),
        ]
    );
}

#[test]
fn plot_line_single_point() {
    let pts = collect_line(Point::new(0, 0), Point::new(0, 0));
    assert_eq!(pts, vec![Point::new(0, 0)]);
}

#[test]
fn plot_line_axis_aligned() {
    let pts = collect_line(Point::new(0, 0), Point::new(0, 5));
    let expected: Vec<Point> = (0..=5).map(|y| Point::new(0, y)).collect();
    assert_eq!(pts, expected);
    let pts_x = collect_line(Point::new(2, 2), Point::new(6, 2));
    let expected_x: Vec<Point> = (2..=6).map(|x| Point::new(x, 2)).collect();
    assert_eq!(pts_x, expected_x);
}

#[test]
fn plot_line_negative_direction() {
    let pts = collect_line(Point::new(3, 1), Point::new(0, 0));
    assert_eq!(pts.len(), 4);
    assert_eq!(pts[0], Point::new(3, 1));
    assert_eq!(pts[3], Point::new(0, 0));
    for w in pts.windows(2) {
        assert!((w[1].x - w[0].x).abs() <= 1);
        assert!((w[1].y - w[0].y).abs() <= 1);
    }
}

#[test]
fn plot_line_steep_segment() {
    let pts = collect_line(Point::new(-1, -2), Point::new(1, 4));
    assert_eq!(pts[0], Point::new(-1, -2));
    assert_eq!(*pts.last().unwrap(), Point::new(1, 4));
    assert_eq!(pts.len(), 7);
    for w in pts.windows(2) {
        assert!((w[1].x - w[0].x).abs() <= 1);
        assert!((w[1].y - w[0].y).abs() <= 1);
    }
}

#[test]
fn line_iter_reports_none_after_destination() {
    let mut it = Point::plot_line(Point::new(0, 0), Point::new(1, 1));
    let mut count = 0;
    while let Some(_) = it.next() {
        count += 1;
    }
    assert_eq!(count, 2);
    assert_eq!(it.next(), None);
    assert_eq!(it.next(), None);
}

#[test]
fn dir_outside_unit_points_matches_formula() {
    let p = Point::new(2, 3);
    assert_eq!(p.dir(), (2 * 2 + 3 + 1i32).unsigned_abs() as usize);
    let q = Point::new(-4, -1);
    assert_eq!(q.dir(), (2 * -4 + -1 + 1i32).unsigned_abs() as usize);
}

#[test]
fn rotations_at_extreme_coordinates() {
    let p = Point::new(i32::MAX, i32::MIN + 1);
    assert_eq!(p.rotate_180(), Point::new(i32::MIN + 1, i32::MAX));
    assert_eq!(p.rotate_90_cw(), Point::new(i32::MIN + 1, i32::MIN + 1));
    assert_eq!(
        p.rotate_90_cw().rotate_90_cw().rotate_90_cw().rotate_90_cw(),
        p
    );
}

#[test]
fn dist_squared_near_overflow_boundary() {
    assert_eq!(
        Point::new(0, 0).dist_squared(Point::new(46340, 0)),
        2_147_395_600
    );
}

#[test]
fn manhattan_dist_at_extremes() {
    assert_eq!(Point::new(0, 0).manhattan_dist(Point::new(i32::MAX, 0)), i32::MAX);
}

#[test]
fn convert_round_trip_large_index() {
    let width: usize = 1000;
    let index = i32::MAX as usize;
    let p = Point::convert_up(index, width);
    assert_eq!(p, Point::new(647, 2147483));
    assert_eq!(p.convert_down(width), index);
}

#[test]
fn division_at_extreme_coordinates() {
    assert_eq!(Point::new(i32::MIN, 5) / 2, Point::new(i32::MIN / 2, 2));
    assert_eq!(Point::new(i32::MAX, -8) / -1, Point::new(-i32::MAX, 8));
}

#[test]
fn plot_line_long_shallow_segment() {
    let pts = collect_line(Point::new(0, 0), Point::new(1000, 333));
    assert_eq!(pts.len(), 1001);
    assert_eq!(pts[0], Point::new(0, 0));
    assert_eq!(*pts.last().unwrap(), Point::new(1000, 333));
    for w in pts.windows(2) {
        assert!((w[1].x - w[0].x).abs() <= 1);
        assert!((w[1].y - w[0].y).abs() <= 1);
        assert_ne!(w[0], w[1]);
    }
}

#[test]
fn bounds_check_degenerate_limits() {
    assert!(!Point::new(0, 0).bounds_check(0, 5));
    assert!(!Point::new(0, 0).bounds_check(5, 0));
    assert!(!Point::new(2, 2).bounds_check(-3, -3));
}
