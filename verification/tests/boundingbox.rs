use geo::algorithm::boundingbox::BoundingBox;
use geo::coordinate;
use geo::types::{Bbox, LineString, Point};

/// The grid coordinate of a binary64 number.
fn grid(v: f64) -> i64 {
    coordinate::from_bits(v.to_bits())
}

/// The binary64 number of a grid coordinate.
fn number(c: i64) -> f64 {
    f64::from_bits(coordinate::to_bits(c))
}

fn line(points: &[(i64, i64)]) -> LineString {
    LineString(points.iter().map(|&(x, y)| Point::new(x, y)).collect())
}

fn corners(b: &Bbox) -> LineString {
    line(&[(b.xmin, b.ymin), (b.xmin, b.ymax), (b.xmax, b.ymax), (b.xmax, b.ymin)])
}

#[test]
fn empty_linestring_test() {
    let vec: Vec<Point> = Vec::new();
    let linestring: LineString = LineString(vec);
    let bbox = linestring.bbox();
    assert!(bbox.is_none());
}

#[test]
fn linestring_one_point_test() {
    let p = Point::new(grid(40.02f64), grid(116.34));
    let mut vect: Vec<Point> = Vec::new();
    vect.push(p);
    let linestring: LineString = LineString(vect);
    let bbox = Bbox {
        xmin: grid(40.02f64),
        ymax: grid(116.34),
        xmax: grid(40.02),
        ymin: grid(116.34),
    };
    assert_eq!(bbox, linestring.bbox().unwrap());
    let found = linestring.bbox().unwrap();
    assert_eq!(number(found.xmin), 40.02f64);
    assert_eq!(number(found.xmax), 40.02f64);
    assert_eq!(number(found.ymin), 116.34f64);
    assert_eq!(number(found.ymax), 116.34f64);
}

#[test]
fn linestring_test() {
    let linestring: LineString = LineString(vec![
        Point::new(grid(1.), grid(1.)),
        Point::new(grid(2.), grid(-2.)),
        Point::new(grid(-3.), grid(-3.)),
        Point::new(grid(-4.), grid(4.)),
    ]);
    let bbox: Bbox = Bbox { xmin: grid(-4.), ymax: grid(4.), xmax: grid(2.), ymin: grid(-3.) };
    assert_eq!(bbox, linestring.bbox().unwrap());
    let found = linestring.bbox().unwrap();
    assert_eq!(number(found.xmin), -4.);
    assert_eq!(number(found.xmax), 2.);
    assert_eq!(number(found.ymin), -3.);
    assert_eq!(number(found.ymax), 4.);
}

#[test]
fn linestring_on_the_grid() {
    let linestring = line(&[(1, 1), (2, -2), (-3, -3), (-4, 4)]);
    let bbox = Bbox { xmin: -4, ymax: 4, xmax: 2, ymin: -3 };
    assert_eq!(Some(bbox), linestring.bbox());
}

#[test]
fn one_point_gives_a_degenerate_box() {
    let linestring = line(&[(7, -9)]);
    assert_eq!(Some(Bbox { xmin: 7, xmax: 7, ymin: -9, ymax: -9 }), linestring.bbox());
}

#[test]
fn three_point_path() {
    let linestring = LineString(vec![
        Point::new(grid(40.02f64), grid(116.34)),
        Point::new(grid(42.02f64), grid(116.34)),
        Point::new(grid(42.02f64), grid(118.34)),
    ]);
    let bbox = linestring.bbox().unwrap();
    assert_eq!(number(bbox.xmin), 40.02);
    assert_eq!(number(bbox.ymax), 118.34);
    assert_eq!(number(bbox.xmax), 42.02);
    assert_eq!(number(bbox.ymin), 116.34);
}

#[test]
fn rising_path_keeps_its_first_point_as_minimum() {
    let linestring = line(&[(1, 1), (2, 2), (3, 3)]);
    assert_eq!(Some(Bbox { xmin: 1, xmax: 3, ymin: 1, ymax: 3 }), linestring.bbox());
}

#[test]
fn falling_path_keeps_its_first_point_as_maximum() {
    let linestring = line(&[(3, 30), (2, 20), (1, 10)]);
    assert_eq!(Some(Bbox { xmin: 1, xmax: 3, ymin: 10, ymax: 30 }), linestring.bbox());
}

#[test]
fn two_points() {
    let expected = Some(Bbox { xmin: -5, xmax: 5, ymin: -6, ymax: 6 });
    assert_eq!(expected, line(&[(5, -6), (-5, 6)]).bbox());
    assert_eq!(expected, line(&[(-5, 6), (5, -6)]).bbox());
}

#[test]
fn each_axis_has_its_own_extremes() {
    let linestring = line(&[(0, 0), (10, 1), (1, 10), (-10, 2), (2, -10)]);
    assert_eq!(Some(Bbox { xmin: -10, xmax: 10, ymin: -10, ymax: 10 }), linestring.bbox());
}

#[test]
fn repeated_points_change_nothing() {
    let once = line(&[(1, 2), (3, 4)]);
    let often = line(&[(1, 2), (1, 2), (3, 4), (1, 2), (3, 4), (3, 4)]);
    assert_eq!(Some(Bbox { xmin: 1, xmax: 3, ymin: 2, ymax: 4 }), once.bbox());
    assert_eq!(once.bbox(), often.bbox());
}

#[test]
fn points_on_one_vertical_line() {
    let linestring = line(&[(4, 9), (4, -2), (4, 3)]);
    assert_eq!(Some(Bbox { xmin: 4, xmax: 4, ymin: -2, ymax: 9 }), linestring.bbox());
}

#[test]
fn widest_coordinates() {
    let linestring = line(&[(0, i64::MAX), (i64::MIN, 0), (i64::MAX, i64::MIN)]);
    let bbox = Bbox { xmin: i64::MIN, xmax: i64::MAX, ymin: i64::MIN, ymax: i64::MAX };
    assert_eq!(Some(bbox), linestring.bbox());
}

#[test]
fn box_is_well_formed() {
    let lines = [
        line(&[(0, 0)]),
        line(&[(1, 1), (2, -2), (-3, -3), (-4, 4)]),
        line(&[(5, 5), (5, 5)]),
        line(&[(i64::MAX, i64::MIN), (i64::MIN, i64::MAX)]),
        line(&[(3, 1), (2, 1), (1, 1)]),
    ];
    for l in lines.iter() {
        let b = l.bbox().unwrap();
        assert!(b.xmin <= b.xmax);
        assert!(b.ymin <= b.ymax);
    }
}

#[test]
fn box_contains_every_point_and_touches_some() {
    let points = [(12, -7), (-3, 44), (8, 8), (-20, 1), (5, -30), (0, 0)];
    let b = line(&points).bbox().unwrap();
    for &(x, y) in points.iter() {
        assert!(b.xmin <= x && x <= b.xmax);
        assert!(b.ymin <= y && y <= b.ymax);
    }
    assert!(points.iter().any(|&(x, _)| x == b.xmin));
    assert!(points.iter().any(|&(x, _)| x == b.xmax));
    assert!(points.iter().any(|&(_, y)| y == b.ymin));
    assert!(points.iter().any(|&(_, y)| y == b.ymax));
    assert_eq!(b, Bbox { xmin: -20, xmax: 12, ymin: -30, ymax: 44 });
}

#[test]
fn box_of_the_corners_is_the_box() {
    let b = line(&[(1, 1), (2, -2), (-3, -3), (-4, 4)]).bbox().unwrap();
    assert_eq!(Some(b), corners(&b).bbox());
    let point = line(&[(6, -6)]).bbox().unwrap();
    assert_eq!(Some(point), corners(&point).bbox());
    let floats = LineString(vec![
        Point::new(grid(40.02), grid(116.34)),
        Point::new(grid(-42.5), grid(118.34)),
        Point::new(grid(0.0), grid(-1e300)),
    ])
    .bbox()
    .unwrap();
    assert_eq!(Some(floats), corners(&floats).bbox());
}

#[test]
fn order_of_the_points_does_not_matter() {
    let a = (1, 1);
    let b = (2, -2);
    let c = (-3, -3);
    let d = (-4, 4);
    let expected = Some(Bbox { xmin: -4, xmax: 2, ymin: -3, ymax: 4 });
    let orders = [
        [a, b, c, d], [a, b, d, c], [a, c, b, d], [a, c, d, b], [a, d, b, c], [a, d, c, b],
        [b, a, c, d], [b, a, d, c], [b, c, a, d], [b, c, d, a], [b, d, a, c], [b, d, c, a],
        [c, a, b, d], [c, a, d, b], [c, b, a, d], [c, b, d, a], [c, d, a, b], [c, d, b, a],
        [d, a, b, c], [d, a, c, b], [d, b, a, c], [d, b, c, a], [d, c, a, b], [d, c, b, a],
    ];
    for order in orders.iter() {
        assert_eq!(expected, line(order).bbox());
    }
}

#[test]
fn moving_the_points_moves_the_box() {
    let points = [(1, 1), (2, -2), (-3, -3), (-4, 4)];
    let (dx, dy) = (1000, -17);
    let moved: Vec<(i64, i64)> = points.iter().map(|&(x, y)| (x + dx, y + dy)).collect();
    assert_eq!(Some(Bbox { xmin: -4, xmax: 2, ymin: -3, ymax: 4 }), line(&points).bbox());
    assert_eq!(Some(Bbox { xmin: 996, xmax: 1002, ymin: -20, ymax: -13 }), line(&moved).bbox());
}

#[test]
fn box_of_numbers_with_both_signs() {
    let linestring = LineString(vec![
        Point::new(grid(-0.5), grid(1e-3)),
        Point::new(grid(-1e10), grid(-2.5)),
        Point::new(grid(3.25), grid(-1e-3)),
        Point::new(grid(1e-300), grid(7.0)),
    ]);
    let b = linestring.bbox().unwrap();
    assert_eq!(number(b.xmin), -1e10);
    assert_eq!(number(b.xmax), 3.25);
    assert_eq!(number(b.ymin), -2.5);
    assert_eq!(number(b.ymax), 7.0);
}

#[test]
fn box_reaches_to_the_infinities() {
    let linestring = LineString(vec![
        Point::new(grid(f64::NEG_INFINITY), grid(0.0)),
        Point::new(grid(f64::MAX), grid(f64::INFINITY)),
        Point::new(grid(f64::MIN), grid(f64::MIN_POSITIVE)),
    ]);
    let b = linestring.bbox().unwrap();
    assert_eq!(number(b.xmin), f64::NEG_INFINITY);
    assert_eq!(number(b.xmax), f64::MAX);
    assert_eq!(number(b.ymin), 0.0);
    assert_eq!(number(b.ymax), f64::INFINITY);
}

#[test]
fn point_keeps_its_coordinates() {
    let p = Point::new(-12, 34);
    assert_eq!(p.x(), -12);
    assert_eq!(p.y(), 34);
    assert_eq!(p, Point { x: -12, y: 34 });
}

#[test]
fn input_is_left_as_it_was() {
    let linestring = line(&[(3, 1), (1, 3), (2, 2)]);
    let copy = linestring.clone();
    let first = linestring.bbox();
    let second = linestring.bbox();
    assert_eq!(first, second);
    assert_eq!(copy, linestring);
}
