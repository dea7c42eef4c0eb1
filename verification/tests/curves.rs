use nalgebra::{DMatrix, DVector};
use palette::{Darken, Hsv, IntoColor, Mix, Srgb};
use timecurves_rs::error::{TimecurveError, TimecurveErrorKind};
use timecurves_rs::exporters::CSVExporter;
use timecurves_rs::geometry::{Geometry, Position};
use timecurves_rs::input::{Dataset, InputData};
use timecurves_rs::projection::{ClassicalMDS, ProjectionAlgorithm};
use timecurves_rs::set::{curve_base_color, TimecurveSet};
use timecurves_rs::timecurve::Timecurve;

/// The Euclidean plane in double precision, with the smoothing constant of
/// the control points.
struct Plane {
    sigma: f64,
}

fn unit(dx: f64, dy: f64) -> (f64, f64) {
    let norm = (dx.powi(2) + dy.powi(2)).sqrt();
    (dx / norm, dy / norm)
}

fn length(a: Position<f64>, b: Position<f64>) -> f64 {
    ((a.x - b.x).powi(2) + (a.y - b.y).powi(2)).sqrt()
}

fn rotate_point_around_origin(angle: f64, p: Position<f64>) -> Position<f64> {
    let x = p.x;
    let y = p.y;

    let x_prime = x * angle.cos() - y * angle.sin();
    let y_prime = x * angle.sin() + y * angle.cos();

    Position::new(x_prime, y_prime)
}

impl Geometry<f64> for Plane {
    fn interior_controls(
        &self,
        prev: Position<f64>,
        cur: Position<f64>,
        next: Position<f64>,
    ) -> (Position<f64>, Position<f64>) {
        let line = unit(prev.x - next.x, prev.y - next.y);
        let dist_p_c = length(prev, cur);
        let control_1 = Position::new(
            cur.x + line.0 * dist_p_c * self.sigma,
            cur.y + line.1 * dist_p_c * self.sigma,
        );
        let dist_c_n = length(cur, next);
        let control_2 = Position::new(
            cur.x - line.0 * dist_c_n * self.sigma,
            cur.y - line.1 * dist_c_n * self.sigma,
        );
        (control_1, control_2)
    }

    fn end_control(&self, end: Position<f64>, adjacent: Position<f64>) -> Position<f64> {
        let line = unit(end.x - adjacent.x, end.y - adjacent.y);
        Position::new(end.x - line.0 * self.sigma, end.y - line.1 * self.sigma)
    }

    fn locate(&self, u: f64) -> (usize, Option<f64>) {
        let t = u.fract();
        (u.floor() as usize, if t == 0.0 { None } else { Some(t) })
    }

    fn lerp(&self, a: Position<f64>, b: Position<f64>, t: f64) -> Position<f64> {
        Position::new((1.0 - t) * a.x + t * b.x, (1.0 - t) * a.y + t * b.y)
    }

    fn heading(&self, first: Position<f64>, last: Position<f64>) -> f64 {
        -(last.y - first.y).atan2(last.x - first.x)
    }

    fn rotate(&self, angle: f64, p: Position<f64>) -> Position<f64> {
        rotate_point_around_origin(angle, p)
    }

    fn unbounded_above(&self) -> f64 {
        f64::INFINITY
    }

    fn unbounded_below(&self) -> f64 {
        f64::NEG_INFINITY
    }

    fn lower(&self, a: f64, b: f64) -> f64 {
        a.min(b)
    }

    fn upper(&self, a: f64, b: f64) -> f64 {
        a.max(b)
    }

    fn span(&self, min: f64, max: f64) -> f64 {
        let range = max - min;
        assert!(!range.is_infinite(), "Overflow in normalisation, range is infinite.");
        range
    }

    fn scale(&self, v: f64, axis_min: f64, range: f64) -> f64 {
        (v - axis_min) / range
    }

    fn shade(&self, base: (u8, u8, u8), t: i64, oldest: i64, newest: i64) -> (u8, u8, u8) {
        let oldest = oldest as f32;
        let newest = newest as f32;
        let u = (t as f32 - oldest) / (newest - oldest);
        let start_color: Hsv =
            Srgb::new(base.0 as f32 / 255.0, base.1 as f32 / 255.0, base.2 as f32 / 255.0)
                .into_color();
        let end_color = Hsv::from(start_color).darken(0.7);
        let color = start_color.mix(end_color, u);
        let srgb: Srgb = color.into_color();
        ((srgb.red * 255.0) as u8, (srgb.green * 255.0) as u8, (srgb.blue * 255.0) as u8)
    }
}

const PLANE: Plane = Plane { sigma: 0.3 };

/// Classical multidimensional scaling.
struct Mds;

fn embed(distance_matrix: &Vec<Vec<f64>>) -> Vec<Position<f64>> {
    let n = distance_matrix.len();
    let identity = DMatrix::from_diagonal_element(n, n, 1.0);
    let matrix_of_ones = DMatrix::from_element(n, n, 1.0);
    let h = identity - (1.0 / n as f64) * matrix_of_ones;
    let a = DMatrix::from_fn(n, n, |i, j| -0.5 * distance_matrix[i][j] * distance_matrix[i][j]);
    let b = &h * a * h;
    let decomposition = b.symmetric_eigen();
    let mut couples: Vec<(f64, DVector<f64>)> = Vec::new();
    for i in 0..decomposition.eigenvalues.nrows() {
        couples.push((
            decomposition.eigenvalues[i],
            DVector::from_column_slice(decomposition.eigenvectors.column(i).as_slice()),
        ));
    }
    couples.sort_by(|a, b| a.0.partial_cmp(&b.0).unwrap().reverse());
    while couples.len() > 2 {
        couples.pop();
    }
    while couples.len() < 2 {
        couples.push((0.0, DVector::from_element(n, 0.0)));
    }
    (0..n)
        .map(|i| {
            Position::new(
                couples[0].1[i] * couples[0].0.sqrt(),
                couples[1].1[i] * couples[1].0.sqrt(),
            )
        })
        .collect()
}

impl ProjectionAlgorithm<f64> for Mds {
    fn project(&self, distance_matrix: &Vec<Vec<f64>>) -> Result<Vec<Position<f64>>, TimecurveError> {
        ClassicalMDS::new().project(distance_matrix, embed)
    }
}

/// A projection that returns what it was made with, whatever the matrix.
struct Fixed(Result<Vec<(f64, f64)>, TimecurveErrorKind>);

impl ProjectionAlgorithm<f64> for Fixed {
    fn project(&self, _: &Vec<Vec<f64>>) -> Result<Vec<Position<f64>>, TimecurveError> {
        match &self.0 {
            Ok(points) => Ok(points.iter().map(|p| Position::new(p.0, p.1)).collect()),
            Err(kind) => Err(TimecurveError::new(*kind, Some("fixed"))),
        }
    }
}

fn numbered(name: &str, count: usize) -> Dataset {
    Dataset::new(name, (0..count).map(|i| i.to_string()).collect())
}

fn curve_through(x: &[(f64, f64)]) -> Timecurve<f64> {
    let positions: Vec<Position<f64>> = x.iter().map(|p| Position::new(p.0, p.1)).collect();
    Timecurve::new(&numbered("test", x.len()), &positions).unwrap()
}

fn planar_distances(planar: &[(f64, f64)]) -> Vec<Vec<f64>> {
    planar
        .iter()
        .map(|a| {
            planar
                .iter()
                .map(|b| ((a.0 - b.0).powi(2) + (a.1 - b.1).powi(2)).sqrt())
                .collect()
        })
        .collect()
}

fn close(a: f64, b: f64) -> bool {
    (a - b).abs() < 1e-9
}

#[test]
fn random_dommain_test_normalise_points() {
    let mut x = Vec::new();
    for _ in 0..100 {
        x.push((rand::random::<f64>() * 1000.0, rand::random::<f64>() * 1000.0));
    }
    let timecurve = curve_through(&x);
    let mut set = TimecurveSet::from_curves(vec![timecurve]);
    set.normalise(&PLANE);
    for curve in set.get_curves() {
        for p in curve.get_points() {
            assert!(p.get_pos_x() <= 1.0 && p.get_pos_x() >= -1.0);
            assert!(p.get_pos_y() <= 1.0 && p.get_pos_y() >= -1.0);
        }
    }
}

#[test]
fn limit_dommain_test_normalise_points() {
    //test with points at the limit of the domain
    let max = f64::MAX;
    let min = f64::MIN;
    let x = [
        (max / 2.0, max / 2.0),
        (max / 2.0, 0.0),
        (0.0, max / 2.0),
        (0.0, 0.0),
        (min / 2.0, min / 2.0),
        (min / 2.0, 0.0),
        (0.0, min / 2.0),
    ];
    let timecurve = curve_through(&x);
    let mut set = TimecurveSet::from_curves(vec![timecurve]);
    set.normalise(&PLANE);
    for curve in set.get_curves() {
        for p in curve.get_points() {
            assert!(p.get_pos_x() <= 1.0 && p.get_pos_x() >= 0.0);
            assert!(p.get_pos_y() <= 1.0 && p.get_pos_y() >= 0.0);
        }
    }
}

#[test]
fn test_rotate_point_around_origin() {
    const EPSILON: f64 = 1e-6; // tolerance for floating point comparisons around zero
    let mut timecurve = curve_through(&[(1.0, 0.0)]);
    let angle = std::f64::consts::PI / 2.0;
    timecurve.rotate_points_around_origin(angle, &PLANE);
    let new_p = timecurve.get_points()[0].get_pos();
    assert!(new_p.get_x().abs() < EPSILON);
    assert_eq!(new_p.get_y(), 1.0);

    let mut timecurve = curve_through(&[(1.0, 0.0)]);
    let angle = std::f64::consts::PI * 1.5;
    timecurve.rotate_points_around_origin(angle, &PLANE);
    let new_p = timecurve.get_points()[0].get_pos();
    assert!(new_p.get_x().abs() < EPSILON);
    assert_eq!(new_p.get_y(), -1.0);
}

#[test]
fn test_timecurve_compute_control_points() {
    //Control points do exist
    let mut timecurve = curve_through(&[(0.0, 0.0), (1.0, 1.0), (2.0, 0.0)]);
    timecurve.compute_control_points(&PLANE);
    for p in timecurve.get_points() {
        //first and last point have only one control point
        if p.get_t() == 0 {
            assert!(p.get_c_next().is_some());
            assert!(p.get_c_prev().is_none());
        } else if p.get_t() == timecurve.get_points().len() as i64 - 1 {
            assert!(p.get_c_prev().is_some());
            assert!(p.get_c_next().is_none());
        } else {
            assert!(p.get_c_prev().is_some());
            assert!(p.get_c_next().is_some());
        }
    }
}

#[test]
fn test_timecurve_align() {
    //test with point are align on the y axis
    let timecurve = curve_through(&[(0.0, 0.0), (1.0, 1.0), (2.0, 3.0)]);
    let mut set = TimecurveSet::from_curves(vec![timecurve]);
    set.align(&PLANE);
    for curve in set.get_curves() {
        let p0 = curve.get_points().first().unwrap();
        let p1 = curve.get_points().last().unwrap();
        assert_eq!(p0.get_pos_y(), p1.get_pos_y());
    }
}

//new timecurve
#[test]
fn test_timecurve_new() {
    let dataset = Dataset::new(
        "test",
        vec!["0".to_string(), "1".to_string(), "2".to_string()],
    );
    let projected_points = vec![
        Position::new(0.0, 0.0),
        Position::new(1.0, 1.0),
        Position::new(2.0, 3.0),
    ];
    let timecurve = Timecurve::new(&dataset, &projected_points).unwrap();
    assert_eq!(timecurve.get_name(), "test");
    let points = timecurve.get_points();
    assert_eq!(points.len(), 3);
    assert_eq!(points[0].get_label(), "0");
    assert_eq!(points[0].get_t(), 0);
    assert_eq!(points[0].get_pos_x(), 0.0);
    assert_eq!(points[0].get_pos_y(), 0.0);
    assert!(points[0].get_c_prev().is_none());
    assert!(points[0].get_c_next().is_none());
    assert_eq!(points[0].get_color(), (0, 0, 0));
    assert_eq!(points[0].get_pos().get_x(), 0.0);
    assert_eq!(points[0].get_pos().get_y(), 0.0);
}

#[test]
fn a_new_curve_lists_its_points_as_the_dataset_does() {
    let dataset = Dataset::new(
        "walk",
        vec!["30".to_string(), "2021-01-01T00:00:00Z".to_string(), "-4".to_string()],
    );
    let positions = vec![Position::new(1.0, 2.0), Position::new(3.0, 4.0), Position::new(5.0, 6.0)];
    let curve = Timecurve::new(&dataset, &positions).unwrap();
    let points = curve.get_points();
    assert_eq!(points.len(), 3);
    let seen: Vec<(&str, i64, f64, f64)> = points
        .iter()
        .map(|p| (p.get_label(), p.get_t(), p.get_pos_x(), p.get_pos_y()))
        .collect();
    assert_eq!(
        seen,
        vec![
            ("30", 30, 1.0, 2.0),
            ("2021-01-01T00:00:00Z", 1609459200, 3.0, 4.0),
            ("-4", -4, 5.0, 6.0)
        ]
    );
    for p in points {
        assert!(p.get_c_prev().is_none() && p.get_c_next().is_none());
        assert_eq!(p.get_color(), (0, 0, 0));
    }
}

#[test]
fn a_new_curve_needs_one_position_for_each_label() {
    let dataset = numbered("test", 3);
    let two = vec![Position::new(0.0, 0.0), Position::new(1.0, 1.0)];
    assert_eq!(
        Timecurve::new(&dataset, &two).unwrap_err().kind,
        TimecurveErrorKind::ProjectionIncoherence
    );
    let four = vec![Position::new(0.0, 0.0); 4];
    assert_eq!(
        Timecurve::new(&dataset, &four).unwrap_err().kind,
        TimecurveErrorKind::ProjectionIncoherence
    );
    // The count is looked at before the labels.
    let unreadable = Dataset::new("test", vec!["yesterday".to_string()]);
    assert_eq!(
        Timecurve::new(&unreadable, &two).unwrap_err().kind,
        TimecurveErrorKind::ProjectionIncoherence
    );
}

#[test]
fn a_new_curve_needs_labels_that_are_times() {
    let dataset = Dataset::new("test", vec!["0".to_string(), "soon".to_string()]);
    let positions = vec![Position::new(0.0, 0.0), Position::new(1.0, 1.0)];
    let error = Timecurve::new(&dataset, &positions).unwrap_err();
    assert_eq!(error.kind, TimecurveErrorKind::InvalidTimeLabel);
    assert_eq!(error.to_string(), "Timelabel is invalid ! (Label : \"soon\")");
}

#[test]
fn an_empty_curve_has_a_name_and_no_point() {
    let curve: Timecurve<f64> = Timecurve::new_empty("nothing");
    assert_eq!(curve.get_name(), "nothing");
    assert_eq!(curve.get_points().len(), 0);
    let none: Vec<Position<f64>> = Vec::new();
    let curve = Timecurve::new(&numbered("nobody", 0), &none).unwrap();
    assert_eq!(curve.get_name(), "nobody");
    assert_eq!(curve.get_points().len(), 0);
}

#[test]
fn a_clone_of_a_curve_holds_the_same_points() {
    let mut curve = curve_through(&[(0.0, 0.0), (1.0, 1.0), (2.0, 0.0)]);
    curve.compute_control_points(&PLANE);
    let copy = curve.clone();
    assert_eq!(copy.get_name(), curve.get_name());
    assert_eq!(copy.get_points().len(), 3);
    for (p, q) in curve.get_points().iter().zip(copy.get_points()) {
        assert_eq!(p.get_label(), q.get_label());
        assert_eq!(p.get_t(), q.get_t());
        assert_eq!((p.get_pos_x(), p.get_pos_y()), (q.get_pos_x(), q.get_pos_y()));
        assert_eq!(p.get_c_prev().map(|c| (c.x, c.y)), q.get_c_prev().map(|c| (c.x, c.y)));
        assert_eq!(p.get_c_next().map(|c| (c.x, c.y)), q.get_c_next().map(|c| (c.x, c.y)));
        assert_eq!(p.get_color(), q.get_color());
    }
}

#[test]
fn sorting_puts_the_points_in_chronological_order() {
    let dataset = Dataset::new(
        "test",
        vec!["30".to_string(), "10".to_string(), "20".to_string(), "10".to_string()],
    );
    let positions = vec![
        Position::new(3.0, 0.0),
        Position::new(1.0, 0.0),
        Position::new(2.0, 0.0),
        Position::new(1.5, 0.0),
    ];
    let mut curve = Timecurve::new(&dataset, &positions).unwrap();
    curve.sort_by_time();
    assert_eq!(curve.get_name(), "test");
    let seen: Vec<(i64, f64)> = curve.get_points().iter().map(|p| (p.get_t(), p.get_pos_x())).collect();
    // The two observations dated 10 stay in the order of the dataset.
    assert_eq!(seen, vec![(10, 1.0), (10, 1.5), (20, 2.0), (30, 3.0)]);
}

#[test]
fn control_points_follow_the_formula() {
    let mut curve = curve_through(&[(0.0, 0.0), (3.0, 4.0), (6.0, 0.0)]);
    curve.compute_control_points(&PLANE);
    let points = curve.get_points();
    // The interior point: the direction is from the next point to the previous one, (-1, 0);
    // both neighbours are at distance 5.
    let c_prev = points[1].get_c_prev().unwrap();
    let c_next = points[1].get_c_next().unwrap();
    assert!(close(c_prev.x, 3.0 - 1.5) && close(c_prev.y, 4.0));
    assert!(close(c_next.x, 3.0 + 1.5) && close(c_next.y, 4.0));
    // The first point: at distance sigma towards the control point (1.5, 4) of its neighbour.
    let first = points[0].get_c_next().unwrap();
    let norm = (1.5f64.powi(2) + 4.0f64.powi(2)).sqrt();
    assert!(close(first.x, 0.3 * 1.5 / norm) && close(first.y, 0.3 * 4.0 / norm));
    // The last point: at distance sigma towards the control point (4.5, 4) of its neighbour.
    let last = points[2].get_c_prev().unwrap();
    assert!(close(last.x, 6.0 - 0.3 * 1.5 / norm) && close(last.y, 0.3 * 4.0 / norm));
    // The positions did not move.
    assert_eq!((points[1].get_pos_x(), points[1].get_pos_y()), (3.0, 4.0));
}

#[test]
fn control_points_of_a_long_curve() {
    let mut curve = curve_through(&[(0.0, 0.0), (1.0, 2.0), (2.0, 1.0), (4.0, 4.0), (5.0, 0.0), (7.0, 1.0)]);
    curve.compute_control_points(&PLANE);
    let points = curve.get_points();
    let k = points.len();
    assert!(points[0].get_c_next().is_some() && points[0].get_c_prev().is_none());
    assert!(points[k - 1].get_c_prev().is_some() && points[k - 1].get_c_next().is_none());
    for i in 1..k - 1 {
        let (prev, cur, next) = (*points[i - 1].get_pos(), *points[i].get_pos(), *points[i + 1].get_pos());
        let expected = PLANE.interior_controls(prev, cur, next);
        let c_prev = points[i].get_c_prev().unwrap();
        let c_next = points[i].get_c_next().unwrap();
        assert_eq!((c_prev.x, c_prev.y), (expected.0.x, expected.0.y));
        assert_eq!((c_next.x, c_next.y), (expected.1.x, expected.1.y));
    }
    let first = PLANE.end_control(*points[0].get_pos(), *points[1].get_c_prev().unwrap());
    let last = PLANE.end_control(*points[k - 1].get_pos(), *points[k - 2].get_c_next().unwrap());
    assert_eq!(points[0].get_c_next().map(|c| (c.x, c.y)), Some((first.x, first.y)));
    assert_eq!(points[k - 1].get_c_prev().map(|c| (c.x, c.y)), Some((last.x, last.y)));
}

#[test]
fn a_curve_of_two_points_is_a_straight_segment() {
    let mut curve = curve_through(&[(0.0, 0.0), (10.0, 0.0)]);
    curve.compute_control_points(&PLANE);
    let points = curve.get_points();
    assert!(points[0].get_c_prev().is_none());
    assert!(points[1].get_c_next().is_none());
    let first = points[0].get_c_next().unwrap();
    let last = points[1].get_c_prev().unwrap();
    assert!(close(first.x, 0.3) && close(first.y, 0.0));
    assert!(close(last.x, 9.7) && close(last.y, 0.0));
}

#[test]
fn a_curve_of_fewer_than_two_points_has_no_control_point() {
    let mut single = curve_through(&[(1.0, 1.0)]);
    single.compute_control_points(&PLANE);
    assert_eq!(single.get_points().len(), 1);
    assert!(single.get_points()[0].get_c_prev().is_none());
    assert!(single.get_points()[0].get_c_next().is_none());
    let mut empty = curve_through(&[]);
    empty.compute_control_points(&PLANE);
    assert_eq!(empty.get_points().len(), 0);
}

#[test]
fn evaluating_at_a_point_gives_the_point() {
    let mut curve = curve_through(&[(0.0, 0.0), (1.0, 1.0), (2.0, 0.0)]);
    // At a point no control point is needed.
    let p = curve.evaluate(1.0, &PLANE).unwrap();
    assert_eq!((p.x, p.y), (1.0, 1.0));
    curve.compute_control_points(&PLANE);
    for (u, expected) in [(0.0, (0.0, 0.0)), (1.0, (1.0, 1.0)), (2.0, (2.0, 0.0))] {
        let p = curve.evaluate(u, &PLANE).unwrap();
        assert_eq!((p.x, p.y), expected);
    }
    let p = curve.evaluate_at(2, None, &PLANE).unwrap();
    assert_eq!((p.x, p.y), (2.0, 0.0));
}

#[test]
fn evaluating_within_a_segment_follows_the_bezier_curve() {
    let mut curve = curve_through(&[(0.0, 0.0), (3.0, 4.0), (6.0, 0.0)]);
    curve.compute_control_points(&PLANE);
    let points = curve.get_points();
    let p0 = *points[0].get_pos();
    let p1 = *points[0].get_c_next().unwrap();
    let p2 = *points[1].get_c_prev().unwrap();
    let p3 = *points[1].get_pos();
    for t in [0.25f64, 0.5, 0.75] {
        let s = 1.0 - t;
        let x = s * s * s * p0.x + 3.0 * s * s * t * p1.x + 3.0 * s * t * t * p2.x + t * t * t * p3.x;
        let y = s * s * s * p0.y + 3.0 * s * s * t * p1.y + 3.0 * s * t * t * p2.y + t * t * t * p3.y;
        let p = curve.evaluate(t, &PLANE).unwrap();
        assert!(close(p.x, x) && close(p.y, y));
        let q = curve.evaluate_at(0, Some(t), &PLANE).unwrap();
        assert_eq!((p.x, p.y), (q.x, q.y));
    }
    // The second segment runs from the second point to the third.
    let p = curve.evaluate(1.5, &PLANE).unwrap();
    assert!(p.x > 3.0 && p.x < 6.0);
}

#[test]
fn evaluating_without_control_points_is_out_of_range() {
    let curve = curve_through(&[(0.0, 0.0), (1.0, 1.0), (2.0, 0.0)]);
    assert_eq!(
        curve.evaluate(0.5, &PLANE).unwrap_err().kind,
        TimecurveErrorKind::EvaluatedOutsideRange
    );
    let mut curve = curve;
    curve.compute_control_points(&PLANE);
    // Past the last point there is no segment.
    assert_eq!(
        curve.evaluate(2.5, &PLANE).unwrap_err().kind,
        TimecurveErrorKind::EvaluatedOutsideRange
    );
    // Nor is there a point before the first or after the last.
    assert_eq!(
        curve.evaluate(3.0, &PLANE).unwrap_err().kind,
        TimecurveErrorKind::EvaluatedOutsideRange
    );
    assert_eq!(
        curve.evaluate_at(7, Some(0.5), &PLANE).unwrap_err().kind,
        TimecurveErrorKind::EvaluatedOutsideRange
    );
    let empty = curve_through(&[]);
    assert_eq!(
        empty.evaluate(0.0, &PLANE).unwrap_err().kind,
        TimecurveErrorKind::EvaluatedOutsideRange
    );
}

#[test]
fn rotating_moves_the_control_points_too() {
    let mut curve = curve_through(&[(0.0, 0.0), (3.0, 4.0), (6.0, 0.0)]);
    curve.compute_control_points(&PLANE);
    let before = curve.clone();
    let angle = 0.7;
    curve.rotate_points_around_origin(angle, &PLANE);
    assert_eq!(curve.get_name(), "test");
    for (p, q) in before.get_points().iter().zip(curve.get_points()) {
        let expected = rotate_point_around_origin(angle, *p.get_pos());
        assert_eq!((q.get_pos_x(), q.get_pos_y()), (expected.x, expected.y));
        let expected = p.get_c_prev().map(|c| rotate_point_around_origin(angle, *c));
        assert_eq!(q.get_c_prev().map(|c| (c.x, c.y)), expected.map(|c| (c.x, c.y)));
        let expected = p.get_c_next().map(|c| rotate_point_around_origin(angle, *c));
        assert_eq!(q.get_c_next().map(|c| (c.x, c.y)), expected.map(|c| (c.x, c.y)));
        assert_eq!((p.get_label(), p.get_t(), p.get_color()), (q.get_label(), q.get_t(), q.get_color()));
    }
}

#[test]
fn normalising_a_curve_scales_both_axes_by_the_same_range() {
    let mut curve = curve_through(&[(10.0, 100.0), (20.0, 110.0), (30.0, 100.0)]);
    curve.compute_control_points(&PLANE);
    let before = curve.clone();
    curve.normalise_points(Position::new(10.0, 100.0), 20.0, &PLANE);
    let seen: Vec<(f64, f64)> = curve.get_points().iter().map(|p| (p.get_pos_x(), p.get_pos_y())).collect();
    assert_eq!(seen, vec![(0.0, 0.0), (0.5, 0.5), (1.0, 0.0)]);
    for (p, q) in before.get_points().iter().zip(curve.get_points()) {
        let expected = p.get_c_prev().map(|c| ((c.x - 10.0) / 20.0, (c.y - 100.0) / 20.0));
        assert_eq!(q.get_c_prev().map(|c| (c.x, c.y)), expected);
        let expected = p.get_c_next().map(|c| ((c.x - 10.0) / 20.0, (c.y - 100.0) / 20.0));
        assert_eq!(q.get_c_next().map(|c| (c.x, c.y)), expected);
    }
}

#[test]
fn normalising_a_set_brings_its_points_to_the_unit_square() {
    let first = curve_through(&[(-2.0, 5.0), (0.0, 7.0), (2.0, 5.0)]);
    let second = curve_through(&[(0.0, 3.0), (6.0, 6.0)]);
    let mut set = TimecurveSet::from_curves(vec![first, second]);
    set.normalise(&PLANE);
    // x runs from -2 to 6 and y from 3 to 7: the range is that from -2 to 7 on both axes.
    let seen: Vec<Vec<(f64, f64)>> = set
        .get_curves()
        .iter()
        .map(|c| c.get_points().iter().map(|p| (p.get_pos_x(), p.get_pos_y())).collect())
        .collect();
    let expected = vec![
        vec![(0.0, 2.0 / 9.0), (2.0 / 9.0, 4.0 / 9.0), (4.0 / 9.0, 2.0 / 9.0)],
        vec![(2.0 / 9.0, 0.0), (8.0 / 9.0, 3.0 / 9.0)],
    ];
    assert_eq!(seen.len(), 2);
    for (curve, wanted) in seen.iter().zip(&expected) {
        assert_eq!(curve.len(), wanted.len());
        for (p, w) in curve.iter().zip(wanted) {
            assert!(close(p.0, w.0) && close(p.1, w.1));
        }
    }
    // Each lower bound is reached.
    assert!(seen.iter().flatten().any(|p| p.0 == 0.0));
    assert!(seen.iter().flatten().any(|p| p.1 == 0.0));
}

#[test]
fn after_normalisation_a_square_extent_reaches_every_boundary() {
    let curve = curve_through(&[(3.0, 10.0), (7.0, 14.0), (5.0, 11.0), (3.0, 6.0), (-1.0, 8.0)]);
    let mut set = TimecurveSet::from_curves(vec![curve]);
    set.align(&PLANE);
    set.normalise(&PLANE);
    let seen: Vec<(f64, f64)> =
        set.get_curves()[0].get_points().iter().map(|p| (p.get_pos_x(), p.get_pos_y())).collect();
    for p in &seen {
        assert!(0.0 <= p.0 && p.0 <= 1.0);
        assert!(0.0 <= p.1 && p.1 <= 1.0);
    }
    assert!(seen.iter().any(|p| p.0 == 0.0));
    assert!(seen.iter().any(|p| p.1 == 0.0));
    assert!(seen.iter().any(|p| close(p.0, 1.0) || close(p.1, 1.0)));
}

#[test]
fn aligning_turns_every_curve_by_the_angle_of_the_first() {
    let first = curve_through(&[(0.0, 0.0), (5.0, 1.0), (0.0, 2.0)]);
    let second = curve_through(&[(1.0, 0.0), (3.0, 3.0)]);
    let mut set = TimecurveSet::from_curves(vec![first, second]);
    set.align(&PLANE);
    // The first curve runs straight up: the plane is turned by a quarter turn clockwise.
    let seen: Vec<Vec<(f64, f64)>> = set
        .get_curves()
        .iter()
        .map(|c| c.get_points().iter().map(|p| (p.get_pos_x(), p.get_pos_y())).collect())
        .collect();
    let expected = vec![vec![(0.0, 0.0), (1.0, -5.0), (2.0, 0.0)], vec![(0.0, -1.0), (3.0, -3.0)]];
    for (curve, wanted) in seen.iter().zip(&expected) {
        for (p, w) in curve.iter().zip(wanted) {
            assert!(close(p.0, w.0) && close(p.1, w.1));
        }
    }
}

#[test]
fn aligning_leaves_a_set_without_a_segment_as_it_is() {
    let mut empty: TimecurveSet<f64> = TimecurveSet::from_curves(Vec::new());
    empty.align(&PLANE);
    assert_eq!(empty.get_curves().len(), 0);

    let single = curve_through(&[(1.0, 2.0)]);
    let other = curve_through(&[(1.0, 0.0), (3.0, 3.0)]);
    let mut set = TimecurveSet::from_curves(vec![single, other]);
    set.align(&PLANE);
    let seen: Vec<Vec<(f64, f64)>> = set
        .get_curves()
        .iter()
        .map(|c| c.get_points().iter().map(|p| (p.get_pos_x(), p.get_pos_y())).collect())
        .collect();
    assert_eq!(seen, vec![vec![(1.0, 2.0)], vec![(1.0, 0.0), (3.0, 3.0)]]);
}

#[test]
fn the_colour_of_a_curve_goes_by_its_place() {
    assert_eq!(curve_base_color(0), (255, 105, 22));
    assert_eq!(curve_base_color(1), (34, 130, 251));
    assert_eq!(curve_base_color(2), (149, 221, 60));
    assert_eq!(curve_base_color(3), (255, 105, 22));
    assert_eq!(curve_base_color(7), (34, 130, 251));
    assert_eq!(curve_base_color(usize::MAX), curve_base_color(usize::MAX % 3));
}

#[test]
fn colours_darken_with_time() {
    let curves: Vec<Timecurve<f64>> = (0..4)
        .map(|_| curve_through(&[(0.0, 0.0), (1.0, 1.0), (2.0, 0.0)]))
        .collect();
    let mut set = TimecurveSet::from_curves(curves);
    set.update_colors(&PLANE);
    for (c, curve) in set.get_curves().iter().enumerate() {
        let points = curve.get_points();
        for p in points {
            assert_eq!(p.get_color(), PLANE.shade(curve_base_color(c), p.get_t(), 0, 2));
        }
        let sum = |colour: (u8, u8, u8)| colour.0 as u32 + colour.1 as u32 + colour.2 as u32;
        assert!(sum(points[0].get_color()) > sum(points[1].get_color()));
        assert!(sum(points[1].get_color()) > sum(points[2].get_color()));
    }
    // The oldest point has the colour of the curve, up to rounding.
    let oldest = set.get_curves()[1].get_points()[0].get_color();
    assert!((oldest.0 as i32 - 34).abs() <= 1 && (oldest.1 as i32 - 130).abs() <= 1 && (oldest.2 as i32 - 251).abs() <= 1);
    // The fourth curve is coloured as the first.
    assert_eq!(
        set.get_curves()[3].get_points()[1].get_color(),
        set.get_curves()[0].get_points()[1].get_color()
    );
}

#[test]
fn shading_a_curve_goes_by_the_first_and_the_last_point() {
    let dataset = Dataset::new(
        "test",
        vec!["100".to_string(), "150".to_string(), "200".to_string()],
    );
    let positions = vec![Position::new(0.0, 0.0); 3];
    let mut curve = Timecurve::new(&dataset, &positions).unwrap();
    curve.shade_points((200, 100, 50), &PLANE);
    let seen: Vec<(u8, u8, u8)> = curve.get_points().iter().map(|p| p.get_color()).collect();
    let expected: Vec<(u8, u8, u8)> =
        [100, 150, 200].iter().map(|t| PLANE.shade((200, 100, 50), *t, 100, 200)).collect();
    assert_eq!(seen, expected);
    assert_ne!(seen[0], seen[2]);
}

#[test]
fn end_to_end_two_datasets() {
    let planar = [(0.0, 0.0), (4.0, 0.0), (4.0, 3.0), (0.0, 3.0), (2.0, 7.0)];
    let first = Dataset::new(
        "first",
        vec![
            "2021-01-03T00:00:00Z".to_string(),
            "2021-01-01T00:00:00Z".to_string(),
            "2021-01-02T00:00:00Z".to_string(),
        ],
    );
    let second = Dataset::new(
        "second",
        vec!["2021-02-01T00:00:00Z".to_string(), "2021-03-01T00:00:00Z".to_string()],
    );
    let input = InputData::from(planar_distances(&planar), vec![first, second]);
    let set = TimecurveSet::new(&input, Mds, &PLANE).unwrap();

    let curves = set.get_curves();
    assert_eq!(curves.len(), 2);
    assert_eq!(curves[0].get_name(), "first");
    assert_eq!(curves[1].get_name(), "second");
    assert_eq!(curves[0].get_points().len(), 3);
    assert_eq!(curves[1].get_points().len(), 2);

    // The points are in chronological order.
    let labels: Vec<&str> = curves[0].get_points().iter().map(|p| p.get_label()).collect();
    assert_eq!(labels, vec!["2021-01-01T00:00:00Z", "2021-01-02T00:00:00Z", "2021-01-03T00:00:00Z"]);
    let times: Vec<i64> = curves[0].get_points().iter().map(|p| p.get_t()).collect();
    assert_eq!(times, vec![1609459200, 1609545600, 1609632000]);
    let times: Vec<i64> = curves[1].get_points().iter().map(|p| p.get_t()).collect();
    assert_eq!(times, vec![1612137600, 1614556800]);

    let mut colours = Vec::new();
    for curve in curves {
        let points = curve.get_points();
        for (i, p) in points.iter().enumerate() {
            assert!(0.0 <= p.get_pos_x() && p.get_pos_x() <= 1.0);
            assert!(0.0 <= p.get_pos_y() && p.get_pos_y() <= 1.0);
            assert_eq!(p.get_c_prev().is_some(), i > 0);
            assert_eq!(p.get_c_next().is_some(), i + 1 < points.len());
            assert!(!colours.contains(&p.get_color()));
            colours.push(p.get_color());
        }
    }
    assert_eq!(colours.len(), 5);

    // The first curve starts and ends at the same height, and distances are kept up to the scale.
    let ends = curves[0].get_points();
    assert!(close(ends[0].get_pos_y(), ends[2].get_pos_y()));
    let scale = length(*ends[0].get_pos(), *ends[1].get_pos()) / 3.0;
    let second = curves[1].get_points();
    assert!(close(length(*second[0].get_pos(), *second[1].get_pos()), scale * 20.0f64.sqrt()));
    assert!(close(length(*ends[2].get_pos(), *ends[0].get_pos()), scale * 4.0));
}

#[test]
fn the_labels_must_be_as_many_as_the_rows() {
    let planar = [(0.0, 0.0), (4.0, 0.0), (4.0, 3.0), (0.0, 3.0), (2.0, 7.0)];
    for counts in [vec![3, 1], vec![3, 3], vec![5, 1], vec![], vec![6]] {
        let datasets: Vec<Dataset> = counts.iter().map(|n| numbered("some", *n)).collect();
        let input = InputData::from(planar_distances(&planar), datasets);
        let error = TimecurveSet::new(&input, Mds, &PLANE).unwrap_err();
        assert_eq!(error.kind, TimecurveErrorKind::ProjectionIncoherence);
    }
    for counts in [vec![5], vec![0, 5, 0], vec![1, 1, 1, 1, 1], vec![2, 3]] {
        let datasets: Vec<Dataset> = counts.iter().map(|n| numbered("some", *n)).collect();
        let input = InputData::from(planar_distances(&planar), datasets);
        let set = TimecurveSet::new(&input, Mds, &PLANE).unwrap();
        let lengths: Vec<usize> = set.get_curves().iter().map(|c| c.get_points().len()).collect();
        assert_eq!(lengths, counts);
    }
}

#[test]
fn nothing_is_built_from_a_label_that_is_no_time() {
    let planar = [(0.0, 0.0), (4.0, 0.0), (4.0, 3.0)];
    let good = numbered("good", 2);
    let bad = Dataset::new("bad", vec!["tomorrow".to_string()]);
    let input = InputData::from(planar_distances(&planar), vec![good, bad]);
    let error = TimecurveSet::new(&input, Mds, &PLANE).unwrap_err();
    assert_eq!(error.kind, TimecurveErrorKind::InvalidTimeLabel);
    assert_eq!(error.info.as_deref(), Some("Label : \"tomorrow\""));
}

#[test]
fn a_malformed_matrix_is_refused_before_it_is_projected() {
    let input = InputData::from(vec![vec![0.0, 1.0], vec![1.0]], vec![numbered("some", 2)]);
    let error = TimecurveSet::new(&input, Fixed(Ok(vec![(0.0, 0.0), (1.0, 1.0)])), &PLANE).unwrap_err();
    assert_eq!(error.kind, TimecurveErrorKind::MalformedDistanceMatrix);
    let input: InputData<f64> = InputData::from(Vec::new(), Vec::new());
    let error = TimecurveSet::new(&input, Mds, &PLANE).unwrap_err();
    assert_eq!(error.kind, TimecurveErrorKind::MalformedDistanceMatrix);
}

#[test]
fn a_projection_is_examined_before_it_is_used() {
    let matrix = vec![vec![0.0, 1.0], vec![1.0, 0.0]];
    let input = InputData::from(matrix, vec![numbered("some", 2)]);
    let error = TimecurveSet::new(&input, Fixed(Ok(vec![(0.0, 0.0)])), &PLANE).unwrap_err();
    assert_eq!(error.kind, TimecurveErrorKind::ProjectionIncoherence);
    let error =
        TimecurveSet::new(&input, Fixed(Err(TimecurveErrorKind::EvaluatedOutsideRange)), &PLANE)
            .unwrap_err();
    assert_eq!(error.kind, TimecurveErrorKind::EvaluatedOutsideRange);
    assert_eq!(error.info.as_deref(), Some("fixed"));
    let set = TimecurveSet::new(&input, Fixed(Ok(vec![(0.0, 0.0), (1.0, 1.0)])), &PLANE).unwrap();
    assert_eq!(set.get_curves().len(), 1);
}

#[test]
fn the_datasets_share_the_positions_in_their_order() {
    let positions: Vec<Position<f64>> =
        (0..5).map(|i| Position::new(i as f64, (i * i) as f64)).collect();
    let first = Dataset::new("first", vec!["2".to_string(), "1".to_string()]);
    let second = Dataset::new("second", vec!["9".to_string(), "7".to_string(), "8".to_string()]);
    // A geometry would move the points: the shares are seen on the curves as they are built.
    let mut first_curve = Timecurve::new(&first, &positions[0..2]).unwrap();
    let mut second_curve = Timecurve::new(&second, &positions[2..5]).unwrap();
    first_curve.sort_by_time();
    second_curve.sort_by_time();
    let xs = |curve: &Timecurve<f64>| -> Vec<f64> {
        curve.get_points().iter().map(|p| p.get_pos_x()).collect()
    };
    assert_eq!(xs(&first_curve), vec![1.0, 0.0]);
    assert_eq!(xs(&second_curve), vec![3.0, 4.0, 2.0]);

    let set = TimecurveSet::from_projection(&vec![first, second], &positions, &PLANE).unwrap();
    let labels: Vec<Vec<&str>> = set
        .get_curves()
        .iter()
        .map(|c| c.get_points().iter().map(|p| p.get_label()).collect())
        .collect();
    assert_eq!(labels, vec![vec!["1", "2"], vec!["7", "8", "9"]]);
    // The first curve runs from (1, 1) to (0, 0): after alignment and scaling the second
    // curve, which the same turn and scale moved, keeps its shape.
    let second = set.get_curves()[1].get_points();
    let first = set.get_curves()[0].get_points();
    let scale = length(*first[0].get_pos(), *first[1].get_pos()) / 2.0f64.sqrt();
    assert!(close(length(*second[0].get_pos(), *second[1].get_pos()), scale * 50.0f64.sqrt()));
    assert!(close(length(*second[1].get_pos(), *second[2].get_pos()), scale * 148.0f64.sqrt()));
}

#[test]
fn a_set_is_written_as_comma_separated_values() {
    let first = curve_through(&[(0.5, 1.0), (2.0, 3.25)]);
    let second = Timecurve::new(
        &Dataset::new("other", vec!["2021-01-01T00:00:00Z".to_string()]),
        &vec![Position::new(-1.0, 0.0)],
    )
    .unwrap();
    let set = TimecurveSet::from_curves(vec![first, second]);
    let text = CSVExporter::new().export(&set, |v: f64| format!("{}", v));
    assert_eq!(
        text,
        "curve,label,x,y\ntest,0,0.5,1\ntest,1,2,3.25\nother,2021-01-01T00:00:00Z,-1,0\n"
    );
    let empty: TimecurveSet<f64> = TimecurveSet::from_curves(Vec::new());
    assert_eq!(CSVExporter::new().export(&empty, |v: f64| format!("{}", v)), "curve,label,x,y\n");
}

#[test]
fn an_error_without_a_detail_has_no_text() {
    let bare = TimecurveError::new(TimecurveErrorKind::MalformedDistanceMatrix, None);
    assert_eq!(bare.kind, TimecurveErrorKind::MalformedDistanceMatrix);
    assert!(bare.info.is_none());
    assert_eq!(bare.to_string(), "");
    let texts = [
        (TimecurveErrorKind::MalformedDistanceMatrix, "Distance matrix is malformed ! (why)"),
        (TimecurveErrorKind::ProjectionIncoherence, "Projection does not match the input ! (why)"),
        (TimecurveErrorKind::EvaluatedOutsideRange, "Tried to evaluate timecurve outside its range ! (why)"),
        (TimecurveErrorKind::InvalidTimeLabel, "Timelabel is invalid ! (why)"),
    ];
    for (kind, text) in texts {
        let error = TimecurveError::new(kind, Some("why"));
        assert_eq!(error.kind, kind);
        assert_eq!(error.info.as_deref(), Some("why"));
        assert_eq!(error.to_string(), text);
    }
}

#[test]
fn a_dataset_keeps_its_name_and_labels() {
    let dataset = Dataset::new("walk", vec!["1".to_string(), "2".to_string()]);
    assert_eq!(dataset.get_name(), "walk");
    assert_eq!(dataset.get_timelabels(), &vec!["1".to_string(), "2".to_string()]);
    let input = InputData::from(vec![vec![0.0, 1.0], vec![1.0, 0.0]], vec![dataset.clone()]);
    assert_eq!(input.get_distance_matrix(), &vec![vec![0.0, 1.0], vec![1.0, 0.0]]);
    assert_eq!(input.get_datasets().len(), 1);
    assert_eq!(input.get_datasets()[0].get_name(), "walk");
}
