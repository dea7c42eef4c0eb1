//! A time curve: the dated observations of one dataset, placed in the plane
//! and joined by a smooth curve.
use vstd::prelude::*;
use crate::error::{TimecurveError, TimecurveErrorKind};
use crate::geometry::{Geometry, Position};
use crate::input::Dataset;
use crate::order::{chronological_order, is_chronological, lemma_chronological_order_unique};
use crate::projection::fails_with;
use crate::time::{label_time, label_to_time};

verus! {

/// What a point of a time curve holds.
pub struct PointModel<S> {
    /// The time label of the observation.
    pub label: Seq<char>,
    /// The time of the observation, in seconds since the Unix epoch.
    pub t: i64,
    /// Where the observation lies.
    pub pos: Position<S>,
    /// The control point on the side of the previous point of the curve.
    pub c_prev: Option<Position<S>>,
    /// The control point on the side of the next point of the curve.
    pub c_next: Option<Position<S>>,
    /// The colour of the point, as red, green and blue.
    pub color: (u8, u8, u8),
}

/// What a time curve holds: its name and its points in order.
pub struct CurveModel<S> {
    /// The name of the dataset that the curve draws.
    pub name: Seq<char>,
    /// The points of the curve.
    pub points: Seq<PointModel<S>>,
}

/// A point of a time curve.
#[derive(Debug)]
pub struct TimecurvePoint<S> {
    label: String,
    t: i64,
    pos: Position<S>,
    c_prev: Option<Position<S>>,
    c_next: Option<Position<S>>,
    color: (u8, u8, u8),
}

impl<S> View for TimecurvePoint<S> {
    type V = PointModel<S>;

    closed spec fn view(&self) -> PointModel<S> {
        PointModel {
            label: self.label@,
            t: self.t,
            pos: self.pos,
            c_prev: self.c_prev,
            c_next: self.c_next,
            color: self.color,
        }
    }
}

impl<S: Copy> TimecurvePoint<S> {
    /// Returns the time label of the point.
    pub fn get_label(&self) -> (label: &str)
        ensures
            label@ == self@.label,
    {
        self.label.as_str()
    }

    /// Returns the time of the point, in seconds since the Unix epoch.
    pub fn get_t(&self) -> (t: i64)
        ensures
            t == self@.t,
    {
        self.t
    }

    /// Returns the position of the point.
    pub fn get_pos(&self) -> (pos: &Position<S>)
        ensures
            *pos == self@.pos,
    {
        &self.pos
    }

    /// Returns the control point on the side of the previous point, if the
    /// point has one.
    pub fn get_c_prev(&self) -> (control: Option<&Position<S>>)
        ensures
            match control {
                Some(c) => self@.c_prev == Some(*c),
                None => self@.c_prev is None,
            },
    {
        self.c_prev.as_ref()
    }

    /// Returns the control point on the side of the next point, if the point
    /// has one.
    pub fn get_c_next(&self) -> (control: Option<&Position<S>>)
        ensures
            match control {
                Some(c) => self@.c_next == Some(*c),
                None => self@.c_next is None,
            },
    {
        self.c_next.as_ref()
    }

    /// Returns the x coordinate of the position of the point.
    pub fn get_pos_x(&self) -> (x: S)
        ensures
            x == self@.pos.x,
    {
        self.pos.get_x()
    }

    /// Returns the y coordinate of the position of the point.
    pub fn get_pos_y(&self) -> (y: S)
        ensures
            y == self@.pos.y,
    {
        self.pos.get_y()
    }

    /// Returns the colour of the point, as red, green and blue.
    pub fn get_color(&self) -> (color: (u8, u8, u8))
        ensures
            color == self@.color,
    {
        self.color
    }

    /// The same point with other control points.
    fn with_controls(&self, c_prev: Option<Position<S>>, c_next: Option<Position<S>>) -> (point: Self)
        ensures
            point@ == (PointModel { c_prev, c_next, ..self@ }),
    {
        TimecurvePoint {
            label: self.label.clone(),
            t: self.t,
            pos: self.pos,
            c_prev,
            c_next,
            color: self.color,
        }
    }

    /// The same point with another colour.
    fn with_color(&self, color: (u8, u8, u8)) -> (point: Self)
        ensures
            point@ == (PointModel { color, ..self@ }),
    {
        TimecurvePoint {
            label: self.label.clone(),
            t: self.t,
            pos: self.pos,
            c_prev: self.c_prev,
            c_next: self.c_next,
            color,
        }
    }

    /// The same point elsewhere, with its control points elsewhere.
    fn moved_to(
        &self,
        pos: Position<S>,
        c_prev: Option<Position<S>>,
        c_next: Option<Position<S>>,
    ) -> (point: Self)
        ensures
            point@ == (PointModel { pos, c_prev, c_next, ..self@ }),
    {
        TimecurvePoint {
            label: self.label.clone(),
            t: self.t,
            pos,
            c_prev,
            c_next,
            color: self.color,
        }
    }

}

impl<S: Copy> Clone for TimecurvePoint<S> {
    fn clone(&self) -> (point: Self)
        ensures
            point@ == self@,
    {
        self.with_color(self.color)
    }
}

/// What each point of a sequence holds.
pub open spec fn point_models<S>(points: Seq<TimecurvePoint<S>>) -> Seq<PointModel<S>> {
    Seq::new(points.len(), |i: int| points[i]@)
}

/// Whether every label is a time.
pub open spec fn labels_valid(labels: Seq<String>) -> bool {
    forall|k: int| 0 <= k < labels.len() ==> label_time((#[trigger] labels[k])@) is Some
}

/// The points of a dataset as they are listed: observation `k` with its label,
/// the time that the label gives, and position `k`; no control points yet, and
/// black.
pub open spec fn listed_points<S>(labels: Seq<String>, positions: Seq<Position<S>>) -> Seq<
    PointModel<S>,
> {
    Seq::new(
        labels.len(),
        |k: int|
            PointModel {
                label: labels[k]@,
                t: label_time(labels[k]@).unwrap(),
                pos: positions[k],
                c_prev: None,
                c_next: None,
                color: (0u8, 0u8, 0u8),
            },
    )
}

/// The times of a sequence of points.
pub open spec fn times_of<S>(points: Seq<PointModel<S>>) -> Seq<i64> {
    Seq::new(points.len(), |k: int| points[k].t)
}

/// The points of `points` in the order `order`.
pub open spec fn reordered<S>(points: Seq<PointModel<S>>, order: Seq<usize>) -> Seq<PointModel<S>> {
    Seq::new(order.len(), |k: int| points[order[k] as int])
}

/// `after` holds the points of `before` in chronological order.
pub open spec fn sorted_from<S>(before: Seq<PointModel<S>>, after: Seq<PointModel<S>>) -> bool {
    exists|order: Seq<usize>|
        is_chronological(times_of(before), order) && after == reordered(before, order)
}

/// Sorting has one outcome: whatever holds the points of `before` in
/// chronological order is the same sequence of points.
pub proof fn lemma_sorted_from_unique<S>(
    before: Seq<PointModel<S>>,
    first: Seq<PointModel<S>>,
    second: Seq<PointModel<S>>,
)
    requires
        sorted_from(before, first),
        sorted_from(before, second),
    ensures
        first == second,
{
    let a = choose|order: Seq<usize>|
        is_chronological(times_of(before), order) && first == reordered(before, order);
    let b = choose|order: Seq<usize>|
        is_chronological(times_of(before), order) && second == reordered(before, order);
    lemma_chronological_order_unique(times_of(before), a, b);
}

/// Whether the points are in ascending order of time.
pub open spec fn ascending<S>(points: Seq<PointModel<S>>) -> bool {
    forall|i: int, j: int| 0 <= i < j < points.len() ==> (#[trigger] points[i]).t <= (#[trigger] points[j]).t
}

/// `after` is the observation `before`, whatever its control points: the
/// same label, time, position and colour.
pub open spec fn same_observation<S>(before: PointModel<S>, after: PointModel<S>) -> bool {
    &&& after.label == before.label
    &&& after.t == before.t
    &&& after.pos == before.pos
    &&& after.color == before.color
}

/// `pair` is what the geometry gives as the control points of the interior
/// point `i` of `points`.
pub open spec fn interior_pair<S: Copy, G: Geometry<S>>(
    g: &G,
    points: Seq<PointModel<S>>,
    i: int,
    pair: (Position<S>, Position<S>),
) -> bool {
    call_ensures(G::interior_controls, (g, points[i - 1].pos, points[i].pos, points[i + 1].pos), pair)
}

/// `control` is what the geometry gives as the control point of the end point
/// `end` that is turned towards `aim`.
pub open spec fn end_pair<S: Copy, G: Geometry<S>>(
    g: &G,
    end: Position<S>,
    aim: Position<S>,
    control: Position<S>,
) -> bool {
    call_ensures(G::end_control, (g, end, aim), control)
}

/// What the control point of the first point is turned towards: the control
/// point that the second point turns back to it, or the second point itself
/// on a curve of two points, where that has none.
pub open spec fn first_aim<S>(after: Seq<PointModel<S>>) -> Position<S> {
    if after.len() >= 3 {
        after[1].c_prev.unwrap()
    } else {
        after[1].pos
    }
}

/// What the control point of the last point is turned towards: the control
/// point that the point before it turns forward to it, or that point itself
/// on a curve of two points.
pub open spec fn last_aim<S>(after: Seq<PointModel<S>>) -> Position<S> {
    if after.len() >= 3 {
        after[after.len() - 2].c_next.unwrap()
    } else {
        after[after.len() - 2].pos
    }
}

/// `after` is `before` with the control points that the geometry `g` gives.
///
/// Every point keeps its label, time, position and colour. An interior point
/// gets the two control points that `g` computes from its neighbours. The
/// first point gets no control point before it, the last none after it; on a
/// curve of two points or more the first gets one after it and the last one
/// before it, each computed by `g` from the end point and what it is turned
/// towards.
pub open spec fn controlled<S: Copy, G: Geometry<S>>(
    g: &G,
    before: Seq<PointModel<S>>,
    after: Seq<PointModel<S>>,
) -> bool {
    let n = before.len() as int;
    &&& after.len() == n
    &&& forall|i: int| 0 <= i < n ==> same_observation(before[i], #[trigger] after[i])
    &&& forall|i: int|
        0 < i < n - 1 ==> (#[trigger] after[i]).c_prev is Some && after[i].c_next is Some
            && interior_pair(g, before, i, (after[i].c_prev.unwrap(), after[i].c_next.unwrap()))
    &&& n >= 1 ==> after[0].c_prev is None && after[n - 1].c_next is None
    &&& n >= 2 ==> after[0].c_next is Some && end_pair(
        g,
        before[0].pos,
        first_aim(after),
        after[0].c_next.unwrap(),
    )
    &&& n >= 2 ==> after[n - 1].c_prev is Some && end_pair(
        g,
        before[n - 1].pos,
        last_aim(after),
        after[n - 1].c_prev.unwrap(),
    )
}

/// Every point but the first has a control point before it, every point but
/// the last has one after it, and no point has another.
pub open spec fn has_controls<S>(points: Seq<PointModel<S>>) -> bool {
    forall|i: int|
        0 <= i < points.len() ==> ((#[trigger] points[i]).c_prev is Some <==> i > 0) && (
        points[i].c_next is Some <==> i < points.len() - 1)
}

/// Once the control points of a curve are computed, the first point has a
/// control point after it and none before it, the last has one before it and
/// none after it, and every point between them has both.
pub proof fn lemma_controlled_has_controls<S: Copy, G: Geometry<S>>(
    g: &G,
    before: Seq<PointModel<S>>,
    after: Seq<PointModel<S>>,
)
    requires
        controlled(g, before, after),
    ensures
        has_controls(after),
        after.len() >= 3 ==> {
            &&& after[0].c_next is Some && after[0].c_prev is None
            &&& after[after.len() - 1].c_prev is Some && after[after.len() - 1].c_next is None
            &&& forall|i: int|
                0 < i < after.len() - 1 ==> (#[trigger] after[i]).c_prev is Some
                    && after[i].c_next is Some
        },
{
}

/// `out` is what the geometry gives as the point at parameter `t` on the
/// segment from `a` to `b`.
pub open spec fn lerps<S: Copy, G: Geometry<S>>(
    g: &G,
    a: Position<S>,
    b: Position<S>,
    t: S,
    out: Position<S>,
) -> bool {
    call_ensures(G::lerp, (g, a, b, t), out)
}

/// `out` is the point at parameter `t` of the cubic Bezier segment with the
/// control points `p0`, `p1`, `p2` and `p3`, by De Casteljau's construction:
/// three points on the three sides of the control polygon, two points on the
/// two segments that join them, and the point on the segment that joins
/// these.
pub open spec fn casteljau<S: Copy, G: Geometry<S>>(
    g: &G,
    p0: Position<S>,
    p1: Position<S>,
    p2: Position<S>,
    p3: Position<S>,
    t: S,
    out: Position<S>,
) -> bool {
    exists|a: Position<S>, b: Position<S>, c: Position<S>, d: Position<S>, e: Position<S>|
        #![trigger lerps(g, a, b, t, d), lerps(g, b, c, t, e)]
        {
            &&& lerps(g, p0, p1, t, a)
            &&& lerps(g, p1, p2, t, b)
            &&& lerps(g, p2, p3, t, c)
            &&& lerps(g, a, b, t, d)
            &&& lerps(g, b, c, t, e)
            &&& lerps(g, d, e, t, out)
        }
}

/// The point that ends the segment that starts at point `index`: the next
/// point, or the point itself if it is the last.
pub open spec fn segment_end<S>(points: Seq<PointModel<S>>, index: int) -> int {
    if index + 1 < points.len() {
        index + 1
    } else {
        index
    }
}

/// `result` is the curve through `points` evaluated at the point `index`
/// (where `fraction` is `None`) or at the parameter `fraction` of the segment
/// that starts there.
///
/// At a point the result is its position. Within a segment it is the point
/// of the Bezier segment between the two end points and their control points.
/// It is `EvaluatedOutsideRange` where there is no point `index`, or a
/// control point of the segment is missing.
pub open spec fn evaluated_at<S: Copy, G: Geometry<S>>(
    g: &G,
    points: Seq<PointModel<S>>,
    index: int,
    fraction: Option<S>,
    result: Result<Position<S>, TimecurveError>,
) -> bool {
    if index >= points.len() {
        fails_with(result, TimecurveErrorKind::EvaluatedOutsideRange)
    } else {
        match fraction {
            None => result == Ok::<Position<S>, TimecurveError>(points[index].pos),
            Some(t) => {
                let end = segment_end(points, index);
                if points[index].c_next is Some && points[end].c_prev is Some {
                    result matches Ok(p) && casteljau(
                        g,
                        points[index].pos,
                        points[index].c_next.unwrap(),
                        points[end].c_prev.unwrap(),
                        points[end].pos,
                        t,
                        p,
                    )
                } else {
                    fails_with(result, TimecurveErrorKind::EvaluatedOutsideRange)
                }
            },
        }
    }
}

/// `after` is the control point `before` moved by `image`, where there is
/// one.
pub open spec fn control_moved<S>(
    before: Option<Position<S>>,
    after: Option<Position<S>>,
    image: spec_fn(Position<S>, Position<S>) -> bool,
) -> bool {
    match before {
        Some(p) => after matches Some(q) && image(p, q),
        None => after is None,
    }
}

/// `after` is the point `before` with its position and each of its control
/// points moved by `image`; the label, the time and the colour are kept.
pub open spec fn point_moved<S>(
    before: PointModel<S>,
    after: PointModel<S>,
    image: spec_fn(Position<S>, Position<S>) -> bool,
) -> bool {
    &&& after.label == before.label
    &&& after.t == before.t
    &&& after.color == before.color
    &&& image(before.pos, after.pos)
    &&& control_moved(before.c_prev, after.c_prev, image)
    &&& control_moved(before.c_next, after.c_next, image)
}

/// `after` holds the points of `before`, each moved by `image`.
pub open spec fn points_moved<S>(
    before: Seq<PointModel<S>>,
    after: Seq<PointModel<S>>,
    image: spec_fn(Position<S>, Position<S>) -> bool,
) -> bool {
    &&& after.len() == before.len()
    &&& forall|i: int| 0 <= i < before.len() ==> point_moved(before[i], #[trigger] after[i], image)
}

/// The rotation by `angle` about the origin, as the geometry `g` computes
/// it: `q` is an image of `p`.
pub open spec fn rotation<S: Copy, G: Geometry<S>>(g: &G, angle: S) -> spec_fn(
    Position<S>,
    Position<S>,
) -> bool {
    |p: Position<S>, q: Position<S>| call_ensures(G::rotate, (g, angle, p), q)
}

/// The change of scale that sends `min` to the origin and lengths of `range`
/// to one, as the geometry `g` computes it: each coordinate is placed on its
/// own axis, which starts at the coordinate of `min`, and both axes have the
/// same unit `range`.
pub open spec fn scaling<S: Copy, G: Geometry<S>>(g: &G, min: Position<S>, range: S) -> spec_fn(
    Position<S>,
    Position<S>,
) -> bool {
    |p: Position<S>, q: Position<S>|
        call_ensures(G::scale, (g, p.x, min.x, range), q.x) && call_ensures(
            G::scale,
            (g, p.y, min.y, range),
            q.y,
        )
}

/// `after` holds the points of `before`, each with the colour that the
/// geometry `g` gives it on a curve of colour `base`: a shade of `base` by
/// where its time lies between the times of the first and the last point.
/// Nothing else changes.
pub open spec fn shaded<S: Copy, G: Geometry<S>>(
    g: &G,
    base: (u8, u8, u8),
    before: Seq<PointModel<S>>,
    after: Seq<PointModel<S>>,
) -> bool {
    &&& after.len() == before.len()
    &&& forall|i: int|
        0 <= i < before.len() ==> (#[trigger] after[i]) == (PointModel {
            color: after[i].color,
            ..before[i]
        }) && call_ensures(
            G::shade,
            (g, base, before[i].t, before[0].t, before[before.len() - 1].t),
            after[i].color,
        )
}

/// A time curve.
#[derive(Debug)]
pub struct Timecurve<S> {
    name: String,
    points: Vec<TimecurvePoint<S>>,
}

impl<S> View for Timecurve<S> {
    type V = CurveModel<S>;

    closed spec fn view(&self) -> CurveModel<S> {
        CurveModel { name: self.name@, points: point_models(self.points@) }
    }
}

impl<S: Copy> Clone for Timecurve<S> {
    fn clone(&self) -> (curve: Self)
        ensures
            curve@ == self@,
    {
        let n = self.points.len();
        let mut points: Vec<TimecurvePoint<S>> = Vec::new();
        let mut k: usize = 0;
        while k < n
            invariant
                n == self.points.len(),
                k <= n,
                points.len() == k,
                forall|j: int| 0 <= j < k ==> (#[trigger] points[j])@ == self.points[j]@,
            decreases n - k,
        {
            points.push(self.points[k].clone());
            k += 1;
        }
        let curve = Timecurve { name: self.name.clone(), points };
        assert(curve@.points =~= self@.points);
        curve
    }
}

impl<S: Copy> Timecurve<S> {
    /// Creates a curve without points.
    pub fn new_empty(name: &str) -> (curve: Self)
        ensures
            curve@.name == name@,
            curve@.points.len() == 0,
    {
        Timecurve { name: name.to_owned(), points: Vec::new() }
    }

    /// Creates the curve of a dataset from the positions of its observations,
    /// in the order in which the dataset lists them.
    ///
    /// Fails with `ProjectionIncoherence` unless there is one position for
    /// each label, and else with `InvalidTimeLabel` if a label is not a time.
    pub fn new(dataset: &Dataset, projected_points: &[Position<S>]) -> (result: Result<
        Self,
        TimecurveError,
    >)
        ensures
            projected_points@.len() != dataset.labels().len() ==> fails_with(
                result,
                TimecurveErrorKind::ProjectionIncoherence,
            ),
            projected_points@.len() == dataset.labels().len() && !labels_valid(dataset.labels())
                ==> fails_with(result, TimecurveErrorKind::InvalidTimeLabel),
            projected_points@.len() == dataset.labels().len() && labels_valid(dataset.labels())
                ==> (result matches Ok(curve) && curve@.name == dataset.name() && curve@.points
                == listed_points(dataset.labels(), projected_points@)),
    {
        let labels = dataset.get_timelabels();
        let n = labels.len();
        if projected_points.len() != n {
            return Err(
                TimecurveError::new(
                    TimecurveErrorKind::ProjectionIncoherence,
                    Some("The dataset has not one position for each time label"),
                ),
            );
        }
        let mut points: Vec<TimecurvePoint<S>> = Vec::new();
        let mut i: usize = 0;
        while i < n
            invariant
                labels@ == dataset.labels(),
                n == labels.len(),
                n == projected_points@.len(),
                i <= n,
                points.len() == i,
                forall|k: int| 0 <= k < i ==> label_time((#[trigger] labels[k])@) is Some,
                forall|k: int|
                    0 <= k < i ==> (#[trigger] points[k])@ == listed_points(
                        labels@,
                        projected_points@,
                    )[k],
            decreases n - i,
        {
            let t = match label_to_time(labels[i].as_str()) {
                Ok(t) => t,
                Err(e) => {
                    return Err(e);
                },
            };
            points.push(
                TimecurvePoint {
                    label: labels[i].clone(),
                    t,
                    pos: projected_points[i],
                    c_prev: None,
                    c_next: None,
                    color: (0, 0, 0),
                },
            );
            i += 1;
        }
        let curve = Timecurve { name: dataset.get_name().to_owned(), points };
        assert(curve@.points =~= listed_points(dataset.labels(), projected_points@));
        Ok(curve)
    }

    /// Returns the name of the curve.
    pub fn get_name(&self) -> (name: &str)
        ensures
            name@ == self@.name,
    {
        self.name.as_str()
    }

    /// Returns the points of the curve.
    pub fn get_points(&self) -> (points: &[TimecurvePoint<S>])
        ensures
            point_models(points@) == self@.points,
    {
        self.points.as_slice()
    }

    /// Computes the control points of the curve with the geometry `g`.
    ///
    /// A point between two others gets both its control points from its
    /// neighbours. The first and the last point get one each, turned towards
    /// the control point that their neighbour turns to them; on a curve of
    /// two points, towards the neighbour itself. A curve of fewer points has
    /// no control points.
    pub fn compute_control_points<G: Geometry<S>>(&mut self, g: &G)
        ensures
            final(self)@.name == old(self)@.name,
            controlled(g, old(self)@.points, final(self)@.points),
            has_controls(final(self)@.points),
    {
        let n = self.points.len();
        let ghost before = self@.points;
        let mut inner: Vec<(Position<S>, Position<S>)> = Vec::new();
        let mut i: usize = 1;
        while i + 1 < n
            invariant
                n == self.points.len(),
                before == self@.points,
                1 <= i,
                n >= 2 ==> i <= n - 1,
                n < 2 ==> i == 1,
                inner.len() == i - 1,
                forall|j: int|
                    0 <= j < inner.len() ==> interior_pair(g, before, j + 1, #[trigger] inner[j]),
            decreases n - i,
        {
            let pair = g.interior_controls(
                self.points[i - 1].pos,
                self.points[i].pos,
                self.points[i + 1].pos,
            );
            inner.push(pair);
            i += 1;
        }
        let mut fresh: Vec<TimecurvePoint<S>> = Vec::new();
        let mut k: usize = 0;
        while k < n
            invariant
                n == self.points.len(),
                before == self@.points,
                k <= n,
                fresh.len() == k,
                n >= 2 ==> inner.len() == n - 2,
                forall|j: int|
                    0 <= j < inner.len() ==> interior_pair(g, before, j + 1, #[trigger] inner[j]),
                forall|j: int| 0 <= j < k ==> same_observation(before[j], (#[trigger] fresh[j])@),
                forall|j: int|
                    0 < j < k && j < n - 1 ==> (#[trigger] fresh[j])@.c_prev == Some(inner[j - 1].0)
                        && fresh[j]@.c_next == Some(inner[j - 1].1),
                k >= 1 ==> fresh[0]@.c_prev is None,
                k >= 1 && n == 1 ==> fresh[0]@.c_next is None,
                k >= 1 && n >= 2 ==> fresh[0]@.c_next is Some && end_pair(
                    g,
                    before[0].pos,
                    if n >= 3 {
                        inner[0].0
                    } else {
                        before[1].pos
                    },
                    fresh[0]@.c_next.unwrap(),
                ),
                k == n && n >= 1 ==> fresh[n - 1]@.c_next is None,
                k == n && n >= 2 ==> fresh[n - 1]@.c_prev is Some && end_pair(
                    g,
                    before[n - 1].pos,
                    if n >= 3 {
                        inner[n - 3].1
                    } else {
                        before[n - 2].pos
                    },
                    fresh[n - 1]@.c_prev.unwrap(),
                ),
            decreases n - k,
        {
            let pos = self.points[k].pos;
            let c_prev = if k == 0 {
                None
            } else if k + 1 < n {
                Some(inner[k - 1].0)
            } else {
                let aim = if n >= 3 {
                    inner[n - 3].1
                } else {
                    self.points[n - 2].pos
                };
                Some(g.end_control(pos, aim))
            };
            let c_next = if k + 1 == n {
                None
            } else if k > 0 {
                Some(inner[k - 1].1)
            } else {
                let aim = if n >= 3 {
                    inner[0].0
                } else {
                    self.points[1].pos
                };
                Some(g.end_control(pos, aim))
            };
            fresh.push(self.points[k].with_controls(c_prev, c_next));
            k += 1;
        }
        self.points = fresh;
        proof {
            let after = self@.points;
            assert forall|i: int| 0 < i < n - 1 implies (#[trigger] after[i]).c_prev is Some
                && after[i].c_next is Some && interior_pair(
                g,
                before,
                i,
                (after[i].c_prev.unwrap(), after[i].c_next.unwrap()),
            ) by {
                assert(fresh[i]@.c_prev == Some(inner[i - 1].0));
                assert(interior_pair(g, before, i - 1 + 1, inner[i - 1]));
            }
            if n >= 3 {
                assert(fresh[1]@.c_prev == Some(inner[0].0));
                assert(fresh[n - 2]@.c_next == Some(inner[n - 3].1));
            }
            assert(controlled(g, before, after));
            lemma_controlled_has_controls(g, before, after);
        }
    }

    /// Evaluates the curve at the point `index`, where `fraction` is `None`,
    /// or at the parameter `fraction` of the segment from that point to the
    /// next.
    pub fn evaluate_at<G: Geometry<S>>(&self, index: usize, fraction: Option<S>, g: &G) -> (result:
        Result<Position<S>, TimecurveError>)
        ensures
            evaluated_at(g, self@.points, index as int, fraction, result),
    {
        let n = self.points.len();
        if index >= n {
            return Err(
                TimecurveError::new(
                    TimecurveErrorKind::EvaluatedOutsideRange,
                    Some("there is no such point"),
                ),
            );
        }
        let t = match fraction {
            Some(t) => t,
            None => {
                return Ok(self.points[index].pos);
            },
        };
        let end = if index + 1 < n {
            index + 1
        } else {
            index
        };
        let p0 = self.points[index].pos;
        let p1 = match self.points[index].c_next {
            Some(p) => p,
            None => {
                return Err(
                    TimecurveError::new(
                        TimecurveErrorKind::EvaluatedOutsideRange,
                        Some("c_next is None for the point"),
                    ),
                );
            },
        };
        let p2 = match self.points[end].c_prev {
            Some(p) => p,
            None => {
                return Err(
                    TimecurveError::new(
                        TimecurveErrorKind::EvaluatedOutsideRange,
                        Some("c_prev is None for the next point"),
                    ),
                );
            },
        };
        let p3 = self.points[end].pos;
        let a = g.lerp(p0, p1, t);
        let b = g.lerp(p1, p2, t);
        let c = g.lerp(p2, p3, t);
        let d = g.lerp(a, b, t);
        let e = g.lerp(b, c, t);
        let out = g.lerp(d, e, t);
        assert(lerps(g, a, b, t, d) && lerps(g, b, c, t, e));
        assert(casteljau(g, p0, p1, p2, p3, t, out));
        Ok(out)
    }

    /// Evaluates the curve at the parameter `u`, which runs from 0 at the
    /// first point to the number of points less one at the last: the
    /// geometry `g` splits `u` into a point and a fraction of the segment
    /// that starts there, and the curve is evaluated at these.
    pub fn evaluate<G: Geometry<S>>(&self, u: S, g: &G) -> (result: Result<
        Position<S>,
        TimecurveError,
    >)
        ensures
            exists|index: usize, fraction: Option<S>|
                #![trigger evaluated_at(g, self@.points, index as int, fraction, result)]
                call_ensures(G::locate, (g, u), (index, fraction)) && evaluated_at(
                    g,
                    self@.points,
                    index as int,
                    fraction,
                    result,
                ),
    {
        let (index, fraction) = g.locate(u);
        let result = self.evaluate_at(index, fraction, g);
        assert(evaluated_at(g, self@.points, index as int, fraction, result));
        result
    }

    /// Moves every position of the curve, control points included, by `f`.
    fn move_points<F: Fn(Position<S>) -> Position<S>>(
        &mut self,
        f: F,
        Ghost(image): Ghost<spec_fn(Position<S>, Position<S>) -> bool>,
    )
        requires
            forall|p: Position<S>| #[trigger] f.requires((p,)),
            forall|p: Position<S>, q: Position<S>| #[trigger] f.ensures((p,), q) ==> image(p, q),
        ensures
            final(self)@.name == old(self)@.name,
            points_moved(old(self)@.points, final(self)@.points, image),
    {
        let n = self.points.len();
        let ghost before = self@.points;
        let mut fresh: Vec<TimecurvePoint<S>> = Vec::new();
        let mut k: usize = 0;
        while k < n
            invariant
                n == self.points.len(),
                before == self@.points,
                k <= n,
                fresh.len() == k,
                forall|p: Position<S>| #[trigger] f.requires((p,)),
                forall|p: Position<S>, q: Position<S>| #[trigger]
                    f.ensures((p,), q) ==> image(p, q),
                forall|j: int| 0 <= j < k ==> point_moved(before[j], (#[trigger] fresh[j])@, image),
            decreases n - k,
        {
            let point = &self.points[k];
            let pos = f(point.pos);
            let c_prev = match point.c_prev {
                Some(c) => Some(f(c)),
                None => None,
            };
            let c_next = match point.c_next {
                Some(c) => Some(f(c)),
                None => None,
            };
            fresh.push(point.moved_to(pos, c_prev, c_next));
            k += 1;
        }
        self.points = fresh;
    }

    /// Rotates every point of the curve, and every control point, by `angle`
    /// about the origin.
    pub fn rotate_points_around_origin<G: Geometry<S>>(&mut self, angle: S, g: &G)
        ensures
            final(self)@.name == old(self)@.name,
            points_moved(old(self)@.points, final(self)@.points, rotation(g, angle)),
    {
        let turn = |p: Position<S>| -> (q: Position<S>)
            ensures
                call_ensures(G::rotate, (g, angle, p), q),
            { g.rotate(angle, p) };
        self.move_points(turn, Ghost(rotation(g, angle)));
    }

    /// Brings every point of the curve, and every control point, to the scale
    /// on which `min` is the origin and `range` is the unit of both axes.
    pub fn normalise_points<G: Geometry<S>>(&mut self, min: Position<S>, range: S, g: &G)
        ensures
            final(self)@.name == old(self)@.name,
            points_moved(old(self)@.points, final(self)@.points, scaling(g, min, range)),
    {
        let place = |p: Position<S>| -> (q: Position<S>)
            ensures
                call_ensures(G::scale, (g, p.x, min.x, range), q.x),
                call_ensures(G::scale, (g, p.y, min.y, range), q.y),
            {
                let x = g.scale(p.x, min.x, range);
                let y = g.scale(p.y, min.y, range);
                Position { x, y }
            };
        self.move_points(place, Ghost(scaling(g, min, range)));
    }

    /// Colours the points of the curve in shades of `base`, by their times
    /// between those of the first and the last point.
    pub fn shade_points<G: Geometry<S>>(&mut self, base: (u8, u8, u8), g: &G)
        ensures
            final(self)@.name == old(self)@.name,
            shaded(g, base, old(self)@.points, final(self)@.points),
    {
        let n = self.points.len();
        if n == 0 {
            return ;
        }
        let oldest = self.points[0].t;
        let newest = self.points[n - 1].t;
        let ghost before = self@.points;
        let mut fresh: Vec<TimecurvePoint<S>> = Vec::new();
        let mut k: usize = 0;
        while k < n
            invariant
                n == self.points.len(),
                n > 0,
                before == self@.points,
                oldest == before[0].t,
                newest == before[n - 1].t,
                k <= n,
                fresh.len() == k,
                forall|j: int|
                    0 <= j < k ==> (#[trigger] fresh[j])@ == (PointModel {
                        color: fresh[j]@.color,
                        ..before[j]
                    }) && call_ensures(
                        G::shade,
                        (g, base, before[j].t, oldest, newest),
                        fresh[j]@.color,
                    ),
            decreases n - k,
        {
            let color = g.shade(base, self.points[k].t, oldest, newest);
            fresh.push(self.points[k].with_color(color));
            k += 1;
        }
        self.points = fresh;
    }

    /// Puts the points in chronological order: ascending in time, points of
    /// the same time in the order in which they were.
    pub fn sort_by_time(&mut self)
        ensures
            final(self)@.name == old(self)@.name,
            sorted_from(old(self)@.points, final(self)@.points),
            final(self)@.points.len() == old(self)@.points.len(),
            ascending(final(self)@.points),
    {
        let n = self.points.len();
        let mut times: Vec<i64> = Vec::new();
        let mut i: usize = 0;
        while i < n
            invariant
                n == self.points.len(),
                i <= n,
                times.len() == i,
                forall|k: int| 0 <= k < i ==> (#[trigger] times[k]) == self.points[k]@.t,
            decreases n - i,
        {
            times.push(self.points[i].t);
            i += 1;
        }
        assert(times@ =~= times_of(self@.points));
        let order = chronological_order(&times);
        let mut sorted: Vec<TimecurvePoint<S>> = Vec::new();
        let mut k: usize = 0;
        while k < n
            invariant
                n == self.points.len(),
                n == order.len(),
                k <= n,
                sorted.len() == k,
                is_chronological(times@, order@),
                times@.len() == n,
                forall|j: int| 0 <= j < k ==> (#[trigger] sorted[j])@ == self.points[order[j] as int]@,
            decreases n - k,
        {
            sorted.push(self.points[order[k]].clone());
            k += 1;
        }
        let ghost before = self@.points;
        self.points = sorted;
        proof {
            assert(self@.points =~= reordered(before, order@));
            assert forall|a: int, b: int| 0 <= a < b < self@.points.len() implies (
            #[trigger] self@.points[a]).t <= (#[trigger] self@.points[b]).t by {
                assert(crate::order::precedes(times@, order@[a] as int, order@[b] as int));
            }
        }
    }
}

} // verus!
