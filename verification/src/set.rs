//! A set of time curves that share one plane.
use vstd::prelude::*;
use crate::error::{TimecurveError, TimecurveErrorKind};
use crate::geometry::{Geometry, Position};
use crate::input::{labels_before, matrix_rows, total_labels, Dataset, InputData};
use crate::projection::{checked_projection, fails_with, is_square, matrix_dimension, ProjectionAlgorithm};
use crate::order::{is_chronological, precedes};
use crate::time::label_time;
use crate::timecurve::{
    ascending, controlled, has_controls, labels_valid, lemma_controlled_has_controls, listed_points,
    point_models, point_moved, points_moved, reordered, rotation, same_observation, scaling, shaded,
    sorted_from, times_of, CurveModel, PointModel, Timecurve,
};

verus! {

/// What each curve of a sequence holds.
pub open spec fn curve_models<S>(curves: Seq<Timecurve<S>>) -> Seq<CurveModel<S>> {
    Seq::new(curves.len(), |i: int| curves[i]@)
}

/// Whether every label of every dataset is a time.
pub open spec fn all_labels_valid(datasets: Seq<Dataset>) -> bool {
    forall|c: int| 0 <= c < datasets.len() ==> labels_valid((#[trigger] datasets[c]).labels())
}

/// The positions of the observations of dataset `c`: the datasets share the
/// projected positions in their own order, each taking as many as it has
/// labels.
pub open spec fn positions_of_dataset<S>(
    datasets: Seq<Dataset>,
    positions: Seq<Position<S>>,
    c: int,
) -> Seq<Position<S>> {
    positions.subrange(labels_before(datasets, c), labels_before(datasets, c + 1))
}

/// `curve` is the curve of `dataset` over the positions `positions`: it has
/// the name of the dataset and its observations in chronological order, with
/// the control points that the geometry `g` gives them.
pub open spec fn curve_built<S: Copy, G: Geometry<S>>(
    g: &G,
    dataset: Dataset,
    positions: Seq<Position<S>>,
    curve: CurveModel<S>,
) -> bool {
    &&& curve.name == dataset.name()
    &&& exists|sorted: Seq<PointModel<S>>|
        #![trigger controlled(g, sorted, curve.points)]
        sorted_from(listed_points(dataset.labels(), positions), sorted) && controlled(
            g,
            sorted,
            curve.points,
        )
}

/// `curves` holds the curve of each dataset, in the order of the datasets.
pub open spec fn curves_built<S: Copy, G: Geometry<S>>(
    g: &G,
    datasets: Seq<Dataset>,
    positions: Seq<Position<S>>,
    curves: Seq<CurveModel<S>>,
) -> bool {
    &&& curves.len() == datasets.len()
    &&& forall|c: int|
        0 <= c < datasets.len() ==> curve_built(
            g,
            datasets[c],
            positions_of_dataset(datasets, positions, c),
            #[trigger] curves[c],
        )
}

/// `after` holds the curves of `before`, every position of every curve moved
/// by `image`.
pub open spec fn curves_moved<S>(
    before: Seq<CurveModel<S>>,
    after: Seq<CurveModel<S>>,
    image: spec_fn(Position<S>, Position<S>) -> bool,
) -> bool {
    &&& after.len() == before.len()
    &&& forall|c: int|
        0 <= c < before.len() ==> (#[trigger] after[c]).name == before[c].name && points_moved(
            before[c].points,
            after[c].points,
            image,
        )
}

/// `after` is `before` turned about the origin so that the first curve ends
/// on the horizontal on which it starts: every curve is rotated by the angle
/// that the geometry `g` gives for the first and the last point of the first
/// curve. A set without curves, or whose first curve has fewer than two
/// points, is left as it is.
pub open spec fn aligned<S: Copy, G: Geometry<S>>(
    g: &G,
    before: Seq<CurveModel<S>>,
    after: Seq<CurveModel<S>>,
) -> bool {
    if before.len() == 0 || before[0].points.len() < 2 {
        after == before
    } else {
        exists|angle: S|
            #![trigger rotation(g, angle)]
            call_ensures(
                G::heading,
                (g, before[0].points[0].pos, before[0].points[before[0].points.len() - 1].pos),
                angle,
            ) && curves_moved(before, after, rotation(g, angle))
    }
}

/// The least and the greatest coordinate on each axis.
pub struct Extent<S> {
    /// The least x coordinate.
    pub x_min: S,
    /// The greatest x coordinate.
    pub x_max: S,
    /// The least y coordinate.
    pub y_min: S,
    /// The greatest y coordinate.
    pub y_max: S,
}

/// `after` is the extent `before` widened to hold the position `p`: each
/// bound is what the geometry `g` gives as the smaller, or the larger, of the
/// bound and the coordinate of `p`.
pub open spec fn widened<S: Copy, G: Geometry<S>>(
    g: &G,
    before: Extent<S>,
    p: Position<S>,
    after: Extent<S>,
) -> bool {
    &&& call_ensures(G::lower, (g, before.x_min, p.x), after.x_min)
    &&& call_ensures(G::upper, (g, before.x_max, p.x), after.x_max)
    &&& call_ensures(G::lower, (g, before.y_min, p.y), after.y_min)
    &&& call_ensures(G::upper, (g, before.y_max, p.y), after.y_max)
}

/// `out` is the extent `start` widened to hold each of `positions` in turn.
pub open spec fn extent_over<S: Copy, G: Geometry<S>>(
    g: &G,
    start: Extent<S>,
    positions: Seq<Position<S>>,
    out: Extent<S>,
) -> bool
    decreases positions.len(),
{
    if positions.len() == 0 {
        out == start
    } else {
        exists|mid: Extent<S>|
            #![trigger widened(g, mid, positions.last(), out)]
            extent_over(g, start, positions.drop_last(), mid) && widened(
                g,
                mid,
                positions.last(),
                out,
            )
    }
}

/// The positions of a sequence of points, control points left out.
pub open spec fn positions_of<S>(points: Seq<PointModel<S>>) -> Seq<Position<S>> {
    Seq::new(points.len(), |i: int| points[i].pos)
}

/// The positions of the points of the first `count` curves, curve after
/// curve.
pub open spec fn positions_before<S>(curves: Seq<CurveModel<S>>, count: int) -> Seq<Position<S>>
    decreases count,
{
    if count <= 0 {
        Seq::empty()
    } else {
        positions_before(curves, count - 1) + positions_of(curves[count - 1].points)
    }
}

/// `after` is `before` brought to the unit square, by way of the given
/// values: `extent` is the extent of all the points of all the curves,
/// started from `top` and `bottom`; `min` and `max` are the smaller of its
/// two lower bounds and the larger of its two upper bounds, and `range` the
/// width from `min` to `max`; and every position of every curve is placed on
/// axes that start at the lower bounds of `extent` and have the unit `range`.
pub open spec fn normalised_with<S: Copy, G: Geometry<S>>(
    g: &G,
    before: Seq<CurveModel<S>>,
    after: Seq<CurveModel<S>>,
    top: S,
    bottom: S,
    extent: Extent<S>,
    min: S,
    max: S,
    range: S,
) -> bool {
    &&& call_ensures(G::unbounded_above, (g,), top)
    &&& call_ensures(G::unbounded_below, (g,), bottom)
    &&& extent_over(
        g,
        Extent { x_min: top, x_max: bottom, y_min: top, y_max: bottom },
        positions_before(before, before.len() as int),
        extent,
    )
    &&& call_ensures(G::lower, (g, extent.x_min, extent.y_min), min)
    &&& call_ensures(G::upper, (g, extent.x_max, extent.y_max), max)
    &&& call_ensures(G::span, (g, min, max), range)
    &&& curves_moved(
        before,
        after,
        scaling(g, Position { x: extent.x_min, y: extent.y_min }, range),
    )
}

/// `after` is `before` brought to the unit square: all the curves are
/// scaled together, by the extent of their points alone, and by the same
/// factor on both axes.
pub open spec fn normalised<S: Copy, G: Geometry<S>>(
    g: &G,
    before: Seq<CurveModel<S>>,
    after: Seq<CurveModel<S>>,
) -> bool {
    exists|top: S, bottom: S, extent: Extent<S>, min: S, max: S, range: S|
        #![trigger normalised_with(g, before, after, top, bottom, extent, min, max, range)]
        normalised_with(g, before, after, top, bottom, extent, min, max, range)
}

/// The colour of the curve at a given place in the set: orange, blue and
/// green in turn.
pub open spec fn palette_entry(index: int) -> (u8, u8, u8) {
    if index % 3 == 0 {
        (255u8, 105u8, 22u8)
    } else if index % 3 == 1 {
        (34u8, 130u8, 251u8)
    } else {
        (149u8, 221u8, 60u8)
    }
}

/// `after` holds the curves of `before`, each coloured in shades of the
/// colour of its place in the set.
pub open spec fn coloured<S: Copy, G: Geometry<S>>(
    g: &G,
    before: Seq<CurveModel<S>>,
    after: Seq<CurveModel<S>>,
) -> bool {
    &&& after.len() == before.len()
    &&& forall|c: int|
        0 <= c < before.len() ==> (#[trigger] after[c]).name == before[c].name && shaded(
            g,
            palette_entry(c),
            before[c].points,
            after[c].points,
        )
}

/// `set` is assembled from the datasets and the projected positions by way
/// of the given stages: the curves are built, then aligned, then normalised,
/// then coloured.
pub open spec fn assembled_through<S: Copy, G: Geometry<S>>(
    g: &G,
    datasets: Seq<Dataset>,
    positions: Seq<Position<S>>,
    built: Seq<CurveModel<S>>,
    turned: Seq<CurveModel<S>>,
    scaled: Seq<CurveModel<S>>,
    set: Seq<CurveModel<S>>,
) -> bool {
    &&& curves_built(g, datasets, positions, built)
    &&& aligned(g, built, turned)
    &&& normalised(g, turned, scaled)
    &&& coloured(g, scaled, set)
}

/// `set` is the set of time curves of the datasets over the projected
/// positions, with the geometry `g`.
pub open spec fn assembled<S: Copy, G: Geometry<S>>(
    g: &G,
    datasets: Seq<Dataset>,
    positions: Seq<Position<S>>,
    set: Seq<CurveModel<S>>,
) -> bool {
    exists|built: Seq<CurveModel<S>>, turned: Seq<CurveModel<S>>, scaled: Seq<CurveModel<S>>|
        #![trigger assembled_through(g, datasets, positions, built, turned, scaled, set)]
        assembled_through(g, datasets, positions, built, turned, scaled, set)
}

/// What assembling the datasets over the projected positions gives:
/// `ProjectionIncoherence` unless there is one position for each label of
/// the datasets together; else `InvalidTimeLabel` if a label is not a time;
/// else the set of their curves.
pub open spec fn assembly<S: Copy, G: Geometry<S>>(
    g: &G,
    datasets: Seq<Dataset>,
    positions: Seq<Position<S>>,
    result: Result<TimecurveSet<S>, TimecurveError>,
) -> bool {
    if total_labels(datasets) != positions.len() {
        fails_with(result, TimecurveErrorKind::ProjectionIncoherence)
    } else if !all_labels_valid(datasets) {
        fails_with(result, TimecurveErrorKind::InvalidTimeLabel)
    } else {
        result matches Ok(set) && assembled(g, datasets, positions, set@)
    }
}

/// What is made of the outcome of a projection of a distance matrix of
/// dimension `dimension`: an error of the projection is handed on; a
/// projection that has not one position for each row of the matrix is refused
/// with `ProjectionIncoherence`; and the curves are assembled from one that
/// has.
pub open spec fn from_projection_result<S: Copy, G: Geometry<S>>(
    g: &G,
    dimension: nat,
    datasets: Seq<Dataset>,
    projection: Result<Vec<Position<S>>, TimecurveError>,
    result: Result<TimecurveSet<S>, TimecurveError>,
) -> bool {
    match projection {
        Err(e) => result matches Err(handed) && handed == e,
        Ok(points) => if points.len() != dimension {
            fails_with(result, TimecurveErrorKind::ProjectionIncoherence)
        } else {
            assembly(g, datasets, points@, result)
        },
    }
}

/// A set of time curves in one plane, in the order of their datasets.
#[derive(Debug)]
pub struct TimecurveSet<S> {
    curves: Vec<Timecurve<S>>,
}

impl<S> View for TimecurveSet<S> {
    type V = Seq<CurveModel<S>>;

    closed spec fn view(&self) -> Seq<CurveModel<S>> {
        curve_models(self.curves@)
    }
}

impl<S: Copy> TimecurveSet<S> {
    /// Puts curves together as they are: nothing is sorted, aligned, scaled
    /// or coloured.
    pub fn from_curves(curves: Vec<Timecurve<S>>) -> (set: Self)
        ensures
            set@ == curve_models(curves@),
    {
        TimecurveSet { curves }
    }

    /// Returns the curves of the set.
    pub fn get_curves(&self) -> (curves: &[Timecurve<S>])
        ensures
            curve_models(curves@) == self@,
    {
        self.curves.as_slice()
    }

    /// Builds the set of time curves of the datasets of `input_data`: the
    /// distance matrix is projected onto the plane by `proj_algo`, and the
    /// curves are assembled from the projected positions with the geometry
    /// `g`.
    ///
    /// A distance matrix that is not square is refused with
    /// `MalformedDistanceMatrix` before anything is projected. An error of
    /// `proj_algo` is handed on. A projection that has not one position for
    /// each row of the matrix is refused with `ProjectionIncoherence`. What
    /// is made of a projection that has is said by [`assembly`].
    pub fn new<P: ProjectionAlgorithm<S>, G: Geometry<S>>(
        input_data: &InputData<S>,
        proj_algo: P,
        g: &G,
    ) -> (result: Result<Self, TimecurveError>)
        ensures
            !is_square(matrix_rows(input_data.matrix())) ==> fails_with(
                result,
                TimecurveErrorKind::MalformedDistanceMatrix,
            ),
            is_square(matrix_rows(input_data.matrix())) ==> exists|
                projection: Result<Vec<Position<S>>, TimecurveError>,
            |
                #![trigger call_ensures(P::project, (&proj_algo, &input_data.distance_matrix()), projection)]
                call_ensures(
                    P::project,
                    (&proj_algo, &input_data.distance_matrix()),
                    projection,
                ) && from_projection_result(
                    g,
                    input_data.matrix().len(),
                    input_data.datasets(),
                    projection,
                    result,
                ),
    {
        let matrix = input_data.get_distance_matrix();
        let dimension = match matrix_dimension(matrix) {
            Ok(n) => n,
            Err(e) => {
                return Err(e);
            },
        };
        let projection = proj_algo.project(matrix);
        let result = Self::from_projection_of(dimension, input_data.get_datasets(), projection, g);
        assert(call_ensures(P::project, (&proj_algo, &input_data.distance_matrix()), projection));
        result
    }

    /// Builds the set of time curves from what a projection of a distance
    /// matrix of dimension `dimension` returned.
    ///
    /// An error of the projection is handed on. A projection that has not one
    /// position for each row of the matrix is refused with
    /// `ProjectionIncoherence`. The curves are assembled from one that has.
    pub fn from_projection_of<G: Geometry<S>>(
        dimension: usize,
        datasets: &Vec<Dataset>,
        projection: Result<Vec<Position<S>>, TimecurveError>,
        g: &G,
    ) -> (result: Result<Self, TimecurveError>)
        ensures
            from_projection_result(g, dimension as nat, datasets@, projection, result),
    {
        let projected = match projection {
            Ok(points) => points,
            Err(e) => {
                return Err(e);
            },
        };
        let points = match checked_projection(dimension, projected) {
            Ok(points) => points,
            Err(e) => {
                return Err(e);
            },
        };
        Self::from_projection(datasets, &points, g)
    }

    /// Assembles the set of time curves of the datasets over the projected
    /// positions of their observations, with the geometry `g`.
    ///
    /// The datasets share the positions in their own order. The curve of each
    /// is built from its observations in chronological order and given its
    /// control points; then the curves are aligned, normalised and coloured
    /// together. Either the whole set is built or nothing is:
    /// `ProjectionIncoherence` unless there is one position for each label,
    /// else `InvalidTimeLabel` if a label is not a time.
    pub fn from_projection<G: Geometry<S>>(
        datasets: &Vec<Dataset>,
        projected_points: &Vec<Position<S>>,
        g: &G,
    ) -> (result: Result<Self, TimecurveError>)
        ensures
            assembly(g, datasets@, projected_points@, result),
    {
        let count = datasets.len();
        let total = projected_points.len();
        // One position for each label, or nothing is built.
        let mut offset: usize = 0;
        let mut c: usize = 0;
        while c < count
            invariant
                count == datasets.len(),
                total == projected_points.len(),
                c <= count,
                offset == labels_before(datasets@, c as int),
                offset <= total,
            decreases count - c,
        {
            let len = datasets[c].get_timelabels().len();
            if len > total - offset {
                proof {
                    lemma_labels_before_grows(datasets@, c as int + 1, count as int);
                }
                return Err(
                    TimecurveError::new(
                        TimecurveErrorKind::ProjectionIncoherence,
                        Some("The datasets have more time labels than there are projected points"),
                    ),
                );
            }
            offset += len;
            c += 1;
        }
        if offset != total {
            return Err(
                TimecurveError::new(
                    TimecurveErrorKind::ProjectionIncoherence,
                    Some("The datasets have fewer time labels than there are projected points"),
                ),
            );
        }
        let mut curves: Vec<Timecurve<S>> = Vec::new();
        offset = 0;
        c = 0;
        while c < count
            invariant
                count == datasets.len(),
                total == projected_points.len(),
                total == total_labels(datasets@),
                c <= count,
                offset == labels_before(datasets@, c as int),
                offset <= total,
                curves.len() == c,
                forall|d: int| 0 <= d < c ==> labels_valid((#[trigger] datasets[d]).labels()),
                forall|d: int|
                    0 <= d < c ==> curve_built(
                        g,
                        datasets[d],
                        positions_of_dataset(datasets@, projected_points@, d),
                        (#[trigger] curves[d])@,
                    ),
            decreases count - c,
        {
            let dataset = &datasets[c];
            let len = dataset.get_timelabels().len();
            proof {
                lemma_labels_before_grows(datasets@, c as int + 1, count as int);
            }
            let positions = vstd::slice::slice_subrange(
                projected_points.as_slice(),
                offset,
                offset + len,
            );
            assert(positions@ == positions_of_dataset(datasets@, projected_points@, c as int));
            let mut curve = match Timecurve::new(dataset, positions) {
                Ok(curve) => curve,
                Err(e) => {
                    return Err(e);
                },
            };
            curve.sort_by_time();
            curve.compute_control_points(g);
            assert(curve_built(g, datasets[c as int], positions@, curve@));
            curves.push(curve);
            offset += len;
            c += 1;
        }
        let mut set = TimecurveSet { curves };
        let ghost built = set@;
        assert(curves_built(g, datasets@, projected_points@, built));
        set.align(g);
        let ghost turned = set@;
        set.normalise(g);
        let ghost scaled = set@;
        set.update_colors(g);
        assert(assembled_through(g, datasets@, projected_points@, built, turned, scaled, set@));
        Ok(set)
    }

    /// Turns the set about the origin so that the first curve ends on the
    /// horizontal on which it starts. A set without curves, or whose first
    /// curve has fewer than two points, is left as it is.
    pub fn align<G: Geometry<S>>(&mut self, g: &G)
        ensures
            aligned(g, old(self)@, final(self)@),
    {
        let count = self.curves.len();
        if count == 0 {
            return ;
        }
        let points = self.curves[0].get_points();
        let n = points.len();
        if n < 2 {
            return ;
        }
        assert(point_models(points@)[0] == points@[0]@);
        assert(point_models(points@)[n - 1] == points@[n - 1]@);
        let angle = g.heading(*points[0].get_pos(), *points[n - 1].get_pos());
        let ghost before = self@;
        let mut fresh: Vec<Timecurve<S>> = Vec::new();
        let mut c: usize = 0;
        while c < count
            invariant
                count == self.curves.len(),
                before == self@,
                c <= count,
                fresh.len() == c,
                forall|d: int|
                    0 <= d < c ==> (#[trigger] fresh[d])@.name == before[d].name && points_moved(
                        before[d].points,
                        fresh[d]@.points,
                        rotation(g, angle),
                    ),
            decreases count - c,
        {
            let mut curve = self.curves[c].clone();
            curve.rotate_points_around_origin(angle, g);
            fresh.push(curve);
            c += 1;
        }
        self.curves = fresh;
        assert(curves_moved(before, self@, rotation(g, angle)));
    }

    /// Brings the set to the unit square: all the curves are scaled
    /// together, by the extent of their points alone, and by the same factor
    /// on both axes.
    pub fn normalise<G: Geometry<S>>(&mut self, g: &G)
        ensures
            normalised(g, old(self)@, final(self)@),
    {
        let count = self.curves.len();
        let ghost before = self@;
        let top = g.unbounded_above();
        let bottom = g.unbounded_below();
        let ghost start = Extent { x_min: top, x_max: bottom, y_min: top, y_max: bottom };
        let mut extent = Extent { x_min: top, x_max: bottom, y_min: top, y_max: bottom };
        let mut c: usize = 0;
        while c < count
            invariant
                count == self.curves.len(),
                before == self@,
                c <= count,
                extent_over(g, start, positions_before(before, c as int), extent),
            decreases count - c,
        {
            let points = self.curves[c].get_points();
            let n = points.len();
            let ghost seen = positions_before(before, c as int);
            let ghost here = positions_of(before[c as int].points);
            assert(seen + here.take(0) =~= seen);
            let mut k: usize = 0;
            while k < n
                invariant
                    n == points@.len(),
                    point_models(points@) == before[c as int].points,
                    here == positions_of(before[c as int].points),
                    k <= n,
                    extent_over(g, start, seen + here.take(k as int), extent),
                decreases n - k,
            {
                let p = *points[k].get_pos();
                assert(point_models(points@)[k as int] == points@[k as int]@);
                let ghost mid = extent;
                extent =
                Extent {
                    x_min: g.lower(extent.x_min, p.x),
                    x_max: g.upper(extent.x_max, p.x),
                    y_min: g.lower(extent.y_min, p.y),
                    y_max: g.upper(extent.y_max, p.y),
                };
                proof {
                    let longer = seen + here.take(k as int + 1);
                    assert(longer.drop_last() =~= seen + here.take(k as int));
                    assert(longer.last() == p);
                    assert(widened(g, mid, longer.last(), extent));
                }
                k += 1;
            }
            assert(here.take(n as int) =~= here);
            c += 1;
        }
        let min = g.lower(extent.x_min, extent.y_min);
        let max = g.upper(extent.x_max, extent.y_max);
        let range = g.span(min, max);
        let origin = Position { x: extent.x_min, y: extent.y_min };
        let mut fresh: Vec<Timecurve<S>> = Vec::new();
        let mut c: usize = 0;
        while c < count
            invariant
                count == self.curves.len(),
                before == self@,
                c <= count,
                fresh.len() == c,
                forall|d: int|
                    0 <= d < c ==> (#[trigger] fresh[d])@.name == before[d].name && points_moved(
                        before[d].points,
                        fresh[d]@.points,
                        scaling(g, origin, range),
                    ),
            decreases count - c,
        {
            let mut curve = self.curves[c].clone();
            curve.normalise_points(origin, range, g);
            fresh.push(curve);
            c += 1;
        }
        self.curves = fresh;
        assert(curves_moved(before, self@, scaling(g, origin, range)));
        assert(normalised_with(g, before, self@, top, bottom, extent, min, max, range));
    }

    /// Colours every curve in shades of the colour of its place in the set,
    /// the later a point the darker.
    pub fn update_colors<G: Geometry<S>>(&mut self, g: &G)
        ensures
            coloured(g, old(self)@, final(self)@),
    {
        let count = self.curves.len();
        let ghost before = self@;
        let mut fresh: Vec<Timecurve<S>> = Vec::new();
        let mut c: usize = 0;
        while c < count
            invariant
                count == self.curves.len(),
                before == self@,
                c <= count,
                fresh.len() == c,
                forall|d: int|
                    0 <= d < c ==> (#[trigger] fresh[d])@.name == before[d].name && shaded(
                        g,
                        palette_entry(d),
                        before[d].points,
                        fresh[d]@.points,
                    ),
            decreases count - c,
        {
            let mut curve = self.curves[c].clone();
            curve.shade_points(curve_base_color(c), g);
            fresh.push(curve);
            c += 1;
        }
        self.curves = fresh;
    }
}

/// `after` dates and labels its points as `before` does, and has control
/// points where `before` has them.
pub open spec fn same_outline<S>(before: Seq<PointModel<S>>, after: Seq<PointModel<S>>) -> bool {
    &&& after.len() == before.len()
    &&& forall|i: int|
        0 <= i < before.len() ==> {
            &&& (#[trigger] after[i]).label == before[i].label
            &&& after[i].t == before[i].t
            &&& after[i].c_prev is Some <==> before[i].c_prev is Some
            &&& after[i].c_next is Some <==> before[i].c_next is Some
        }
}

/// Whether every point is dated as its label says.
pub open spec fn dated_by_labels<S>(points: Seq<PointModel<S>>) -> bool {
    forall|i: int| 0 <= i < points.len() ==> label_time((#[trigger] points[i]).label) == Some(points[i].t)
}

/// Moving the points of a curve keeps their labels and times, and which of
/// them have control points.
pub proof fn lemma_points_moved_outline<S>(
    before: Seq<PointModel<S>>,
    after: Seq<PointModel<S>>,
    image: spec_fn(Position<S>, Position<S>) -> bool,
)
    requires
        points_moved(before, after, image),
    ensures
        same_outline(before, after),
{
    assert forall|i: int| 0 <= i < before.len() implies {
        &&& (#[trigger] after[i]).label == before[i].label
        &&& after[i].t == before[i].t
        &&& after[i].c_prev is Some <==> before[i].c_prev is Some
        &&& after[i].c_next is Some <==> before[i].c_next is Some
    } by {
        assert(point_moved(before[i], after[i], image));
    }
}

/// What has the outline of a curve in chronological order with all its
/// control points is such a curve too.
pub proof fn lemma_outline_carries<S>(before: Seq<PointModel<S>>, after: Seq<PointModel<S>>)
    requires
        same_outline(before, after),
    ensures
        ascending(before) ==> ascending(after),
        has_controls(before) ==> has_controls(after),
        dated_by_labels(before) ==> dated_by_labels(after),
{
    if ascending(before) {
        assert forall|i: int, j: int| 0 <= i < j < after.len() implies (#[trigger] after[i]).t <= (
        #[trigger] after[j]).t by {
            assert(before[i].t <= before[j].t);
        }
    }
    if has_controls(before) {
        assert forall|i: int| 0 <= i < after.len() implies ((#[trigger] after[i]).c_prev is Some
            <==> i > 0) && (after[i].c_next is Some <==> i < after.len() - 1) by {
            assert(before[i].c_prev is Some <==> i > 0);
        }
    }
    if dated_by_labels(before) {
        assert forall|i: int| 0 <= i < after.len() implies label_time((#[trigger] after[i]).label)
            == Some(after[i].t) by {
            assert(label_time(before[i].label) == Some(before[i].t));
        }
    }
}

/// The curve of a dataset has one point for each label, in ascending order
/// of time, each dated as its label says, and every control point but the
/// one before the first point and the one after the last.
pub proof fn lemma_curve_built_shape<S: Copy, G: Geometry<S>>(
    g: &G,
    dataset: Dataset,
    positions: Seq<Position<S>>,
    curve: CurveModel<S>,
)
    requires
        curve_built(g, dataset, positions, curve),
        labels_valid(dataset.labels()),
    ensures
        curve.points.len() == dataset.labels().len(),
        ascending(curve.points),
        has_controls(curve.points),
        dated_by_labels(curve.points),
{
    let listed = listed_points(dataset.labels(), positions);
    let sorted = choose|sorted: Seq<PointModel<S>>|
        #![trigger controlled(g, sorted, curve.points)]
        sorted_from(listed, sorted) && controlled(g, sorted, curve.points);
    let order = choose|order: Seq<usize>|
        is_chronological(times_of(listed), order) && sorted == reordered(listed, order);
    assert forall|i: int, j: int| 0 <= i < j < curve.points.len() implies (
    #[trigger] curve.points[i]).t <= (#[trigger] curve.points[j]).t by {
        assert(precedes(times_of(listed), order[i] as int, order[j] as int));
        assert(same_observation(sorted[i], curve.points[i]));
        assert(same_observation(sorted[j], curve.points[j]));
    }
    assert forall|i: int| 0 <= i < curve.points.len() implies label_time(
        (#[trigger] curve.points[i]).label,
    ) == Some(curve.points[i].t) by {
        assert(same_observation(sorted[i], curve.points[i]));
        let k = order[i] as int;
        assert(sorted[i] == listed[k]);
        assert(label_time(dataset.labels()[k]@) is Some);
    }
    lemma_controlled_has_controls(g, sorted, curve.points);
}

/// A set assembled from datasets has one curve for each dataset, in their
/// order and under their names. Each curve has one point for each label of
/// its dataset, in ascending order of time, each dated as its label says.
/// On each curve every point but the first has a control point before it,
/// every point but the last has one after it, and no point has another.
pub proof fn lemma_assembled_shape<S: Copy, G: Geometry<S>>(
    g: &G,
    datasets: Seq<Dataset>,
    positions: Seq<Position<S>>,
    set: Seq<CurveModel<S>>,
)
    requires
        assembled(g, datasets, positions, set),
        all_labels_valid(datasets),
    ensures
        set.len() == datasets.len(),
        forall|c: int|
            0 <= c < set.len() ==> {
                &&& (#[trigger] set[c]).name == datasets[c].name()
                &&& set[c].points.len() == datasets[c].labels().len()
                &&& ascending(set[c].points)
                &&& has_controls(set[c].points)
                &&& dated_by_labels(set[c].points)
            },
{
    let (built, turned, scaled) = choose|
        built: Seq<CurveModel<S>>,
        turned: Seq<CurveModel<S>>,
        scaled: Seq<CurveModel<S>>,
    |
        #![trigger assembled_through(g, datasets, positions, built, turned, scaled, set)]
        assembled_through(g, datasets, positions, built, turned, scaled, set);
    let (top, bottom, extent, min, max, range) = choose|
        top: S,
        bottom: S,
        extent: Extent<S>,
        min: S,
        max: S,
        range: S,
    |
        #![trigger normalised_with(g, turned, scaled, top, bottom, extent, min, max, range)]
        normalised_with(g, turned, scaled, top, bottom, extent, min, max, range);
    let placing = scaling(g, Position { x: extent.x_min, y: extent.y_min }, range);
    assert(curves_moved(turned, scaled, placing));
    assert forall|c: int| 0 <= c < set.len() implies {
        &&& (#[trigger] set[c]).name == datasets[c].name()
        &&& set[c].points.len() == datasets[c].labels().len()
        &&& ascending(set[c].points)
        &&& has_controls(set[c].points)
        &&& dated_by_labels(set[c].points)
    } by {
        lemma_curve_built_shape(
            g,
            datasets[c],
            positions_of_dataset(datasets, positions, c),
            built[c],
        );
        if built.len() == 0 || built[0].points.len() < 2 {
            assert(turned[c] == built[c]);
        } else {
            let angle = choose|angle: S|
                #![trigger rotation(g, angle)]
                call_ensures(
                    G::heading,
                    (g, built[0].points[0].pos, built[0].points[built[0].points.len() - 1].pos),
                    angle,
                ) && curves_moved(built, turned, rotation(g, angle));
            assert(turned[c].name == built[c].name);
            lemma_points_moved_outline(built[c].points, turned[c].points, rotation(g, angle));
            lemma_outline_carries(built[c].points, turned[c].points);
        }
        assert(scaled[c].name == turned[c].name);
        lemma_points_moved_outline(turned[c].points, scaled[c].points, placing);
        lemma_outline_carries(turned[c].points, scaled[c].points);
        assert(shaded(g, palette_entry(c), scaled[c].points, set[c].points));
        assert(same_outline(scaled[c].points, set[c].points)) by {
            assert forall|i: int| 0 <= i < scaled[c].points.len() implies {
                &&& (#[trigger] set[c].points[i]).label == scaled[c].points[i].label
                &&& set[c].points[i].t == scaled[c].points[i].t
                &&& set[c].points[i].c_prev is Some <==> scaled[c].points[i].c_prev is Some
                &&& set[c].points[i].c_next is Some <==> scaled[c].points[i].c_next is Some
            } by {
                assert(set[c].points[i] == (PointModel {
                    color: set[c].points[i].color,
                    ..scaled[c].points[i]
                }));
            }
        }
        lemma_outline_carries(scaled[c].points, set[c].points);
    }
}

/// The number of labels grows with the number of datasets counted.
pub proof fn lemma_labels_before_grows(datasets: Seq<Dataset>, c: int, d: int)
    requires
        0 <= c <= d,
    ensures
        0 <= labels_before(datasets, c) <= labels_before(datasets, d),
    decreases d,
{
    if d > 0 {
        if c < d {
            lemma_labels_before_grows(datasets, c, d - 1);
        } else {
            lemma_labels_before_grows(datasets, c - 1, d - 1);
        }
    }
}

/// The colour of the curve at place `index` of a set.
pub fn curve_base_color(index: usize) -> (color: (u8, u8, u8))
    ensures
        color == palette_entry(index as int),
{
    let entry = index % 3;
    if entry == 0 {
        (255, 105, 22)
    } else if entry == 1 {
        (34, 130, 251)
    } else {
        (149, 221, 60)
    }
}

} // verus!
