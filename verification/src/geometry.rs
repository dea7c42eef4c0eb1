//! Positions in the plane, and the real arithmetic that the construction asks
//! of its caller.
use vstd::prelude::*;

verus! {

/// A position in the plane, over the scalar type `S`.
#[derive(Clone, Copy, Debug)]
pub struct Position<S> {
    /// The x coordinate.
    pub x: S,
    /// The y coordinate.
    pub y: S,
}

impl<S: Copy> Position<S> {
    /// Creates a position from its two coordinates.
    pub fn new(x: S, y: S) -> (p: Self)
        ensures
            p.x == x,
            p.y == y,
    {
        Position { x, y }
    }

    /// Returns the x coordinate.
    pub fn get_x(&self) -> (x: S)
        ensures
            x == self.x,
    {
        self.x
    }

    /// Returns the y coordinate.
    pub fn get_y(&self) -> (y: S)
        ensures
            y == self.y,
    {
        self.y
    }
}

/// The real arithmetic of the construction, over the scalar type `S`.
///
/// The curves are built, ordered and transformed here; the numbers are
/// computed by an implementation of this trait. Nothing is assumed of what its
/// methods return: each contract of the crate says which method was applied
/// to which arguments, and holds whatever came back.
pub trait Geometry<S: Copy> {
    /// The two control points of an interior point `cur`, whose neighbours
    /// on the curve are `prev` and `next`: first the one on the side of
    /// `prev`, then the one on the side of `next`. With `dir` the unit vector
    /// from `next` to `prev` and `sigma` the smoothing constant, they are
    /// `cur + dir * |prev - cur| * sigma` and `cur - dir * |cur - next| * sigma`.
    fn interior_controls(&self, prev: Position<S>, cur: Position<S>, next: Position<S>) -> (
        Position<S>,
        Position<S>,
    );

    /// The control point of an end point `end`, from the control point
    /// `adjacent` that its only neighbour turns towards it: the point at
    /// distance `sigma` from `end` in the direction of `adjacent`.
    fn end_control(&self, end: Position<S>, adjacent: Position<S>) -> Position<S>;

    /// Splits a curve parameter `u` into the index of the point at or before
    /// it (its floor) and its fractional part, `None` where that is zero.
    fn locate(&self, u: S) -> (usize, Option<S>);

    /// The point at parameter `t` on the segment from `a` to `b`:
    /// `(1 - t) * a + t * b`.
    fn lerp(&self, a: Position<S>, b: Position<S>, t: S) -> Position<S>;

    /// The angle by which the plane is turned so that `last` lies on the
    /// horizontal through `first`, to its right: minus the angle of the
    /// vector from `first` to `last`.
    fn heading(&self, first: Position<S>, last: Position<S>) -> S;

    /// The image of `p` under the rotation by `angle` about the origin.
    fn rotate(&self, angle: S, p: Position<S>) -> Position<S>;

    /// A scalar that no coordinate exceeds: where a minimum starts.
    fn unbounded_above(&self) -> S;

    /// A scalar that exceeds no coordinate: where a maximum starts.
    fn unbounded_below(&self) -> S;

    /// The smaller of two scalars.
    fn lower(&self, a: S, b: S) -> S;

    /// The larger of two scalars.
    fn upper(&self, a: S, b: S) -> S;

    /// The width of the interval from `min` to `max`: `max - min`.
    fn span(&self, min: S, max: S) -> S;

    /// The place of the coordinate `v` on an axis that starts at `axis_min`,
    /// in units of `range`: `(v - axis_min) / range`.
    fn scale(&self, v: S, axis_min: S, range: S) -> S;

    /// The colour of a point dated `t` on a curve whose colour is `base` and
    /// whose points are dated from `oldest` to `newest`: `base`, darkened the
    /// more the later `t` is.
    fn shade(&self, base: (u8, u8, u8), t: i64, oldest: i64, newest: i64) -> (u8, u8, u8);
}

} // verus!
