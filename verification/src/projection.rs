//! The projection of a distance matrix onto the plane.
use vstd::prelude::*;
use crate::error::{TimecurveError, TimecurveErrorKind};
use crate::geometry::Position;
use crate::input::matrix_rows;

verus! {

/// A matrix is square when it has at least one row and every row has as many
/// entries as there are rows. Symmetry and the diagonal are not looked at.
pub open spec fn is_square<S>(rows: Seq<Seq<S>>) -> bool {
    &&& rows.len() > 0
    &&& forall|i: int| 0 <= i < rows.len() ==> (#[trigger] rows[i]).len() == rows.len()
}

/// Whether an error is of the given kind.
pub open spec fn fails_with<T>(result: Result<T, TimecurveError>, kind: TimecurveErrorKind) -> bool {
    result matches Err(e) && e.kind == kind
}

/// The dimension of a distance matrix: its number of rows if it is square,
/// `MalformedDistanceMatrix` if it is empty or any row has another length.
pub fn matrix_dimension<S>(distance_matrix: &Vec<Vec<S>>) -> (result: Result<usize, TimecurveError>)
    ensures
        is_square(matrix_rows(distance_matrix@)) ==> result == Ok::<usize, TimecurveError>(
            distance_matrix.len(),
        ),
        !is_square(matrix_rows(distance_matrix@)) ==> fails_with(
            result,
            TimecurveErrorKind::MalformedDistanceMatrix,
        ),
{
    let n = distance_matrix.len();
    if n == 0 {
        return Err(
            TimecurveError::new(TimecurveErrorKind::MalformedDistanceMatrix, Some("Matrix is empty")),
        );
    }
    let mut i: usize = 0;
    while i < n
        invariant
            n == distance_matrix.len(),
            i <= n,
            forall|k: int| 0 <= k < i ==> (#[trigger] matrix_rows(distance_matrix@)[k]).len() == n,
        decreases n - i,
    {
        if distance_matrix[i].len() != n {
            assert(matrix_rows(distance_matrix@)[i as int].len() != n);
            return Err(
                TimecurveError::new(
                    TimecurveErrorKind::MalformedDistanceMatrix,
                    Some("Matrix is not square"),
                ),
            );
        }
        i += 1;
    }
    Ok(n)
}

/// An algorithm that places the observations of a distance matrix in the
/// plane: one position for each row, in the order of the rows.
///
/// Nothing is assumed of an implementation: what it returns is examined
/// before it is used.
pub trait ProjectionAlgorithm<S: Copy> {
    /// Projects the points described by a distance matrix onto the plane.
    fn project(&self, distance_matrix: &Vec<Vec<S>>) -> Result<Vec<Position<S>>, TimecurveError>;
}

/// Classical multidimensional scaling: the squared distances are centred
/// twice, and the observations are placed along the two leading eigenvectors
/// of the result, each scaled by the square root of its eigenvalue.
#[derive(Clone, Copy, Debug)]
pub struct ClassicalMDS;

impl ClassicalMDS {
    /// Creates the algorithm. It has no parameters.
    pub fn new() -> (mds: Self) {
        ClassicalMDS
    }

    /// Projects a distance matrix onto the plane with the spectral embedding
    /// `embed`, which is handed the matrix once it is known to be square.
    ///
    /// A matrix that is not square is refused with `MalformedDistanceMatrix`
    /// and `embed` is not called. Otherwise the result is what `embed`
    /// returned, if that is one position for each row, and
    /// `ProjectionIncoherence` if it is not.
    pub fn project<S: Copy, F: Fn(&Vec<Vec<S>>) -> Vec<Position<S>>>(
        &self,
        distance_matrix: &Vec<Vec<S>>,
        embed: F,
    ) -> (result: Result<Vec<Position<S>>, TimecurveError>)
        requires
            is_square(matrix_rows(distance_matrix@)) ==> embed.requires((distance_matrix,)),
        ensures
            !is_square(matrix_rows(distance_matrix@)) ==> fails_with(
                result,
                TimecurveErrorKind::MalformedDistanceMatrix,
            ),
            is_square(matrix_rows(distance_matrix@)) ==> match result {
                Ok(points) => points.len() == distance_matrix.len() && embed.ensures(
                    (distance_matrix,),
                    points,
                ),
                Err(e) => e.kind == TimecurveErrorKind::ProjectionIncoherence && exists|
                    points: Vec<Position<S>>,
                |
                    embed.ensures((distance_matrix,), points) && points.len()
                        != distance_matrix.len(),
            },
    {
        let n = match matrix_dimension(distance_matrix) {
            Ok(n) => n,
            Err(e) => {
                return Err(e);
            },
        };
        let points = embed(distance_matrix);
        checked_projection(n, points)
    }
}

/// Accepts a projection of a matrix of dimension `dimension` if it holds one
/// position for each row, and refuses it with `ProjectionIncoherence` if not.
pub fn checked_projection<S: Copy>(dimension: usize, points: Vec<Position<S>>) -> (result: Result<
    Vec<Position<S>>,
    TimecurveError,
>)
    ensures
        points.len() == dimension ==> result == Ok::<Vec<Position<S>>, TimecurveError>(points),
        points.len() != dimension ==> fails_with(result, TimecurveErrorKind::ProjectionIncoherence),
{
    if points.len() == dimension {
        Ok(points)
    } else {
        Err(
            TimecurveError::new(
                TimecurveErrorKind::ProjectionIncoherence,
                Some("The projection has not one point for each row of the matrix"),
            ),
        )
    }
}

} // verus!
