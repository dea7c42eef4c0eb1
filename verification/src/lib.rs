//! Time curves: a distance matrix between dated observations becomes a set of
//! planar curves, one per dataset, that can be compared side by side.
//!
//! The crate holds the structure of that construction and proves it: which
//! matrices are accepted, how time labels are read and ordered, which point
//! carries which control point, and what every stage keeps or replaces. The
//! real arithmetic itself (the embedding, the control points, rotation,
//! scaling, colours) is supplied by the caller through [`geometry::Geometry`]
//! and [`projection::ProjectionAlgorithm`]; every contract here holds for
//! whatever those return.
pub mod error;
pub mod exporters;
pub mod geometry;
pub mod input;
pub mod order;
pub mod projection;
pub mod set;
pub mod time;
pub mod timecurve;

pub use error::{TimecurveError, TimecurveErrorKind};
pub use geometry::{Geometry, Position};
pub use input::{Dataset, InputData};
pub use projection::{ClassicalMDS, ProjectionAlgorithm};
pub use set::TimecurveSet;
pub use timecurve::{Timecurve, TimecurvePoint};
