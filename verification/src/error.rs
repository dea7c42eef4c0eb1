//! The errors of the construction.
use vstd::prelude::*;
use vstd::string::*;

verus! {

/// What went wrong.
#[derive(Debug, Clone, Copy, PartialEq, Eq, Structural)]
pub enum TimecurveErrorKind {
    /// The distance matrix is empty or has a row whose length is not the
    /// number of rows.
    MalformedDistanceMatrix,
    /// The number of projected points, or the total number of time labels,
    /// is not the dimension of the distance matrix.
    ProjectionIncoherence,
    /// A curve was evaluated where a control point it needs is missing.
    EvaluatedOutsideRange,
    /// A time label is in none of the accepted formats.
    InvalidTimeLabel,
}

/// An error of the construction: its kind, and optionally a detail.
#[derive(Debug)]
pub struct TimecurveError {
    /// The kind of error that occurred.
    pub kind: TimecurveErrorKind,
    /// Additional information about the error. Can be `None`.
    pub info: Option<String>,
}

/// The sentence that describes a kind of error.
pub open spec fn kind_text(kind: TimecurveErrorKind) -> Seq<char> {
    match kind {
        TimecurveErrorKind::MalformedDistanceMatrix => "Distance matrix is malformed !"@,
        TimecurveErrorKind::ProjectionIncoherence => "Projection does not match the input !"@,
        TimecurveErrorKind::EvaluatedOutsideRange => "Tried to evaluate timecurve outside its range !"@,
        TimecurveErrorKind::InvalidTimeLabel => "Timelabel is invalid !"@,
    }
}

/// The text of an error: the sentence of its kind, then the detail in
/// parentheses. An error without a detail has an empty text.
pub open spec fn error_text(kind: TimecurveErrorKind, info: Option<Seq<char>>) -> Seq<char> {
    match info {
        Some(detail) => kind_text(kind) + " ("@ + detail + ")"@,
        None => Seq::empty(),
    }
}

impl TimecurveError {
    /// The detail as a sequence of characters, if there is one.
    pub open spec fn info_view(&self) -> Option<Seq<char>> {
        match self.info {
            Some(s) => Some(s@),
            None => None,
        }
    }

    /// Creates an error of the given kind with an optional detail. The detail
    /// should not repeat the kind.
    pub fn new(kind: TimecurveErrorKind, info: Option<&str>) -> (e: Self)
        ensures
            e.kind == kind,
            e.info_view() == match info {
                Some(s) => Some(s@),
                None => None,
            },
    {
        let info = match info {
            Some(s) => Some(s.to_owned()),
            None => None,
        };
        TimecurveError { kind, info }
    }

    /// The text of the error, as it is shown to a user.
    pub fn to_string(&self) -> (text: String)
        ensures
            text@ == error_text(self.kind, self.info_view()),
    {
        match &self.info {
            Some(detail) => {
                let sentence = match self.kind {
                    TimecurveErrorKind::MalformedDistanceMatrix => "Distance matrix is malformed !",
                    TimecurveErrorKind::ProjectionIncoherence => "Projection does not match the input !",
                    TimecurveErrorKind::EvaluatedOutsideRange => "Tried to evaluate timecurve outside its range !",
                    TimecurveErrorKind::InvalidTimeLabel => "Timelabel is invalid !",
                };
                let mut text = sentence.to_owned();
                text.append(" (");
                text.append(detail.as_str());
                text.append(")");
                text
            },
            None => String::new(),
        }
    }
}

} // verus!
