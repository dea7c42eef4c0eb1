//! Writing a set of time curves as text.
use vstd::prelude::*;
use vstd::string::*;
use crate::set::{curve_models, TimecurveSet};
use crate::timecurve::{point_models, CurveModel, PointModel};

verus! {

/// The first line of the table: the names of its four columns.
pub open spec fn csv_header() -> Seq<char> {
    "curve,label,x,y\n"@
}

/// A line of the table: the name of the curve, the label of the point and
/// its two coordinates as texts, separated by commas.
pub open spec fn csv_row(name: Seq<char>, label: Seq<char>, x: Seq<char>, y: Seq<char>) -> Seq<char> {
    name + ","@ + label + ","@ + x + ","@ + y + "\n"@
}

/// `text` is `head` followed by `tail`.
pub open spec fn joined(head: Seq<char>, tail: Seq<char>, text: Seq<char>) -> bool {
    text == head + tail
}

/// `text` is a line of the table for the point `point` of the curve `name`,
/// its coordinates written by `show`.
pub open spec fn row_written<S, F: Fn(S) -> String>(
    show: F,
    name: Seq<char>,
    point: PointModel<S>,
    text: Seq<char>,
) -> bool {
    exists|x: String, y: String|
        #![trigger show.ensures((point.pos.x,), x), show.ensures((point.pos.y,), y)]
        show.ensures((point.pos.x,), x) && show.ensures((point.pos.y,), y) && text == csv_row(
            name,
            point.label,
            x@,
            y@,
        )
}

/// `text` holds one line for each of `points`, in order.
pub open spec fn rows_written<S, F: Fn(S) -> String>(
    show: F,
    name: Seq<char>,
    points: Seq<PointModel<S>>,
    text: Seq<char>,
) -> bool
    decreases points.len(),
{
    if points.len() == 0 {
        text == Seq::<char>::empty()
    } else {
        exists|head: Seq<char>, row: Seq<char>|
            #![trigger joined(head, row, text)]
            rows_written(show, name, points.drop_last(), head) && row_written(
                show,
                name,
                points.last(),
                row,
            ) && joined(head, row, text)
    }
}

/// `text` holds the lines of each of `curves`, curve after curve.
pub open spec fn curves_written<S, F: Fn(S) -> String>(
    show: F,
    curves: Seq<CurveModel<S>>,
    text: Seq<char>,
) -> bool
    decreases curves.len(),
{
    if curves.len() == 0 {
        text == Seq::<char>::empty()
    } else {
        exists|head: Seq<char>, rows: Seq<char>|
            #![trigger joined(head, rows, text)]
            curves_written(show, curves.drop_last(), head) && rows_written(
                show,
                curves.last().name,
                curves.last().points,
                rows,
            ) && joined(head, rows, text)
    }
}

/// Writes a set of time curves as comma-separated values: a table with the
/// columns `curve`, `label`, `x` and `y`, and one line for each point.
#[derive(Clone, Copy, Debug)]
pub struct CSVExporter {}

impl CSVExporter {
    /// Creates the exporter. It has no parameters.
    pub fn new() -> (exporter: Self) {
        CSVExporter {  }
    }

    /// Writes the set as comma-separated values: the header, then one line
    /// for each point of each curve, in the order of the set. A line holds
    /// the name of the curve, the label of the point and its two coordinates,
    /// each written by `show`. Names and labels are written as they are.
    pub fn export<S: Copy, F: Fn(S) -> String>(&self, timecurve_set: &TimecurveSet<S>, show: F) -> (output:
        String)
        requires
            forall|v: S| #[trigger] show.requires((v,)),
        ensures
            exists|body: Seq<char>|
                #![trigger curves_written(show, timecurve_set@, body)]
                curves_written(show, timecurve_set@, body) && output@ == csv_header() + body,
    {
        let mut output = "curve,label,x,y\n".to_owned();
        let ghost mut body = Seq::<char>::empty();
        let curves = timecurve_set.get_curves();
        let count = curves.len();
        let mut c: usize = 0;
        assert(curve_models(curves@).take(0) =~= Seq::<CurveModel<S>>::empty());
        while c < count
            invariant
                count == curves@.len(),
                curve_models(curves@) == timecurve_set@,
                c <= count,
                forall|v: S| #[trigger] show.requires((v,)),
                output@ == csv_header() + body,
                curves_written(show, timecurve_set@.take(c as int), body),
            decreases count - c,
        {
            let curve = &curves[c];
            let points = curve.get_points();
            let n = points.len();
            let ghost model = timecurve_set@[c as int];
            assert(curve_models(curves@)[c as int] == curves@[c as int]@);
            let ghost mut rows = Seq::<char>::empty();
            let ghost head = body;
            let mut k: usize = 0;
            assert(model.points.take(0) =~= Seq::<PointModel<S>>::empty());
            while k < n
                invariant
                    n == points@.len(),
                    point_models(points@) == model.points,
                    curve@ == model,
                    k <= n,
                    forall|v: S| #[trigger] show.requires((v,)),
                    output@ == csv_header() + head + rows,
                    rows_written(show, model.name, model.points.take(k as int), rows),
                decreases n - k,
            {
                let point = &points[k];
                assert(point_models(points@)[k as int] == points@[k as int]@);
                let x = show(point.get_pos_x());
                let y = show(point.get_pos_y());
                output.append(curve.get_name());
                output.append(",");
                output.append(point.get_label());
                output.append(",");
                output.append(x.as_str());
                output.append(",");
                output.append(y.as_str());
                output.append("\n");
                proof {
                    let row = csv_row(model.name, model.points[k as int].label, x@, y@);
                    let longer = model.points.take(k as int + 1);
                    assert(longer.drop_last() =~= model.points.take(k as int));
                    assert(longer.last() == model.points[k as int]);
                    assert(row_written(show, model.name, longer.last(), row));
                    assert(rows_written(show, model.name, longer.drop_last(), rows));
                    assert(output@ =~= csv_header() + head + (rows + row));
                    let shorter = rows;
                    rows = shorter + row;
                    assert(rows_written(show, model.name, longer.drop_last(), shorter));
                    assert(joined(shorter, row, rows));
                    assert(rows_written(show, model.name, longer, rows));
                }
                k += 1;
            }
            proof {
                assert(model.points.take(n as int) =~= model.points);
                let longer = timecurve_set@.take(c as int + 1);
                assert(longer.drop_last() =~= timecurve_set@.take(c as int));
                assert(longer.last() == model);
                assert(curves_written(show, longer.drop_last(), head));
                assert(output@ =~= csv_header() + (head + rows));
                body = head + rows;
                assert(rows_written(show, longer.last().name, longer.last().points, rows));
                assert(joined(head, rows, body));
                assert(curves_written(show, longer, body));
            }
            c += 1;
        }
        assert(timecurve_set@.take(count as int) =~= timecurve_set@);
        output
    }
}

} // verus!
