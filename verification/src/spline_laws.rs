//! What drawing and editing a spline does to the curve.
use crate::command::{ReplacementModel, ResultModel};
use crate::entity::{
    EntityModel, Handle, ShapeModel, SplineEntityModel, SplineModel, Vertex2D,
    Vertex3D,
};
use crate::spline::{
    controls_2d, controls_3d, convertible_in, entered, from_polyline, frame_of, made_spline,
    pointed, polygon_degree, replacements, started, typed, CurveModel, PointFacts, SplineState,
};
use crate::splinedit::{
    clamped_knots, place_of, operated_in, PointReading, Reading, SplineditState, Step,
};
use crate::text::decimal;
use crate::text_laws::{capitals_spell, decimals_read_back, spells};
use crate::value::{Point3, Real};
use vstd::prelude::*;

verus! {

/// The answer that adds a spline to the drawing.
pub open spec fn added(r: ResultModel) -> SplineModel {
    r->CommitAndExit_0.shape->Spline_0
}

/// Whether an answer adds a new spline, on the layer `0` and with no handle yet.
pub open spec fn adds_spline(r: ResultModel) -> bool {
    &&& r is CommitAndExit
    &&& r->CommitAndExit_0.shape is Spline
    &&& r->CommitAndExit_0.common.handle == 0
    &&& r->CommitAndExit_0.common.layer == "0"@
}

/// While a tangent is asked for and two points or more were given, a point with a
/// direction commits a spline through the points that ends in this direction and
/// begins as was set before.
pub proof fn tangent_at_the_end_commits(s: SplineState, point: Point3, facts: PointFacts)
    requires
        s.choosing_tangent,
        !s.choosing_objects && !s.choosing_method && !s.choosing_degree && !s.choosing_knots,
        point.finite(),
        s.pts.len() >= 2,
        facts.direction is Some,
        !s.control_vertices,
    ensures
        ({
            let (t, r) = pointed(s, point, facts);
            &&& adds_spline(r)
            &&& added(r).form.end_tangent == facts.direction->0
            &&& added(r).form.begin_tangent == s.begin_tangent
            &&& added(r).form.knot_parameterization == s.knot_parameterization
            &&& added(r).form.degree == 3
            &&& added(r).fit_points == s.pts
            &&& added(r).control_points.len() == 0
            &&& !added(r).form.flags.closed
            &&& !added(r).form.flags.periodic
            &&& t.end_tangent == facts.direction->0
            &&& t.begin_tangent == s.begin_tangent
            &&& !t.choosing_tangent
            &&& t.pts == s.pts
        }),
{
}

/// The same with control vertices: the committed spline has the curve that was
/// made of them.
pub proof fn tangent_commits_control_curve(s: SplineState, point: Point3, facts: PointFacts)
    requires
        s.choosing_tangent,
        !s.choosing_objects && !s.choosing_method && !s.choosing_degree && !s.choosing_knots,
        point.finite(),
        s.pts.len() >= 2,
        facts.direction is Some,
        s.control_vertices,
        facts.curve is Some,
    ensures
        ({
            let (t, r) = pointed(s, point, facts);
            &&& adds_spline(r)
            &&& added(r).form.end_tangent == facts.direction->0
            &&& added(r).form.begin_tangent == s.begin_tangent
            &&& added(r).control_points == (facts.curve->0)@.control_points
            &&& added(r).knots == (facts.curve->0)@.knots
            &&& added(r).weights == (facts.curve->0)@.weights
            &&& added(r).form.degree == (facts.curve->0)@.degree
            &&& added(r).fit_points.len() == 0
        }),
{
}

/// With exactly one point given, the direction becomes the tangent at the
/// beginning; the tangent at the end stays, and points are asked for again.
pub proof fn tangent_at_the_beginning_is_held(s: SplineState, point: Point3, facts: PointFacts)
    requires
        s.choosing_tangent,
        !s.choosing_objects && !s.choosing_method && !s.choosing_degree && !s.choosing_knots,
        point.finite(),
        s.pts.len() == 1,
        facts.direction is Some,
    ensures
        ({
            let (t, r) = pointed(s, point, facts);
            &&& r == ResultModel::NeedPoint
            &&& t.begin_tangent == facts.direction->0
            &&& t.end_tangent == s.end_tangent
            &&& !t.choosing_tangent
            &&& t == SplineState {
                begin_tangent: t.begin_tangent,
                choosing_tangent: false,
                ..s
            }
        }),
{
}

/// A point that shows no direction, or that is not finite, leaves the question for
/// a tangent as it is.
pub proof fn no_tangent_without_direction(s: SplineState, point: Point3, facts: PointFacts)
    requires
        s.choosing_tangent,
        facts.direction is None || !point.finite() || s.pts.len() == 0,
    ensures
        pointed(s, point, facts) == (s, ResultModel::NeedPoint),
{
}

/// A given point joins the others behind them, unless it falls on the last one.
pub proof fn points_are_gathered(s: SplineState, point: Point3, facts: PointFacts)
    requires
        !s.choosing_objects && !s.choosing_method && !s.choosing_degree && !s.choosing_knots
            && !s.choosing_tangent,
        point.finite(),
    ensures
        ({
            let (t, r) = pointed(s, point, facts);
            &&& r == ResultModel::NeedPoint
            &&& s.pts.len() > 0 && facts.repeated ==> t == s
            &&& s.pts.len() == 0 || !facts.repeated ==> {
                &&& t.pts.len() == s.pts.len() + 1
                &&& t.pts.last() == point
                &&& forall|k: int| 0 <= k < s.pts.len() ==> #[trigger] t.pts[k] == s.pts[k]
                &&& t == SplineState { pts: t.pts, ..s }
            }
        }),
{
}

/// The Enter key commits an open spline through the points with the tangents that
/// were set, from two points on; with fewer it ends the command.
pub proof fn enter_commits(s: SplineState, curve: Option<CurveModel>)
    requires
        !s.choosing_objects && !s.choosing_method && !s.choosing_degree && !s.choosing_knots
            && !s.choosing_tangent,
    ensures
        ({
            let (t, r) = entered(s, curve);
            &&& t == s
            &&& s.pts.len() < 2 ==> r == ResultModel::Cancel
            &&& s.pts.len() >= 2 && !s.control_vertices ==> {
                &&& adds_spline(r)
                &&& added(r).fit_points == s.pts
                &&& added(r).control_points.len() == 0
                &&& added(r).form.begin_tangent == s.begin_tangent
                &&& added(r).form.end_tangent == s.end_tangent
                &&& added(r).form.knot_parameterization == s.knot_parameterization
                &&& !added(r).form.flags.closed
            }
            &&& s.pts.len() >= 2 && s.control_vertices && curve is Some ==> {
                &&& adds_spline(r)
                &&& added(r).control_points == curve->0.control_points
                &&& added(r).knots == curve->0.knots
                &&& added(r).weights == curve->0.weights
                &&& added(r).form.degree == curve->0.degree
                &&& added(r).form.flags.planar == curve->0.planar
                &&& !added(r).form.flags.closed
            }
        }),
{
}

/// The Enter key at a choice goes back to the points, and it leaves the question
/// for a tangent.
pub proof fn enter_leaves_choices(s: SplineState, curve: Option<CurveModel>)
    requires
        !s.choosing_objects,
        s.choosing_method || s.choosing_degree || s.choosing_knots,
    ensures
        entered(s, curve) == (
            SplineState {
                choosing_method: false,
                choosing_degree: false,
                choosing_knots: false,
                ..s
            },
            ResultModel::NeedPoint,
        ),
{
}

/// Closing takes three points, and commits a closed and periodic spline.
pub proof fn close_commits_closed(
    s: SplineState,
    plain: Seq<char>,
    up: Seq<char>,
    curve: Option<CurveModel>,
)
    requires
        !s.choosing_degree && !s.choosing_knots && !s.choosing_tangent,
        up == "C"@ || up == "CLOSE"@,
        s.pts.len() >= 1,
    ensures
        ({
            let (t, r) = typed(s, plain, up, curve);
            &&& t == s
            &&& s.pts.len() < 3 ==> r is None
            &&& s.pts.len() >= 3 && !s.control_vertices ==> {
                &&& r is Some
                &&& adds_spline(r->0)
                &&& added(r->0).form.flags.closed
                &&& added(r->0).form.flags.periodic
                &&& added(r->0).fit_points == s.pts
                &&& added(r->0).form.begin_tangent == s.begin_tangent
                &&& added(r->0).form.end_tangent == s.end_tangent
            }
            &&& s.pts.len() >= 3 && s.control_vertices && curve is Some ==> {
                &&& r is Some
                &&& adds_spline(r->0)
                &&& added(r->0).form.flags.closed
                &&& added(r->0).form.flags.periodic
                &&& added(r->0).control_points == curve->0.control_points
            }
        }),
{
    reveal_strlit("C");
    reveal_strlit("CLOSE");
    reveal_strlit("U");
    reveal_strlit("UNDO");
    reveal_strlit("O");
    reveal_strlit("OBJECT");
    reveal_strlit("T");
    reveal_strlit("TANGENCY");
    assert("C"@.len() == 1);
    assert("C"@[0] == 'C');
    assert("CLOSE"@.len() == 5);
    assert("U"@.len() == 1);
    assert("U"@[0] == 'U');
    assert("UNDO"@.len() == 4);
    assert("O"@.len() == 1);
    assert("O"@[0] == 'O');
    assert("OBJECT"@.len() == 6);
    assert("T"@.len() == 1);
    assert("T"@[0] == 'T');
    assert("TANGENCY"@.len() == 8);
}

/// Undo takes the last point, the tangent at the end and with the first point also
/// the one at the beginning.
pub proof fn undo_takes_the_last_point(
    s: SplineState,
    plain: Seq<char>,
    up: Seq<char>,
    curve: Option<CurveModel>,
)
    requires
        !s.choosing_degree && !s.choosing_knots && !s.choosing_tangent,
        up == "U"@ || up == "UNDO"@,
    ensures
        ({
            let (t, r) = typed(s, plain, up, curve);
            &&& r == Some(ResultModel::NeedPoint)
            &&& s.pts.len() == 0 ==> t == s
            &&& s.pts.len() > 0 ==> {
                &&& t.pts.push(s.pts.last()) == s.pts
                &&& t.end_tangent.x.bits == 0 && t.end_tangent.y.bits == 0
                    && t.end_tangent.z.bits == 0
                &&& s.pts.len() > 1 ==> t.begin_tangent == s.begin_tangent
                &&& s.pts.len() == 1 ==> t.begin_tangent.x.bits == 0 && t.begin_tangent.y.bits
                    == 0 && t.begin_tangent.z.bits == 0
                &&& t.control_vertices == s.control_vertices
                &&& t.degree == s.degree
                &&& t.knot_parameterization == s.knot_parameterization
            }
        }),
{
    reveal_strlit("U");
    reveal_strlit("UNDO");
    reveal_strlit("C");
    reveal_strlit("CLOSE");
    reveal_strlit("O");
    reveal_strlit("OBJECT");
    reveal_strlit("D");
    reveal_strlit("DEGREE");
    reveal_strlit("K");
    reveal_strlit("KNOTS");
    reveal_strlit("T");
    reveal_strlit("TANGENCY");
    reveal_strlit("M");
    reveal_strlit("METHOD");
    reveal_strlit("F");
    reveal_strlit("FIT");
    reveal_strlit("CV");
    reveal_strlit("CONTROL");
    reveal_strlit("CONTROLVERTICES");
    assert("U"@.len() == 1);
    assert("U"@[0] == 'U');
    assert("UNDO"@.len() == 4);
    assert("C"@.len() == 1);
    assert("C"@[0] == 'C');
    assert("CLOSE"@.len() == 5);
    assert("CLOSE"@[0] == 'C');
    assert("O"@.len() == 1);
    assert("O"@[0] == 'O');
    assert("OBJECT"@.len() == 6);
    assert("OBJECT"@[0] == 'O');
    assert("D"@.len() == 1);
    assert("D"@[0] == 'D');
    assert("DEGREE"@.len() == 6);
    assert("DEGREE"@[0] == 'D');
    assert("K"@.len() == 1);
    assert("K"@[0] == 'K');
    assert("KNOTS"@.len() == 5);
    assert("KNOTS"@[0] == 'K');
    assert("T"@.len() == 1);
    assert("T"@[0] == 'T');
    assert("TANGENCY"@.len() == 8);
    assert("M"@.len() == 1);
    assert("M"@[0] == 'M');
    assert("METHOD"@.len() == 6);
    assert("METHOD"@[0] == 'M');
    assert("F"@.len() == 1);
    assert("F"@[0] == 'F');
    assert("FIT"@.len() == 3);
    assert("CV"@.len() == 2);
    assert("CONTROL"@.len() == 7);
    assert("CONTROLVERTICES"@.len() == 15);
}

/// Before the first point, the options choose the method, the degree of control
/// vertices, the knots of fit points, or polylines to turn into splines. Behind
/// it, fit points can be given a tangent. A choice alone changes nothing else.
pub proof fn options_choose(
    s: SplineState,
    plain: Seq<char>,
    up: Seq<char>,
    curve: Option<CurveModel>,
)
    requires
        !s.choosing_degree && !s.choosing_knots && !s.choosing_tangent,
    ensures
        ({
            let (t, r) = typed(s, plain, up, curve);
            let first = s.pts.len() == 0;
            let go = Some(ResultModel::NeedPoint);
            &&& first && (up == "O"@ || up == "OBJECT"@) ==> r == go && t == (SplineState {
                choosing_objects: true,
                ..s
            })
            &&& first && s.control_vertices && (up == "D"@ || up == "DEGREE"@) ==> r == go && t
                == (SplineState { choosing_degree: true, ..s })
            &&& !s.control_vertices && (up == "D"@ || up == "DEGREE"@) ==> r is None && t == s
            &&& first && !s.control_vertices && (up == "K"@ || up == "KNOTS"@) ==> r == go && t
                == (SplineState { choosing_knots: true, ..s })
            &&& s.control_vertices && (up == "K"@ || up == "KNOTS"@) ==> r is None && t == s
            &&& !first && !s.control_vertices && (up == "T"@ || up == "TANGENCY"@) ==> r == go
                && t == (SplineState { choosing_tangent: true, ..s })
            &&& (first || s.control_vertices) && (up == "T"@ || up == "TANGENCY"@) ==> r is None
                && t == s
            &&& first && (up == "M"@ || up == "METHOD"@) ==> r == go && t == (SplineState {
                choosing_method: true,
                ..s
            })
            &&& first && (up == "F"@ || up == "FIT"@) ==> r == go && t == (SplineState {
                control_vertices: false,
                choosing_method: false,
                ..s
            })
            &&& first && (up == "CV"@ || up == "CONTROL"@ || up == "CONTROLVERTICES"@) ==> r
                == go && t == (SplineState {
                control_vertices: true,
                choosing_method: false,
                ..s
            })
        }),
{
    reveal_strlit("U");
    reveal_strlit("UNDO");
    reveal_strlit("C");
    reveal_strlit("CLOSE");
    reveal_strlit("O");
    reveal_strlit("OBJECT");
    reveal_strlit("D");
    reveal_strlit("DEGREE");
    reveal_strlit("K");
    reveal_strlit("KNOTS");
    reveal_strlit("T");
    reveal_strlit("TANGENCY");
    reveal_strlit("M");
    reveal_strlit("METHOD");
    reveal_strlit("F");
    reveal_strlit("FIT");
    reveal_strlit("CV");
    reveal_strlit("CONTROL");
    reveal_strlit("CONTROLVERTICES");
    assert("U"@.len() == 1);
    assert("U"@[0] == 'U');
    assert("UNDO"@.len() == 4);
    assert("C"@.len() == 1);
    assert("C"@[0] == 'C');
    assert("CLOSE"@.len() == 5);
    assert("CLOSE"@[0] == 'C');
    assert("O"@.len() == 1);
    assert("O"@[0] == 'O');
    assert("OBJECT"@.len() == 6);
    assert("OBJECT"@[0] == 'O');
    assert("D"@.len() == 1);
    assert("D"@[0] == 'D');
    assert("DEGREE"@.len() == 6);
    assert("DEGREE"@[0] == 'D');
    assert("K"@.len() == 1);
    assert("K"@[0] == 'K');
    assert("KNOTS"@.len() == 5);
    assert("KNOTS"@[0] == 'K');
    assert("T"@.len() == 1);
    assert("T"@[0] == 'T');
    assert("TANGENCY"@.len() == 8);
    assert("M"@.len() == 1);
    assert("M"@[0] == 'M');
    assert("METHOD"@.len() == 6);
    assert("METHOD"@[0] == 'M');
    assert("F"@.len() == 1);
    assert("F"@[0] == 'F');
    assert("FIT"@.len() == 3);
    assert("CV"@.len() == 2);
    assert("CONTROL"@.len() == 7);
    assert("CONTROLVERTICES"@.len() == 15);
}

/// A typed degree from one to ten is taken, and points are asked for again; any
/// other number is not.
pub proof fn degree_is_taken(s: SplineState, n: nat, up: Seq<char>, curve: Option<CurveModel>)
    requires
        s.choosing_degree,
        !s.choosing_tangent,
        n <= usize::MAX,
    ensures
        1 <= n <= 10 ==> typed(s, decimal(n), up, curve) == (
            SplineState { degree: n as usize, choosing_degree: false, ..s },
            Some(ResultModel::NeedPoint),
        ),
        n == 0 || n > 10 ==> typed(s, decimal(n), up, curve) == (s, None::<ResultModel>),
{
    decimals_read_back(n as int, 0, usize::MAX as int);
}

/// The knots of fit points are spaced by the chord, by its square root or evenly.
pub proof fn knots_are_taken(
    s: SplineState,
    plain: Seq<char>,
    up: Seq<char>,
    curve: Option<CurveModel>,
)
    requires
        s.choosing_knots,
        !s.choosing_degree && !s.choosing_tangent,
    ensures
        ({
            let (t, r) = typed(s, plain, up, curve);
            let taken = t == SplineState {
                knot_parameterization: t.knot_parameterization,
                choosing_knots: false,
                ..s
            } && r == Some(ResultModel::NeedPoint);
            &&& spells(plain, "CH"@) || spells(plain, "CHORD"@) ==> taken
                && t.knot_parameterization == 0
            &&& spells(plain, "S"@) || spells(plain, "SQUARE"@) || spells(plain, "SQUAREROOT"@)
                ==> taken && t.knot_parameterization == 1
            &&& spells(plain, "U"@) || spells(plain, "UNIFORM"@) ==> taken
                && t.knot_parameterization == 2
        }),
{
    capitals_spell(plain, "CH"@);
    capitals_spell(plain, "CHORD"@);
    capitals_spell(plain, "S"@);
    capitals_spell(plain, "SQUARE"@);
    capitals_spell(plain, "SQUAREROOT"@);
    capitals_spell(plain, "U"@);
    capitals_spell(plain, "UNIFORM"@);
    reveal_strlit("CH");
    reveal_strlit("CHORD");
    reveal_strlit("S");
    reveal_strlit("SQUARE");
    reveal_strlit("SQUAREROOT");
    reveal_strlit("U");
    reveal_strlit("UNIFORM");
    assert("CH"@.len() == 2);
    assert("CHORD"@.len() == 5);
    assert("S"@.len() == 1);
    assert("S"@[0] == 'S');
    assert("SQUARE"@.len() == 6);
    assert("SQUAREROOT"@.len() == 10);
    assert("U"@.len() == 1);
    assert("U"@[0] == 'U');
    assert("UNIFORM"@.len() == 7);
}

/// A command starts without points and tangents, with the cubic degree and knots
/// by the chord, and asks for a point.
pub proof fn spline_starts_empty(control_vertices: bool)
    ensures
        ({
            let s = started(control_vertices);
            &&& s.pts.len() == 0
            &&& s.control_vertices == control_vertices
            &&& s.degree == 3
            &&& s.knot_parameterization == 0
            &&& s.begin_tangent.x.bits == 0 && s.begin_tangent.y.bits == 0
                && s.begin_tangent.z.bits == 0
            &&& s.end_tangent == s.begin_tangent
            &&& !s.choosing_objects && !s.choosing_method && !s.choosing_degree
                && !s.choosing_knots && !s.choosing_tangent
            &&& s.selected_objects.len() == 0
        }),
{
}

/// A spline by control vertices has all given points, the first one again where it
/// is closed and does not end there already, a weight of one for each, zeros and
/// ones around its knots, and at most the cubic degree.
pub proof fn control_vertices_make_a_clamped_curve(
    pts: Seq<Point3>,
    closed: bool,
    interior: Seq<Real>,
    k: int,
)
    requires
        pts.len() >= 2,
    ensures
        ({
            let s = made_spline(pts, closed, true, interior);
            let n = s.control_points.len();
            let again = closed && !pts[0].equals(pts.last());
            &&& n == (if again {
                pts.len() + 1
            } else {
                pts.len()
            })
            &&& 0 <= k < pts.len() ==> s.control_points[k] == pts[k]
            &&& again ==> s.control_points.last() == pts[0]
            &&& s.weights.len() == n
            &&& 0 <= k < n ==> s.weights[k].bits == 0x3FF0_0000_0000_0000
            &&& s.fit_points.len() == 0
            &&& s.form.flags.closed == closed
            &&& n >= 4 ==> s.form.degree == 3 && s.knots.len() == n + 4
            &&& n < 4 ==> s.form.degree == n - 1 && s.knots.len() == 2 * n
            &&& 0 <= k <= s.form.degree ==> s.knots[k].bits == 0
            &&& n <= k < s.knots.len() ==> s.knots[k].bits == 0x3FF0_0000_0000_0000
            &&& s.form.degree < k < n ==> s.knots[k] == interior[k - s.form.degree - 1]
        }),
{
}

/// A spline by fit points has just these, and the cubic degree; a closed one is
/// periodic.
pub proof fn fit_points_are_kept(pts: Seq<Point3>, closed: bool, interior: Seq<Real>)
    ensures
        ({
            let s = made_spline(pts, closed, false, interior);
            &&& s.fit_points == pts
            &&& s.control_points.len() == 0
            &&& s.knots.len() == 0
            &&& s.weights.len() == 0
            &&& s.form.degree == 3
            &&& s.form.flags.closed == closed
            &&& s.form.flags.periodic == closed
        }),
{
}

/// The control points of a polyline are its marked vertices, in their order.
pub proof fn marked_vertices_control(
    flat: Seq<Vertex2D>,
    v: Vertex2D,
    solid: Seq<Vertex3D>,
    w: Vertex3D,
)
    ensures
        controls_2d(Seq::empty()) == Seq::<Point3>::empty(),
        controls_3d(Seq::empty()) == Seq::<Point3>::empty(),
        v.flags & 16 != 0 ==> controls_2d(flat.push(v)) == controls_2d(flat).push(v.location),
        v.flags & 16 == 0 ==> controls_2d(flat.push(v)) == controls_2d(flat),
        w.flags & 16 != 0 ==> controls_3d(solid.push(w)) == controls_3d(solid).push(w.position),
        w.flags & 16 == 0 ==> controls_3d(solid.push(w)) == controls_3d(solid),
{
    assert(flat.push(v).drop_last() =~= flat);
    assert(solid.push(w).drop_last() =~= solid);
}

/// A smoothed and spline-fit polyline is turned into the spline of its control
/// polygon, of the degree two or three, closed where it is closed and in the same
/// plane, with its properties but no handle.
pub proof fn polylines_become_splines(e: EntityModel, curve: CurveModel)
    ensures
        from_polyline(e, None) is None,
        e.shape matches ShapeModel::Polyline2D(p) ==> {
            let r = from_polyline(e, Some(curve))->0;
            let smoothed = p.form.smooth is Quadratic || p.form.smooth is Cubic;
            &&& from_polyline(e, Some(curve)) is Some <==> smoothed && p.form.flags & 4 != 0
            &&& smoothed && p.form.flags & 4 != 0 ==> {
                &&& frame_of(e) is Some
                &&& (frame_of(e)->0).degree == (if p.form.smooth is Quadratic {
                    2usize
                } else {
                    3
                })
                &&& (frame_of(e)->0).points == controls_2d(p.vertices)
                &&& (frame_of(e)->0).closed == (p.form.flags & 1 != 0)
                &&& r.common.handle == 0
                &&& r.common.layer == e.common.layer
                &&& r.common.color == e.common.color
                &&& r.common.transparency == e.common.transparency
                &&& r.common.xdata == e.common.xdata
                &&& r.spline.control_points == curve.control_points
                &&& r.spline.knots == curve.knots
                &&& r.spline.weights == curve.weights
                &&& r.spline.form.degree == curve.degree
                &&& r.spline.form.normal == p.form.normal
                &&& r.spline.form.flags.closed == (p.form.flags & 1 != 0)
            }
        },
        e.shape matches ShapeModel::Polyline3D(p) ==> {
            let r = from_polyline(e, Some(curve))->0;
            let smoothed = p.smooth is Quadratic || p.smooth is Cubic;
            &&& from_polyline(e, Some(curve)) is Some <==> smoothed && p.spline_fit
            &&& smoothed && p.spline_fit ==> {
                &&& (frame_of(e)->0).degree == (if p.smooth is Quadratic {
                    2usize
                } else {
                    3
                })
                &&& (frame_of(e)->0).points == controls_3d(p.vertices)
                &&& (frame_of(e)->0).closed == p.closed
                &&& r.common.handle == 0
                &&& r.common.layer == e.common.layer
                &&& r.common.color == e.common.color
                &&& r.spline.control_points == curve.control_points
                &&& r.spline.knots == curve.knots
                &&& r.spline.weights == curve.weights
                &&& r.spline.form.degree == curve.degree
                &&& r.spline.form.normal == p.normal
                &&& r.spline.form.flags.closed == p.closed
            }
        },
        !(e.shape is Polyline2D) && !(e.shape is Polyline3D) ==> from_polyline(e, Some(curve))
            is None,
{
}

/// Each selected polyline that can be turned into a spline is replaced by it, in
/// the order of the selection; where there is none, the command ends.
pub proof fn selected_polylines_are_replaced(
    s: SplineState,
    handle: Handle,
    curve: Option<CurveModel>,
)
    requires
        s.choosing_objects,
    ensures
        replacements(Seq::empty(), s.convertible) == Seq::<ReplacementModel>::empty(),
        s.convertible.contains_key(handle) ==> {
            let list = replacements(s.selected_objects.push(handle), s.convertible);
            &&& list.len() == replacements(s.selected_objects, s.convertible).len() + 1
            &&& list.take(list.len() - 1) == replacements(s.selected_objects, s.convertible)
            &&& list.last().handle == handle
            &&& list.last().entity.common == s.convertible[handle].common
            &&& list.last().entity.shape == ShapeModel::Spline(s.convertible[handle].spline)
        },
        !s.convertible.contains_key(handle) ==> replacements(
            s.selected_objects.push(handle),
            s.convertible,
        ) == replacements(s.selected_objects, s.convertible),
        entered(s, curve).0 == s,
        replacements(s.selected_objects, s.convertible).len() == 0 ==> entered(s, curve).1
            == ResultModel::Cancel,
        replacements(s.selected_objects, s.convertible).len() > 0 ==> entered(s, curve).1
            == ResultModel::ReplaceMany(replacements(s.selected_objects, s.convertible)),
{
    let all = s.selected_objects.push(handle);
    assert(all.drop_last() =~= s.selected_objects);
    let list = replacements(all, s.convertible);
    if s.convertible.contains_key(handle) {
        assert(list.take(list.len() - 1) =~= replacements(s.selected_objects, s.convertible));
    }
}

/// Each polyline of a drawing that has a curve can be turned into the spline of
/// this curve.
pub proof fn drawing_is_searched(
    list: Seq<EntityModel>,
    e: EntityModel,
    curves: Seq<Option<CurveModel>>,
)
    requires
        curves.len() == list.len() + 1,
    ensures
        ({
            let before = convertible_in(list, curves);
            let after = convertible_in(list.push(e), curves);
            let made = from_polyline(e, curves.last());
            &&& made is Some ==> {
                &&& after.contains_key(e.common.handle)
                &&& after[e.common.handle] == made->0
                &&& forall|h: Handle|
                    h != e.common.handle ==> (#[trigger] after.contains_key(h)
                        <==> before.contains_key(h)) && (before.contains_key(h) ==> after[h]
                        == before[h])
            }
            &&& made is None ==> after == before
        }),
{
    assert(list.push(e).drop_last() =~= list);
}

/// The answer that puts a spline in place of the edited one.
pub open spec fn replaces(s: SplineditState, r: Option<ResultModel>) -> bool {
    &&& r is Some
    &&& r->0 is ReplaceContinue
    &&& (r->0->ReplaceContinue_0).handle == s.handle
    &&& (r->0->ReplaceContinue_0).entity.common == (s.spline->0).common
    &&& (r->0->ReplaceContinue_0).entity.shape is Spline
}

/// The spline that is put in place of the edited one.
pub open spec fn new_spline(r: Option<ResultModel>) -> SplineModel {
    (r->0->ReplaceContinue_0).entity.shape->Spline_0
}

/// Whether two splines differ at most in their control points, knots and fit
/// points.
pub open spec fn same_form(a: SplineModel, b: SplineModel) -> bool {
    a.form == b.form && a.weights == b.weights
}

/// At the options, opening a spline whose finite first and last control points
/// coincide answers with a spline without the last one. With ends that do not
/// meet, all stay.
pub proof fn open_takes_the_last_point(s: SplineditState, up: Seq<char>, read: Reading)
    requires
        s.step == Step::Options,
        s.spline is Some,
        up == "O"@ || up == "OPEN"@,
    ensures
        ({
            let (t, r) = crate::splinedit::typed(s, up, read);
            let old = (s.spline->0).spline;
            let n = old.control_points.len();
            let meets = n >= 2 && (if old.control_points[0] == old.control_points[n - 1] {
                old.control_points[0].finite()
            } else {
                read.facts.ends_near
            });
            &&& replaces(s, r)
            &&& meets ==> {
                &&& new_spline(r).control_points.len() == n - 1
                &&& forall|k: int|
                    0 <= k < n - 1 ==> #[trigger] new_spline(r).control_points[k]
                        == old.control_points[k]
                &&& new_spline(r).fit_points.len() == 0
                &&& same_form(new_spline(r), old)
                &&& old.form.degree >= 0 ==> new_spline(r).knots == clamped_knots(
                    old.form.degree as usize,
                    (n - 1) as usize,
                )
            }
            &&& !meets ==> new_spline(r) == old
            &&& t == SplineditState { pending: t.pending, ..s }
            &&& t.pending is Some
            &&& (t.pending->0).spline == new_spline(r)
        }),
{
    reveal_strlit("O");
    reveal_strlit("OPEN");
    reveal_strlit("C");
    reveal_strlit("CLOSE");
    reveal_strlit("R");
    reveal_strlit("REFINE");
    reveal_strlit("M");
    reveal_strlit("MOVE");
    reveal_strlit("X");
    reveal_strlit("EXIT");
    reveal_strlit("U");
    reveal_strlit("UNDO");
    reveal_strlit("__SPLINEDIT_CLOSE__");
    reveal_strlit("__SPLINEDIT_OPEN__");
    reveal_strlit("__SPLINEDIT_REVERSE__");
    assert("O"@.len() == 1);
    assert("O"@[0] == 'O');
    assert("OPEN"@.len() == 4);
    assert("OPEN"@[0] == 'O');
    assert("C"@.len() == 1);
    assert("C"@[0] == 'C');
    assert("CLOSE"@.len() == 5);
    assert("R"@.len() == 1);
    assert("R"@[0] == 'R');
    assert("REFINE"@.len() == 6);
    assert("M"@.len() == 1);
    assert("M"@[0] == 'M');
    assert("MOVE"@.len() == 4);
    assert("MOVE"@[0] == 'M');
    assert("X"@.len() == 1);
    assert("X"@[0] == 'X');
    assert("EXIT"@.len() == 4);
    assert("EXIT"@[0] == 'E');
    assert("U"@.len() == 1);
    assert("U"@[0] == 'U');
    assert("UNDO"@.len() == 4);
    assert("UNDO"@[0] == 'U');
    assert("__SPLINEDIT_CLOSE__"@.len() == 19);
    assert("__SPLINEDIT_OPEN__"@.len() == 18);
    assert("__SPLINEDIT_REVERSE__"@.len() == 21);
}

/// At the options, closing answers with a spline that has the first control point
/// once more at its end.
pub proof fn close_repeats_the_first_point(s: SplineditState, up: Seq<char>, read: Reading)
    requires
        s.step == Step::Options,
        s.spline is Some,
        up == "C"@ || up == "CLOSE"@,
    ensures
        ({
            let (t, r) = crate::splinedit::typed(s, up, read);
            let old = (s.spline->0).spline;
            let n = old.control_points.len();
            &&& replaces(s, r)
            &&& n >= 2 ==> {
                &&& new_spline(r).control_points.len() == n + 1
                &&& new_spline(r).control_points[n as int] == old.control_points[0]
                &&& forall|k: int|
                    0 <= k < n ==> #[trigger] new_spline(r).control_points[k]
                        == old.control_points[k]
                &&& new_spline(r).fit_points.len() == 0
                &&& same_form(new_spline(r), old)
                &&& old.form.degree >= 0 ==> new_spline(r).knots == clamped_knots(
                    old.form.degree as usize,
                    (n + 1) as usize,
                )
            }
            &&& n < 2 ==> new_spline(r) == old
            &&& t == SplineditState { pending: t.pending, ..s }
            &&& t.pending is Some
            &&& (t.pending->0).spline == new_spline(r)
        }),
{
    reveal_strlit("O");
    reveal_strlit("OPEN");
    reveal_strlit("C");
    reveal_strlit("CLOSE");
    reveal_strlit("R");
    reveal_strlit("REFINE");
    reveal_strlit("M");
    reveal_strlit("MOVE");
    reveal_strlit("X");
    reveal_strlit("EXIT");
    reveal_strlit("U");
    reveal_strlit("UNDO");
    reveal_strlit("__SPLINEDIT_CLOSE__");
    reveal_strlit("__SPLINEDIT_OPEN__");
    reveal_strlit("__SPLINEDIT_REVERSE__");
    assert("O"@.len() == 1);
    assert("O"@[0] == 'O');
    assert("OPEN"@.len() == 4);
    assert("OPEN"@[0] == 'O');
    assert("C"@.len() == 1);
    assert("C"@[0] == 'C');
    assert("CLOSE"@.len() == 5);
    assert("R"@.len() == 1);
    assert("R"@[0] == 'R');
    assert("REFINE"@.len() == 6);
    assert("M"@.len() == 1);
    assert("M"@[0] == 'M');
    assert("MOVE"@.len() == 4);
    assert("MOVE"@[0] == 'M');
    assert("X"@.len() == 1);
    assert("X"@[0] == 'X');
    assert("EXIT"@.len() == 4);
    assert("EXIT"@[0] == 'E');
    assert("U"@.len() == 1);
    assert("U"@[0] == 'U');
    assert("UNDO"@.len() == 4);
    assert("UNDO"@[0] == 'U');
    assert("__SPLINEDIT_CLOSE__"@.len() == 19);
    assert("__SPLINEDIT_OPEN__"@.len() == 18);
    assert("__SPLINEDIT_REVERSE__"@.len() == 21);
}

/// At the options, reversing answers with the reversed spline.
pub proof fn reverse_answers_reversed(s: SplineditState, up: Seq<char>, read: Reading)
    requires
        s.step == Step::Options,
        s.spline is Some,
        up == "E"@ || up == "REV"@ || up == "REVERSE"@,
    ensures
        ({
            let (t, r) = crate::splinedit::typed(s, up, read);
            &&& replaces(s, r)
            &&& read.facts.reversed is Some ==> new_spline(r) == (read.facts.reversed->0)@
            &&& read.facts.reversed is None ==> new_spline(r) == (s.spline->0).spline
            &&& t == SplineditState { pending: t.pending, ..s }
            &&& t.pending is Some
            &&& (t.pending->0).spline == new_spline(r)
        }),
{
    reveal_strlit("E");
    reveal_strlit("REV");
    reveal_strlit("REVERSE");
    reveal_strlit("O");
    reveal_strlit("OPEN");
    reveal_strlit("C");
    reveal_strlit("CLOSE");
    reveal_strlit("R");
    reveal_strlit("REFINE");
    reveal_strlit("M");
    reveal_strlit("MOVE");
    reveal_strlit("X");
    reveal_strlit("EXIT");
    reveal_strlit("U");
    reveal_strlit("UNDO");
    reveal_strlit("__SPLINEDIT_CLOSE__");
    reveal_strlit("__SPLINEDIT_OPEN__");
    reveal_strlit("__SPLINEDIT_REVERSE__");
    assert("E"@.len() == 1);
    assert("E"@[0] == 'E');
    assert("REV"@.len() == 3);
    assert("REVERSE"@.len() == 7);
    assert("O"@.len() == 1);
    assert("O"@[0] == 'O');
    assert("OPEN"@.len() == 4);
    assert("OPEN"@[0] == 'O');
    assert("C"@.len() == 1);
    assert("C"@[0] == 'C');
    assert("CLOSE"@.len() == 5);
    assert("R"@.len() == 1);
    assert("R"@[0] == 'R');
    assert("REFINE"@.len() == 6);
    assert("M"@.len() == 1);
    assert("M"@[0] == 'M');
    assert("MOVE"@.len() == 4);
    assert("MOVE"@[0] == 'M');
    assert("X"@.len() == 1);
    assert("X"@[0] == 'X');
    assert("EXIT"@.len() == 4);
    assert("EXIT"@[0] == 'E');
    assert("U"@.len() == 1);
    assert("U"@[0] == 'U');
    assert("UNDO"@.len() == 4);
    assert("UNDO"@[0] == 'U');
    assert("__SPLINEDIT_CLOSE__"@.len() == 19);
    assert("__SPLINEDIT_OPEN__"@.len() == 18);
    assert("__SPLINEDIT_REVERSE__"@.len() == 21);
}

/// At the options, a word leads to the refinements, to the first vertex or out of
/// the command, and undo brings back the spline that was replaced last, under the
/// handle that it had.
pub proof fn options_lead_on(s: SplineditState, up: Seq<char>, read: Reading)
    requires
        s.step == Step::Options,
    ensures
        ({
            let (t, r) = crate::splinedit::typed(s, up, read);
            let go = Some(ResultModel::NeedPoint);
            &&& up == "R"@ || up == "REFINE"@ ==> r == go && t == (SplineditState {
                step: Step::Refine,
                ..s
            })
            &&& up == "M"@ || up == "MOVE"@ ==> r == go && t == (SplineditState {
                step: Step::Move { index: 0, refine: false },
                ..s
            })
            &&& up == "X"@ || up == "EXIT"@ ==> r == Some(ResultModel::Cancel) && t == s
            &&& (up == "U"@ || up == "UNDO"@) && s.history.len() == 0 ==> r == go && t == s
            &&& (up == "U"@ || up == "UNDO"@) && s.history.len() > 0 ==> {
                &&& r == Some(ResultModel::UndoDocument)
                &&& t.spline == Some(s.history.last().spline)
                &&& t.handle == s.history.last().handle
                &&& t.history == s.history.take(s.history.len() - 1)
                &&& t.step == s.step
                &&& t.pending == s.pending
            }
        }),
{
    reveal_strlit("R");
    reveal_strlit("REFINE");
    reveal_strlit("M");
    reveal_strlit("MOVE");
    reveal_strlit("X");
    reveal_strlit("EXIT");
    reveal_strlit("U");
    reveal_strlit("UNDO");
    assert("R"@.len() == 1);
    assert("R"@[0] == 'R');
    assert("REFINE"@.len() == 6);
    assert("M"@.len() == 1);
    assert("M"@[0] == 'M');
    assert("MOVE"@.len() == 4);
    assert("MOVE"@[0] == 'M');
    assert("X"@.len() == 1);
    assert("X"@[0] == 'X');
    assert("EXIT"@.len() == 4);
    assert("EXIT"@[0] == 'E');
    assert("U"@.len() == 1);
    assert("U"@[0] == 'U');
    assert("UNDO"@.len() == 4);
    assert("UNDO"@[0] == 'U');
    if s.history.len() > 0 {
        assert(s.history.drop_last() =~= s.history.take(s.history.len() - 1));
    }
}

/// At the refinements, each word leads to its step, and nothing else changes.
pub proof fn refinements_lead_on(s: SplineditState, up: Seq<char>, read: Reading)
    requires
        s.step == Step::Refine,
    ensures
        ({
            let (t, r) = crate::splinedit::typed(s, up, read);
            &&& r == Some(ResultModel::NeedPoint)
            &&& t == SplineditState { step: t.step, ..s }
            &&& up == "A"@ || up == "ADD"@ ==> t.step == Step::Add
            &&& up == "D"@ || up == "DELETE"@ ==> t.step == Step::Delete
            &&& up == "E"@ || up == "ELEVATE"@ ==> t.step == Step::Elevate
            &&& up == "M"@ || up == "MOVE"@ ==> t.step == (Step::Move { index: 0, refine: true })
            &&& up == "W"@ || up == "WEIGHT"@ ==> t.step == (Step::Weight { index: 0 })
            &&& up == "X"@ || up == "EXIT"@ || up.len() == 0 ==> t.step == Step::Options
        }),
{
    reveal_strlit("A");
    reveal_strlit("ADD");
    reveal_strlit("D");
    reveal_strlit("DELETE");
    reveal_strlit("E");
    reveal_strlit("ELEVATE");
    reveal_strlit("M");
    reveal_strlit("MOVE");
    reveal_strlit("W");
    reveal_strlit("WEIGHT");
    reveal_strlit("X");
    reveal_strlit("EXIT");
    assert("A"@.len() == 1);
    assert("A"@[0] == 'A');
    assert("ADD"@.len() == 3);
    assert("D"@.len() == 1);
    assert("D"@[0] == 'D');
    assert("DELETE"@.len() == 6);
    assert("DELETE"@[0] == 'D');
    assert("E"@.len() == 1);
    assert("E"@[0] == 'E');
    assert("ELEVATE"@.len() == 7);
    assert("M"@.len() == 1);
    assert("M"@[0] == 'M');
    assert("MOVE"@.len() == 4);
    assert("MOVE"@[0] == 'M');
    assert("W"@.len() == 1);
    assert("W"@[0] == 'W');
    assert("WEIGHT"@.len() == 6);
    assert("WEIGHT"@[0] == 'W');
    assert("X"@.len() == 1);
    assert("X"@[0] == 'X');
    assert("EXIT"@.len() == 4);
    assert("EXIT"@[0] == 'E');
}

/// The vertex that a step is at.
pub open spec fn vertex_of(step: Step) -> int {
    match step {
        Step::Move { index, refine } => index as int,
        Step::Weight { index } => index as int,
        _ => -1,
    }
}

/// At a vertex, next and the Enter key go to the vertex behind it and previous to
/// the one before it, both around the ends; the kind of edit stays.
pub proof fn vertices_are_walked(s: SplineditState, up: Seq<char>, read: Reading)
    requires
        s.step is Move || s.step is Weight,
        s.spline is Some,
        0 <= vertex_of(s.step) < (s.spline->0).spline.control_points.len(),
        (s.spline->0).spline.control_points.len() <= usize::MAX,
    ensures
        ({
            let (t, r) = crate::splinedit::typed(s, up, read);
            let n = (s.spline->0).spline.control_points.len();
            let k = vertex_of(s.step);
            &&& up == "N"@ || up == "NEXT"@ || up.len() == 0 ==> {
                &&& r == Some(ResultModel::NeedPoint)
                &&& vertex_of(t.step) == (if k + 1 == n {
                    0
                } else {
                    k + 1
                })
            }
            &&& up == "P"@ || up == "PREVIOUS"@ ==> {
                &&& r == Some(ResultModel::NeedPoint)
                &&& vertex_of(t.step) == (if k == 0 {
                    n - 1
                } else {
                    k - 1
                })
            }
            &&& up == "N"@ || up == "NEXT"@ || up == "P"@ || up == "PREVIOUS"@ || up.len() == 0
                ==> {
                &&& t == SplineditState { step: t.step, ..s }
                &&& s.step is Weight <==> t.step is Weight
                &&& s.step is Move ==> t.step is Move && t.step->Move_refine == s.step->Move_refine
            }
            &&& up == "S"@ || up == "SELECT"@ ==> {
                &&& r == Some(ResultModel::NeedPoint)
                &&& t == SplineditState { step: t.step, ..s }
                &&& t.step is SelectVertex
                &&& t.step->weight == (s.step is Weight)
                &&& s.step is Move ==> t.step->SelectVertex_refine == s.step->Move_refine
            }
            &&& up == "X"@ || up == "EXIT"@ ==> {
                &&& r == Some(ResultModel::NeedPoint)
                &&& t == SplineditState { step: t.step, ..s }
                &&& s.step is Weight || s.step->Move_refine ==> t.step == Step::Refine
                &&& s.step is Move && !s.step->Move_refine ==> t.step == Step::Options
            }
        }),
{
    reveal_strlit("N");
    reveal_strlit("NEXT");
    reveal_strlit("P");
    reveal_strlit("PREVIOUS");
    reveal_strlit("S");
    reveal_strlit("SELECT");
    reveal_strlit("X");
    reveal_strlit("EXIT");
    assert("N"@.len() == 1);
    assert("N"@[0] == 'N');
    assert("NEXT"@.len() == 4);
    assert("NEXT"@[0] == 'N');
    assert("P"@.len() == 1);
    assert("P"@[0] == 'P');
    assert("PREVIOUS"@.len() == 8);
    assert("S"@.len() == 1);
    assert("S"@[0] == 'S');
    assert("SELECT"@.len() == 6);
    assert("X"@.len() == 1);
    assert("X"@[0] == 'X');
    assert("EXIT"@.len() == 4);
    assert("EXIT"@[0] == 'E');
    let n = (s.spline->0).spline.control_points.len() as int;
    let k = vertex_of(s.step);
    assert((k + 1) % n == (if k + 1 == n {
        0
    } else {
        k + 1
    })) by (nonlinear_arith)
        requires
            0 <= k < n,
    ;
    assert((k + n - 1) % n == (if k == 0 {
        n - 1
    } else {
        k - 1
    })) by (nonlinear_arith)
        requires
            0 <= k < n,
    ;
}

/// A number above zero typed at a vertex becomes the weight of that vertex alone,
/// and makes the spline rational; weights that were missing are ones.
pub proof fn weight_is_set(s: SplineditState, index: usize, up: Seq<char>, read: Reading, w: Real)
    requires
        s.step == (Step::Weight { index }),
        s.spline is Some,
        index < (s.spline->0).spline.control_points.len(),
        read.number == Some(w),
        up.len() > 0,
        up != "N"@ && up != "NEXT"@ && up != "P"@ && up != "PREVIOUS"@ && up != "S"@ && up
            != "SELECT"@ && up != "X"@ && up != "EXIT"@,
    ensures
        ({
            let (t, r) = crate::splinedit::typed(s, up, read);
            let old = (s.spline->0).spline;
            &&& !(0 < w.bits < 0x7FF0_0000_0000_0000) ==> t == s && r == Some(
                ResultModel::NeedPoint,
            )
            &&& 0 < w.bits < 0x7FF0_0000_0000_0000 ==> {
                &&& replaces(s, r)
                &&& new_spline(r).control_points == old.control_points
                &&& new_spline(r).knots == old.knots
                &&& new_spline(r).fit_points.len() == 0
                &&& new_spline(r).weights.len() == old.control_points.len()
                &&& new_spline(r).weights[index as int] == w
                &&& forall|k: int|
                    0 <= k < old.control_points.len() && k != index
                        ==> #[trigger] new_spline(r).weights[k] == (if k < old.weights.len() {
                        old.weights[k]
                    } else {
                        Real { bits: 0x3FF0_0000_0000_0000 }
                    })
                &&& new_spline(r).form.flags.rational
                &&& new_spline(r).form.degree == old.form.degree
                &&& new_spline(r).form.flags.closed == old.form.flags.closed
                &&& new_spline(r).form.flags.planar == old.form.flags.planar
                &&& t.step == s.step
            }
        }),
{
}

/// A point given at a vertex moves that vertex there, and no other.
pub proof fn vertex_is_moved(
    s: SplineditState,
    index: usize,
    refine: bool,
    point: Point3,
    near: Option<usize>,
    read: PointReading,
)
    requires
        s.step == (Step::Move { index, refine }),
        s.spline is Some,
        index < (s.spline->0).spline.control_points.len(),
        point.finite(),
    ensures
        ({
            let (t, r) = crate::splinedit::pointed(s, point, near, read);
            let old = (s.spline->0).spline;
            &&& replaces(s, r)
            &&& new_spline(r).control_points.len() == old.control_points.len()
            &&& new_spline(r).control_points[index as int] == point
            &&& forall|k: int|
                0 <= k < old.control_points.len() && k != index
                    ==> #[trigger] new_spline(r).control_points[k] == old.control_points[k]
            &&& new_spline(r).knots == old.knots
            &&& new_spline(r).fit_points.len() == 0
            &&& same_form(new_spline(r), old)
            &&& t.step == s.step
            &&& t.pending is Some
            &&& (t.pending->0).spline == new_spline(r)
        }),
{
}

/// A point given for a vertex to select, to delete or to add goes by the vertex
/// nearest to it and by the curves that were made.
pub proof fn points_select_and_refine(
    s: SplineditState,
    point: Point3,
    near: Option<usize>,
    read: PointReading,
)
    requires
        s.spline is Some,
    ensures
        ({
            let (t, r) = crate::splinedit::pointed(s, point, near, read);
            let go = Some(ResultModel::NeedPoint);
            let old = (s.spline->0).spline;
            &&& !point.finite() ==> t == s && r == go
            &&& point.finite() && near is Some ==> {
                &&& s.step matches Step::SelectVertex { weight, refine } ==> r == go && t
                    == SplineditState { step: t.step, ..s } && vertex_of(t.step) == near->0 && (
                weight <==> t.step is Weight) && (!weight ==> t.step->Move_refine == refine)
                &&& s.step == Step::Delete && read.reduced is Some ==> {
                    let c = read.reduced->0;
                    &&& replaces(s, r)
                    &&& new_spline(r).control_points == c.control_points@
                    &&& new_spline(r).weights == c.weights@
                    &&& new_spline(r).knots == c.knots@
                    &&& new_spline(r).form.degree == c.degree
                    &&& new_spline(r).fit_points.len() == 0
                    &&& new_spline(r).form.normal == old.form.normal
                    &&& t.step == s.step
                }
                &&& s.step == Step::Delete && read.reduced is None ==> t == s && r == go
            }
            &&& point.finite() && s.step == Step::Add && read.refined is None ==> t == s && r
                == go
            &&& point.finite() && s.step == Step::Add && read.refined is Some ==> {
                &&& t.pending == Some((read.refined->0)@)
                &&& t.step == s.step
                &&& r is Some
                &&& r->0 is ReplaceContinue
                &&& (r->0->ReplaceContinue_0).handle == s.handle
                &&& new_spline(r) == (read.refined->0)@.spline
            }
        }),
{
}

/// A typed order that the spline can have replaces it by the raised one, and the
/// refinements come next.
pub proof fn order_is_raised(s: SplineditState, n: nat, read: Reading)
    requires
        s.step == Step::Elevate,
        n <= usize::MAX,
    ensures
        ({
            let (t, r) = crate::splinedit::typed(s, decimal(n), read);
            &&& read.elevated is Some && n <= 26 ==> {
                &&& t.step == Step::Refine
                &&& t.pending == Some((read.elevated->0)@)
                &&& t.handle == s.handle
                &&& t.spline == s.spline
                &&& r is Some
                &&& r->0 is ReplaceContinue
                &&& (r->0->ReplaceContinue_0).handle == s.handle
                &&& new_spline(r) == (read.elevated->0)@.spline
            }
            &&& read.elevated is None || n > 26 ==> t == s && r == Some(ResultModel::NeedPoint)
        }),
{
    decimals_read_back(n as int, 0, usize::MAX as int);
    crate::text_laws::digits_are_numbers(decimal(n), 0, 0);
    assert(decimal(n).len() > 0);
}

/// The Enter key raises the order to what is offered, one above the degree, as
/// long as that is at most twenty-six, and leaves the other steps.
pub proof fn enter_leaves_steps(s: SplineditState, elevated: Option<SplineEntityModel>)
    ensures
        ({
            let (t, r) = crate::splinedit::entered(s, elevated);
            let order = if s.spline is Some {
                (s.spline->0).spline.form.degree + 1
            } else {
                4
            };
            &&& s.step == Step::Options || s.step == Step::SelectSpline ==> t == s && r == Some(
                ResultModel::Cancel,
            )
            &&& s.step == Step::Refine ==> t == (SplineditState { step: Step::Options, ..s })
                && r == Some(ResultModel::NeedPoint)
            &&& s.step == Step::Add || s.step == Step::Delete || s.step is SelectVertex ==> t
                == (SplineditState { step: Step::Refine, ..s }) && r == Some(
                ResultModel::NeedPoint,
            )
            &&& s.step == Step::Elevate && elevated is Some && 0 < order <= 26 ==> {
                &&& t.step == Step::Refine
                &&& t.pending == elevated
                &&& r is Some
                &&& r->0 is ReplaceContinue
                &&& (r->0->ReplaceContinue_0).handle == s.handle
                &&& new_spline(r) == (elevated->0).spline
            }
            &&& s.step == Step::Elevate && !(elevated is Some && 0 < order <= 26) ==> t == s
                && r == Some(ResultModel::NeedPoint)
        }),
{
}

proof fn lemma_place(list: Seq<EntityModel>, handle: Handle)
    ensures
        0 <= place_of(list, handle) <= list.len(),
        place_of(list, handle) < list.len() ==> list[place_of(list, handle)].common.handle
            == handle,
        forall|k: int|
            0 <= k < place_of(list, handle) ==> (#[trigger] list[k]).common.handle != handle,
    decreases list.len(),
{
    if list.len() > 0 && list[0].common.handle != handle {
        let rest = list.drop_first();
        lemma_place(rest, handle);
        assert forall|k: int| 0 <= k < place_of(list, handle) implies (
        #[trigger] list[k]).common.handle != handle by {
            if k > 0 {
                assert(list[k] == rest[k - 1]);
            }
        }
    }
}

/// An operation on a spline of a drawing changes the first entity with the handle
/// and no other, and of it only the curve; without such an entity nothing
/// changes.
pub proof fn one_spline_is_operated(
    list: Seq<EntityModel>,
    handle: Handle,
    op: Seq<char>,
    near: bool,
    reversed: Option<SplineModel>,
    i: int,
)
    requires
        0 <= i < list.len(),
        list[i].common.handle == handle,
        forall|k: int| 0 <= k < i ==> (#[trigger] list[k]).common.handle != handle,
    ensures
        ({
            let after = operated_in(list, handle, op, near, reversed);
            let old = list[i].shape->Spline_0;
            let new = after[i].shape->Spline_0;
            let n = old.control_points.len();
            &&& after.len() == list.len()
            &&& forall|k: int| 0 <= k < list.len() && k != i ==> #[trigger] after[k] == list[k]
            &&& after[i].common == list[i].common
            &&& !(list[i].shape is Spline) ==> after[i] == list[i]
            &&& list[i].shape is Spline ==> {
                &&& after[i].shape is Spline
                &&& op == "__SPLINEDIT_CLOSE__"@ && n >= 2 ==> new.control_points.len() == n + 1
                    && new.control_points.last() == old.control_points[0]
                    && new.control_points.take(n as int) == old.control_points
                &&& op == "__SPLINEDIT_OPEN__"@ && n >= 2 && old.control_points[0]
                    == old.control_points[n - 1] && old.control_points[0].finite()
                    ==> new.control_points == old.control_points.take(n - 1)
                &&& op == "__SPLINEDIT_OPEN__"@ && n >= 2 && old.control_points[0]
                    != old.control_points[n - 1] && !near ==> new == old
                &&& op == "__SPLINEDIT_REVERSE__"@ && reversed is Some ==> new == reversed->0
                &&& op != "__SPLINEDIT_CLOSE__"@ && op != "__SPLINEDIT_OPEN__"@ && op
                    != "__SPLINEDIT_REVERSE__"@ ==> new == old
            }
        }),
{
    lemma_place(list, handle);
    let p = place_of(list, handle);
    if p < i {
        assert(list[p].common.handle == handle);
    }
    if p > i {
        assert(list[i].common.handle != handle);
    }
    assert(p == i);
    reveal_strlit("__SPLINEDIT_CLOSE__");
    reveal_strlit("__SPLINEDIT_OPEN__");
    reveal_strlit("__SPLINEDIT_REVERSE__");
    assert("__SPLINEDIT_CLOSE__"@.len() == 19);
    assert("__SPLINEDIT_OPEN__"@.len() == 18);
    assert("__SPLINEDIT_REVERSE__"@.len() == 21);
    if list[i].shape is Spline {
        let old = list[i].shape->Spline_0;
        let n = old.control_points.len();
        let new = operated_in(list, handle, op, near, reversed)[i].shape->Spline_0;
        if n >= 2 {
            assert(old.control_points.push(old.control_points[0]).take(n as int)
                =~= old.control_points);
            assert(old.control_points.drop_last() =~= old.control_points.take(n - 1));
        }
    }
}

/// Once the edited spline was replaced, the new one is edited under its new
/// handle, and the old one with its handle waits to be brought back.
pub proof fn replacement_is_edited(s: SplineditState, old: Handle, new: Seq<Handle>)
    ensures
        ({
            let t = crate::splinedit::replaced(s, old, new);
            &&& old != s.handle ==> t == s
            &&& old == s.handle && (new.len() == 0 || s.pending is None) ==> t
                == SplineditState { pending: None, ..s }
            &&& old == s.handle && new.len() > 0 && s.pending is Some ==> {
                &&& t.handle == new[0]
                &&& t.spline == s.pending
                &&& t.pending is None
                &&& t.step == s.step
                &&& s.spline is Some ==> {
                    &&& t.history.len() == s.history.len() + 1
                    &&& t.history.last().handle == old
                    &&& t.history.last().spline == s.spline->0
                    &&& t.history.take(s.history.len() as int) == s.history
                }
            }
        }),
{
    if s.spline is Some {
        let past = crate::splinedit::PastModel { handle: old, spline: s.spline->0 };
        assert(s.history.push(past).take(s.history.len() as int) =~= s.history);
    }
}

/// Points make a control polygon of the chosen degree, or of one less than there
/// are points where these are too few.
pub proof fn degree_is_bounded(s: SplineState)
    requires
        s.pts.len() > 0,
    ensures
        polygon_degree(s) < s.pts.len(),
        s.degree < s.pts.len() ==> polygon_degree(s) == s.degree,
        s.degree >= s.pts.len() ==> polygon_degree(s) + 1 == s.pts.len(),
{
}

/// The spline shown under the cursor is the one that Enter commits once the cursor's
/// place is given: it has the points given so far and then the cursor's. None is
/// shown before the first point nor while an option is asked for.
pub proof fn cursor_shows_what_enter_commits(
    s: SplineState,
    cursor: Point3,
    curve: Option<CurveModel>,
)
    ensures
        s.pts.len() == 0 || s.choosing_method || s.choosing_degree || s.choosing_knots
            || s.choosing_tangent ==> crate::spline::previewed(s, cursor, curve) is None,
        s.pts.len() > 0 && !s.choosing_objects && !s.choosing_method && !s.choosing_degree
            && !s.choosing_knots && !s.choosing_tangent && (s.control_vertices ==> curve is Some)
            ==> {
            let shown = crate::spline::previewed(s, cursor, curve);
            &&& shown is Some
            &&& entered(SplineState { pts: s.pts.push(cursor), ..s }, curve).1
                == ResultModel::CommitAndExit(shown->0)
            &&& !s.control_vertices ==> shown->0.shape is Spline
                && shown->0.shape->Spline_0.fit_points == s.pts.push(cursor)
        },
{
    reveal_strlit("0");
}

/// A finished selection is that of the objects in it that can become splines, in
/// their order: what cannot is passed over, and with nothing left the command ends.
pub proof fn only_convertible_objects_are_taken(
    s: SplineState,
    handles: Seq<Handle>,
    curve: Option<CurveModel>,
    h: Handle,
)
    requires
        s.choosing_objects,
    ensures
        ({
            let next = crate::spline::gathered(s, handles, curve).0;
            &&& next.selected_objects.contains(h) <==> handles.contains(h)
                && s.convertible.contains_key(h)
            &&& (forall|k: int|
                0 <= k < handles.len() ==> s.convertible.contains_key(#[trigger] handles[k]))
                ==> next.selected_objects == handles
            &&& next.convertible == s.convertible
            &&& next.pts == s.pts
        }),
        (forall|k: int|
            0 <= k < handles.len() ==> !s.convertible.contains_key(#[trigger] handles[k]))
            ==> crate::spline::gathered(s, handles, curve).1 is Cancel,
{
    let pred = |x: Handle| s.convertible.contains_key(x);
    let taken = handles.filter(pred);
    if taken.contains(h) {
        let i = choose|i: int| 0 <= i < taken.len() && taken[i] == h;
        handles.lemma_filter_pred(pred, i);
        handles.lemma_filter_contains_rev(pred, h);
    }
    if handles.contains(h) && s.convertible.contains_key(h) {
        let i = choose|i: int| 0 <= i < handles.len() && handles[i] == h;
        handles.lemma_filter_contains(pred, i);
    }
    if forall|k: int|
        0 <= k < handles.len() ==> s.convertible.contains_key(#[trigger] handles[k]) {
        lemma_all_taken(handles, pred);
    }
    if forall|k: int|
        0 <= k < handles.len() ==> !s.convertible.contains_key(#[trigger] handles[k]) {
        if taken.len() > 0 {
            handles.lemma_filter_pred(pred, 0);
            handles.lemma_filter_contains_rev(pred, taken[0]);
        }
        assert(taken =~= Seq::empty());
        assert(replacements(taken, s.convertible) =~= Seq::empty());
    }
}

proof fn lemma_all_taken(handles: Seq<Handle>, pred: spec_fn(Handle) -> bool)
    requires
        forall|k: int| 0 <= k < handles.len() ==> pred(#[trigger] handles[k]),
    ensures
        handles.filter(pred) == handles,
    decreases handles.len(),
{
    reveal(Seq::filter);
    if handles.len() > 0 {
        let rest = handles.drop_last();
        assert forall|k: int| 0 <= k < rest.len() implies pred(#[trigger] rest[k]) by {
            assert(rest[k] == handles[k]);
        }
        lemma_all_taken(rest, pred);
        assert(handles.filter(pred) =~= handles);
    }
}

/// A pick leads to the options of the spline that was hit, and nowhere else: without
/// a handle, or where the entity is no spline, the selection goes on as it was.
pub proof fn picked_spline_is_edited(s: SplineditState, entity: EntityModel, handle: Handle)
    requires
        s.step is SelectSpline,
    ensures
        ({
            let held = crate::splinedit::injected(s, entity);
            let next = crate::splinedit::spline_picked(held, handle);
            &&& entity.shape is Spline && handle != 0 ==> {
                &&& next.step is Options
                &&& next.handle == handle
                &&& next.spline is Some
                &&& next.spline->0.common == entity.common
                &&& next.spline->0.spline == entity.shape->Spline_0
            }
            &&& !(entity.shape is Spline) ==> next.step is SelectSpline && next.spline is None
                && next.handle == s.handle
            &&& handle == 0 ==> next.step is SelectSpline && next.handle == s.handle
        }),
{
}

/// Every control point has a weight: its own where the spline has weights, and one
/// where it has none.
pub proof fn weights_are_filled_in(spline: SplineModel, i: int)
    requires
        0 <= i < spline.control_points.len(),
    ensures
        spline.weights.len() == 0 ==> {
            &&& crate::splinedit::weights_in_full(spline).len() == spline.control_points.len()
            &&& crate::splinedit::weights_in_full(spline)[i].bits == 0x3FF0_0000_0000_0000
        },
        spline.weights.len() > 0 ==> crate::splinedit::weights_in_full(spline) == spline.weights,
{
}

/// The degree that the knots are made for is the asked one where the control points
/// allow it, and else the nearest that they do: at least one, and less than there are
/// points.
pub proof fn knots_are_made_for_a_degree_in_range(degree: usize, n: usize)
    requires
        n >= 2,
    ensures
        1 <= crate::splinedit::knot_degree(degree, n) < n,
        1 <= degree < n ==> crate::splinedit::knot_degree(degree, n) == degree,
        degree == 0 ==> crate::splinedit::knot_degree(degree, n) == 1,
        degree >= n ==> crate::splinedit::knot_degree(degree, n) == n - 1,
{
}

} // verus!
