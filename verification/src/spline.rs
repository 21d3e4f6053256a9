//! Drawing a spline through fit points or by control vertices, and turning
//! spline-fit polylines into splines.
use crate::command::{
    answer, phrase_model, phrase_with, plain_phrase, CmdOption, CmdResult, Phrase, PhraseModel,
    Replacement, ReplacementModel, ResultModel, ToolDef,
};
use crate::entity::{
    copy_of, flag_set, fresh_model, has_flag, plain_flags, views, Common, CommonModel, Entity,
    EntityModel, Handle, NO_HANDLE, POLYLINE_CLOSED, POLYLINE_SPLINE_FIT, Shape, ShapeModel,
    Smoothing, Spline, SplineEntity, SplineEntityModel, SplineFlags, SplineForm, SplineModel,
    VERTEX_CONTROL, Vertex2D, Vertex3D,
};
use crate::handle_map::{map_get, map_insert, map_new};
use crate::text::{
    ascii_upper, decimal, either, is_either, join3, keyword_of, number, owned, read_unsigned,
    same, to_ascii_upper, to_upper, trim, trimmed, unsigned_value,
};
use crate::value::{one, origin, upward, zero, Point3, Real};
use rustc_hash::FxHashMap;
use vstd::prelude::*;

verus! {

/// The ribbon tool of this command.
pub fn tool() -> (r: ToolDef)
    ensures
        r == (ToolDef { id: "SPLINE", label: "Spline", icon: "spline.svg", command: "SPLINE" }),
{
    ToolDef { id: "SPLINE", label: "Spline", icon: "spline.svg", command: "SPLINE" }
}

/// A curve that the geometry kernel made of a control polygon.
pub struct ControlCurve {
    pub degree: i32,
    pub control_points: Vec<Point3>,
    pub knots: Vec<Real>,
    pub weights: Vec<Real>,
    pub planar: bool,
}

/// The contents of a [`ControlCurve`].
#[verifier::ext_equal]
pub struct CurveModel {
    pub degree: i32,
    pub control_points: Seq<Point3>,
    pub knots: Seq<Real>,
    pub weights: Seq<Real>,
    pub planar: bool,
}

impl View for ControlCurve {
    type V = CurveModel;

    open spec fn view(&self) -> CurveModel {
        CurveModel {
            degree: self.degree,
            control_points: self.control_points@,
            knots: self.knots@,
            weights: self.weights@,
            planar: self.planar,
        }
    }
}

/// The contents of a curve, where there is one.
pub open spec fn curve_model(c: Option<ControlCurve>) -> Option<CurveModel> {
    match c {
        Some(c) => Some(c@),
        None => None,
    }
}

/// The form of a new spline.
#[verifier::allow_in_spec]
pub fn new_form(degree: i32) -> SplineForm
    returns
        (SplineForm {
            degree,
            flags: plain_flags(),
            normal: upward(),
            begin_tangent: origin(),
            end_tangent: origin(),
            knot_parameterization: 0,
        }),
{
    SplineForm {
        degree,
        flags: plain_flags(),
        normal: upward(),
        begin_tangent: origin(),
        end_tangent: origin(),
        knot_parameterization: 0,
    }
}

/// The spline of a control polygon. A closed one is periodic.
pub open spec fn control_spline_model(c: CurveModel, closed: bool) -> SplineModel {
    let form = new_form(c.degree);
    SplineModel {
        control_points: c.control_points,
        knots: c.knots,
        weights: c.weights,
        fit_points: Seq::empty(),
        form: SplineForm {
            flags: SplineFlags { closed, periodic: closed, planar: c.planar, ..form.flags },
            ..form
        },
    }
}

fn control_spline(curve: &ControlCurve, closed: bool) -> (r: Spline)
    ensures
        r@ == control_spline_model(curve@, closed),
{
    let form = new_form(curve.degree);
    Spline {
        control_points: copy_of(&curve.control_points),
        knots: copy_of(&curve.knots),
        weights: copy_of(&curve.weights),
        fit_points: Vec::new(),
        form: SplineForm {
            flags: SplineFlags { closed, periodic: closed, planar: curve.planar, ..form.flags },
            ..form
        },
    }
}

/// The control polygon of a spline-fit polyline. The points of a polyline in a
/// plane are given in that plane.
pub struct Frame {
    pub degree: usize,
    pub points: Vec<Point3>,
    pub closed: bool,
    pub normal: Point3,
}

/// The contents of a [`Frame`].
#[verifier::ext_equal]
pub struct FrameModel {
    pub degree: usize,
    pub points: Seq<Point3>,
    pub closed: bool,
    pub normal: Point3,
}

impl View for Frame {
    type V = FrameModel;

    open spec fn view(&self) -> FrameModel {
        FrameModel {
            degree: self.degree,
            points: self.points@,
            closed: self.closed,
            normal: self.normal,
        }
    }
}

/// The degree of the spline that a smoothing stands for.
pub open spec fn smoothing_degree(s: Smoothing) -> Option<usize> {
    match s {
        Smoothing::Quadratic => Some(2),
        Smoothing::Cubic => Some(3),
        _ => None,
    }
}

/// Whether the flags of a vertex mark a control point.
pub open spec fn marks_control(flags: u8) -> bool {
    flags & VERTEX_CONTROL != 0
}

/// The control points among the vertices of a polyline in a plane.
pub open spec fn controls_2d(s: Seq<Vertex2D>) -> Seq<Point3>
    decreases s.len(),
{
    if s.len() == 0 {
        Seq::empty()
    } else {
        let before = controls_2d(s.drop_last());
        if marks_control(s.last().flags) {
            before.push(s.last().location)
        } else {
            before
        }
    }
}

/// The control points among the vertices of a polyline in space.
pub open spec fn controls_3d(s: Seq<Vertex3D>) -> Seq<Point3>
    decreases s.len(),
{
    if s.len() == 0 {
        Seq::empty()
    } else {
        let before = controls_3d(s.drop_last());
        if marks_control(s.last().flags) {
            before.push(s.last().position)
        } else {
            before
        }
    }
}

/// The control polygon of a spline-fit polyline, where the entity is one.
pub open spec fn frame_of(e: EntityModel) -> Option<FrameModel> {
    match e.shape {
        ShapeModel::Polyline2D(p) => match smoothing_degree(p.form.smooth) {
            Some(degree) => if flag_set(p.form.flags, POLYLINE_SPLINE_FIT) {
                Some(
                    FrameModel {
                        degree,
                        points: controls_2d(p.vertices),
                        closed: flag_set(p.form.flags, POLYLINE_CLOSED),
                        normal: p.form.normal,
                    },
                )
            } else {
                None
            },
            None => None,
        },
        ShapeModel::Polyline3D(p) => match smoothing_degree(p.smooth) {
            Some(degree) => if p.spline_fit {
                Some(
                    FrameModel {
                        degree,
                        points: controls_3d(p.vertices),
                        closed: p.closed,
                        normal: p.normal,
                    },
                )
            } else {
                None
            },
            None => None,
        },
        _ => None,
    }
}

fn degree_of(s: Smoothing) -> (r: Option<usize>)
    ensures
        r == smoothing_degree(s),
{
    match s {
        Smoothing::Quadratic => Some(2),
        Smoothing::Cubic => Some(3),
        _ => None,
    }
}

/// Finds the control polygon of a spline-fit polyline.
pub fn control_frame(entity: &Entity) -> (r: Option<Frame>)
    ensures
        match r {
            Some(f) => frame_of(entity@) == Some(f@),
            None => frame_of(entity@) is None,
        },
{
    match &entity.shape {
        Shape::Polyline2D(p) => {
            if !has_flag(p.form.flags, POLYLINE_SPLINE_FIT) {
                return None;
            }
            let degree: usize = match degree_of(p.form.smooth) {
                Some(d) => d,
                None => {
                    return None;
                },
            };
            let mut points: Vec<Point3> = Vec::new();
            let n: usize = p.vertices.len();
            let mut i: usize = 0;
            proof {
                assert(p.vertices@.take(0) =~= Seq::<Vertex2D>::empty());
            }
            while i < n
                invariant
                    i <= n == p.vertices@.len(),
                    points@ == controls_2d(p.vertices@.take(i as int)),
                decreases n - i,
            {
                proof {
                    assert(p.vertices@.take(i + 1).drop_last() =~= p.vertices@.take(i as int));
                }
                if p.vertices[i].flags & VERTEX_CONTROL != 0 {
                    points.push(p.vertices[i].location);
                }
                i += 1;
            }
            proof {
                assert(p.vertices@.take(n as int) =~= p.vertices@);
            }
            Some(
                Frame {
                    degree,
                    points,
                    closed: has_flag(p.form.flags, POLYLINE_CLOSED),
                    normal: p.form.normal,
                },
            )
        },
        Shape::Polyline3D(p) => {
            if !p.spline_fit {
                return None;
            }
            let degree: usize = match degree_of(p.smooth) {
                Some(d) => d,
                None => {
                    return None;
                },
            };
            let mut points: Vec<Point3> = Vec::new();
            let n: usize = p.vertices.len();
            let mut i: usize = 0;
            proof {
                assert(p.vertices@.take(0) =~= Seq::<Vertex3D>::empty());
            }
            while i < n
                invariant
                    i <= n == p.vertices@.len(),
                    points@ == controls_3d(p.vertices@.take(i as int)),
                decreases n - i,
            {
                proof {
                    assert(p.vertices@.take(i + 1).drop_last() =~= p.vertices@.take(i as int));
                }
                if p.vertices[i].flags & VERTEX_CONTROL != 0 {
                    points.push(p.vertices[i].position);
                }
                i += 1;
            }
            proof {
                assert(p.vertices@.take(n as int) =~= p.vertices@);
            }
            Some(Frame { degree, points, closed: p.closed, normal: p.normal })
        },
        _ => None,
    }
}

/// The spline that a spline-fit polyline is turned into. It has the properties
/// of the polyline, but no handle.
pub open spec fn from_polyline(e: EntityModel, curve: Option<CurveModel>) -> Option<
    SplineEntityModel,
> {
    match (frame_of(e), curve) {
        (Some(f), Some(c)) => {
            let s = control_spline_model(c, f.closed);
            Some(
                SplineEntityModel {
                    common: CommonModel { handle: NO_HANDLE, ..e.common },
                    spline: SplineModel {
                        form: SplineForm { normal: f.normal, ..s.form },
                        ..s
                    },
                },
            )
        },
        _ => None,
    }
}

/// Turns a spline-fit polyline into a spline, given the curve of its control
/// polygon.
pub fn spline_from_polyline(entity: &Entity, curve: &Option<ControlCurve>) -> (r: Option<
    SplineEntity,
>)
    ensures
        match r {
            Some(s) => from_polyline(entity@, curve_model(*curve)) == Some(s@),
            None => from_polyline(entity@, curve_model(*curve)) is None,
        },
{
    let frame = match control_frame(entity) {
        Some(f) => f,
        None => {
            return None;
        },
    };
    match curve {
        Some(c) => {
            let mut spline = control_spline(c, frame.closed);
            spline.form.normal = frame.normal;
            Some(SplineEntity { common: entity.common.with_handle(NO_HANDLE), spline })
        },
        None => None,
    }
}

/// The degree of a curve by `count` control vertices: three, or as much as the
/// vertices allow.
pub open spec fn vertex_degree(count: nat) -> nat {
    if count >= 4 {
        3
    } else if count >= 1 {
        (count - 1) as nat
    } else {
        0
    }
}

/// The control vertices of a curve: the given points, and where it is closed,
/// the first one again at the end unless it is there already.
pub open spec fn closed_points(pts: Seq<Point3>, closed: bool) -> Seq<Point3> {
    if closed && pts.len() > 0 && !pts[0].equals(pts.last()) {
        pts.push(pts[0])
    } else {
        pts
    }
}

/// The knots of a curve by `count` control vertices: one more than the degree
/// zeros, then `interior`, then as many ones.
pub open spec fn open_knots(count: nat, interior: Seq<Real>) -> Seq<Real> {
    let degree = vertex_degree(count);
    Seq::new(
        count + degree + 1,
        |i: int|
            if i <= degree {
                zero()
            } else if i >= count {
                one()
            } else {
                interior[i - degree - 1]
            },
    )
}

/// The spline of a list of points, by the chosen method.
pub open spec fn made_spline(
    pts: Seq<Point3>,
    closed: bool,
    control_vertices: bool,
    interior: Seq<Real>,
) -> SplineModel {
    if control_vertices {
        let points = closed_points(pts, closed);
        let form = new_form(vertex_degree(points.len()) as i32);
        SplineModel {
            control_points: points,
            knots: open_knots(points.len(), interior),
            weights: Seq::new(points.len(), |i: int| one()),
            fit_points: Seq::empty(),
            form: SplineForm { flags: SplineFlags { closed, ..form.flags }, ..form },
        }
    } else {
        let form = new_form(3);
        SplineModel {
            control_points: Seq::empty(),
            knots: Seq::empty(),
            weights: Seq::empty(),
            fit_points: pts,
            form: SplineForm {
                flags: SplineFlags { closed, periodic: closed, ..form.flags },
                ..form
            },
        }
    }
}

/// The number of interior knots of a curve by control vertices.
pub open spec fn interior_count(pts: Seq<Point3>, closed: bool) -> int {
    let n = closed_points(pts, closed).len();
    if n == 0 {
        0
    } else {
        n - vertex_degree(n) - 1
    }
}

/// Makes the spline of a list of points, by the chosen method. `interior` holds
/// the knots strictly between the ends of a curve by control vertices, in equal
/// steps.
pub fn make_spline(
    pts: &Vec<Point3>,
    closed: bool,
    control_vertices: bool,
    interior: &Vec<Real>,
) -> (r: Spline)
    requires
        control_vertices ==> interior@.len() == interior_count(pts@, closed),
        control_vertices ==> pts@.len() < usize::MAX - 8,
    ensures
        r@ == made_spline(pts@, closed, control_vertices, interior@),
{
    if !control_vertices {
        let form = new_form(3);
        return Spline {
            control_points: Vec::new(),
            knots: Vec::new(),
            weights: Vec::new(),
            fit_points: copy_of(pts),
            form: SplineForm {
                flags: SplineFlags { closed, periodic: closed, ..form.flags },
                ..form
            },
        };
    }
    let mut points = copy_of(pts);
    let given: usize = pts.len();
    if closed && given > 0 && !pts[0].same_place(&pts[given - 1]) {
        points.push(pts[0]);
    }
    let count: usize = points.len();
    let degree: usize = if count >= 4 {
        3
    } else if count >= 1 {
        count - 1
    } else {
        0
    };
    let total: usize = count + degree + 1;
    let mut knots: Vec<Real> = Vec::new();
    let ghost all = open_knots(points@.len(), interior@);
    let mut i: usize = 0;
    while i < total
        invariant
            i <= total == all.len(),
            count == points@.len(),
            degree == vertex_degree(count as nat),
            all == open_knots(points@.len(), interior@),
            interior@.len() == (if count == 0 {
                0
            } else {
                count - degree - 1
            }),
            knots@ == all.take(i as int),
        decreases total - i,
    {
        knots.push(
            if i <= degree {
                zero()
            } else if i >= count {
                one()
            } else {
                interior[i - degree - 1]
            },
        );
        proof {
            assert(all.take(i + 1) =~= all.take(i as int).push(all[i as int]));
        }
        i += 1;
    }
    let mut weights: Vec<Real> = Vec::new();
    let mut k: usize = 0;
    while k < count
        invariant
            k <= count,
            weights@ == Seq::new(k as nat, |i: int| one()),
        decreases count - k,
    {
        weights.push(one());
        proof {
            assert(weights@ =~= Seq::new((k + 1) as nat, |i: int| one()));
        }
        k += 1;
    }
    proof {
        assert(all.take(total as int) =~= all);
        assert(points@ =~= closed_points(pts@, closed));
    }
    let form = new_form(degree as i32);
    Spline {
        control_points: points,
        knots,
        weights,
        fit_points: Vec::new(),
        form: SplineForm { flags: SplineFlags { closed, ..form.flags }, ..form },
    }
}

/// The command that draws a spline.
pub struct SplineCommand {
    pub pts: Vec<Point3>,
    pub control_vertices: bool,
    pub choosing_method: bool,
    pub choosing_degree: bool,
    pub choosing_knots: bool,
    pub choosing_tangent: bool,
    pub degree: usize,
    pub knot_parameterization: i32,
    pub begin_tangent: Point3,
    pub end_tangent: Point3,
    pub choosing_objects: bool,
    pub convertible: FxHashMap<Handle, SplineEntity>,
    pub selected_objects: Vec<Handle>,
}

/// The contents of a [`SplineCommand`].
#[verifier::ext_equal]
pub struct SplineState {
    pub pts: Seq<Point3>,
    pub control_vertices: bool,
    pub choosing_method: bool,
    pub choosing_degree: bool,
    pub choosing_knots: bool,
    pub choosing_tangent: bool,
    pub degree: usize,
    pub knot_parameterization: i32,
    pub begin_tangent: Point3,
    pub end_tangent: Point3,
    pub choosing_objects: bool,
    pub convertible: Map<Handle, SplineEntityModel>,
    pub selected_objects: Seq<Handle>,
}

/// The contents of the splines of a map.
pub open spec fn splines_of(m: Map<Handle, SplineEntity>) -> Map<Handle, SplineEntityModel> {
    m.map_values(|s: SplineEntity| s@)
}

impl View for SplineCommand {
    type V = SplineState;

    open spec fn view(&self) -> SplineState {
        SplineState {
            pts: self.pts@,
            control_vertices: self.control_vertices,
            choosing_method: self.choosing_method,
            choosing_degree: self.choosing_degree,
            choosing_knots: self.choosing_knots,
            choosing_tangent: self.choosing_tangent,
            degree: self.degree,
            knot_parameterization: self.knot_parameterization,
            begin_tangent: self.begin_tangent,
            end_tangent: self.end_tangent,
            choosing_objects: self.choosing_objects,
            convertible: splines_of(self.convertible@),
            selected_objects: self.selected_objects@,
        }
    }
}

/// The state of a command that was just started.
pub open spec fn started(control_vertices: bool) -> SplineState {
    SplineState {
        pts: Seq::empty(),
        control_vertices,
        choosing_method: false,
        choosing_degree: false,
        choosing_knots: false,
        choosing_tangent: false,
        degree: 3,
        knot_parameterization: 0,
        begin_tangent: origin(),
        end_tangent: origin(),
        choosing_objects: false,
        convertible: Map::empty(),
        selected_objects: Seq::empty(),
    }
}

/// The splines that the entities of a drawing can be turned into, given the
/// curves of their control polygons.
pub open spec fn convertible_in(list: Seq<EntityModel>, curves: Seq<Option<CurveModel>>) -> Map<
    Handle,
    SplineEntityModel,
>
    decreases list.len(),
{
    if list.len() == 0 {
        Map::empty()
    } else {
        let before = convertible_in(list.drop_last(), curves);
        match from_polyline(list.last(), curves[list.len() - 1]) {
            Some(s) => before.insert(list.last().common.handle, s),
            None => before,
        }
    }
}

/// The contents of some curves.
pub open spec fn curve_models(v: Seq<Option<ControlCurve>>) -> Seq<Option<CurveModel>> {
    Seq::new(v.len(), |i: int| curve_model(v[i]))
}

/// The spline that the points make, where there are two at least. `curve` is
/// the curve of the points as a control polygon.
pub open spec fn built(s: SplineState, closed: bool, curve: Option<CurveModel>) -> Option<
    EntityModel,
> {
    if s.pts.len() < 2 || s.control_vertices && curve is None {
        None
    } else {
        let plain = if s.control_vertices {
            control_spline_model(curve->0, closed)
        } else {
            made_spline(s.pts, closed, false, Seq::empty())
        };
        Some(
            EntityModel {
                common: fresh_model(),
                shape: ShapeModel::Spline(
                    SplineModel {
                        form: SplineForm {
                            knot_parameterization: s.knot_parameterization,
                            begin_tangent: s.begin_tangent,
                            end_tangent: s.end_tangent,
                            ..plain.form
                        },
                        ..plain
                    },
                ),
            },
        )
    }
}

/// The degree that the points make a control polygon of: the chosen one, or as
/// much as the points allow.
pub open spec fn polygon_degree(s: SplineState) -> int {
    if s.degree < s.pts.len() {
        s.degree as int
    } else {
        s.pts.len() - 1
    }
}

/// What was computed for a given point.
pub struct PointFacts {
    /// The unit direction from the last point to this one.
    pub direction: Option<Point3>,
    /// Whether the point falls on the last one.
    pub repeated: bool,
    /// The curve of the points as a control polygon.
    pub curve: Option<ControlCurve>,
}

/// A spline to add to the drawing, or one more question where there is none.
pub open spec fn committed(e: Option<EntityModel>) -> ResultModel {
    match e {
        Some(e) => ResultModel::CommitAndExit(e),
        None => ResultModel::NeedPoint,
    }
}

/// What a given point does.
pub open spec fn pointed(s: SplineState, point: Point3, facts: PointFacts) -> (
    SplineState,
    ResultModel,
) {
    let stay = (s, ResultModel::NeedPoint);
    if s.choosing_objects || s.choosing_method || s.choosing_degree || s.choosing_knots
        || !point.finite() {
        stay
    } else if s.choosing_tangent {
        match facts.direction {
            Some(tangent) => if s.pts.len() == 0 {
                stay
            } else if s.pts.len() == 1 {
                (
                    SplineState { begin_tangent: tangent, choosing_tangent: false, ..s },
                    ResultModel::NeedPoint,
                )
            } else {
                let t = SplineState { end_tangent: tangent, choosing_tangent: false, ..s };
                (t, committed(built(t, false, curve_model(facts.curve))))
            },
            None => stay,
        }
    } else if s.pts.len() > 0 && facts.repeated {
        stay
    } else {
        (SplineState { pts: s.pts.push(point), ..s }, ResultModel::NeedPoint)
    }
}

/// The splines to put in place of selected polylines.
pub open spec fn replacements(list: Seq<Handle>, m: Map<Handle, SplineEntityModel>) -> Seq<
    ReplacementModel,
>
    decreases list.len(),
{
    if list.len() == 0 {
        Seq::empty()
    } else {
        let before = replacements(list.drop_last(), m);
        if m.contains_key(list.last()) {
            before.push(
                ReplacementModel { handle: list.last(), entity: m[list.last()].entity() },
            )
        } else {
            before
        }
    }
}

/// What the Enter key does.
pub open spec fn entered(s: SplineState, curve: Option<CurveModel>) -> (SplineState, ResultModel) {
    if s.choosing_objects {
        let list = replacements(s.selected_objects, s.convertible);
        (
            s,
            if list.len() == 0 {
                ResultModel::Cancel
            } else {
                ResultModel::ReplaceMany(list)
            },
        )
    } else if s.choosing_method || s.choosing_degree || s.choosing_knots {
        (
            SplineState {
                choosing_method: false,
                choosing_degree: false,
                choosing_knots: false,
                ..s
            },
            ResultModel::NeedPoint,
        )
    } else if s.choosing_tangent {
        (s, ResultModel::NeedPoint)
    } else {
        (
            s,
            match built(s, false, curve) {
                Some(e) => ResultModel::CommitAndExit(e),
                None => ResultModel::Cancel,
            },
        )
    }
}

/// The state with the last point taken back, where there is one.
pub open spec fn undone(s: SplineState) -> SplineState {
    if s.pts.len() == 0 {
        s
    } else {
        SplineState {
            pts: s.pts.drop_last(),
            end_tangent: origin(),
            choosing_tangent: false,
            begin_tangent: if s.pts.len() == 1 {
                origin()
            } else {
                s.begin_tangent
            },
            ..s
        }
    }
}

/// A typed degree: a number from one to ten.
pub open spec fn degree_typed(plain: Seq<char>) -> Option<int> {
    match unsigned_value(plain, 10, usize::MAX as int) {
        Some(n) => if 1 <= n <= 10 {
            Some(n)
        } else {
            None
        },
        None => None,
    }
}

/// The knot parameterization that a word names.
pub open spec fn knots_typed(kw: Seq<char>) -> Option<i32> {
    if either(kw, "CH"@, "CHORD"@) {
        Some(0)
    } else if either(kw, "S"@, "SQUARE"@) || kw == "SQUAREROOT"@ {
        Some(1)
    } else if either(kw, "U"@, "UNIFORM"@) {
        Some(2)
    } else {
        None
    }
}

/// A typed option.
pub open spec fn typed_option(s: SplineState, up: Seq<char>, curve: Option<CurveModel>) -> (
    SplineState,
    Option<ResultModel>,
) {
    let go = Some(ResultModel::NeedPoint);
    let none = s.pts.len() == 0;
    if either(up, "O"@, "OBJECT"@) && none {
        (SplineState { choosing_objects: true, ..s }, go)
    } else if either(up, "D"@, "DEGREE"@) && none && s.control_vertices {
        (SplineState { choosing_degree: true, ..s }, go)
    } else if either(up, "K"@, "KNOTS"@) && none && !s.control_vertices {
        (SplineState { choosing_knots: true, ..s }, go)
    } else if either(up, "T"@, "TANGENCY"@) && !none && !s.control_vertices {
        (SplineState { choosing_tangent: true, ..s }, go)
    } else if either(up, "M"@, "METHOD"@) && none {
        (SplineState { choosing_method: true, ..s }, go)
    } else if either(up, "F"@, "FIT"@) && none {
        (SplineState { control_vertices: false, choosing_method: false, ..s }, go)
    } else if (either(up, "CV"@, "CONTROL"@) || up == "CONTROLVERTICES"@) && none {
        (SplineState { control_vertices: true, choosing_method: false, ..s }, go)
    } else if either(up, "C"@, "CLOSE"@) && s.pts.len() >= 3 {
        (s, Some(committed(built(s, true, curve))))
    } else if either(up, "U"@, "UNDO"@) {
        (undone(s), go)
    } else {
        (s, None)
    }
}

/// What a typed text does. `plain` is the text without white space around it,
/// and `up` the same in upper case.
pub open spec fn typed(
    s: SplineState,
    plain: Seq<char>,
    up: Seq<char>,
    curve: Option<CurveModel>,
) -> (SplineState, Option<ResultModel>) {
    if s.choosing_tangent {
        (s, None)
    } else if s.choosing_degree {
        match degree_typed(plain) {
            Some(n) => (
                SplineState { degree: n as usize, choosing_degree: false, ..s },
                Some(ResultModel::NeedPoint),
            ),
            None => (s, None),
        }
    } else if s.choosing_knots {
        match knots_typed(ascii_upper(plain)) {
            Some(n) => (
                SplineState { knot_parameterization: n, choosing_knots: false, ..s },
                Some(ResultModel::NeedPoint),
            ),
            None => (s, None),
        }
    } else {
        typed_option(s, up, curve)
    }
}

/// The options that are offered.
pub open spec fn offered(s: SplineState) -> Seq<CmdOption> {
    if s.choosing_objects {
        Seq::empty()
    } else if s.choosing_method {
        seq![CmdOption::new("Fit", "FIT"), CmdOption::new("Control vertices", "CV")]
    } else if s.choosing_degree || s.choosing_tangent {
        Seq::empty()
    } else if s.choosing_knots {
        seq![
            CmdOption::new("Chord", "CH"),
            CmdOption::new("Square root", "S"),
            CmdOption::new("Uniform", "U"),
        ]
    } else if s.pts.len() == 0 {
        seq![
            CmdOption::said("Method", "M"),
            CmdOption::new("Object", "O"),
            if s.control_vertices {
                CmdOption::new("Degree", "D")
            } else {
                CmdOption::new("Knots", "K")
            },
        ]
    } else {
        (if s.pts.len() >= 3 {
            seq![CmdOption::said("Close", "C")]
        } else {
            Seq::empty()
        }) + (if s.control_vertices {
            Seq::empty()
        } else {
            seq![CmdOption::new("Tangency", "T")]
        }) + seq![CmdOption::said("Undo", "U"), CmdOption::said_enter("Done")]
    }
}

/// Whether a point of the spline is asked for.
pub open spec fn asks_point(s: SplineState) -> bool {
    !s.choosing_objects && !s.choosing_method && !s.choosing_degree && !s.choosing_knots
        && !s.choosing_tangent
}

/// What is asked, where that is asked in the language of the user.
pub open spec fn phrased(s: SplineState) -> Option<PhraseModel> {
    if !asks_point(s) {
        None
    } else if s.pts.len() == 0 && s.control_vertices {
        Some(plain_phrase("SPLINE  Specify first control point:"@))
    } else if s.pts.len() == 0 {
        Some(plain_phrase("SPLINE  Specify first point:"@))
    } else {
        Some(
            phrase_with("SPLINE  Specify next point  [%{n} pts]:"@, "n"@, decimal(s.pts.len())),
        )
    }
}

/// What is asked, `said` being the phrase of the prompt in the language of the
/// user.
pub open spec fn prompted(s: SplineState, said: Seq<char>) -> Seq<char> {
    if s.choosing_objects {
        "SPLINE  Select spline-fit polylines:"@
    } else if s.choosing_method {
        "SPLINE  Choose creation method [Fit/Control vertices]:"@
    } else if s.choosing_degree {
        "SPLINE  Enter degree of spline <"@ + decimal(s.degree as nat) + ">:"@
    } else if s.choosing_knots {
        "SPLINE  Enter knot parameterization [Chord/Square root/Uniform]:"@
    } else if s.choosing_tangent {
        "SPLINE  Specify tangent direction:"@
    } else {
        said
    }
}

/// The spline shown while the cursor is at a place: the one that the points and the
/// cursor would make, where points are being given.
pub open spec fn previewed(s: SplineState, cursor: Point3, curve: Option<CurveModel>) -> Option<
    EntityModel,
> {
    if s.pts.len() == 0 || s.choosing_method || s.choosing_degree || s.choosing_knots
        || s.choosing_tangent {
        None
    } else {
        built(SplineState { pts: s.pts.push(cursor), ..s }, false, curve)
    }
}

/// The step that a finished selection makes: the convertible objects of it are
/// taken, in their order, and the selection is entered.
pub open spec fn gathered(s: SplineState, handles: Seq<Handle>, curve: Option<CurveModel>) -> (
    SplineState,
    ResultModel,
) {
    entered(
        SplineState {
            selected_objects: handles.filter(|h: Handle| s.convertible.contains_key(h)),
            ..s
        },
        curve,
    )
}

impl SplineCommand {
    /// Starts the command with fit points.
    pub fn new() -> (r: SplineCommand)
        ensures
            r@ == started(false),
    {
        SplineCommand::start(false)
    }

    /// Starts the command with control vertices.
    pub fn control_vertices() -> (r: SplineCommand)
        ensures
            r@ == started(true),
    {
        SplineCommand::start(true)
    }

    fn start(control_vertices: bool) -> (r: SplineCommand)
        ensures
            r@ == started(control_vertices),
    {
        let r = SplineCommand {
            pts: Vec::new(),
            control_vertices,
            choosing_method: false,
            choosing_degree: false,
            choosing_knots: false,
            choosing_tangent: false,
            degree: 3,
            knot_parameterization: 0,
            begin_tangent: origin(),
            end_tangent: origin(),
            choosing_objects: false,
            convertible: map_new(),
            selected_objects: Vec::new(),
        };
        proof {
            assert(splines_of(r.convertible@) =~= Map::<Handle, SplineEntityModel>::empty());
        }
        r
    }

    /// Takes in the polylines of a drawing that can be turned into splines.
    /// `curves` holds, entity by entity, the curve of its
    /// [`control_frame`](crate::spline::control_frame).
    pub fn with_document(self, entities: &Vec<Entity>, curves: &Vec<Option<ControlCurve>>) -> (r:
        SplineCommand)
        requires
            entities@.len() == curves@.len(),
        ensures
            r@ == (SplineState {
                convertible: convertible_in(views(entities@), curve_models(curves@)),
                ..self@
            }),
    {
        let mut this = self;
        let mut map: FxHashMap<Handle, SplineEntity> = map_new();
        let n: usize = entities.len();
        let mut i: usize = 0;
        let ghost all = views(entities@);
        let ghost cs = curve_models(curves@);
        proof {
            assert(all.take(0) =~= Seq::<EntityModel>::empty());
            assert(splines_of(map@) =~= Map::<Handle, SplineEntityModel>::empty());
        }
        while i < n
            invariant
                i <= n == entities@.len() == curves@.len(),
                all == views(entities@),
                cs == curve_models(curves@),
                splines_of(map@) == convertible_in(all.take(i as int), cs),
            decreases n - i,
        {
            let ghost before = map@;
            proof {
                assert(all.take(i + 1).drop_last() =~= all.take(i as int));
                assert(all.take(i + 1).last() == entities@[i as int]@);
            }
            if let Some(s) = spline_from_polyline(&entities[i], &curves[i]) {
                let h: Handle = entities[i].common.handle;
                let ghost sm = s@;
                map_insert(&mut map, h, s);
                proof {
                    assert(splines_of(map@) =~= splines_of(before).insert(h, sm));
                }
            }
            i += 1;
        }
        proof {
            assert(all.take(n as int) =~= all);
        }
        this.convertible = map;
        this
    }

    /// The degree that the points make a control polygon of.
    pub fn curve_degree(&self) -> (r: usize)
        requires
            self@.pts.len() > 0,
        ensures
            r == polygon_degree(self@),
    {
        if self.degree < self.pts.len() {
            self.degree
        } else {
            self.pts.len() - 1
        }
    }

    /// The spline that the points make. `curve` is the curve of the points as a
    /// control polygon of the degree [`Self::curve_degree`], closed as asked.
    pub fn build(&self, closed: bool, curve: &Option<ControlCurve>) -> (r: Option<Entity>)
        ensures
            match r {
                Some(e) => built(self@, closed, curve_model(*curve)) == Some(e@),
                None => built(self@, closed, curve_model(*curve)) is None,
            },
    {
        self.assemble(&self.pts, closed, curve)
    }

    fn assemble(&self, pts: &Vec<Point3>, closed: bool, curve: &Option<ControlCurve>) -> (r: Option<
        Entity,
    >)
        ensures
            ({
                let want = built(
                    SplineState { pts: pts@, ..self@ },
                    closed,
                    curve_model(*curve),
                );
                match r {
                    Some(e) => want == Some(e@),
                    None => want is None,
                }
            }),
    {
        if pts.len() < 2 {
            return None;
        }
        let mut spline = if self.control_vertices {
            match curve {
                Some(c) => control_spline(c, closed),
                None => {
                    return None;
                },
            }
        } else {
            let interior: Vec<Real> = Vec::new();
            proof {
                assert(interior@ =~= Seq::<Real>::empty());
            }
            make_spline(pts, closed, false, &interior)
        };
        spline.form.knot_parameterization = self.knot_parameterization;
        spline.form.begin_tangent = self.begin_tangent;
        spline.form.end_tangent = self.end_tangent;
        Some(Entity { common: Common::fresh(), shape: Shape::Spline(spline) })
    }

    /// Reads a point, with what was computed for it.
    pub fn on_point(&mut self, point: Point3, facts: &PointFacts) -> (r: CmdResult)
        ensures
            (final(self)@, r@) == pointed(old(self)@, point, *facts),
    {
        if self.choosing_objects || self.choosing_method || self.choosing_degree
            || self.choosing_knots || !point.is_finite() {
            return CmdResult::NeedPoint;
        }
        if self.choosing_tangent {
            let n: usize = self.pts.len();
            if n == 0 {
                return CmdResult::NeedPoint;
            }
            let tangent = match facts.direction {
                Some(d) => d,
                None => {
                    return CmdResult::NeedPoint;
                },
            };
            self.choosing_tangent = false;
            if n == 1 {
                self.begin_tangent = tangent;
                return CmdResult::NeedPoint;
            }
            self.end_tangent = tangent;
            return match self.build(false, &facts.curve) {
                Some(e) => CmdResult::CommitAndExit(e),
                None => CmdResult::NeedPoint,
            };
        }
        if self.pts.len() > 0 && facts.repeated {
            return CmdResult::NeedPoint;
        }
        self.pts.push(point);
        CmdResult::NeedPoint
    }

    fn object_replacements(&self) -> (r: Vec<Replacement>)
        ensures
            views(r@) == replacements(self@.selected_objects, self@.convertible),
    {
        let n: usize = self.selected_objects.len();
        let mut out: Vec<Replacement> = Vec::new();
        let mut i: usize = 0;
        let ghost list = self.selected_objects@;
        let ghost m = splines_of(self.convertible@);
        proof {
            assert(list.take(0) =~= Seq::<Handle>::empty());
            assert(views(out@) =~= Seq::<ReplacementModel>::empty());
        }
        while i < n
            invariant
                i <= n == list.len(),
                list == self.selected_objects@,
                m == splines_of(self.convertible@),
                views(out@) == replacements(list.take(i as int), m),
            decreases n - i,
        {
            let h: Handle = self.selected_objects[i];
            let ghost before = out@;
            proof {
                assert(list.take(i + 1).drop_last() =~= list.take(i as int));
            }
            if let Some(s) = map_get(&self.convertible, h) {
                let copy = s.duplicate();
                let new = Replacement { handle: h, entity: copy.into_entity() };
                let ghost nm = new@;
                out.push(new);
                proof {
                    assert(views(out@) =~= views(before).push(nm));
                }
            }
            i += 1;
        }
        proof {
            assert(list.take(n as int) =~= list);
        }
        out
    }

    /// Reads the Enter key. `curve` is the curve of the points as an open
    /// control polygon.
    pub fn on_enter(&mut self, curve: &Option<ControlCurve>) -> (r: CmdResult)
        ensures
            (final(self)@, r@) == entered(old(self)@, curve_model(*curve)),
    {
        if self.choosing_objects {
            let list = self.object_replacements();
            if list.len() == 0 {
                return CmdResult::Cancel;
            }
            return CmdResult::ReplaceMany(list);
        }
        if self.choosing_method || self.choosing_degree || self.choosing_knots {
            self.choosing_method = false;
            self.choosing_degree = false;
            self.choosing_knots = false;
            return CmdResult::NeedPoint;
        }
        if self.choosing_tangent {
            return CmdResult::NeedPoint;
        }
        match self.build(false, curve) {
            Some(e) => CmdResult::CommitAndExit(e),
            None => CmdResult::Cancel,
        }
    }

    /// Reads a selection. `curve` is the curve of the points as an open control
    /// polygon.
    pub fn on_selection_complete(&mut self, handles: &Vec<Handle>, curve: &Option<ControlCurve>)
        -> (r: CmdResult)
        ensures
            (final(self)@, r@) == gathered(old(self)@, handles@, curve_model(*curve)),
    {
        let mut kept: Vec<Handle> = Vec::new();
        let n: usize = handles.len();
        let mut i: usize = 0;
        let ghost m = self@.convertible;
        let ghost p = |h: Handle| m.contains_key(h);
        proof {
            reveal(Seq::filter);
        }
        while i < n
            invariant
                i <= n == handles@.len(),
                self@ == old(self)@,
                m == self@.convertible,
                p == (|h: Handle| m.contains_key(h)),
                kept@ == handles@.take(i as int).filter(p),
            decreases n - i,
        {
            proof {
                reveal(Seq::filter);
                assert(handles@.take(i + 1).drop_last() =~= handles@.take(i as int));
            }
            let h: Handle = handles[i];
            if map_get(&self.convertible, h).is_some() {
                kept.push(h);
            }
            i += 1;
        }
        proof {
            assert(handles@.take(n as int) =~= handles@);
            assert(p =~= (|h: Handle| old(self)@.convertible.contains_key(h)));
        }
        self.selected_objects = kept;
        self.on_enter(curve)
    }

    /// Takes the last point back, where there is one.
    pub fn on_undo_step(&mut self) -> (r: Option<CmdResult>)
        ensures
            final(self)@ == undone(old(self)@),
            answer(r) == (if old(self)@.pts.len() == 0 {
                None
            } else {
                Some(ResultModel::NeedPoint)
            }),
    {
        if self.pts.len() == 0 {
            return None;
        }
        let _ = self.pts.pop();
        self.end_tangent = origin();
        self.choosing_tangent = false;
        if self.pts.len() == 0 {
            self.begin_tangent = origin();
        }
        Some(CmdResult::NeedPoint)
    }

    fn text_option(&mut self, up: &str, curve: &Option<ControlCurve>) -> (r: Option<CmdResult>)
        ensures
            (final(self)@, answer(r)) == typed_option(old(self)@, up@, curve_model(*curve)),
    {
        let none = self.pts.len() == 0;
        if is_either(up, "O", "OBJECT") && none {
            self.choosing_objects = true;
        } else if is_either(up, "D", "DEGREE") && none && self.control_vertices {
            self.choosing_degree = true;
        } else if is_either(up, "K", "KNOTS") && none && !self.control_vertices {
            self.choosing_knots = true;
        } else if is_either(up, "T", "TANGENCY") && !none && !self.control_vertices {
            self.choosing_tangent = true;
        } else if is_either(up, "M", "METHOD") && none {
            self.choosing_method = true;
        } else if is_either(up, "F", "FIT") && none {
            self.control_vertices = false;
            self.choosing_method = false;
        } else if (is_either(up, "CV", "CONTROL") || same(up, "CONTROLVERTICES")) && none {
            self.control_vertices = true;
            self.choosing_method = false;
        } else if is_either(up, "C", "CLOSE") && self.pts.len() >= 3 {
            return match self.build(true, curve) {
                Some(e) => Some(CmdResult::CommitAndExit(e)),
                None => Some(CmdResult::NeedPoint),
            };
        } else if is_either(up, "U", "UNDO") {
            let _ = self.on_undo_step();
        } else {
            return None;
        }
        Some(CmdResult::NeedPoint)
    }

    /// Reads a text without white space around it, and the same in upper case.
    pub fn on_words(&mut self, plain: &str, up: &str, curve: &Option<ControlCurve>) -> (r: Option<
        CmdResult,
    >)
        ensures
            (final(self)@, answer(r)) == typed(old(self)@, plain@, up@, curve_model(*curve)),
    {
        if self.choosing_tangent {
            return None;
        }
        if self.choosing_degree {
            return match read_unsigned(plain, 10, usize::MAX as u64) {
                Some(n) => {
                    if 1 <= n && n <= 10 {
                        self.degree = n as usize;
                        self.choosing_degree = false;
                        Some(CmdResult::NeedPoint)
                    } else {
                        None
                    }
                },
                None => None,
            };
        }
        if self.choosing_knots {
            let kw = to_ascii_upper(plain);
            self.knot_parameterization = if is_either(kw.as_str(), "CH", "CHORD") {
                0
            } else if is_either(kw.as_str(), "S", "SQUARE") || same(kw.as_str(), "SQUAREROOT") {
                1
            } else if is_either(kw.as_str(), "U", "UNIFORM") {
                2
            } else {
                return None;
            };
            self.choosing_knots = false;
            return Some(CmdResult::NeedPoint);
        }
        self.text_option(up, curve)
    }

    /// Reads a typed text. `curve` is the curve of the points as a closed
    /// control polygon.
    pub fn on_text_input(&mut self, text: &str, curve: &Option<ControlCurve>) -> (r: Option<
        CmdResult,
    >)
        ensures
            (final(self)@, answer(r)) == typed(
                old(self)@,
                trimmed(text@),
                keyword_of(text@),
                curve_model(*curve),
            ),
    {
        let plain = trim(text);
        let up = to_upper(plain.as_str());
        self.on_words(plain.as_str(), up.as_str(), curve)
    }

    /// The spline that the points and the cursor would make, where one is to be
    /// shown. `curve` is their curve as an open control polygon.
    pub fn on_mouse_move(&self, cursor: Point3, curve: &Option<ControlCurve>) -> (r: Option<Entity>)
        ensures
            match r {
                Some(e) => previewed(self@, cursor, curve_model(*curve)) == Some(e@),
                None => previewed(self@, cursor, curve_model(*curve)) is None,
            },
    {
        if self.pts.len() == 0 || self.choosing_method || self.choosing_degree
            || self.choosing_knots || self.choosing_tangent {
            return None;
        }
        let mut pts = copy_of(&self.pts);
        pts.push(cursor);
        self.assemble(&pts, false, curve)
    }

    /// The command's name.
    pub fn name(&self) -> (r: &'static str)
        ensures
            r@ == (if self@.control_vertices {
                "SPLINECV"@
            } else {
                "SPLINE"@
            }),
    {
        if self.control_vertices {
            "SPLINECV"
        } else {
            "SPLINE"
        }
    }

    /// What the command asks, where it asks in the language of the user.
    pub fn phrase(&self) -> (r: Option<Phrase>)
        ensures
            phrase_model(r) == phrased(self@),
    {
        if self.choosing_objects || self.choosing_method || self.choosing_degree
            || self.choosing_knots || self.choosing_tangent {
            None
        } else if self.pts.len() == 0 && self.control_vertices {
            Some(Phrase::plain("SPLINE  Specify first control point:"))
        } else if self.pts.len() == 0 {
            Some(Phrase::plain("SPLINE  Specify first point:"))
        } else {
            let n = number(self.pts.len() as u64);
            Some(Phrase::with("SPLINE  Specify next point  [%{n} pts]:", "n", n))
        }
    }

    /// What the command asks. `said` is [`Self::phrase`] in the language of the
    /// user.
    pub fn prompt(&self, said: &str) -> (r: String)
        ensures
            r@ == prompted(self@, said@),
    {
        if self.choosing_objects {
            owned("SPLINE  Select spline-fit polylines:")
        } else if self.choosing_method {
            owned("SPLINE  Choose creation method [Fit/Control vertices]:")
        } else if self.choosing_degree {
            let n = number(self.degree as u64);
            join3("SPLINE  Enter degree of spline <", n.as_str(), ">:")
        } else if self.choosing_knots {
            owned("SPLINE  Enter knot parameterization [Chord/Square root/Uniform]:")
        } else if self.choosing_tangent {
            owned("SPLINE  Specify tangent direction:")
        } else {
            owned(said)
        }
    }

    /// The options to offer.
    pub fn options(&self) -> (r: Vec<CmdOption>)
        ensures
            r@ == offered(self@),
    {
        if self.choosing_objects {
            return Vec::new();
        }
        if self.choosing_method {
            return vec![CmdOption::new("Fit", "FIT"), CmdOption::new("Control vertices", "CV")];
        }
        if self.choosing_degree || self.choosing_tangent {
            return Vec::new();
        }
        if self.choosing_knots {
            return vec![
                CmdOption::new("Chord", "CH"),
                CmdOption::new("Square root", "S"),
                CmdOption::new("Uniform", "U"),
            ];
        }
        if self.pts.len() == 0 {
            return vec![
                CmdOption::said("Method", "M"),
                CmdOption::new("Object", "O"),
                if self.control_vertices {
                    CmdOption::new("Degree", "D")
                } else {
                    CmdOption::new("Knots", "K")
                },
            ];
        }
        let mut list: Vec<CmdOption> = Vec::new();
        if self.pts.len() >= 3 {
            list.push(CmdOption::said("Close", "C"));
        }
        if !self.control_vertices {
            list.push(CmdOption::new("Tangency", "T"));
        }
        list.push(CmdOption::said("Undo", "U"));
        list.push(CmdOption::said_enter("Done"));
        list
    }

    /// Whether the Enter key starts at the last point of the drawing.
    pub fn enter_accepts_default_start(&self) -> (r: bool)
        ensures
            r == (self@.pts.len() == 0 && !self@.choosing_method && !self@.choosing_objects),
    {
        self.pts.len() == 0 && !self.choosing_method && !self.choosing_objects
    }

    /// Whether a selection is being gathered.
    pub fn is_selection_gathering(&self) -> (r: bool)
        ensures
            r == self@.choosing_objects,
    {
        self.choosing_objects
    }

    /// Reads the Escape key.
    pub fn on_escape(&mut self) -> (r: CmdResult)
        ensures
            r@ == ResultModel::Cancel,
            final(self)@ == old(self)@,
    {
        CmdResult::Cancel
    }

    /// Whether the command reads typed text.
    pub fn wants_text_input(&self) -> (r: bool)
        ensures
            r,
    {
        true
    }

    /// Whether keywords are read where a point is asked for.
    pub fn point_step_accepts_keywords(&self) -> (r: bool)
        ensures
            r,
    {
        true
    }
}

/// A point that was taken and then taken back leaves the points as they were.
pub proof fn undo_takes_back_point(s: SplineState, point: Point3, facts: PointFacts)
    requires
        pointed(s, point, facts).0.pts != s.pts,
    ensures
        undone(pointed(s, point, facts).0).pts == s.pts,
{
    let t = pointed(s, point, facts).0;
    assert(t.pts.drop_last() =~= s.pts);
}

/// What is committed has two points at least, and a curve through fit points
/// holds exactly the points that were given.
pub proof fn committed_points(s: SplineState, closed: bool, curve: Option<CurveModel>)
    ensures
        built(s, closed, curve) matches Some(e) ==> s.pts.len() >= 2,
        s.pts.len() >= 2 && !s.control_vertices ==> {
            &&& built(s, closed, curve) is Some
            &&& (built(s, closed, curve)->0).shape matches ShapeModel::Spline(m)
            &&& m.fit_points == s.pts
            &&& m.form.flags.closed == closed
        },
{
}

/// The knots of a curve by control vertices are clamped: with two vertices or
/// more they begin with zeros and end with ones, one more than the degree of
/// each.
pub proof fn knots_are_clamped(count: nat, interior: Seq<Real>)
    requires
        count >= 2,
        interior.len() == count - vertex_degree(count) - 1,
    ensures
        ({
            let k = open_knots(count, interior);
            let d = vertex_degree(count);
            &&& k.len() == count + d + 1
            &&& forall|i: int| 0 <= i <= d ==> k[i] == zero()
            &&& forall|i: int| k.len() - d - 1 <= i < k.len() ==> k[i] == one()
            &&& k.subrange((d + 1) as int, count as int) == interior
        }),
{
    let k = open_knots(count, interior);
    assert(k.subrange((vertex_degree(count) + 1) as int, count as int) =~= interior);
}

} // verus!
