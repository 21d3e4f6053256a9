//! Editing polylines and polygon meshes: the edits themselves. Curves are
//! computed elsewhere; the edits say which curves they need and put the results
//! in place.
use crate::entity::{
    copy_of, copy_range, flag_set, has_flag, plain_form, put_flag, views, with_flag, Common,
    CommonModel, Entity, EntityModel, Form2D, LwForm, LwModel, LwPolyline, LwVertex,
    MESH_CLOSED_M, MESH_CLOSED_N, MeshForm, MeshModel, Model2D, NO_HANDLE, POLYLINE_CLOSED,
    POLYLINE_CONTINUOUS, PolygonMesh, Polyline2D, Shape, ShapeModel, Smoothing, Vertex2D,
};
use crate::pedit::{clamp_density, density, OpModel, PeditOp};
use crate::value::{zero, Point2, Point3, Real};
use vstd::prelude::*;

verus! {

/// The arcs that replace one segment of a fitted polyline: the bulge of the
/// arc that leaves its first vertex, and where a second arc takes over, the
/// knee between them and the second arc's bulge.
#[derive(Clone, Copy, Debug, PartialEq, Eq)]
pub struct SegmentArcs {
    pub bulge: Real,
    pub knee: Option<(Point2, Real)>,
}

/// What an edit needs of the geometry kernel.
pub struct Computed {
    /// The given point in the plane of the polyline, where it can be projected.
    pub local: Option<Point2>,
    /// The entity with its direction reversed, where it has one.
    pub reversed: Option<Entity>,
    /// The arcs through the vertices of the polyline, segment by segment.
    pub arcs: Vec<SegmentArcs>,
    /// Points along the spline that the vertices control.
    pub samples: Option<Vec<Point2>>,
}

/// The contents of a [`Computed`].
pub struct ComputedModel {
    pub local: Option<Point2>,
    pub reversed: Option<EntityModel>,
    pub arcs: Seq<SegmentArcs>,
    pub samples: Option<Seq<Point2>>,
}

impl View for Computed {
    type V = ComputedModel;

    open spec fn view(&self) -> ComputedModel {
        ComputedModel {
            local: self.local,
            reversed: match self.reversed {
                Some(e) => Some(e@),
                None => None,
            },
            arcs: self.arcs@,
            samples: match self.samples {
                Some(v) => Some(v@),
                None => None,
            },
        }
    }
}

impl Computed {
    /// Nothing computed, for the edits that need nothing.
    pub fn nothing() -> (r: Computed)
        ensures
            r.local is None,
            r.reversed is None,
            r.arcs@.len() == 0,
            r.samples is None,
    {
        Computed { local: None, reversed: None, arcs: Vec::new(), samples: None }
    }
}

/// A vertex with both of its widths set.
pub open spec fn widened(v: LwVertex, start: Real, end: Real) -> LwVertex {
    LwVertex { start_width: start, end_width: end, ..v }
}

/// A polyline whose vertices all have the same widths.
pub open spec fn all_widened(s: Seq<LwVertex>, w: Real) -> Seq<LwVertex> {
    Seq::new(s.len(), |i: int| widened(s[i], w, w))
}

/// A polyline with the width of the whole put on each of its vertices.
pub open spec fn width_spread(p: LwModel) -> LwModel {
    if p.form.constant_width.equals(zero()) {
        p
    } else {
        LwModel {
            vertices: all_widened(p.vertices, p.form.constant_width),
            form: LwForm { constant_width: zero(), ..p.form },
        }
    }
}

/// The polyline with the widths of one segment set.
pub open spec fn lw_vertex_width(p: LwModel, index: int, start: Real, end: Real) -> LwModel {
    let q = width_spread(p);
    LwModel {
        vertices: q.vertices.update(index, widened(q.vertices[index], start, end)),
        form: q.form,
    }
}

/// A value, or what stands in for it where it is zero.
pub open spec fn or_default(w: Real, default: Real) -> Real {
    if w.equals(zero()) {
        default
    } else {
        w
    }
}

/// A heavy polyline with its default widths put on the vertices that have none
/// of their own.
pub open spec fn defaults_spread(p: Model2D) -> Model2D {
    Model2D {
        vertices: Seq::new(
            p.vertices.len(),
            |i: int|
                Vertex2D {
                    start_width: or_default(p.vertices[i].start_width, p.form.start_width),
                    end_width: or_default(p.vertices[i].end_width, p.form.end_width),
                    ..p.vertices[i]
                },
        ),
        form: Form2D { start_width: zero(), end_width: zero(), ..p.form },
    }
}

/// The heavy polyline with the widths of one segment set.
pub open spec fn vertex_width_2d(p: Model2D, index: int, start: Real, end: Real) -> Model2D {
    let q = defaults_spread(p);
    Model2D {
        vertices: q.vertices.update(
            index,
            Vertex2D { start_width: start, end_width: end, ..q.vertices[index] },
        ),
        form: q.form,
    }
}

/// The polyline with a vertex moved, or with a new one after it.
pub open spec fn lw_vertex_placed(p: LwModel, index: int, at: Point2, insert: bool) -> LwModel {
    LwModel {
        vertices: if insert {
            p.vertices.insert(index + 1, LwVertex::new(at))
        } else {
            p.vertices.update(index, LwVertex { location: at, ..p.vertices[index] })
        },
        form: p.form,
    }
}

/// The heavy polyline with a vertex moved, or with a new one after it.
pub open spec fn vertex_placed_2d(p: Model2D, index: int, at: Point2, insert: bool) -> Model2D {
    let location = Point3 { x: at.x, y: at.y, z: p.form.elevation };
    Model2D {
        vertices: if insert {
            p.vertices.insert(index + 1, Vertex2D::new(location))
        } else {
            p.vertices.update(index, Vertex2D { location, ..p.vertices[index] })
        },
        form: p.form,
    }
}

/// The number of segments of a polyline with `n` vertices.
pub open spec fn segments(n: nat, closed: bool) -> int {
    if closed {
        n as int
    } else {
        n - 1
    }
}

/// The vertices that replace a segment: where it starts, and the knee of its
/// arcs where they have one, with the widths of the segment.
pub open spec fn segment_vertices(v: LwVertex, arcs: SegmentArcs) -> Seq<LwVertex> {
    let start = LwVertex {
        bulge: arcs.bulge,
        ..widened(LwVertex::new(v.location), v.start_width, v.end_width)
    };
    match arcs.knee {
        Some((at, bulge)) => seq![
            start,
            LwVertex { bulge, ..widened(LwVertex::new(at), v.start_width, v.end_width) },
        ],
        None => seq![start],
    }
}

/// The vertices of the first `n` segments of a fitted polyline.
pub open spec fn fitted(s: Seq<LwVertex>, arcs: Seq<SegmentArcs>, n: int) -> Seq<LwVertex>
    decreases n,
{
    if n <= 0 {
        Seq::empty()
    } else {
        fitted(s, arcs, n - 1) + segment_vertices(s[n - 1], arcs[n - 1])
    }
}

/// A polyline with arcs through its vertices. An open polyline ends with its
/// last vertex.
pub open spec fn curve_fitted(p: LwModel, arcs: Seq<SegmentArcs>) -> LwModel {
    let n = p.vertices.len();
    let body = fitted(p.vertices, arcs, segments(n, p.form.is_closed));
    LwModel {
        vertices: if p.form.is_closed {
            body
        } else {
            body.push(LwVertex { bulge: zero(), ..p.vertices[n - 1] })
        },
        form: p.form,
    }
}

/// A polyline through given points, with the width of the whole on each of its
/// vertices.
pub open spec fn through(p: LwModel, points: Seq<Point2>) -> LwModel {
    let w = p.form.constant_width;
    LwModel {
        vertices: Seq::new(points.len(), |i: int| widened(LwVertex::new(points[i]), w, w)),
        form: p.form,
    }
}

/// A polyline without arcs.
pub open spec fn straightened(p: LwModel) -> LwModel {
    LwModel {
        vertices: Seq::new(
            p.vertices.len(),
            |i: int| LwVertex { bulge: zero(), ..p.vertices[i] },
        ),
        form: p.form,
    }
}

/// The mesh with its smoothing set; the densities count only where there is
/// any smoothing.
pub open spec fn mesh_smoothed(f: MeshForm, smooth: Smoothing, m: i16, n: i16) -> MeshForm {
    if smooth == Smoothing::Plain {
        MeshForm { smooth, ..f }
    } else {
        MeshForm { smooth, m_density: density(m), n_density: density(n), ..f }
    }
}

/// The edit of a lightweight polyline, and whether it could be made. Where it
/// could not, nothing changes.
pub open spec fn edited_lw(p: LwModel, op: OpModel, c: ComputedModel) -> (LwModel, bool) {
    match op {
        OpModel::SetVertexWidth { index, start, end } => if start.width_like() && end.width_like()
            && index < p.vertices.len() {
            (lw_vertex_width(p, index as int, start, end), true)
        } else {
            (p, false)
        },
        OpModel::EditVertex { index, point, insert } => match c.local {
            Some(at) => if point.finite() && index < p.vertices.len() {
                (lw_vertex_placed(p, index as int, at, insert), true)
            } else {
                (p, false)
            },
            None => (p, false),
        },
        OpModel::SetLinetypeGeneration(on) => (
            LwModel { form: LwForm { plinegen: on, ..p.form }, ..p },
            p.form.plinegen != on,
        ),
        OpModel::SetClosed(closed) => (
            LwModel { form: LwForm { is_closed: closed, ..p.form }, ..p },
            true,
        ),
        OpModel::SetWidth(w) => (
            LwModel {
                vertices: all_widened(p.vertices, w),
                form: LwForm { constant_width: w, ..p.form },
            },
            true,
        ),
        OpModel::Fit => if p.vertices.len() >= 3 {
            (curve_fitted(p, c.arcs), true)
        } else {
            (p, false)
        },
        OpModel::Spline => match c.samples {
            Some(points) => if p.vertices.len() >= 3 && points.len() >= 2 {
                (through(p, points), true)
            } else {
                (p, false)
            },
            None => (p, false),
        },
        OpModel::Decurve => (straightened(p), true),
        _ => (p, false),
    }
}

/// The edit of a heavy polyline, and whether it could be made.
pub open spec fn edited_2d(p: Model2D, op: OpModel, c: ComputedModel) -> (Model2D, bool) {
    match op {
        OpModel::SetVertexWidth { index, start, end } => if start.width_like() && end.width_like()
            && index < p.vertices.len() {
            (vertex_width_2d(p, index as int, start, end), true)
        } else {
            (p, false)
        },
        OpModel::EditVertex { index, point, insert } => match c.local {
            Some(at) => if point.finite() && index < p.vertices.len() {
                (vertex_placed_2d(p, index as int, at, insert), true)
            } else {
                (p, false)
            },
            None => (p, false),
        },
        OpModel::SetLinetypeGeneration(on) => if flag_set(p.form.flags, POLYLINE_CONTINUOUS)
            == on {
            (p, false)
        } else {
            let flags = with_flag(p.form.flags, POLYLINE_CONTINUOUS, on);
            (Model2D { form: Form2D { flags, ..p.form }, ..p }, true)
        },
        OpModel::SetClosed(closed) => {
            let flags = with_flag(p.form.flags, POLYLINE_CLOSED, closed);
            (Model2D { form: Form2D { flags, ..p.form }, ..p }, true)
        },
        _ => (p, false),
    }
}

/// The mesh with one of its closing flags set, and whether that changed it.
pub open spec fn mesh_flagged(p: MeshModel, bit: u16, on: bool) -> (MeshModel, bool) {
    if flag_set(p.form.flags, bit) == on {
        (p, false)
    } else {
        let flags = with_flag(p.form.flags, bit, on);
        (MeshModel { form: MeshForm { flags, ..p.form }, ..p }, true)
    }
}

/// The edit of a mesh, and whether it changed anything.
pub open spec fn edited_mesh(p: MeshModel, op: OpModel) -> (MeshModel, bool) {
    match op {
        OpModel::SetMeshClosedM(closed) => mesh_flagged(p, MESH_CLOSED_M, closed),
        OpModel::SetMeshClosedN(closed) => mesh_flagged(p, MESH_CLOSED_N, closed),
        OpModel::SetMeshSmooth { smooth, m_density, n_density } => {
            let form = mesh_smoothed(p.form, smooth, m_density, n_density);
            (MeshModel { form, ..p }, form != p.form)
        },
        OpModel::MoveMeshVertex { index, point } => if point.finite() && index < p.vertices.len()
            && !p.vertices[index as int].equals(point) {
            (MeshModel { vertices: p.vertices.update(index as int, point), ..p }, true)
        } else {
            (p, false)
        },
        _ => (p, false),
    }
}

/// The edit of an entity, and whether it could be made.
pub open spec fn edited(e: EntityModel, op: OpModel, c: ComputedModel) -> (EntityModel, bool) {
    if op is Reverse {
        match c.reversed {
            Some(r) => (r, true),
            None => (e, false),
        }
    } else {
        match e.shape {
            ShapeModel::LwPolyline(p) => {
                let (q, done) = edited_lw(p, op, c);
                (EntityModel { shape: ShapeModel::LwPolyline(q), ..e }, done)
            },
            ShapeModel::Polyline2D(p) => {
                let (q, done) = edited_2d(p, op, c);
                (EntityModel { shape: ShapeModel::Polyline2D(q), ..e }, done)
            },
            ShapeModel::PolygonMesh(p) => {
                let (q, done) = edited_mesh(p, op);
                (EntityModel { shape: ShapeModel::PolygonMesh(q), ..e }, done)
            },
            _ => (e, false),
        }
    }
}

/// Whether the arcs for an edit cover all segments of the polyline.
pub open spec fn arcs_cover(e: EntityModel, op: OpModel, c: ComputedModel) -> bool {
    match e.shape {
        ShapeModel::LwPolyline(p) => op is Fit && p.vertices.len() >= 3 ==> c.arcs.len()
            == segments(p.vertices.len(), p.form.is_closed),
        _ => true,
    }
}

fn spread_width(p: &mut LwPolyline, w: Real)
    ensures
        final(p)@ == (LwModel { vertices: all_widened(old(p)@.vertices, w), form: old(p)@.form }),
{
    let n: usize = p.vertices.len();
    let mut i: usize = 0;
    let ghost s = p.vertices@;
    let ghost form = p.form;
    while i < n
        invariant
            i <= n == p.vertices@.len() == s.len(),
            p.form == form,
            forall|k: int| 0 <= k < i ==> p.vertices@[k] == #[trigger] widened(s[k], w, w),
            forall|k: int| i <= k < n ==> p.vertices@[k] == s[k],
        decreases n - i,
    {
        let v = p.vertices[i];
        p.vertices.set(i, LwVertex { start_width: w, end_width: w, ..v });
        proof {
            assert(p.vertices@[i as int] == widened(s[i as int], w, w));
        }
        i += 1;
    }
    proof {
        assert(p.vertices@ =~= all_widened(s, w));
    }
}

fn set_lw_vertex_width(p: &mut LwPolyline, index: usize, start: Real, end: Real)
    requires
        index < old(p)@.vertices.len(),
    ensures
        final(p)@ == lw_vertex_width(old(p)@, index as int, start, end),
{
    if !p.form.constant_width.is_zero() {
        let w = p.form.constant_width;
        spread_width(p, w);
        p.form.constant_width = zero();
    }
    let v = p.vertices[index];
    p.vertices.set(index, LwVertex { start_width: start, end_width: end, ..v });
}

fn or_width(w: Real, default: Real) -> (r: Real)
    ensures
        r == or_default(w, default),
{
    if w.is_zero() {
        default
    } else {
        w
    }
}

fn set_vertex_width_2d(p: &mut Polyline2D, index: usize, start: Real, end: Real)
    requires
        index < old(p)@.vertices.len(),
    ensures
        final(p)@ == vertex_width_2d(old(p)@, index as int, start, end),
{
    let n: usize = p.vertices.len();
    let mut i: usize = 0;
    let ghost before = p@;
    let ghost all = defaults_spread(before).vertices;
    while i < n
        invariant
            i <= n == p.vertices@.len() == before.vertices.len(),
            p.form == before.form,
            all == defaults_spread(before).vertices,
            forall|k: int| 0 <= k < i ==> #[trigger] p.vertices@[k] == all[k],
            forall|k: int| i <= k < n ==> #[trigger] p.vertices@[k] == before.vertices[k],
        decreases n - i,
    {
        let v = p.vertices[i];
        p.vertices.set(
            i,
            Vertex2D {
                start_width: or_width(v.start_width, p.form.start_width),
                end_width: or_width(v.end_width, p.form.end_width),
                ..v
            },
        );
        i += 1;
    }
    proof {
        assert(p.vertices@ =~= all);
    }
    p.form.start_width = zero();
    p.form.end_width = zero();
    let v = p.vertices[index];
    p.vertices.set(index, Vertex2D { start_width: start, end_width: end, ..v });
}

fn place_lw_vertex(p: &mut LwPolyline, index: usize, at: Point2, insert: bool)
    requires
        index < old(p)@.vertices.len(),
    ensures
        final(p)@ == lw_vertex_placed(old(p)@, index as int, at, insert),
{
    let n: usize = p.vertices.len();
    if insert && index < n {
        p.vertices.insert(index + 1, LwVertex::new(at));
    } else {
        let v = p.vertices[index];
        p.vertices.set(index, LwVertex { location: at, ..v });
    }
}

fn place_vertex_2d(p: &mut Polyline2D, index: usize, at: Point2, insert: bool)
    requires
        index < old(p)@.vertices.len(),
    ensures
        final(p)@ == vertex_placed_2d(old(p)@, index as int, at, insert),
{
    let location = Point3 { x: at.x, y: at.y, z: p.form.elevation };
    let n: usize = p.vertices.len();
    if insert && index < n {
        p.vertices.insert(index + 1, Vertex2D::new(location));
    } else {
        let v = p.vertices[index];
        p.vertices.set(index, Vertex2D { location, ..v });
    }
}

/// The chords that give the direction at a corner of a polyline, each by the corner
/// that it starts from: the one before the corner and the one after it, and at an
/// open end the one that there is.
pub open spec fn chords_at(n: int, closed: bool, index: int) -> (int, Option<int>) {
    if !closed && index == 0 {
        (0, None)
    } else if !closed && index == n - 1 {
        (n - 2, None)
    } else if index == 0 {
        (n - 1, Some(index))
    } else {
        (index - 1, Some(index))
    }
}

/// The chords whose directions make the tangent at vertex `index` of a
/// polyline with `n` vertices: one at the ends of an open polyline, elsewhere
/// the chord that arrives and the chord that leaves. The chord `i` runs from
/// the vertex `i` to the next, around the end.
pub fn tangent_chords(n: usize, closed: bool, index: usize) -> (r: (usize, Option<usize>))
    requires
        n >= 3,
        index < n,
    ensures
        r.0 == chords_at(n as int, closed, index as int).0,
        match r.1 {
            Some(k) => chords_at(n as int, closed, index as int).1 == Some(k as int),
            None => chords_at(n as int, closed, index as int).1 is None,
        },
{
    if !closed && index == 0 {
        (0, None)
    } else if !closed && index == n - 1 {
        (n - 2, None)
    } else if index == 0 {
        (n - 1, Some(index))
    } else {
        (index - 1, Some(index))
    }
}

/// Replaces every segment of a polyline by given arcs. A polyline of fewer
/// than three vertices is left alone.
pub fn fit_curve(p: &mut LwPolyline, arcs: &Vec<SegmentArcs>) -> (r: bool)
    requires
        old(p)@.vertices.len() >= 3 ==> arcs@.len() == segments(
            old(p)@.vertices.len(),
            old(p)@.form.is_closed,
        ),
    ensures
        r == (old(p)@.vertices.len() >= 3),
        r ==> final(p)@ == curve_fitted(old(p)@, arcs@),
        !r ==> final(p)@ == old(p)@,
{
    let n: usize = p.vertices.len();
    if n < 3 {
        return false;
    }
    let count: usize = arcs.len();
    let mut out: Vec<LwVertex> = Vec::new();
    let mut i: usize = 0;
    while i < count
        invariant
            i <= count == arcs@.len(),
            count <= n == p.vertices@.len(),
            out@ == fitted(p.vertices@, arcs@, i as int),
        decreases count - i,
    {
        let v = p.vertices[i];
        let a = arcs[i];
        let ghost before = out@;
        out.push(
            LwVertex {
                location: v.location,
                bulge: a.bulge,
                start_width: v.start_width,
                end_width: v.end_width,
                vertex_id: 0,
            },
        );
        if let Some((at, bulge)) = a.knee {
            out.push(
                LwVertex {
                    location: at,
                    bulge,
                    start_width: v.start_width,
                    end_width: v.end_width,
                    vertex_id: 0,
                },
            );
        }
        proof {
            assert(out@ =~= before + segment_vertices(v, a));
        }
        i += 1;
    }
    if !p.form.is_closed {
        let v = p.vertices[n - 1];
        out.push(LwVertex { bulge: zero(), ..v });
    }
    p.vertices = out;
    true
}

/// The points that control the spline of a polyline: its vertices, and where
/// it is closed, its first three again at the end.
pub open spec fn spline_frame(p: LwModel) -> Seq<Point2> {
    let n = p.vertices.len();
    Seq::new(
        if p.form.is_closed {
            n + 3
        } else {
            n
        },
        |i: int|
            p.vertices[if i < n {
                i
            } else {
                i - n
            }].location,
    )
}

/// The points that control the spline of a polyline, and how many steps to
/// sample it in: eight for each vertex. Fewer than three vertices make no
/// spline.
pub fn smoothing_frame(p: &LwPolyline) -> (r: Option<(Vec<Point2>, usize)>)
    requires
        p@.vertices.len() <= usize::MAX / 8,
    ensures
        match r {
            Some((points, steps)) => p@.vertices.len() >= 3 && points@ == spline_frame(p@)
                && steps == 8 * p@.vertices.len(),
            None => p@.vertices.len() < 3,
        },
{
    let n: usize = p.vertices.len();
    if n < 3 {
        return None;
    }
    let total: usize = if p.form.is_closed {
        n + 3
    } else {
        n
    };
    let mut points: Vec<Point2> = Vec::new();
    let mut i: usize = 0;
    while i < total
        invariant
            i <= total,
            3 <= n == p.vertices@.len(),
            total == spline_frame(p@).len(),
            total <= n + 3,
            points@ == spline_frame(p@).take(i as int),
        decreases total - i,
    {
        let k: usize = if i < n {
            i
        } else {
            i - n
        };
        points.push(p.vertices[k].location);
        proof {
            let all = spline_frame(p@);
            assert(all.take(i + 1) =~= all.take(i as int).push(all[i as int]));
        }
        i += 1;
    }
    proof {
        assert(spline_frame(p@).take(total as int) =~= spline_frame(p@));
    }
    Some((points, 8 * n))
}

/// Replaces the vertices of a polyline by points along the spline that they
/// control.
pub fn spline_smooth(p: &mut LwPolyline, samples: &Option<Vec<Point2>>) -> (r: bool)
    ensures
        r == (old(p)@.vertices.len() >= 3 && samples is Some && samples->0@.len() >= 2),
        r ==> final(p)@ == through(old(p)@, samples->0@),
        !r ==> final(p)@ == old(p)@,
{
    if p.vertices.len() < 3 {
        return false;
    }
    let points = match samples {
        Some(points) => points,
        None => {
            return false;
        },
    };
    let n: usize = points.len();
    if n < 2 {
        return false;
    }
    let w = p.form.constant_width;
    let mut out: Vec<LwVertex> = Vec::new();
    let mut i: usize = 0;
    let ghost all = through(p@, points@).vertices;
    while i < n
        invariant
            i <= n == points@.len(),
            all == through(p@, points@).vertices,
            w == p@.form.constant_width,
            out@ == all.take(i as int),
        decreases n - i,
    {
        out.push(
            LwVertex {
                location: points[i],
                bulge: zero(),
                start_width: w,
                end_width: w,
                vertex_id: 0,
            },
        );
        proof {
            assert(all.take(i + 1) =~= all.take(i as int).push(all[i as int]));
        }
        i += 1;
    }
    proof {
        assert(all.take(n as int) =~= all);
    }
    p.vertices = out;
    true
}

fn straighten(p: &mut LwPolyline)
    ensures
        final(p)@ == straightened(old(p)@),
{
    let n: usize = p.vertices.len();
    let mut i: usize = 0;
    let ghost before = p@;
    let ghost all = straightened(before).vertices;
    while i < n
        invariant
            i <= n == p.vertices@.len() == before.vertices.len(),
            p.form == before.form,
            all == straightened(before).vertices,
            forall|k: int| 0 <= k < i ==> #[trigger] p.vertices@[k] == all[k],
            forall|k: int| i <= k < n ==> #[trigger] p.vertices@[k] == before.vertices[k],
        decreases n - i,
    {
        let v = p.vertices[i];
        p.vertices.set(i, LwVertex { bulge: zero(), ..v });
        i += 1;
    }
    proof {
        assert(p.vertices@ =~= all);
    }
}

fn edit_lw(p: &mut LwPolyline, op: &PeditOp, c: &Computed) -> (r: bool)
    requires
        op@ is Fit && old(p)@.vertices.len() >= 3 ==> c.arcs@.len() == segments(
            old(p)@.vertices.len(),
            old(p)@.form.is_closed,
        ),
    ensures
        (final(p)@, r) == edited_lw(old(p)@, op@, c@),
{
    match op {
        PeditOp::SetVertexWidth { index, start, end } => {
            if !start.is_width() || !end.is_width() || *index >= p.vertices.len() {
                return false;
            }
            set_lw_vertex_width(p, *index, *start, *end);
            true
        },
        PeditOp::EditVertex { index, point, insert } => {
            if !point.is_finite() {
                return false;
            }
            match c.local {
                Some(at) => {
                    if *index >= p.vertices.len() {
                        return false;
                    }
                    place_lw_vertex(p, *index, at, *insert);
                    true
                },
                None => false,
            }
        },
        PeditOp::SetLinetypeGeneration(on) => {
            if p.form.plinegen == *on {
                return false;
            }
            p.form.plinegen = *on;
            true
        },
        PeditOp::SetClosed(closed) => {
            p.form.is_closed = *closed;
            true
        },
        PeditOp::SetWidth(w) => {
            p.form.constant_width = *w;
            spread_width(p, *w);
            true
        },
        PeditOp::Fit => fit_curve(p, &c.arcs),
        PeditOp::Spline => spline_smooth(p, &c.samples),
        PeditOp::Decurve => {
            straighten(p);
            true
        },
        _ => false,
    }
}

fn edit_2d(p: &mut Polyline2D, op: &PeditOp, c: &Computed) -> (r: bool)
    ensures
        (final(p)@, r) == edited_2d(old(p)@, op@, c@),
{
    match op {
        PeditOp::SetVertexWidth { index, start, end } => {
            if !start.is_width() || !end.is_width() || *index >= p.vertices.len() {
                return false;
            }
            set_vertex_width_2d(p, *index, *start, *end);
            true
        },
        PeditOp::EditVertex { index, point, insert } => {
            if !point.is_finite() {
                return false;
            }
            match c.local {
                Some(at) => {
                    if *index >= p.vertices.len() {
                        return false;
                    }
                    place_vertex_2d(p, *index, at, *insert);
                    true
                },
                None => false,
            }
        },
        PeditOp::SetLinetypeGeneration(on) => {
            if has_flag(p.form.flags, POLYLINE_CONTINUOUS) == *on {
                return false;
            }
            p.form.flags = put_flag(p.form.flags, POLYLINE_CONTINUOUS, *on);
            true
        },
        PeditOp::SetClosed(closed) => {
            p.form.flags = put_flag(p.form.flags, POLYLINE_CLOSED, *closed);
            true
        },
        _ => false,
    }
}

fn flag_mesh(p: &mut PolygonMesh, bit: u16, on: bool) -> (r: bool)
    ensures
        (final(p)@, r) == mesh_flagged(old(p)@, bit, on),
{
    if has_flag(p.form.flags, bit) == on {
        return false;
    }
    p.form.flags = put_flag(p.form.flags, bit, on);
    true
}

fn edit_mesh(p: &mut PolygonMesh, op: &PeditOp) -> (r: bool)
    ensures
        (final(p)@, r) == edited_mesh(old(p)@, op@),
{
    match op {
        PeditOp::SetMeshClosedM(closed) => flag_mesh(p, MESH_CLOSED_M, *closed),
        PeditOp::SetMeshClosedN(closed) => flag_mesh(p, MESH_CLOSED_N, *closed),
        PeditOp::SetMeshSmooth { smooth, m_density, n_density } => {
            let mut changed = p.form.smooth != *smooth;
            p.form.smooth = *smooth;
            if *smooth != Smoothing::Plain {
                let m: i16 = clamp_density(*m_density);
                let n: i16 = clamp_density(*n_density);
                if p.form.m_density != m {
                    p.form.m_density = m;
                    changed = true;
                }
                if p.form.n_density != n {
                    p.form.n_density = n;
                    changed = true;
                }
            }
            changed
        },
        PeditOp::MoveMeshVertex { index, point } => {
            if !point.is_finite() || *index >= p.vertices.len()
                || p.vertices[*index].same_place(point) {
                return false;
            }
            p.vertices.set(*index, *point);
            true
        },
        _ => false,
    }
}

/// Carries out an edit, given what it needs of the geometry kernel. Edits that
/// replace the entity by others are not carried out here.
pub fn apply_pedit(entity: &mut Entity, op: &PeditOp, computed: Computed) -> (r: bool)
    requires
        arcs_cover(old(entity)@, op@, computed@),
    ensures
        (final(entity)@, r) == edited(old(entity)@, op@, computed@),
{
    if let PeditOp::Reverse = op {
        return match computed.reversed {
            Some(e) => {
                *entity = e;
                true
            },
            None => false,
        };
    }
    match &mut entity.shape {
        Shape::LwPolyline(p) => edit_lw(p, op, &computed),
        Shape::Polyline2D(p) => edit_2d(p, op, &computed),
        Shape::PolygonMesh(p) => edit_mesh(p, op),
        _ => false,
    }
}

/// Whether the vertices `first` to `last` make a range that a polyline with `n`
/// vertices can be broken or straightened at. A polyline is not broken at an
/// end, and a range of one vertex is not straightened.
pub open spec fn range_fits(n: nat, first: int, last: int, split: bool) -> bool {
    &&& 0 <= first <= last < n
    &&& if split {
        first == last ==> first != 0 && last + 1 != n
    } else {
        first != last
    }
}

/// The vertices with those strictly between `first` and `last` gone.
pub open spec fn cut_out<T>(s: Seq<T>, first: int, last: int) -> Seq<T> {
    s.take(first + 1) + s.skip(last)
}

/// The vertices of a closed polyline with the first one again at the end, or
/// those of an open polyline.
pub open spec fn unrolled<T>(s: Seq<T>, closed: bool) -> Seq<T> {
    if closed {
        s.push(s[0])
    } else {
        s
    }
}

/// The pieces before `first` and from `last` on, as far as they have two
/// vertices.
pub open spec fn broken<T>(s: Seq<T>, first: int, last: int) -> Seq<Seq<T>> {
    (if first >= 1 {
        seq![s.take(first + 1)]
    } else {
        Seq::empty()
    }) + (if s.len() - last >= 2 {
        seq![s.skip(last)]
    } else {
        Seq::empty()
    })
}

/// A lightweight polyline with its range straightened.
pub open spec fn lw_range_straight(p: LwModel, first: int, last: int) -> LwModel {
    let v = cut_out(p.vertices, first, last);
    LwModel { vertices: v.update(first, LwVertex { bulge: zero(), ..v[first] }), form: p.form }
}

/// A heavy polyline with its range straightened.
pub open spec fn range_straight_2d(p: Model2D, first: int, last: int) -> Model2D {
    let v = cut_out(p.vertices, first, last);
    Model2D { vertices: v.update(first, Vertex2D { bulge: zero(), ..v[first] }), form: p.form }
}

/// The polylines that are left of one after a range of its vertices was
/// straightened or broken out.
pub open spec fn lw_ranged(p: LwModel, first: int, last: int, split: bool) -> Option<
    Seq<LwModel>,
> {
    if !range_fits(p.vertices.len(), first, last, split) {
        None
    } else if !split {
        Some(seq![lw_range_straight(p, first, last)])
    } else {
        let parts = broken(unrolled(p.vertices, p.form.is_closed), first, last);
        if parts.len() == 0 {
            None
        } else {
            Some(
                Seq::new(
                    parts.len(),
                    |i: int|
                        LwModel {
                            vertices: parts[i],
                            form: LwForm { is_closed: false, ..p.form },
                        },
                ),
            )
        }
    }
}

/// The heavy polylines that are left of one after a range of its vertices was
/// straightened or broken out.
pub open spec fn ranged_2d(p: Model2D, first: int, last: int, split: bool) -> Option<
    Seq<Model2D>,
> {
    if !range_fits(p.vertices.len(), first, last, split) {
        None
    } else if !split {
        Some(seq![range_straight_2d(p, first, last)])
    } else {
        let closed = flag_set(p.form.flags, POLYLINE_CLOSED);
        let parts = broken(unrolled(p.vertices, closed), first, last);
        let flags = with_flag(p.form.flags, POLYLINE_CLOSED, false);
        if parts.len() == 0 {
            None
        } else {
            Some(
                Seq::new(
                    parts.len(),
                    |i: int| Model2D { vertices: parts[i], form: Form2D { flags, ..p.form } },
                ),
            )
        }
    }
}

/// The entities that are left of one after a range of its vertices was
/// straightened or broken out. All of them have the properties of the entity.
pub open spec fn ranged(e: EntityModel, first: int, last: int, split: bool) -> Option<
    Seq<EntityModel>,
> {
    match e.shape {
        ShapeModel::LwPolyline(p) => match lw_ranged(p, first, last, split) {
            Some(list) => Some(
                Seq::new(
                    list.len(),
                    |i: int|
                        EntityModel {
                            common: e.common,
                            shape: ShapeModel::LwPolyline(list[i]),
                        },
                ),
            ),
            None => None,
        },
        ShapeModel::Polyline2D(p) => match ranged_2d(p, first, last, split) {
            Some(list) => Some(
                Seq::new(
                    list.len(),
                    |i: int|
                        EntityModel {
                            common: e.common,
                            shape: ShapeModel::Polyline2D(list[i]),
                        },
                ),
            ),
            None => None,
        },
        _ => None,
    }
}

fn cut_range<T: Copy>(v: &Vec<T>, first: usize, last: usize) -> (r: Vec<T>)
    requires
        first < last < v@.len(),
    ensures
        r@ == cut_out(v@, first as int, last as int),
{
    let mut head = copy_range(v, 0, first + 1);
    let mut tail = copy_range(v, last, v.len());
    head.append(&mut tail);
    proof {
        assert(head@ =~= cut_out(v@, first as int, last as int));
    }
    head
}

fn break_range<T: Copy>(v: &Vec<T>, closed: bool, first: usize, last: usize) -> (r: Vec<Vec<T>>)
    requires
        first <= last < v@.len(),
    ensures
        views(r@) == broken(unrolled(v@, closed), first as int, last as int),
{
    let mut all = copy_of(v);
    if closed {
        all.push(v[0]);
    }
    let mut out: Vec<Vec<T>> = Vec::new();
    let n: usize = all.len();
    if first >= 1 {
        out.push(copy_range(&all, 0, first + 1));
    }
    if n - last >= 2 {
        out.push(copy_range(&all, last, n));
    }
    proof {
        assert(all@ =~= unrolled(v@, closed));
        assert(all@.subrange(0, first + 1) =~= all@.take(first + 1));
        assert(all@.subrange(last as int, n as int) =~= all@.skip(last as int));
        assert(views(out@) =~= broken(all@, first as int, last as int));
    }
    out
}

/// The contents of the pieces of an entity, where there are any.
pub open spec fn pieces(r: Option<Vec<Entity>>) -> Option<Seq<EntityModel>> {
    match r {
        Some(v) => Some(views(v@)),
        None => None,
    }
}

fn range_ok(n: usize, first: usize, last: usize, split: bool) -> (r: bool)
    ensures
        r == range_fits(n as nat, first as int, last as int, split),
{
    if first > last || last >= n {
        false
    } else if split {
        first != last || (first != 0 && last + 1 != n)
    } else {
        first != last
    }
}

fn edit_lw_range(common: &Common, p: &LwPolyline, first: usize, last: usize, split: bool) -> (r:
    Option<Vec<Entity>>)
    ensures
        pieces(r) == ranged(
            EntityModel { common: common@, shape: ShapeModel::LwPolyline(p@) },
            first as int,
            last as int,
            split,
        ),
{
    let ghost whole = EntityModel { common: common@, shape: ShapeModel::LwPolyline(p@) };
    if !range_ok(p.vertices.len(), first, last, split) {
        return None;
    }
    let mut out: Vec<Entity> = Vec::new();
    if !split {
        let mut vertices = cut_range(&p.vertices, first, last);
        let v = vertices[first];
        vertices.set(first, LwVertex { bulge: zero(), ..v });
        out.push(
            Entity {
                common: common.with_handle(common.handle),
                shape: Shape::LwPolyline(LwPolyline { vertices, form: p.form }),
            },
        );
        proof {
            assert(views(out@) =~= ranged(whole, first as int, last as int, split)->0);
        }
        return Some(out);
    }
    let mut parts = break_range(&p.vertices, p.form.is_closed, first, last);
    let ghost all = views(parts@);
    let ghost want = ranged(whole, first as int, last as int, split);
    let n: usize = parts.len();
    if n == 0 {
        return None;
    }
    let form = LwForm { is_closed: false, ..p.form };
    let mut i: usize = 0;
    while i < n
        invariant
            i <= n == parts@.len(),
            views(parts@) == all,
            all == broken(
                unrolled(p@.vertices, p@.form.is_closed),
                first as int,
                last as int,
            ),
            form == (LwForm { is_closed: false, ..p@.form }),
            out@.len() == i,
            forall|k: int|
                0 <= k < i ==> #[trigger] out@[k]@ == (EntityModel {
                    common: common@,
                    shape: ShapeModel::LwPolyline(LwModel { vertices: all[k], form }),
                }),
        decreases n - i,
    {
        let vertices = copy_of(&parts[i]);
        proof {
            assert(all[i as int] == parts@[i as int]@);
        }
        out.push(
            Entity {
                common: common.with_handle(common.handle),
                shape: Shape::LwPolyline(LwPolyline { vertices, form }),
            },
        );
        i += 1;
    }
    proof {
        assert(views(out@) =~= want->0);
    }
    Some(out)
}

fn edit_range_2d(common: &Common, p: &Polyline2D, first: usize, last: usize, split: bool) -> (r:
    Option<Vec<Entity>>)
    ensures
        pieces(r) == ranged(
            EntityModel { common: common@, shape: ShapeModel::Polyline2D(p@) },
            first as int,
            last as int,
            split,
        ),
{
    let ghost whole = EntityModel { common: common@, shape: ShapeModel::Polyline2D(p@) };
    if !range_ok(p.vertices.len(), first, last, split) {
        return None;
    }
    let mut out: Vec<Entity> = Vec::new();
    if !split {
        let mut vertices = cut_range(&p.vertices, first, last);
        let v = vertices[first];
        vertices.set(first, Vertex2D { bulge: zero(), ..v });
        out.push(
            Entity {
                common: common.with_handle(common.handle),
                shape: Shape::Polyline2D(Polyline2D { vertices, form: p.form }),
            },
        );
        proof {
            assert(views(out@) =~= ranged(whole, first as int, last as int, split)->0);
        }
        return Some(out);
    }
    let closed = has_flag(p.form.flags, POLYLINE_CLOSED);
    let mut parts = break_range(&p.vertices, closed, first, last);
    let ghost all = views(parts@);
    let ghost want = ranged(whole, first as int, last as int, split);
    let n: usize = parts.len();
    if n == 0 {
        return None;
    }
    let form = Form2D { flags: put_flag(p.form.flags, POLYLINE_CLOSED, false), ..p.form };
    let mut i: usize = 0;
    while i < n
        invariant
            i <= n == parts@.len(),
            views(parts@) == all,
            out@.len() == i,
            forall|k: int|
                0 <= k < i ==> #[trigger] out@[k]@ == (EntityModel {
                    common: common@,
                    shape: ShapeModel::Polyline2D(Model2D { vertices: all[k], form }),
                }),
        decreases n - i,
    {
        let vertices = copy_of(&parts[i]);
        proof {
            assert(all[i as int] == parts@[i as int]@);
        }
        out.push(
            Entity {
                common: common.with_handle(common.handle),
                shape: Shape::Polyline2D(Polyline2D { vertices, form }),
            },
        );
        i += 1;
    }
    proof {
        assert(views(out@) =~= want->0);
    }
    Some(out)
}

/// Straightens a range of a polyline's vertices, or breaks the polyline there.
/// Both ends of the range are existing vertices, so no curve is split.
pub fn edit_vertex_range(entity: &Entity, first: usize, last: usize, split: bool) -> (r: Option<
    Vec<Entity>,
>)
    ensures
        pieces(r) == ranged(entity@, first as int, last as int, split),
{
    match &entity.shape {
        Shape::LwPolyline(p) => edit_lw_range(&entity.common, p, first, last, split),
        Shape::Polyline2D(p) => edit_range_2d(&entity.common, p, first, last, split),
        _ => None,
    }
}

/// A line or an arc seen in its own plane: the unit normal, the height of the
/// plane, where the curve starts and ends in it, and its bulge.
#[derive(Clone, Copy, Debug, PartialEq, Eq, Structural)]
pub struct Flattened {
    pub normal: Point3,
    pub elevation: Real,
    pub start: Point2,
    pub end: Point2,
    pub bulge: Real,
}

/// The polyline that a line or an arc is converted to.
pub open spec fn converted(e: EntityModel, flat: Option<Flattened>) -> Option<EntityModel> {
    match flat {
        Some(f) => match e.shape {
            ShapeModel::Line(l) => Some(
                two_vertices(e.common, l.thickness, f.elevation, f, zero()),
            ),
            ShapeModel::Arc(a) => Some(
                two_vertices(e.common, a.thickness, a.center.z, f, f.bulge),
            ),
            _ => None,
        },
        None => None,
    }
}

/// A polyline of one segment, with the properties of an entity but no handle.
pub open spec fn two_vertices(
    common: CommonModel,
    thickness: Real,
    elevation: Real,
    f: Flattened,
    bulge: Real,
) -> EntityModel {
    EntityModel {
        common: CommonModel { handle: NO_HANDLE, ..common },
        shape: ShapeModel::LwPolyline(
            LwModel {
                vertices: seq![
                    LwVertex { bulge, ..LwVertex::new(f.start) },
                    LwVertex::new(f.end),
                ],
                form: LwForm { thickness, elevation, normal: f.normal, ..plain_form() },
            },
        ),
    }
}

fn one_segment(common: &Common, thickness: Real, elevation: Real, f: Flattened, bulge: Real) -> (r:
    Entity)
    ensures
        r@ == two_vertices(common@, thickness, elevation, f, bulge),
{
    let mut vertices: Vec<LwVertex> = Vec::new();
    let first = LwVertex::new(f.start);
    vertices.push(LwVertex { bulge, ..first });
    vertices.push(LwVertex::new(f.end));
    let plain = plain_form();
    let r = Entity {
        common: common.with_handle(NO_HANDLE),
        shape: Shape::LwPolyline(
            LwPolyline {
                vertices,
                form: LwForm { thickness, elevation, normal: f.normal, ..plain },
            },
        ),
    };
    proof {
        assert(vertices@ =~= seq![
            LwVertex { bulge, ..LwVertex::new(f.start) },
            LwVertex::new(f.end),
        ]);
    }
    r
}

/// A line or an arc as a polyline of two vertices, given how it lies in its own
/// plane. Thickness and properties carry over; the handle does not, since the
/// polyline takes the place of the entity. Where the curve lies in no plane of
/// its own, and for anything else, there is no such polyline.
pub fn convert_to_polyline(entity: &Entity, flat: Option<Flattened>) -> (r: Option<Entity>)
    ensures
        match r {
            Some(e) => converted(entity@, flat) == Some(e@),
            None => converted(entity@, flat) is None,
        },
{
    let f = match flat {
        Some(f) => f,
        None => {
            return None;
        },
    };
    match &entity.shape {
        Shape::Line(l) => Some(
            one_segment(&entity.common, l.thickness, f.elevation, f, zero()),
        ),
        Shape::Arc(a) => Some(one_segment(&entity.common, a.thickness, a.center.z, f, f.bulge)),
        _ => None,
    }
}

/// An edit that is refused changes nothing.
pub proof fn refused_edit_keeps(e: EntityModel, op: OpModel, c: ComputedModel)
    requires
        !edited(e, op, c).1,
    ensures
        edited(e, op, c).0 == e,
{
}

/// An edit other than a reversal keeps the properties of the entity and its
/// family.
pub proof fn edit_keeps_properties(e: EntityModel, op: OpModel, c: ComputedModel)
    requires
        !(op is Reverse),
    ensures
        edited(e, op, c).0.common == e.common,
        edited(e, op, c).0.shape is LwPolyline == e.shape is LwPolyline,
        edited(e, op, c).0.shape is Polyline2D == e.shape is Polyline2D,
        edited(e, op, c).0.shape is PolygonMesh == e.shape is PolygonMesh,
{
}

/// Opening a mesh in one direction undoes closing it, and leaves the other
/// direction as it was.
pub proof fn mesh_reopens(p: MeshModel, m_direction: bool)
    requires
        !flag_set(
            p.form.flags,
            if m_direction {
                MESH_CLOSED_M
            } else {
                MESH_CLOSED_N
            },
        ),
    ensures
        ({
            let (bit, other) = if m_direction {
                (MESH_CLOSED_M, MESH_CLOSED_N)
            } else {
                (MESH_CLOSED_N, MESH_CLOSED_M)
            };
            let (closed, changed) = mesh_flagged(p, bit, true);
            &&& changed
            &&& flag_set(closed.form.flags, bit)
            &&& flag_set(closed.form.flags, other) == flag_set(p.form.flags, other)
            &&& mesh_flagged(closed, bit, false) == (p, true)
        }),
{
    let f = p.form.flags;
    assert(f & 1 == 0 ==> (f | 1) & 1 != 0 && (f | 1) & 32 == f & 32 && (f | 1) & !1u16 == f)
        by (bit_vector);
    assert(f & 32 == 0 ==> (f | 32) & 32 != 0 && (f | 32) & 1 == f & 1 && (f | 32) & !32u16 == f)
        by (bit_vector);
}

/// Breaking a polyline loses no vertex but those strictly inside the range, and
/// no piece is closed.
pub proof fn break_keeps_vertices(p: LwModel, first: int, last: int)
    requires
        range_fits(p.vertices.len(), first, last, true),
    ensures
        lw_ranged(p, first, last, true) matches Some(list) ==> {
            let whole = unrolled(p.vertices, p.form.is_closed);
            &&& 1 <= list.len() <= 2
            &&& forall|i: int|
                0 <= i < list.len() ==> !(#[trigger] list[i]).form.is_closed
                    && list[i].vertices.len() >= 2
            &&& first >= 1 ==> list[0].vertices == whole.take(first + 1)
            &&& whole.len() - last >= 2 ==> list.last().vertices == whole.skip(last)
        },
{
}

/// Straightening a range keeps both of its ends and everything outside it.
pub proof fn straighten_keeps_ends(p: LwModel, first: int, last: int)
    requires
        range_fits(p.vertices.len(), first, last, false),
    ensures
        ({
            let q = lw_range_straight(p, first, last);
            let gone = last - first - 1;
            &&& lw_ranged(p, first, last, false) == Some(seq![q])
            &&& q.vertices.len() == p.vertices.len() - gone
            &&& q.vertices[first] == (LwVertex { bulge: zero(), ..p.vertices[first] })
            &&& forall|i: int| 0 <= i < first ==> q.vertices[i] == p.vertices[i]
            &&& forall|i: int|
                first < i < q.vertices.len() ==> q.vertices[i] == p.vertices[i + gone]
            &&& q.form == p.form
        }),
{
}

} // verus!
