//! What the edits of polylines and meshes do, vertex by vertex.
use crate::entity::{EntityModel, LwVertex, ShapeModel};
use crate::pedit::OpModel;
use crate::polyline::{
    broken, converted, cut_out, edited, fitted, ranged, segment_vertices, spline_frame, unrolled,
    ComputedModel, Flattened,
};
use crate::entity::{LwModel, Model2D, Smoothing};
use crate::value::Real;
use vstd::prelude::*;

verus! {

/// Breaking a closed lightweight polyline removes only the segments between the
/// two vertices of the range: what follows the range runs on through the last
/// vertex and ends in the first one, so the closing segment stays.
pub proof fn break_keeps_the_closing_segment(e: EntityModel, p: LwModel, first: int, last: int)
    requires
        e.shape == ShapeModel::LwPolyline(p),
        p.form.is_closed,
        0 <= first <= last < p.vertices.len(),
        first == last ==> first != 0 && last + 1 != p.vertices.len(),
    ensures
        ({
            let n = p.vertices.len();
            let list = ranged(e, first, last, true)->0;
            let tail = list.last().shape->LwPolyline_0.vertices;
            let head = list[0].shape->LwPolyline_0.vertices;
            &&& ranged(e, first, last, true) is Some
            &&& list.len() == (if first >= 1 {
                2int
            } else {
                1
            })
            &&& forall|k: int|
                0 <= k < list.len() ==> {
                    &&& (#[trigger] list[k]).common == e.common
                    &&& list[k].shape is LwPolyline
                    &&& !list[k].shape->LwPolyline_0.form.is_closed
                    &&& list[k].shape->LwPolyline_0.form.constant_width == p.form.constant_width
                    &&& list[k].shape->LwPolyline_0.form.plinegen == p.form.plinegen
                    &&& list[k].shape->LwPolyline_0.form.elevation == p.form.elevation
                    &&& list[k].shape->LwPolyline_0.form.thickness == p.form.thickness
                    &&& list[k].shape->LwPolyline_0.form.normal == p.form.normal
                }
            &&& tail.len() == n - last + 1
            &&& tail[0] == p.vertices[last]
            &&& tail.last() == p.vertices[0]
            &&& forall|k: int| 0 <= k < n - last ==> #[trigger] tail[k] == p.vertices[last + k]
            &&& first >= 1 ==> head.len() == first + 1 && forall|k: int|
                0 <= k <= first ==> #[trigger] head[k] == p.vertices[k]
        }),
{
    let whole = p.vertices.push(p.vertices[0]);
    assert(unrolled(p.vertices, true) == whole);
    let parts = broken(whole, first, last);
    assert(parts.last() == whole.skip(last));
}

/// Breaking an open lightweight polyline leaves the vertices up to the range and
/// those from its end on, as far as either has two.
pub proof fn break_of_open_polyline(e: EntityModel, p: LwModel, first: int, last: int)
    requires
        e.shape == ShapeModel::LwPolyline(p),
        !p.form.is_closed,
        0 <= first <= last < p.vertices.len(),
        first == last ==> first != 0 && last + 1 != p.vertices.len(),
    ensures
        ({
            let n = p.vertices.len();
            let list = ranged(e, first, last, true)->0;
            let tail = list.last().shape->LwPolyline_0.vertices;
            let head = list[0].shape->LwPolyline_0.vertices;
            &&& ranged(e, first, last, true) is None <==> first == 0 && last + 1 == n
            &&& first >= 1 && last + 1 < n ==> list.len() == 2
            &&& ranged(e, first, last, true) is Some && !(first >= 1 && last + 1 < n)
                ==> list.len() == 1
            &&& first >= 1 ==> head.len() == first + 1 && forall|k: int|
                0 <= k <= first ==> #[trigger] head[k] == p.vertices[k]
            &&& last + 1 < n ==> tail.len() == n - last && forall|k: int|
                0 <= k < n - last ==> #[trigger] tail[k] == p.vertices[last + k]
            &&& ranged(e, first, last, true) is Some ==> forall|k: int|
                0 <= k < list.len() ==> (#[trigger] list[k]).common == e.common
                    && list[k].shape is LwPolyline && list[k].shape->LwPolyline_0.form == p.form
        }),
{
    let parts = broken(p.vertices, first, last);
    assert(unrolled(p.vertices, false) == p.vertices);
    if last + 1 < p.vertices.len() {
        assert(parts.last() == p.vertices.skip(last));
    }
}

/// Breaking a closed heavy polyline keeps its closing segment in the same way.
pub proof fn heavy_break_keeps_the_closing_segment(
    e: EntityModel,
    p: Model2D,
    first: int,
    last: int,
)
    requires
        e.shape == ShapeModel::Polyline2D(p),
        p.form.flags & 1 != 0,
        0 <= first <= last < p.vertices.len(),
        first == last ==> first != 0 && last + 1 != p.vertices.len(),
    ensures
        ({
            let n = p.vertices.len();
            let list = ranged(e, first, last, true)->0;
            let tail = list.last().shape->Polyline2D_0.vertices;
            let head = list[0].shape->Polyline2D_0.vertices;
            &&& ranged(e, first, last, true) is Some
            &&& list.len() == (if first >= 1 {
                2int
            } else {
                1
            })
            &&& forall|k: int|
                0 <= k < list.len() ==> {
                    &&& (#[trigger] list[k]).common == e.common
                    &&& list[k].shape is Polyline2D
                    &&& list[k].shape->Polyline2D_0.form.flags & 1 == 0
                    &&& list[k].shape->Polyline2D_0.form.flags | 1 == p.form.flags
                    &&& list[k].shape->Polyline2D_0.form.smooth == p.form.smooth
                    &&& list[k].shape->Polyline2D_0.form.start_width == p.form.start_width
                    &&& list[k].shape->Polyline2D_0.form.end_width == p.form.end_width
                    &&& list[k].shape->Polyline2D_0.form.thickness == p.form.thickness
                    &&& list[k].shape->Polyline2D_0.form.elevation == p.form.elevation
                    &&& list[k].shape->Polyline2D_0.form.normal == p.form.normal
                }
            &&& tail.len() == n - last + 1
            &&& tail[0] == p.vertices[last]
            &&& tail.last() == p.vertices[0]
            &&& forall|k: int| 0 <= k < n - last ==> #[trigger] tail[k] == p.vertices[last + k]
            &&& first >= 1 ==> head.len() == first + 1 && forall|k: int|
                0 <= k <= first ==> #[trigger] head[k] == p.vertices[k]
        }),
{
    let whole = p.vertices.push(p.vertices[0]);
    let f = p.form.flags;
    assert((f & !1u16) & 1 == 0) by (bit_vector);
    assert(f & 1 != 0 ==> (f & !1u16) | 1 == f) by (bit_vector);
    assert(unrolled(p.vertices, true) == whole);
    let parts = broken(whole, first, last);
    assert(parts.last() == whole.skip(last));
}

/// Breaking an open heavy polyline leaves the same pieces as a lightweight one.
pub proof fn heavy_break_of_open_polyline(e: EntityModel, p: Model2D, first: int, last: int)
    requires
        e.shape == ShapeModel::Polyline2D(p),
        p.form.flags & 1 == 0,
        0 <= first <= last < p.vertices.len(),
        first == last ==> first != 0 && last + 1 != p.vertices.len(),
    ensures
        ({
            let n = p.vertices.len();
            let list = ranged(e, first, last, true)->0;
            let tail = list.last().shape->Polyline2D_0.vertices;
            let head = list[0].shape->Polyline2D_0.vertices;
            &&& ranged(e, first, last, true) is None <==> first == 0 && last + 1 == n
            &&& first >= 1 && last + 1 < n ==> list.len() == 2
            &&& ranged(e, first, last, true) is Some && !(first >= 1 && last + 1 < n)
                ==> list.len() == 1
            &&& first >= 1 ==> head.len() == first + 1 && forall|k: int|
                0 <= k <= first ==> #[trigger] head[k] == p.vertices[k]
            &&& last + 1 < n ==> tail.len() == n - last && forall|k: int|
                0 <= k < n - last ==> #[trigger] tail[k] == p.vertices[last + k]
            &&& ranged(e, first, last, true) is Some ==> forall|k: int|
                0 <= k < list.len() ==> (#[trigger] list[k]).common == e.common
                    && list[k].shape is Polyline2D && list[k].shape->Polyline2D_0.form == p.form
        }),
{
    let f = p.form.flags;
    assert(f & 1 == 0 ==> f & !1u16 == f) by (bit_vector);
    let parts = broken(p.vertices, first, last);
    assert(unrolled(p.vertices, false) == p.vertices);
    if last + 1 < p.vertices.len() {
        assert(parts.last() == p.vertices.skip(last));
    }
}

/// Straightening a range of a lightweight polyline leaves one straight segment
/// between its ends: the vertices between them are gone, and nothing else
/// changes.
pub proof fn straightening_leaves_one_segment(e: EntityModel, p: LwModel, first: int, last: int)
    requires
        e.shape == ShapeModel::LwPolyline(p),
        0 <= first < last < p.vertices.len(),
    ensures
        ({
            let list = ranged(e, first, last, false)->0;
            let v = list[0].shape->LwPolyline_0.vertices;
            &&& ranged(e, first, last, false) is Some
            &&& list.len() == 1
            &&& list[0].common == e.common
            &&& list[0].shape is LwPolyline
            &&& list[0].shape->LwPolyline_0.form == p.form
            &&& v.len() + (last - first) == p.vertices.len() + 1
            &&& v[first].location == p.vertices[first].location
            &&& v[first].bulge.bits == 0
            &&& v[first].start_width == p.vertices[first].start_width
            &&& v[first].end_width == p.vertices[first].end_width
            &&& v[first].vertex_id == p.vertices[first].vertex_id
            &&& v[first + 1] == p.vertices[last]
            &&& forall|k: int| 0 <= k < first ==> #[trigger] v[k] == p.vertices[k]
            &&& forall|k: int|
                first < k < v.len() ==> #[trigger] v[k] == p.vertices[k + (last - first - 1)]
        }),
{
    let c = cut_out(p.vertices, first, last);
    assert forall|k: int| first < k < c.len() implies #[trigger] c[k] == p.vertices[k + (last
        - first - 1)] by {}
}

/// Straightening a range of a heavy polyline does the same.
pub proof fn heavy_straightening_leaves_one_segment(
    e: EntityModel,
    p: Model2D,
    first: int,
    last: int,
)
    requires
        e.shape == ShapeModel::Polyline2D(p),
        0 <= first < last < p.vertices.len(),
    ensures
        ({
            let list = ranged(e, first, last, false)->0;
            let v = list[0].shape->Polyline2D_0.vertices;
            &&& ranged(e, first, last, false) is Some
            &&& list.len() == 1
            &&& list[0].common == e.common
            &&& list[0].shape is Polyline2D
            &&& list[0].shape->Polyline2D_0.form == p.form
            &&& v.len() + (last - first) == p.vertices.len() + 1
            &&& v[first].location == p.vertices[first].location
            &&& v[first].bulge.bits == 0
            &&& v[first].start_width == p.vertices[first].start_width
            &&& v[first].end_width == p.vertices[first].end_width
            &&& v[first].curve_tangent == p.vertices[first].curve_tangent
            &&& v[first].flags == p.vertices[first].flags
            &&& v[first].id == p.vertices[first].id
            &&& v[first + 1] == p.vertices[last]
            &&& forall|k: int| 0 <= k < first ==> #[trigger] v[k] == p.vertices[k]
            &&& forall|k: int|
                first < k < v.len() ==> #[trigger] v[k] == p.vertices[k + (last - first - 1)]
        }),
{
    let c = cut_out(p.vertices, first, last);
    assert forall|k: int| first < k < c.len() implies #[trigger] c[k] == p.vertices[k + (last
        - first - 1)] by {}
}

/// A range is refused that is turned round, that ends behind the last vertex,
/// that is one vertex to straighten or an end of the polyline to break at; and so
/// is any range of an entity that is no polyline.
pub proof fn unfit_ranges_are_refused(e: EntityModel, first: int, last: int, split: bool)
    requires
        ({
            let n = match e.shape {
                ShapeModel::LwPolyline(p) => p.vertices.len() as int,
                ShapeModel::Polyline2D(p) => p.vertices.len() as int,
                _ => 0,
            };
            ||| first < 0
            ||| last < first
            ||| n <= last
            ||| first == last && !split
            ||| first == last && (first == 0 || last + 1 == n)
        }),
    ensures
        ranged(e, first, last, split) is None,
{
}

/// Setting the widths of a segment gives the vertex before it just these widths.
/// A width of the whole polyline goes to the other vertices, and every vertex
/// keeps its place, bulge and number.
pub proof fn segment_takes_its_widths(
    e: EntityModel,
    p: LwModel,
    index: usize,
    start: Real,
    end: Real,
    c: ComputedModel,
)
    requires
        e.shape == ShapeModel::LwPolyline(p),
        index < p.vertices.len(),
        start.finite() && !start.negative(),
        end.finite() && !end.negative(),
    ensures
        ({
            let (after, done) = edited(e, OpModel::SetVertexWidth { index, start, end }, c);
            let q = after.shape->LwPolyline_0;
            let whole = p.form.constant_width;
            &&& done
            &&& after.common == e.common
            &&& after.shape is LwPolyline
            &&& q.vertices.len() == p.vertices.len()
            &&& q.vertices[index as int].start_width == start
            &&& q.vertices[index as int].end_width == end
            &&& q.form.constant_width.magnitude() == 0
            &&& q.form.is_closed == p.form.is_closed
            &&& q.form.plinegen == p.form.plinegen
            &&& q.form.elevation == p.form.elevation
            &&& q.form.thickness == p.form.thickness
            &&& q.form.normal == p.form.normal
            &&& forall|k: int|
                0 <= k < p.vertices.len() ==> {
                    &&& (#[trigger] q.vertices[k]).location == p.vertices[k].location
                    &&& q.vertices[k].bulge == p.vertices[k].bulge
                    &&& q.vertices[k].vertex_id == p.vertices[k].vertex_id
                }
            &&& forall|k: int|
                0 <= k < p.vertices.len() && k != index ==> {
                    let keeps = whole.magnitude() == 0;
                    &&& (#[trigger] q.vertices[k]).start_width == (if keeps {
                        p.vertices[k].start_width
                    } else {
                        whole
                    })
                    &&& q.vertices[k].end_width == (if keeps {
                        p.vertices[k].end_width
                    } else {
                        whole
                    })
                }
        }),
{
}

/// The same of a heavy polyline, whose vertices without a width of their own take
/// the widths of the whole.
pub proof fn heavy_segment_takes_its_widths(
    e: EntityModel,
    p: Model2D,
    index: usize,
    start: Real,
    end: Real,
    c: ComputedModel,
)
    requires
        e.shape == ShapeModel::Polyline2D(p),
        index < p.vertices.len(),
        start.finite() && !start.negative(),
        end.finite() && !end.negative(),
    ensures
        ({
            let (after, done) = edited(e, OpModel::SetVertexWidth { index, start, end }, c);
            let q = after.shape->Polyline2D_0;
            &&& done
            &&& after.common == e.common
            &&& after.shape is Polyline2D
            &&& q.vertices.len() == p.vertices.len()
            &&& q.vertices[index as int].start_width == start
            &&& q.vertices[index as int].end_width == end
            &&& q.form.start_width.bits == 0
            &&& q.form.end_width.bits == 0
            &&& q.form.flags == p.form.flags
            &&& q.form.smooth == p.form.smooth
            &&& q.form.elevation == p.form.elevation
            &&& q.form.thickness == p.form.thickness
            &&& q.form.normal == p.form.normal
            &&& forall|k: int|
                0 <= k < p.vertices.len() ==> {
                    &&& (#[trigger] q.vertices[k]).location == p.vertices[k].location
                    &&& q.vertices[k].bulge == p.vertices[k].bulge
                    &&& q.vertices[k].flags == p.vertices[k].flags
                    &&& q.vertices[k].curve_tangent == p.vertices[k].curve_tangent
                    &&& q.vertices[k].id == p.vertices[k].id
                }
            &&& forall|k: int|
                0 <= k < p.vertices.len() && k != index ==> {
                    let v = p.vertices[k];
                    &&& (#[trigger] q.vertices[k]).start_width == (if v.start_width.magnitude()
                        == 0 {
                        p.form.start_width
                    } else {
                        v.start_width
                    })
                    &&& q.vertices[k].end_width == (if v.end_width.magnitude() == 0 {
                        p.form.end_width
                    } else {
                        v.end_width
                    })
                }
        }),
{
}

/// Moving a vertex of a lightweight polyline puts that vertex at the given point
/// and changes nothing else.
pub proof fn moved_vertex_is_there(
    e: EntityModel,
    p: LwModel,
    index: usize,
    point: crate::value::Point3,
    c: ComputedModel,
)
    requires
        e.shape == ShapeModel::LwPolyline(p),
        index < p.vertices.len(),
        point.finite(),
        c.local is Some,
    ensures
        ({
            let op = OpModel::EditVertex { index, point, insert: false };
            let (after, done) = edited(e, op, c);
            let q = after.shape->LwPolyline_0;
            let i = index as int;
            &&& done
            &&& after.common == e.common
            &&& after.shape is LwPolyline
            &&& q.form == p.form
            &&& q.vertices.len() == p.vertices.len()
            &&& q.vertices[i].location == c.local->0
            &&& q.vertices[i].bulge == p.vertices[i].bulge
            &&& q.vertices[i].start_width == p.vertices[i].start_width
            &&& q.vertices[i].end_width == p.vertices[i].end_width
            &&& q.vertices[i].vertex_id == p.vertices[i].vertex_id
            &&& forall|k: int|
                0 <= k < p.vertices.len() && k != i ==> #[trigger] q.vertices[k] == p.vertices[k]
        }),
{
}

/// A new vertex comes right after the one it is inserted at, plain and at the
/// given point, and all others keep their order.
pub proof fn inserted_vertex_comes_after(
    e: EntityModel,
    p: LwModel,
    index: usize,
    point: crate::value::Point3,
    c: ComputedModel,
)
    requires
        e.shape == ShapeModel::LwPolyline(p),
        index < p.vertices.len(),
        point.finite(),
        c.local is Some,
    ensures
        ({
            let op = OpModel::EditVertex { index, point, insert: true };
            let (after, done) = edited(e, op, c);
            let q = after.shape->LwPolyline_0;
            let i = index as int;
            &&& done
            &&& after.common == e.common
            &&& after.shape is LwPolyline
            &&& q.form == p.form
            &&& q.vertices.len() == p.vertices.len() + 1
            &&& q.vertices[i + 1].location == c.local->0
            &&& q.vertices[i + 1].bulge.bits == 0
            &&& q.vertices[i + 1].start_width.bits == 0
            &&& q.vertices[i + 1].end_width.bits == 0
            &&& forall|k: int| 0 <= k <= i ==> #[trigger] q.vertices[k] == p.vertices[k]
            &&& forall|k: int|
                i + 1 < k <= p.vertices.len() ==> #[trigger] q.vertices[k] == p.vertices[k - 1]
        }),
{
}

/// Moving and inserting vertices of a heavy polyline, at the height of the
/// polyline.
pub proof fn heavy_vertex_is_there(
    e: EntityModel,
    p: Model2D,
    index: usize,
    point: crate::value::Point3,
    insert: bool,
    c: ComputedModel,
)
    requires
        e.shape == ShapeModel::Polyline2D(p),
        index < p.vertices.len(),
        point.finite(),
        c.local is Some,
    ensures
        ({
            let (after, done) = edited(e, OpModel::EditVertex { index, point, insert }, c);
            let q = after.shape->Polyline2D_0;
            let i = index as int;
            let j = if insert {
                i + 1
            } else {
                i
            };
            &&& done
            &&& after.common == e.common
            &&& after.shape is Polyline2D
            &&& q.form == p.form
            &&& q.vertices[j].location.x == (c.local->0).x
            &&& q.vertices[j].location.y == (c.local->0).y
            &&& q.vertices[j].location.z == p.form.elevation
            &&& insert ==> q.vertices.len() == p.vertices.len() + 1 && q.vertices[j].bulge.bits
                == 0 && q.vertices[j].start_width.bits == 0 && q.vertices[j].end_width.bits == 0
                && q.vertices[j].flags == 0
            &&& !insert ==> q.vertices.len() == p.vertices.len() && q.vertices[j].bulge
                == p.vertices[i].bulge && q.vertices[j].start_width == p.vertices[i].start_width
                && q.vertices[j].end_width == p.vertices[i].end_width && q.vertices[j].flags
                == p.vertices[i].flags && q.vertices[j].curve_tangent
                == p.vertices[i].curve_tangent && q.vertices[j].id == p.vertices[i].id
            &&& forall|k: int| 0 <= k < j ==> #[trigger] q.vertices[k] == p.vertices[k]
            &&& insert ==> forall|k: int|
                j < k <= p.vertices.len() ==> #[trigger] q.vertices[k] == p.vertices[k - 1]
            &&& !insert ==> forall|k: int|
                j < k < p.vertices.len() ==> #[trigger] q.vertices[k] == p.vertices[k]
        }),
{
}

/// Edits of vertices that are not there, with widths below zero or with points
/// that are not finite are refused.
pub proof fn unfit_vertex_edits_are_refused(e: EntityModel, op: OpModel, c: ComputedModel)
    requires
        match (e.shape, op) {
            (ShapeModel::LwPolyline(p), OpModel::SetVertexWidth { index, start, end }) => index
                >= p.vertices.len() || !start.finite() || !end.finite() || start.rank() < 0
                || end.rank() < 0,
            (ShapeModel::Polyline2D(p), OpModel::SetVertexWidth { index, start, end }) => index
                >= p.vertices.len() || !start.finite() || !end.finite() || start.rank() < 0
                || end.rank() < 0,
            (ShapeModel::LwPolyline(p), OpModel::EditVertex { index, point, insert }) => index
                >= p.vertices.len() || !point.finite() || c.local is None,
            (ShapeModel::Polyline2D(p), OpModel::EditVertex { index, point, insert }) => index
                >= p.vertices.len() || !point.finite() || c.local is None,
            (ShapeModel::PolygonMesh(m), OpModel::MoveMeshVertex { index, point }) => index
                >= m.vertices.len() || !point.finite(),
            _ => false,
        },
    ensures
        edited(e, op, c) == (e, false),
{
}

/// Closing and opening a polyline set just that; the line type generation is
/// switched where it is not as asked for already.
pub proof fn switches_set_one_property(e: EntityModel, p: LwModel, on: bool, c: ComputedModel)
    requires
        e.shape == ShapeModel::LwPolyline(p),
    ensures
        ({
            let (after, done) = edited(e, OpModel::SetClosed(on), c);
            let q = after.shape->LwPolyline_0;
            &&& done
            &&& after.common == e.common
            &&& after.shape is LwPolyline
            &&& q.vertices == p.vertices
            &&& q.form.is_closed == on
            &&& q.form.plinegen == p.form.plinegen
            &&& q.form.constant_width == p.form.constant_width
            &&& q.form.elevation == p.form.elevation
            &&& q.form.thickness == p.form.thickness
            &&& q.form.normal == p.form.normal
        }),
        ({
            let (after, done) = edited(e, OpModel::SetLinetypeGeneration(on), c);
            let q = after.shape->LwPolyline_0;
            &&& done == (p.form.plinegen != on)
            &&& after.common == e.common
            &&& after.shape is LwPolyline
            &&& q.vertices == p.vertices
            &&& q.form.plinegen == on
            &&& q.form.is_closed == p.form.is_closed
            &&& q.form.constant_width == p.form.constant_width
            &&& q.form.elevation == p.form.elevation
            &&& q.form.thickness == p.form.thickness
            &&& q.form.normal == p.form.normal
        }),
{
}

/// On a heavy polyline the same switches set one bit of its flags each.
pub proof fn heavy_switches_set_one_bit(e: EntityModel, p: Model2D, on: bool, c: ComputedModel)
    requires
        e.shape == ShapeModel::Polyline2D(p),
    ensures
        ({
            let (after, done) = edited(e, OpModel::SetClosed(on), c);
            let q = after.shape->Polyline2D_0;
            &&& done
            &&& after.common == e.common
            &&& after.shape is Polyline2D
            &&& q.vertices == p.vertices
            &&& (q.form.flags & 1 != 0) == on
            &&& q.form.flags | 1 == p.form.flags | 1
            &&& q.form.smooth == p.form.smooth
            &&& q.form.start_width == p.form.start_width
            &&& q.form.end_width == p.form.end_width
            &&& q.form.thickness == p.form.thickness
            &&& q.form.elevation == p.form.elevation
            &&& q.form.normal == p.form.normal
        }),
        ({
            let (after, done) = edited(e, OpModel::SetLinetypeGeneration(on), c);
            let q = after.shape->Polyline2D_0;
            &&& done == ((p.form.flags & 128 != 0) != on)
            &&& after.common == e.common
            &&& after.shape is Polyline2D
            &&& q.vertices == p.vertices
            &&& (q.form.flags & 128 != 0) == on
            &&& q.form.flags | 128 == p.form.flags | 128
            &&& q.form.smooth == p.form.smooth
            &&& q.form.start_width == p.form.start_width
            &&& q.form.end_width == p.form.end_width
            &&& q.form.thickness == p.form.thickness
            &&& q.form.elevation == p.form.elevation
            &&& q.form.normal == p.form.normal
        }),
{
    let f = p.form.flags;
    assert((f | 1) & 1 != 0 && (f | 1) | 1 == f | 1 && (f & !1u16) & 1 == 0 && (f & !1u16) | 1
        == f | 1) by (bit_vector);
    assert((f | 128) & 128 != 0 && (f | 128) | 128 == f | 128 && (f & !128u16) & 128 == 0 && (f
        & !128u16) | 128 == f | 128) by (bit_vector);
}

/// A width for the whole polyline is the width of the polyline and both widths of
/// each vertex; places and bulges stay.
pub proof fn width_covers_all(e: EntityModel, p: LwModel, w: Real, c: ComputedModel)
    requires
        e.shape == ShapeModel::LwPolyline(p),
    ensures
        ({
            let (after, done) = edited(e, OpModel::SetWidth(w), c);
            let q = after.shape->LwPolyline_0;
            &&& done
            &&& after.common == e.common
            &&& after.shape is LwPolyline
            &&& q.form.constant_width == w
            &&& q.form.is_closed == p.form.is_closed
            &&& q.form.plinegen == p.form.plinegen
            &&& q.form.elevation == p.form.elevation
            &&& q.form.thickness == p.form.thickness
            &&& q.form.normal == p.form.normal
            &&& q.vertices.len() == p.vertices.len()
            &&& forall|k: int|
                0 <= k < p.vertices.len() ==> {
                    &&& (#[trigger] q.vertices[k]).start_width == w
                    &&& q.vertices[k].end_width == w
                    &&& q.vertices[k].location == p.vertices[k].location
                    &&& q.vertices[k].bulge == p.vertices[k].bulge
                    &&& q.vertices[k].vertex_id == p.vertices[k].vertex_id
                }
        }),
{
}

/// Decurving takes the bulge from every vertex and nothing else.
pub proof fn decurving_takes_bulges(e: EntityModel, p: LwModel, c: ComputedModel)
    requires
        e.shape == ShapeModel::LwPolyline(p),
    ensures
        ({
            let (after, done) = edited(e, OpModel::Decurve, c);
            let q = after.shape->LwPolyline_0;
            &&& done
            &&& after.common == e.common
            &&& after.shape is LwPolyline
            &&& q.form == p.form
            &&& q.vertices.len() == p.vertices.len()
            &&& forall|k: int|
                0 <= k < p.vertices.len() ==> {
                    &&& (#[trigger] q.vertices[k]).bulge.bits == 0
                    &&& q.vertices[k].location == p.vertices[k].location
                    &&& q.vertices[k].start_width == p.vertices[k].start_width
                    &&& q.vertices[k].end_width == p.vertices[k].end_width
                    &&& q.vertices[k].vertex_id == p.vertices[k].vertex_id
                }
        }),
{
}

/// Smoothing replaces the vertices by the sampled points, in order, straight and
/// as wide as the polyline; it takes three vertices and two samples.
pub proof fn smoothing_follows_samples(e: EntityModel, p: LwModel, c: ComputedModel)
    requires
        e.shape == ShapeModel::LwPolyline(p),
    ensures
        ({
            let (after, done) = edited(e, OpModel::Spline, c);
            let q = after.shape->LwPolyline_0;
            &&& done == (p.vertices.len() >= 3 && c.samples is Some && c.samples->0.len() >= 2)
            &&& after.common == e.common
            &&& after.shape is LwPolyline
            &&& q.form == p.form
            &&& done ==> q.vertices.len() == c.samples->0.len() && forall|k: int|
                0 <= k < q.vertices.len() ==> {
                    &&& (#[trigger] q.vertices[k]).location == c.samples->0[k]
                    &&& q.vertices[k].bulge.bits == 0
                    &&& q.vertices[k].start_width == p.form.constant_width
                    &&& q.vertices[k].end_width == p.form.constant_width
                }
            &&& !done ==> q == p
        }),
{
}

/// The points that control the spline of a polyline are its vertices in order,
/// and for a closed one the first three once more.
pub proof fn spline_is_controlled_by_vertices(p: LwModel, k: int)
    requires
        p.vertices.len() >= 3,
    ensures
        spline_frame(p).len() == (if p.form.is_closed {
            p.vertices.len() + 3
        } else {
            p.vertices.len()
        }),
        0 <= k < p.vertices.len() ==> spline_frame(p)[k] == p.vertices[k].location,
        p.form.is_closed && 0 <= k < 3 ==> spline_frame(p)[p.vertices.len() + k]
            == p.vertices[k].location,
{
}

/// How many vertices stand before the vertex `k` of a polyline once arcs run
/// through it: one for each vertex before it, and one for each knee.
pub open spec fn place_when_fitted(arcs: Seq<crate::polyline::SegmentArcs>, k: int) -> int
    decreases k,
{
    if k <= 0 {
        0
    } else {
        place_when_fitted(arcs, k - 1) + 1 + (if arcs[k - 1].knee is Some {
            1int
        } else {
            0
        })
    }
}

proof fn lemma_fitted(
    s: Seq<LwVertex>,
    arcs: Seq<crate::polyline::SegmentArcs>,
    n: int,
    k: int,
)
    requires
        0 <= k < n <= s.len(),
        n <= arcs.len(),
    ensures
        ({
            let out = fitted(s, arcs, n);
            let at = place_when_fitted(arcs, k);
            &&& out.len() == place_when_fitted(arcs, n)
            &&& 0 <= at < out.len()
            &&& out[at].location == s[k].location
            &&& out[at].bulge == arcs[k].bulge
            &&& out[at].start_width == s[k].start_width
            &&& out[at].end_width == s[k].end_width
            &&& arcs[k].knee matches Some((there, bulge)) ==> at + 1 < out.len() && out[at
                + 1].location == there && out[at + 1].bulge == bulge && out[at + 1].start_width
                == s[k].start_width && out[at + 1].end_width == s[k].end_width
        }),
    decreases n,
{
    let last = segment_vertices(s[n - 1], arcs[n - 1]);
    if k < n - 1 {
        lemma_fitted(s, arcs, n - 1, k);
    } else {
        if n - 1 > 0 {
            lemma_fitted(s, arcs, n - 1, n - 2);
        }
        assert(fitted(s, arcs, n - 1).len() == place_when_fitted(arcs, n - 1));
        assert(fitted(s, arcs, n)[place_when_fitted(arcs, k)] == last[0]);
    }
}

/// Fitting puts the arcs of each segment in place of it: the vertex that the
/// segment starts in, with the bulge of its first arc, and behind it the knee
/// where there is one; the widths of the segment stay. An open polyline ends in
/// its last vertex, without a bulge.
pub proof fn fitting_runs_through_vertices(
    e: EntityModel,
    p: LwModel,
    c: ComputedModel,
    k: int,
)
    requires
        e.shape == ShapeModel::LwPolyline(p),
        p.vertices.len() >= 3,
        c.arcs.len() == (if p.form.is_closed {
            p.vertices.len() as int
        } else {
            p.vertices.len() - 1
        }),
        0 <= k < c.arcs.len(),
    ensures
        ({
            let (after, done) = edited(e, OpModel::Fit, c);
            let q = after.shape->LwPolyline_0;
            let at = place_when_fitted(c.arcs, k);
            let n = p.vertices.len() as int;
            let m = c.arcs.len() as int;
            &&& done
            &&& after.common == e.common
            &&& after.shape is LwPolyline
            &&& q.form == p.form
            &&& q.vertices.len() == place_when_fitted(c.arcs, m) + (if p.form.is_closed {
                0int
            } else {
                1
            })
            &&& 0 <= at < q.vertices.len()
            &&& q.vertices[at].location == p.vertices[k].location
            &&& q.vertices[at].bulge == c.arcs[k].bulge
            &&& q.vertices[at].start_width == p.vertices[k].start_width
            &&& q.vertices[at].end_width == p.vertices[k].end_width
            &&& c.arcs[k].knee matches Some((there, bulge)) ==> q.vertices[at + 1].location
                == there && q.vertices[at + 1].bulge == bulge && q.vertices[at + 1].start_width
                == p.vertices[k].start_width && q.vertices[at + 1].end_width
                == p.vertices[k].end_width
            &&& !p.form.is_closed ==> q.vertices.last().location == p.vertices[n - 1].location
                && q.vertices.last().bulge.bits == 0 && q.vertices.last().start_width
                == p.vertices[n - 1].start_width && q.vertices.last().end_width
                == p.vertices[n - 1].end_width
        }),
{
    lemma_fitted(p.vertices, c.arcs, c.arcs.len() as int, k);
}

/// Fitting and smoothing take three vertices or more.
pub proof fn short_polylines_have_no_curve(e: EntityModel, p: LwModel, c: ComputedModel)
    requires
        e.shape == ShapeModel::LwPolyline(p),
        p.vertices.len() < 3,
    ensures
        edited(e, OpModel::Fit, c) == (e, false),
        edited(e, OpModel::Spline, c) == (e, false),
{
}

/// A reversed entity takes the place of the entity, where it can be reversed.
pub proof fn reversing_replaces(e: EntityModel, c: ComputedModel)
    ensures
        edited(e, OpModel::Reverse, c).1 == c.reversed is Some,
        c.reversed matches Some(r) ==> edited(e, OpModel::Reverse, c).0 == r,
        c.reversed is None ==> edited(e, OpModel::Reverse, c).0 == e,
{
}

/// Closing a mesh in one direction sets one bit of its flags and nothing else,
/// and is no change where the bit is set already.
pub proof fn mesh_directions_are_apart(
    e: EntityModel,
    p: crate::entity::MeshModel,
    on: bool,
    c: ComputedModel,
)
    requires
        e.shape == ShapeModel::PolygonMesh(p),
    ensures
        ({
            let (after, done) = edited(e, OpModel::SetMeshClosedM(on), c);
            let q = after.shape->PolygonMesh_0;
            &&& done == ((p.form.flags & 1 != 0) != on)
            &&& after.common == e.common
            &&& after.shape is PolygonMesh
            &&& q.vertices == p.vertices
            &&& (q.form.flags & 1 != 0) == on
            &&& q.form.flags | 1 == p.form.flags | 1
            &&& q.form.smooth == p.form.smooth
            &&& q.form.m_density == p.form.m_density
            &&& q.form.n_density == p.form.n_density
            &&& q.form.m_count == p.form.m_count
            &&& q.form.n_count == p.form.n_count
        }),
        ({
            let (after, done) = edited(e, OpModel::SetMeshClosedN(on), c);
            let q = after.shape->PolygonMesh_0;
            &&& done == ((p.form.flags & 32 != 0) != on)
            &&& after.common == e.common
            &&& after.shape is PolygonMesh
            &&& q.vertices == p.vertices
            &&& (q.form.flags & 32 != 0) == on
            &&& q.form.flags | 32 == p.form.flags | 32
            &&& q.form.smooth == p.form.smooth
            &&& q.form.m_density == p.form.m_density
            &&& q.form.n_density == p.form.n_density
            &&& q.form.m_count == p.form.m_count
            &&& q.form.n_count == p.form.n_count
        }),
{
    let f = p.form.flags;
    assert((f | 1) & 1 != 0 && (f | 1) | 1 == f | 1 && (f & !1u16) & 1 == 0 && (f & !1u16) | 1
        == f | 1) by (bit_vector);
    assert((f | 32) & 32 != 0 && (f | 32) | 32 == f | 32 && (f & !32u16) & 32 == 0 && (f
        & !32u16) | 32 == f | 32) by (bit_vector);
}

/// Smoothing a mesh sets the kind of smoothing, and unless that is none, the
/// densities, brought between 2 and 200. Desmoothing keeps them.
pub proof fn mesh_smoothing_is_set(
    e: EntityModel,
    p: crate::entity::MeshModel,
    smooth: Smoothing,
    m_density: i16,
    n_density: i16,
    c: ComputedModel,
)
    requires
        e.shape == ShapeModel::PolygonMesh(p),
    ensures
        ({
            let op = OpModel::SetMeshSmooth { smooth, m_density, n_density };
            let (after, done) = edited(e, op, c);
            let q = after.shape->PolygonMesh_0;
            &&& after.common == e.common
            &&& after.shape is PolygonMesh
            &&& done == (after != e)
            &&& q.vertices == p.vertices
            &&& q.form.smooth == smooth
            &&& q.form.flags == p.form.flags
            &&& q.form.m_count == p.form.m_count
            &&& q.form.n_count == p.form.n_count
            &&& smooth == Smoothing::Plain ==> q.form.m_density == p.form.m_density
                && q.form.n_density == p.form.n_density
            &&& smooth != Smoothing::Plain ==> {
                &&& 2 <= q.form.m_density <= 200
                &&& 2 <= q.form.n_density <= 200
                &&& 2 <= m_density <= 200 ==> q.form.m_density == m_density
                &&& 2 <= n_density <= 200 ==> q.form.n_density == n_density
                &&& m_density < 2 ==> q.form.m_density == 2
                &&& n_density < 2 ==> q.form.n_density == 2
                &&& m_density > 200 ==> q.form.m_density == 200
                &&& n_density > 200 ==> q.form.n_density == 200
            }
        }),
{
}

/// Moving a vertex of a mesh puts it at the point, and is no change where it is
/// there already.
pub proof fn mesh_vertex_is_there(
    e: EntityModel,
    p: crate::entity::MeshModel,
    index: usize,
    point: crate::value::Point3,
    c: ComputedModel,
)
    requires
        e.shape == ShapeModel::PolygonMesh(p),
        index < p.vertices.len(),
        point.finite(),
    ensures
        ({
            let (after, done) = edited(e, OpModel::MoveMeshVertex { index, point }, c);
            let q = after.shape->PolygonMesh_0;
            let i = index as int;
            let there = p.vertices[i].x.equals(point.x) && p.vertices[i].y.equals(point.y)
                && p.vertices[i].z.equals(point.z);
            &&& done == !there
            &&& after.common == e.common
            &&& after.shape is PolygonMesh
            &&& q.form == p.form
            &&& q.vertices.len() == p.vertices.len()
            &&& !there ==> q.vertices[i] == point
            &&& there ==> q.vertices[i] == p.vertices[i]
            &&& forall|k: int|
                0 <= k < p.vertices.len() && k != i ==> #[trigger] q.vertices[k] == p.vertices[k]
        }),
{
}

/// Edits that are not for a family leave its entities alone: a mesh has no width,
/// a polyline no smoothing of a mesh, and a heavy polyline is neither widened,
/// fitted nor decurved.
pub proof fn edits_keep_to_their_family(e: EntityModel, op: OpModel, c: ComputedModel)
    requires
        !(op is Reverse),
        match e.shape {
            ShapeModel::LwPolyline(_) => op is SetMeshClosedM || op is SetMeshClosedN
                || op is SetMeshSmooth || op is MoveMeshVertex || op is ConvertToPolyline
                || op is VertexRange || op is Multiple,
            ShapeModel::Polyline2D(_) => op is SetMeshClosedM || op is SetMeshClosedN
                || op is SetMeshSmooth || op is MoveMeshVertex || op is ConvertToPolyline
                || op is VertexRange || op is Multiple || op is SetWidth || op is Fit
                || op is Spline || op is Decurve,
            ShapeModel::PolygonMesh(_) => !(op is SetMeshClosedM || op is SetMeshClosedN
                || op is SetMeshSmooth || op is MoveMeshVertex),
            _ => true,
        },
    ensures
        edited(e, op, c) == (e, false),
{
}

/// A line or an arc is converted to an open polyline of its two ends that has its
/// properties, its thickness and the plane it lies in, but no handle. The bulge
/// of an arc is on the first vertex; a line has none, and the height of an arc is
/// that of its center.
pub proof fn conversion_keeps_the_curve(e: EntityModel, f: Flattened)
    ensures
        converted(e, None) is None,
        !(e.shape is Line) && !(e.shape is Arc) ==> converted(e, Some(f)) is None,
        e.shape is Line || e.shape is Arc ==> {
            let r = converted(e, Some(f))->0;
            let p = r.shape->LwPolyline_0;
            &&& converted(e, Some(f)) is Some
            &&& r.shape is LwPolyline
            &&& r.common.handle == 0
            &&& r.common.layer == e.common.layer
            &&& r.common.color == e.common.color
            &&& r.common.transparency == e.common.transparency
            &&& r.common.xdata == e.common.xdata
            &&& p.vertices.len() == 2
            &&& p.vertices[0].location == f.start
            &&& p.vertices[1].location == f.end
            &&& p.vertices[1].bulge.bits == 0
            &&& forall|k: int|
                0 <= k < 2 ==> (#[trigger] p.vertices[k]).start_width.bits == 0
                    && p.vertices[k].end_width.bits == 0
            &&& p.form.normal == f.normal
            &&& !p.form.is_closed
            &&& !p.form.plinegen
            &&& p.form.constant_width.bits == 0
        },
        e.shape matches ShapeModel::Line(l) ==> {
            let p = converted(e, Some(f))->0.shape->LwPolyline_0;
            p.vertices[0].bulge.bits == 0 && p.form.thickness == l.thickness && p.form.elevation
                == f.elevation
        },
        e.shape matches ShapeModel::Arc(a) ==> {
            let p = converted(e, Some(f))->0.shape->LwPolyline_0;
            p.vertices[0].bulge == f.bulge && p.form.thickness == a.thickness
                && p.form.elevation == a.center.z
        },
{
}

/// The chord that starts from a corner runs to the next one, and the last corner of a
/// closed polyline is followed by the first. Each chord that gives the direction at a
/// corner begins or ends in this corner. There are two of them, one that ends there
/// and one that begins there, except at the ends of an open polyline.
pub proof fn directions_come_from_chords_at_the_corner(n: int, closed: bool, index: int)
    requires
        n >= 3,
        0 <= index < n,
    ensures
        ({
            let chords = crate::polyline::chords_at(n, closed, index);
            let end = !closed && (index == 0 || index == n - 1);
            &&& 0 <= chords.0 < n
            &&& !closed ==> chords.0 < n - 1
            &&& end <==> chords.1 is None
            &&& !end ==> (chords.0 + 1) % n == index && chords.1 == Some(index)
            &&& end && index == 0 ==> chords.0 == index
            &&& end && index != 0 ==> chords.0 + 1 == index
        }),
{
    if index == 0 {
        assert((n - 1 + 1) % n == 0) by (nonlinear_arith)
            requires
                n >= 3,
        ;
    } else {
        assert(index % n == index) by (nonlinear_arith)
            requires
                0 <= index < n,
        ;
    }
}

} // verus!
