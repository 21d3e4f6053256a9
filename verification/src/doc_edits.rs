//! Changing and reading single entities of an open drawing.
use crate::doc_api::{
    locked_error, not_for, outcome, refusal, refused, ApiError, ErrorModel, Reason, ReasonModel,
    Session, SessionModel,
};
use crate::document::{lemma_entity_from, DocModel};
use crate::entity::{
    views, Attribute, AttributeModel, BoundaryEdge, Dimension, Handle, HatchModel, Insert,
    InsertModel, LwModel, LwPolyline, LwVertex, Shape, ShapeModel, Text, TextModel, Viewport,
};
use crate::text::{owned, same};
use crate::value::{Point2, Point3, Real};
use vstd::prelude::*;

verus! {

/// What a change of one entity does: `change` tells what becomes of its shape.
/// A handle that names nothing and a shape that cannot be changed this way are
/// refused first, then an entity on a locked layer.
pub open spec fn reshaped(
    s: SessionModel,
    id: Handle,
    change: spec_fn(ShapeModel) -> Result<ShapeModel, ErrorModel>,
) -> (SessionModel, Option<ErrorModel>) {
    match s.doc.place(id) {
        None => (s, Some(ErrorModel::UnknownId(id))),
        Some(i) => match change(s.doc.entities[i].shape) {
            Err(e) => (s, Some(e)),
            Ok(shape) => if s.doc.locked_at(i) {
                (s, Some(locked_error(id)))
            } else {
                (s.with_doc(s.doc.with_shape(i, shape)), None)
            },
        },
    }
}

/// A text with other contents.
pub open spec fn retexted(shape: ShapeModel, value: Seq<char>) -> Result<ShapeModel, ErrorModel> {
    match shape {
        ShapeModel::Text(t) => Ok(ShapeModel::Text(TextModel { value, ..t })),
        ShapeModel::MText(t) => Ok(ShapeModel::MText(TextModel { value, ..t })),
        _ => Err(not_for("SetTextContent is only for Text/MText"@)),
    }
}

/// The text of an entity.
pub open spec fn text_of_entity(doc: DocModel, id: Handle) -> Result<Seq<char>, ErrorModel> {
    match doc.place(id) {
        None => Err(ErrorModel::UnknownId(id)),
        Some(i) => match doc.entities[i].shape {
            ShapeModel::Text(t) => Ok(t.value),
            ShapeModel::MText(t) => Ok(t.value),
            _ => Err(not_for("GetTextContent is only for Text/MText"@)),
        },
    }
}

/// The first attribute with a tag, from `from` on.
pub open spec fn attribute_from(list: Seq<AttributeModel>, tag: Seq<char>, from: int) -> Option<int>
    decreases list.len() - from,
{
    if from < 0 || from >= list.len() {
        None
    } else if list[from].tag == tag {
        Some(from)
    } else {
        attribute_from(list, tag, from + 1)
    }
}

/// A block reference with a value under a tag: the first attribute with the tag
/// gets it, or a new attribute where there is none.
pub open spec fn with_attribute(ins: InsertModel, tag: Seq<char>, value: Seq<char>) -> InsertModel {
    match attribute_from(ins.attributes, tag, 0) {
        Some(i) => InsertModel {
            attributes: ins.attributes.update(i, AttributeModel { value, ..ins.attributes[i] }),
            ..ins
        },
        None => InsertModel {
            attributes: ins.attributes.push(
                AttributeModel { tag, value, insertion_point: ins.place.insert_point },
            ),
            ..ins
        },
    }
}

/// A block reference with a value under a tag, or why there is none.
pub open spec fn attributed(shape: ShapeModel, tag: Seq<char>, value: Seq<char>) -> Result<
    ShapeModel,
    ErrorModel,
> {
    match shape {
        ShapeModel::Insert(ins) => Ok(ShapeModel::Insert(with_attribute(ins, tag, value))),
        _ => Err(not_for("SetAttribute is only for Insert entities"@)),
    }
}

/// The attributes of an entity.
pub open spec fn attributes_of(doc: DocModel, id: Handle) -> Result<
    Seq<(Seq<char>, Seq<char>)>,
    ErrorModel,
> {
    match doc.place(id) {
        None => Err(ErrorModel::UnknownId(id)),
        Some(i) => match doc.entities[i].shape {
            ShapeModel::Insert(ins) => Ok(
                Seq::new(
                    ins.attributes.len(),
                    |k: int| (ins.attributes[k].tag, ins.attributes[k].value),
                ),
            ),
            _ => Err(not_for("GetAttributes is only for Insert entities"@)),
        },
    }
}

/// A window with another view, or why there is none.
pub open spec fn reviewed(shape: ShapeModel, view_target: Point3, view_height: Real) -> Result<
    ShapeModel,
    ErrorModel,
> {
    match shape {
        ShapeModel::Viewport(v) => Ok(
            ShapeModel::Viewport(Viewport { view_target, view_height, ..v }),
        ),
        _ => Err(not_for("SetViewportView is only for Viewport"@)),
    }
}

/// The view of a window.
pub open spec fn view_of(doc: DocModel, id: Handle) -> Result<(Point3, Real), ErrorModel> {
    match doc.place(id) {
        None => Err(ErrorModel::UnknownId(id)),
        Some(i) => match doc.entities[i].shape {
            ShapeModel::Viewport(v) => Ok((v.view_target, v.view_height)),
            _ => Err(not_for("GetViewportView is only for Viewport"@)),
        },
    }
}

/// Where a segment begins.
pub open spec fn edge_start(e: BoundaryEdge) -> Point2 {
    match e {
        BoundaryEdge::Line { start, end } => start,
        BoundaryEdge::Curved => Point2 { x: crate::value::zero(), y: crate::value::zero() },
    }
}

/// Whether a loop has segments only.
pub open spec fn straight(path: Seq<BoundaryEdge>) -> bool {
    forall|k: int| 0 <= k < path.len() ==> (#[trigger] path[k]) is Line
}

/// The corners of a loop of segments.
pub open spec fn corners(path: Seq<BoundaryEdge>) -> Seq<Point2> {
    Seq::new(path.len(), |k: int| edge_start(path[k]))
}

/// The corners of the loops of a hatch.
pub open spec fn boundary_of(doc: DocModel, id: Handle) -> Result<Seq<Seq<Point2>>, ErrorModel> {
    match doc.place(id) {
        None => Err(ErrorModel::UnknownId(id)),
        Some(i) => match doc.entities[i].shape {
            ShapeModel::Hatch(h) => if forall|k: int|
                0 <= k < h.paths.len() ==> straight(#[trigger] h.paths[k]) {
                Ok(Seq::new(h.paths.len(), |k: int| corners(h.paths[k])))
            } else {
                Err(not_for("hatch boundary contains non-line edges"@))
            },
            _ => Err(not_for("GetHatchBoundary is only for Hatch"@)),
        },
    }
}

/// The contents of a list of lists of points.
pub open spec fn loops_model(r: Result<Vec<Vec<Point2>>, ApiError>) -> Result<
    Seq<Seq<Point2>>,
    ErrorModel,
> {
    match r {
        Ok(v) => Ok(views(v@)),
        Err(e) => Err(e@),
    }
}

/// What kind of value a dimension measures.
#[derive(Clone, Copy, Debug, PartialEq, Eq, Structural)]
pub enum MeasureKind {
    /// A distance between points.
    Distance,
    /// An angle, in degrees.
    Degrees,
}

/// The kind of value that a dimension measures, where it measures one.
pub open spec fn kind_measured(d: Dimension) -> Option<MeasureKind> {
    match d {
        Dimension::Linear {
            first_point,
            second_point,
            definition_point,
            rotation,
            normal,
        } => Some(MeasureKind::Distance),
        Dimension::Radius { center, point } => Some(MeasureKind::Distance),
        Dimension::Diameter { center, point } => Some(MeasureKind::Distance),
        Dimension::Angular3Pt {
            vertex,
            first_point,
            second_point,
            definition_point,
            normal,
        } => Some(MeasureKind::Degrees),
        Dimension::Angular2Ln {
            first_start,
            first_end,
            second_start,
            second_end,
            dimension_arc,
            normal,
        } => Some(MeasureKind::Degrees),
        Dimension::Further => None,
    }
}

/// The kind of value that an entity measures, or why it measures none.
pub open spec fn measure_kind_of(doc: DocModel, id: Handle) -> Result<MeasureKind, ErrorModel> {
    match doc.place(id) {
        None => Err(ErrorModel::UnknownId(id)),
        Some(i) => match doc.entities[i].shape {
            ShapeModel::Dimension(d) => match kind_measured(d) {
                Some(kind) => Ok(kind),
                None => Err(not_for("dimension measurement for this sub-type"@)),
            },
            _ => Err(not_for("GetDimensionMeasurement is only for Dimension"@)),
        },
    }
}

/// What a dimension measures. `value` is the measure that the geometry side
/// computed for it, of the kind that [`measure_kind_of`] gives.
pub open spec fn measurement_of(doc: DocModel, id: Handle, value: Real) -> Result<
    Real,
    ErrorModel,
> {
    match measure_kind_of(doc, id) {
        Ok(_) => Ok(value),
        Err(e) => Err(e),
    }
}

/// Where a point entity lies.
pub open spec fn position_of(doc: DocModel, id: Handle) -> Result<Point3, ErrorModel> {
    match doc.place(id) {
        None => Err(ErrorModel::UnknownId(id)),
        Some(i) => match doc.entities[i].shape {
            ShapeModel::Point(p) => Ok(p),
            _ => Err(not_for("GetPointPosition is only for Point entities"@)),
        },
    }
}

/// The ends of a line.
pub open spec fn line_of(doc: DocModel, id: Handle) -> Result<(Point3, Point3), ErrorModel> {
    match doc.place(id) {
        None => Err(ErrorModel::UnknownId(id)),
        Some(i) => match doc.entities[i].shape {
            ShapeModel::Line(l) => Ok((l.start, l.end)),
            _ => Err(not_for("GetLineGeometry is only for Line entities"@)),
        },
    }
}

/// A polyline with one more vertex, or why there is none. The vertex must lie at
/// the height of the polyline, and the polyline must stay below the cap.
pub open spec fn vertex_added(shape: ShapeModel, at: usize, point: Point3, cap: usize) -> Result<
    ShapeModel,
    ErrorModel,
> {
    match shape {
        ShapeModel::LwPolyline(pl) => if !point.z.equals(pl.form.elevation) || pl.vertices.len()
            >= cap {
            Err(
                refused(
                    "AddVertex"@,
                    "vertex must share the polyline elevation and fit the item cap"@,
                ),
            )
        } else if at > pl.vertices.len() {
            Err(
                ErrorModel::Validation {
                    op: "AddVertex"@,
                    reason: ReasonModel::OutOfRange { at, count: pl.vertices.len() as usize },
                },
            )
        } else {
            Ok(
                ShapeModel::LwPolyline(
                    LwModel {
                        vertices: pl.vertices.insert(
                            at as int,
                            LwVertex::new(Point2 { x: point.x, y: point.y }),
                        ),
                        ..pl
                    },
                ),
            )
        },
        _ => Err(not_for("AddVertex is only implemented for polylines"@)),
    }
}

/// The contents of a text or of what went wrong.
pub open spec fn text_outcome(r: Result<String, ApiError>) -> Result<Seq<char>, ErrorModel> {
    match r {
        Ok(s) => Ok(s@),
        Err(e) => Err(e@),
    }
}

/// The contents of a list of pairs of texts.
pub open spec fn pairs(v: Seq<(String, String)>) -> Seq<(Seq<char>, Seq<char>)> {
    Seq::new(v.len(), |i: int| (v[i].0@, v[i].1@))
}

/// The contents of a list of attributes or of what went wrong.
pub open spec fn pairs_outcome(r: Result<Vec<(String, String)>, ApiError>) -> Result<
    Seq<(Seq<char>, Seq<char>)>,
    ErrorModel,
> {
    match r {
        Ok(v) => Ok(pairs(v@)),
        Err(e) => Err(e@),
    }
}

fn set_attribute_of(ins: &mut Insert, tag: &str, value: &str)
    ensures
        final(ins)@ == with_attribute(old(ins)@, tag@, value@),
{
    let n: usize = ins.attributes.len();
    let mut i: usize = 0;
    let ghost before = *ins;
    while i < n
        invariant
            i <= n == ins.attributes@.len(),
            *ins == before,
            before == *old(ins),
            attribute_from(before@.attributes, tag@, 0) == attribute_from(
                before@.attributes,
                tag@,
                i as int,
            ),
        decreases n - i,
    {
        proof {
            assert(before@.attributes[i as int] == before.attributes@[i as int]@);
        }
        if same(ins.attributes[i].tag.as_str(), tag) {
            ins.attributes[i].value = owned(value);
            proof {
                assert(ins@.attributes =~= with_attribute(before@, tag@, value@).attributes);
            }
            return;
        }
        i += 1;
    }
    let a = Attribute {
        tag: owned(tag),
        value: owned(value),
        insertion_point: ins.place.insert_point,
    };
    let ghost m = a@;
    ins.attributes.push(a);
    proof {
        assert(views(ins.attributes@) =~= views(before.attributes@).push(m));
    }
}

/// The layer of an entity, by its handle.
pub open spec fn layer_of(doc: DocModel, id: Handle) -> Result<Seq<char>, ErrorModel> {
    match doc.place(id) {
        Some(i) => Ok(doc.entities[i].common.layer),
        None => Err(ErrorModel::UnknownId(id)),
    }
}

impl Session {
    /// Changes what a text says.
    pub fn set_text_content(&mut self, id: Handle, value: &str) -> (r: Result<(), ApiError>)
        ensures
            (final(self)@, refusal(r)) == reshaped(
                old(self)@,
                id,
                |shape: ShapeModel| retexted(shape, value@),
            ),
    {
        let i: usize = match self.document.find(id) {
            None => return Err(ApiError::UnknownId(id)),
            Some(i) => i,
        };
        let ghost before = *self;
        let locked = self.document.is_locked(i);
        proof {
            assert(self@.doc.entities[i as int] == self.document.entities@[i as int]@);
        }
        match &mut self.document.entities[i].shape {
            Shape::Text(t) => {
                if locked {
                    return Err(ApiError::Unsupported(Reason::LockedLayer(id)));
                }
                t.value = owned(value);
            },
            Shape::MText(t) => {
                if locked {
                    return Err(ApiError::Unsupported(Reason::LockedLayer(id)));
                }
                t.value = owned(value);
            },
            _ => {
                return Err(
                    ApiError::Unsupported(Reason::Note("SetTextContent is only for Text/MText")),
                );
            },
        }
        proof {
            let shape = retexted(before@.doc.entities[i as int].shape, value@)->Ok_0;
            assert(self@.doc.entities =~= before@.doc.with_shape(i as int, shape).entities);
        }
        Ok(())
    }

    /// What a text says.
    pub fn text_content(&self, id: Handle) -> (r: Result<String, ApiError>)
        ensures
            text_outcome(r) == text_of_entity(self@.doc, id),
    {
        match self.document.find(id) {
            None => Err(ApiError::UnknownId(id)),
            Some(i) => {
                proof {
                    assert(self@.doc.entities[i as int] == self.document.entities@[i as int]@);
                }
                match &self.document.entities[i].shape {
                    Shape::Text(t) => Ok(t.value.clone()),
                    Shape::MText(t) => Ok(t.value.clone()),
                    _ => Err(
                        ApiError::Unsupported(Reason::Note("GetTextContent is only for Text/MText")),
                    ),
                }
            },
        }
    }

    /// The corners of the boundary of a hatch, loop by loop.
    pub fn hatch_boundary(&self, id: Handle) -> (r: Result<Vec<Vec<Point2>>, ApiError>)
        ensures
            loops_model(r) == boundary_of(self@.doc, id),
    {
        let i: usize = match self.document.find(id) {
            None => return Err(ApiError::UnknownId(id)),
            Some(i) => i,
        };
        proof {
            assert(self@.doc.entities[i as int] == self.document.entities@[i as int]@);
        }
        let h = match &self.document.entities[i].shape {
            Shape::Hatch(h) => h,
            _ => return Err(
                ApiError::Unsupported(Reason::Note("GetHatchBoundary is only for Hatch")),
            ),
        };
        let n: usize = h.paths.len();
        let ghost all = h@.paths;
        let ghost goal = Seq::new(all.len(), |k: int| corners(all[k]));
        let mut loops: Vec<Vec<Point2>> = Vec::new();
        let mut k: usize = 0;
        while k < n
            invariant
                k <= n == h.paths@.len(),
                all == views(h.paths@),
                i < self.document.entities@.len(),
                self@.doc.place(id) == Some(i as int),
                self@.doc.entities[i as int].shape == ShapeModel::Hatch(h@),
                goal == Seq::new(all.len(), |k: int| corners(all[k])),
                forall|j: int| 0 <= j < k ==> straight(#[trigger] all[j]),
                views(loops@) == goal.take(k as int),
            decreases n - k,
        {
            let path = &h.paths[k];
            proof {
                assert(all[k as int] == path@);
            }
            let m: usize = path.edges.len();
            let mut pts: Vec<Point2> = Vec::new();
            let mut j: usize = 0;
            while j < m
                invariant
                    j <= m == path.edges@.len(),
                    k < n == h.paths@.len(),
                    all == views(h.paths@),
                    all[k as int] == path.edges@,
                    self@.doc.place(id) == Some(i as int),
                    self@.doc.entities[i as int].shape == ShapeModel::Hatch(h@),
                    forall|x: int| 0 <= x < j ==> (#[trigger] path.edges@[x]) is Line,
                    pts@ == corners(path.edges@).take(j as int),
                decreases m - j,
            {
                match path.edges[j] {
                    BoundaryEdge::Line { start, end: _ } => {
                        pts.push(start);
                        proof {
                            assert(corners(path.edges@).take(j + 1) =~= corners(path.edges@).take(
                                j as int,
                            ).push(start));
                        }
                    },
                    BoundaryEdge::Curved => {
                        proof {
                            assert(!straight(all[k as int])) by {
                                assert(!(path.edges@[j as int] is Line));
                            }
                        }
                        return Err(
                            ApiError::Unsupported(
                                Reason::Note("hatch boundary contains non-line edges"),
                            ),
                        );
                    },
                }
                j += 1;
            }
            let ghost before = loops@;
            proof {
                assert(corners(path.edges@).take(m as int) =~= corners(path.edges@));
            }
            let ghost p = pts@;
            loops.push(pts);
            proof {
                assert(views(loops@) =~= views(before).push(p));
                assert(goal.take(k + 1) =~= goal.take(k as int).push(p));
            }
            k += 1;
        }
        proof {
            assert(goal.take(n as int) =~= goal);
        }
        Ok(loops)
    }

    /// The kind of value that a dimension measures: a distance, or degrees for
    /// an angle.
    pub fn measure_kind(&self, id: Handle) -> (r: Result<MeasureKind, ApiError>)
        ensures
            outcome(r) == measure_kind_of(self@.doc, id),
    {
        match self.document.find(id) {
            None => Err(ApiError::UnknownId(id)),
            Some(i) => {
                proof {
                    assert(self@.doc.entities[i as int] == self.document.entities@[i as int]@);
                }
                match &self.document.entities[i].shape {
                    Shape::Dimension(d) => match d {
                        Dimension::Linear { .. } | Dimension::Radius { .. }
                        | Dimension::Diameter { .. } => Ok(MeasureKind::Distance),
                        Dimension::Angular3Pt { .. } | Dimension::Angular2Ln { .. } => Ok(
                            MeasureKind::Degrees,
                        ),
                        Dimension::Further => Err(
                            ApiError::Unsupported(
                                Reason::Note("dimension measurement for this sub-type"),
                            ),
                        ),
                    },
                    _ => Err(
                        ApiError::Unsupported(
                            Reason::Note("GetDimensionMeasurement is only for Dimension"),
                        ),
                    ),
                }
            },
        }
    }

    /// What a dimension measures. `value` is what the geometry side computed
    /// for it, of the kind that [`Self::measure_kind`] gives.
    pub fn dimension_measurement(&self, id: Handle, value: Real) -> (r: Result<Real, ApiError>)
        ensures
            outcome(r) == measurement_of(self@.doc, id, value),
    {
        match self.measure_kind(id) {
            Ok(_) => Ok(value),
            Err(e) => Err(e),
        }
    }

    /// Sets the value of a block reference under a tag.
    pub fn set_attribute(&mut self, id: Handle, tag: &str, value: &str) -> (r: Result<(), ApiError>)
        ensures
            (final(self)@, refusal(r)) == reshaped(
                old(self)@,
                id,
                |shape: ShapeModel| attributed(shape, tag@, value@),
            ),
    {
        let i: usize = match self.document.find(id) {
            None => return Err(ApiError::UnknownId(id)),
            Some(i) => i,
        };
        let ghost before = *self;
        let locked = self.document.is_locked(i);
        proof {
            assert(self@.doc.entities[i as int] == self.document.entities@[i as int]@);
        }
        match &mut self.document.entities[i].shape {
            Shape::Insert(ins) => {
                if locked {
                    return Err(ApiError::Unsupported(Reason::LockedLayer(id)));
                }
                set_attribute_of(ins, tag, value);
            },
            _ => {
                return Err(
                    ApiError::Unsupported(Reason::Note("SetAttribute is only for Insert entities")),
                );
            },
        }
        proof {
            let shape = attributed(before@.doc.entities[i as int].shape, tag@, value@)->Ok_0;
            assert(self@.doc.entities =~= before@.doc.with_shape(i as int, shape).entities);
        }
        Ok(())
    }

    /// The tags and values of a block reference.
    pub fn attributes(&self, id: Handle) -> (r: Result<Vec<(String, String)>, ApiError>)
        ensures
            pairs_outcome(r) == attributes_of(self@.doc, id),
    {
        let i: usize = match self.document.find(id) {
            None => return Err(ApiError::UnknownId(id)),
            Some(i) => i,
        };
        proof {
            assert(self@.doc.entities[i as int] == self.document.entities@[i as int]@);
        }
        let ins = match &self.document.entities[i].shape {
            Shape::Insert(ins) => ins,
            _ => return Err(
                ApiError::Unsupported(Reason::Note("GetAttributes is only for Insert entities")),
            ),
        };
        let ghost list = ins@.attributes;
        let ghost goal = Seq::new(list.len(), |k: int| (list[k].tag, list[k].value));
        let n: usize = ins.attributes.len();
        let mut out: Vec<(String, String)> = Vec::new();
        let mut k: usize = 0;
        while k < n
            invariant
                k <= n == ins.attributes@.len(),
                list == views(ins.attributes@),
                goal == Seq::new(list.len(), |k: int| (list[k].tag, list[k].value)),
                pairs(out@) == goal.take(k as int),
            decreases n - k,
        {
            let ghost before = out@;
            let a = &ins.attributes[k];
            out.push((a.tag.clone(), a.value.clone()));
            proof {
                assert(list[k as int] == a@);
                assert(pairs(out@) =~= pairs(before).push((a.tag@, a.value@)));
                assert(goal.take(k + 1) =~= goal.take(k as int).push((a.tag@, a.value@)));
            }
            k += 1;
        }
        proof {
            assert(goal.take(n as int) =~= goal);
        }
        Ok(out)
    }

    /// Turns a window to another view.
    pub fn set_viewport_view(&mut self, id: Handle, view_target: Point3, view_height: Real) -> (r:
        Result<(), ApiError>)
        ensures
            (final(self)@, refusal(r)) == reshaped(
                old(self)@,
                id,
                |shape: ShapeModel| reviewed(shape, view_target, view_height),
            ),
    {
        let i: usize = match self.document.find(id) {
            None => return Err(ApiError::UnknownId(id)),
            Some(i) => i,
        };
        let ghost before = *self;
        let locked = self.document.is_locked(i);
        proof {
            assert(self@.doc.entities[i as int] == self.document.entities@[i as int]@);
        }
        match &mut self.document.entities[i].shape {
            Shape::Viewport(v) => {
                if locked {
                    return Err(ApiError::Unsupported(Reason::LockedLayer(id)));
                }
                v.view_target = view_target;
                v.view_height = view_height;
            },
            _ => {
                return Err(
                    ApiError::Unsupported(Reason::Note("SetViewportView is only for Viewport")),
                );
            },
        }
        proof {
            let shape = reviewed(
                before@.doc.entities[i as int].shape,
                view_target,
                view_height,
            )->Ok_0;
            assert(self@.doc.entities =~= before@.doc.with_shape(i as int, shape).entities);
        }
        Ok(())
    }

    /// The view of a window: where it looks and how high the view is.
    pub fn viewport_view(&self, id: Handle) -> (r: Result<(Point3, Real), ApiError>)
        ensures
            outcome(r) == view_of(self@.doc, id),
    {
        match self.document.find(id) {
            None => Err(ApiError::UnknownId(id)),
            Some(i) => {
                proof {
                    assert(self@.doc.entities[i as int] == self.document.entities@[i as int]@);
                }
                match &self.document.entities[i].shape {
                    Shape::Viewport(v) => Ok((v.view_target, v.view_height)),
                    _ => Err(
                        ApiError::Unsupported(Reason::Note("GetViewportView is only for Viewport")),
                    ),
                }
            },
        }
    }

    /// Where a point entity lies.
    pub fn point_position(&self, id: Handle) -> (r: Result<Point3, ApiError>)
        ensures
            outcome(r) == position_of(self@.doc, id),
    {
        match self.document.find(id) {
            None => Err(ApiError::UnknownId(id)),
            Some(i) => {
                proof {
                    assert(self@.doc.entities[i as int] == self.document.entities@[i as int]@);
                }
                match &self.document.entities[i].shape {
                    Shape::Point(p) => Ok(*p),
                    _ => Err(
                        ApiError::Unsupported(
                            Reason::Note("GetPointPosition is only for Point entities"),
                        ),
                    ),
                }
            },
        }
    }

    /// The ends of a line.
    pub fn line_geometry(&self, id: Handle) -> (r: Result<(Point3, Point3), ApiError>)
        ensures
            outcome(r) == line_of(self@.doc, id),
    {
        match self.document.find(id) {
            None => Err(ApiError::UnknownId(id)),
            Some(i) => {
                proof {
                    assert(self@.doc.entities[i as int] == self.document.entities@[i as int]@);
                }
                match &self.document.entities[i].shape {
                    Shape::Line(l) => Ok((l.start, l.end)),
                    _ => Err(
                        ApiError::Unsupported(
                            Reason::Note("GetLineGeometry is only for Line entities"),
                        ),
                    ),
                }
            },
        }
    }

    /// Puts a vertex into a polyline.
    pub fn add_vertex(&mut self, id: Handle, at: usize, point: Point3) -> (r: Result<(), ApiError>)
        ensures
            (final(self)@, refusal(r)) == reshaped(
                old(self)@,
                id,
                |shape: ShapeModel| vertex_added(shape, at, point, old(self)@.item_cap),
            ),
    {
        let i: usize = match self.document.find(id) {
            None => return Err(ApiError::UnknownId(id)),
            Some(i) => i,
        };
        let ghost before = *self;
        let locked = self.document.is_locked(i);
        let cap: usize = self.item_cap;
        proof {
            assert(self@.doc.entities[i as int] == self.document.entities@[i as int]@);
        }
        match &mut self.document.entities[i].shape {
            Shape::LwPolyline(pl) => {
                let n: usize = pl.vertices.len();
                if !point.z.same_value(&pl.form.elevation) || n >= cap {
                    return Err(
                        ApiError::Validation {
                            op: "AddVertex",
                            reason: Reason::Note(
                                "vertex must share the polyline elevation and fit the item cap",
                            ),
                        },
                    );
                }
                if at > n {
                    return Err(
                        ApiError::Validation {
                            op: "AddVertex",
                            reason: Reason::OutOfRange { at, count: n },
                        },
                    );
                }
                if locked {
                    return Err(ApiError::Unsupported(Reason::LockedLayer(id)));
                }
                pl.vertices.insert(at, LwVertex::new(Point2 { x: point.x, y: point.y }));
            },
            _ => {
                return Err(
                    ApiError::Unsupported(
                        Reason::Note("AddVertex is only implemented for polylines"),
                    ),
                );
            },
        }
        proof {
            let shape = vertex_added(
                before@.doc.entities[i as int].shape,
                at,
                point,
                before@.item_cap,
            )->Ok_0;
            assert(self@.doc.entities =~= before@.doc.with_shape(i as int, shape).entities);
        }
        Ok(())
    }

    /// The layer of an entity.
    pub fn entity_layer(&self, id: Handle) -> (r: Result<String, ApiError>)
        ensures
            text_outcome(r) == layer_of(self@.doc, id),
    {
        match self.document.find(id) {
            None => Err(ApiError::UnknownId(id)),
            Some(i) => {
                proof {
                    assert(self@.doc.entities[i as int] == self.document.entities@[i as int]@);
                }
                Ok(self.document.entities[i].common.layer.clone())
            },
        }
    }
}

/// A change of one entity that is refused leaves the session as it was.
pub proof fn refused_edit_keeps(
    s: SessionModel,
    id: Handle,
    change: spec_fn(ShapeModel) -> Result<ShapeModel, ErrorModel>,
)
    ensures
        reshaped(s, id, change).1 is Some ==> reshaped(s, id, change).0 == s,
{
}

/// A change of one entity changes its shape and nothing else: neither its
/// properties nor any other entity.
pub proof fn edit_changes_one_shape(
    s: SessionModel,
    id: Handle,
    change: spec_fn(ShapeModel) -> Result<ShapeModel, ErrorModel>,
)
    requires
        reshaped(s, id, change).1 is None,
    ensures
        ({
            let after = reshaped(s, id, change).0;
            let i = s.doc.place(id)->0;
            &&& s.doc.place(id) is Some
            &&& forall|h: Handle| #[trigger] after.doc.place(h) == s.doc.place(h)
            &&& after.doc.entities.len() == s.doc.entities.len()
            &&& after.doc.entities[i].common == s.doc.entities[i].common
            &&& change(s.doc.entities[i].shape) == Ok::<ShapeModel, ErrorModel>(
                after.doc.entities[i].shape,
            )
            &&& forall|k: int|
                0 <= k < s.doc.entities.len() && k != i ==> #[trigger] after.doc.entities[k]
                    == s.doc.entities[k]
        }),
{
    let after = reshaped(s, id, change).0;
    let i = s.doc.place(id)->0;
    lemma_entity_from(s.doc.entities, id, 0);
    assert forall|k: int| 0 <= k < s.doc.entities.len() implies (
    #[trigger] after.doc.entities[k]).common == s.doc.entities[k].common by {}
    assert forall|h: Handle| #[trigger] after.doc.place(h) == s.doc.place(h) by {
        lemma_entity_from(s.doc.entities, h, 0);
        lemma_entity_from(after.doc.entities, h, 0);
        if let Some(j) = s.doc.place(h) {
            assert(after.doc.entities[j].common == s.doc.entities[j].common);
        }
        if let Some(j) = after.doc.place(h) {
            assert(after.doc.entities[j].common == s.doc.entities[j].common);
        }
    }
}

/// A text that was changed says what it was made to say.
pub proof fn text_reads_back(s: SessionModel, id: Handle, value: Seq<char>)
    requires
        reshaped(s, id, |shape: ShapeModel| retexted(shape, value)).1 is None,
    ensures
        text_of_entity(
            reshaped(s, id, |shape: ShapeModel| retexted(shape, value)).0.doc,
            id,
        ) == Ok::<Seq<char>, ErrorModel>(value),
{
    edit_changes_one_shape(s, id, |shape: ShapeModel| retexted(shape, value));
}

/// The view that a window was turned to is the one it has.
pub proof fn view_reads_back(s: SessionModel, id: Handle, view_target: Point3, view_height: Real)
    requires
        reshaped(s, id, |shape: ShapeModel| reviewed(shape, view_target, view_height)).1 is None,
    ensures
        view_of(
            reshaped(s, id, |shape: ShapeModel| reviewed(shape, view_target, view_height)).0.doc,
            id,
        ) == Ok::<(Point3, Real), ErrorModel>((view_target, view_height)),
{
    edit_changes_one_shape(
        s,
        id,
        |shape: ShapeModel| reviewed(shape, view_target, view_height),
    );
}

proof fn lemma_attribute_from(list: Seq<AttributeModel>, tag: Seq<char>, from: int)
    requires
        0 <= from <= list.len(),
    ensures
        match attribute_from(list, tag, from) {
            Some(i) => from <= i < list.len() && list[i].tag == tag && forall|k: int|
                from <= k < i ==> (#[trigger] list[k]).tag != tag,
            None => forall|k: int| from <= k < list.len() ==> (#[trigger] list[k]).tag != tag,
        },
    decreases list.len() - from,
{
    if from < list.len() && list[from].tag != tag {
        lemma_attribute_from(list, tag, from + 1);
    }
}

/// A value that was set under a tag is the first one under that tag, and all
/// other values stay.
pub proof fn attribute_reads_back(ins: InsertModel, tag: Seq<char>, value: Seq<char>)
    ensures
        ({
            let list = with_attribute(ins, tag, value).attributes;
            &&& attribute_from(list, tag, 0) is Some
            &&& list[attribute_from(list, tag, 0)->0].value == value
            &&& forall|k: int|
                0 <= k < ins.attributes.len() && k != attribute_from(list, tag, 0)->0
                    ==> #[trigger] list[k] == ins.attributes[k]
            &&& list.len() <= ins.attributes.len() + 1
        }),
{
    let list = with_attribute(ins, tag, value).attributes;
    lemma_attribute_from(ins.attributes, tag, 0);
    lemma_attribute_from(list, tag, 0);
    let p = match attribute_from(ins.attributes, tag, 0) {
        Some(i) => i,
        None => ins.attributes.len() as int,
    };
    assert(list[p].tag == tag);
    let q = attribute_from(list, tag, 0)->0;
    if q < p {
        assert(list[q] == ins.attributes[q]);
    }
}

/// The boundary of a hatch made from corners reads back as those corners.
pub proof fn boundary_reads_back(points: Seq<Point2>)
    ensures
        straight(crate::doc_entities::ring(points)),
        corners(crate::doc_entities::ring(points)) == points,
{
    assert(corners(crate::doc_entities::ring(points)) =~= points);
}

/// A hatch that was just made reads back its boundary, as one loop.
pub proof fn new_hatch_reads_back(doc: DocModel, points: Seq<Point2>)
    requires
        doc.wf(),
        doc.next_handle < u64::MAX,
    ensures
        boundary_of(
            doc.with_new(
                "0"@,
                ShapeModel::Hatch(
                    HatchModel {
                        solid: true,
                        style: crate::entity::HatchStyle::Normal,
                        paths: seq![crate::doc_entities::ring(points)],
                    },
                ),
            ),
            doc.next_handle,
        ) == Ok::<Seq<Seq<Point2>>, ErrorModel>(seq![points]),
{
    let shape = ShapeModel::Hatch(
        HatchModel {
            solid: true,
            style: crate::entity::HatchStyle::Normal,
            paths: seq![crate::doc_entities::ring(points)],
        },
    );
    crate::document::new_entity_is_found(doc, "0"@, shape);
    boundary_reads_back(points);
    let paths = seq![crate::doc_entities::ring(points)];
    assert(Seq::new(paths.len(), |k: int| corners(paths[k])) =~= seq![points]);
}

} // verus!
