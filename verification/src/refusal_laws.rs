//! What a request that cannot be granted is answered.
use crate::doc_api::{ErrorModel, GeometryErrorKind, ReasonModel, SessionModel};
use crate::doc_edits::{
    attributed, attributes_of, boundary_of, line_of, measure_kind_of, position_of, retexted,
    reviewed, text_of_entity, vertex_added, view_of,
};
use crate::doc_entities::image_path_failure;
use crate::doc_layers::{
    entity_relayered, layer_created, layer_deleted, layer_updated, looked_up,
};
use crate::doc_queries::{block_report, bounded, profile_of, weighed, Aabb, FactsModel};
use crate::doc_records::{record_added, record_at, record_set};
use crate::doc_solids::{
    created, lofted, movable, prepared_move, solid_stored, solid_updated, MovedModel,
    NewEntityModel, SolidBody,
};
use crate::document::{DocModel, LayerInfoModel, RecordSpecModel};
use crate::entity::{Dimension, Handle, ShapeModel};
use crate::tables::{keyed, lemma_row_from};
use crate::text::trimmed;
use crate::value::{Point3, Real};
use vstd::prelude::*;

verus! {

/// A refusal of an operation for a reason.
pub open spec fn refuses(op: Seq<char>, reason: ReasonModel) -> ErrorModel {
    ErrorModel::Validation { op, reason }
}

/// A refusal of what an operation is not for.
pub open spec fn unsupported(note: Seq<char>) -> ErrorModel {
    ErrorModel::Unsupported(ReasonModel::Note(note))
}

/// Whether a layer is found by a name, in any row.
pub open spec fn layer_known(doc: DocModel, name: Seq<char>) -> bool {
    exists|k: int|
        0 <= k < doc.layers.len() && (#[trigger] doc.layers[k]).key == keyed(
            keyed(trimmed(name)),
        )
}

/// A layer is looked up by a name that is not empty and that a layer has; else
/// the answer says which of the two it lacks.
pub proof fn lookups_are_refused(doc: DocModel, name: Seq<char>)
    ensures
        looked_up(doc, name) is Ok <==> trimmed(name).len() > 0 && layer_known(doc, name),
        trimmed(name).len() == 0 ==> looked_up(doc, name) == Err::<LayerInfoModel, ErrorModel>(
            refuses("LookupLayer"@, ReasonModel::EmptyLayerName),
        ),
        trimmed(name).len() > 0 && !layer_known(doc, name) ==> looked_up(doc, name) == Err::<
            LayerInfoModel,
            ErrorModel,
        >(refuses("LookupLayer"@, ReasonModel::NoLayer(name))),
{
    lemma_row_from(doc.layers, keyed(keyed(trimmed(name))), 0);
}

/// A layer can be made by a name that is not empty and that no layer has.
pub proof fn new_layers_are_refused(doc: DocModel, info: LayerInfoModel)
    ensures
        trimmed(info.name).len() == 0 ==> layer_created(doc, info) == (
            doc,
            Some(refuses("CreateLayer"@, ReasonModel::EmptyLayerName)),
        ),
        trimmed(info.name).len() > 0 && layer_known(doc, info.name) ==> layer_created(doc, info)
            == (
            doc,
            Some(
                refuses("CreateLayer"@, ReasonModel::LayerExists(keyed(trimmed(info.name)))),
            ),
        ),
        layer_created(doc, info).1 is None ==> trimmed(info.name).len() > 0 && !layer_known(
            doc,
            info.name,
        ),
{
    lemma_row_from(doc.layers, keyed(keyed(trimmed(info.name))), 0);
}

/// A layer can be changed that is there, to a name that is not empty and that no
/// other layer has. It can keep its own name, in any case.
pub proof fn layer_changes_are_refused(doc: DocModel, name: Seq<char>, info: LayerInfoModel)
    ensures
        ({
            let (after, r) = layer_updated(doc, name, info);
            let from = keyed(trimmed(name));
            let to = keyed(trimmed(info.name));
            let taken = from != to && keyed(from) != keyed(to) && layer_known(doc, info.name);
            &&& r is Ok <==> layer_known(doc, name) && to.len() > 0 && !taken
            &&& r is Err ==> after == doc
            &&& !layer_known(doc, name) ==> r == Err::<(Seq<char>, Seq<char>), ErrorModel>(
                refuses("UpdateLayer"@, ReasonModel::NoLayer(name)),
            )
            &&& layer_known(doc, name) && to.len() == 0 ==> r == Err::<
                (Seq<char>, Seq<char>),
                ErrorModel,
            >(refuses("UpdateLayer"@, ReasonModel::EmptyLayerName))
            &&& layer_known(doc, name) && to.len() > 0 && taken ==> r == Err::<
                (Seq<char>, Seq<char>),
                ErrorModel,
            >(refuses("UpdateLayer"@, ReasonModel::EntryExists(to)))
        }),
{
    lemma_row_from(doc.layers, keyed(keyed(trimmed(name))), 0);
    lemma_row_from(doc.layers, keyed(keyed(trimmed(info.name))), 0);
}

/// The answer to a layer that cannot be deleted says why: it is the layer `0`, it
/// is not there, it is drawn on, or entities are on it, in this order.
pub proof fn layer_deletions_are_refused(doc: DocModel, name: Seq<char>)
    ensures
        ({
            let failure = layer_deleted(doc, name).1;
            let norm = keyed(trimmed(name));
            let used = exists|k: int|
                0 <= k < doc.entities.len() && keyed((#[trigger] doc.entities[k]).common.layer)
                    == norm;
            let note = |text: Seq<char>|
                Some(refuses("DeleteLayer"@, ReasonModel::Note(text)));
            &&& norm == "0"@ ==> failure == note("cannot delete layer 0"@)
            &&& norm != "0"@ && !layer_known(doc, name) ==> failure == Some(
                refuses("DeleteLayer"@, ReasonModel::NoLayer(name)),
            )
            &&& norm != "0"@ && layer_known(doc, name) && keyed(doc.current_layer) == norm
                ==> failure == note("cannot delete the current layer"@)
            &&& norm != "0"@ && layer_known(doc, name) && keyed(doc.current_layer) != norm && used
                ==> failure == Some(refuses("DeleteLayer"@, ReasonModel::LayerInUse(name)))
        }),
{
    lemma_row_from(doc.layers, keyed(keyed(trimmed(name))), 0);
}

/// An entity cannot be put on a layer that is not there.
pub proof fn unknown_target_layers_are_refused(doc: DocModel, id: Handle, layer: Seq<char>)
    requires
        crate::doc_api::unmodifiable(doc, id) is None,
        !layer_known(doc, layer),
    ensures
        entity_relayered(doc, id, layer) == (
            doc,
            Some(refuses("SetEntityLayer"@, ReasonModel::NoLayer(layer))),
        ),
{
    lemma_row_from(doc.layers, keyed(keyed(trimmed(layer))), 0);
}

/// What is asked of an entity of another family is answered with the families
/// that it is for.
pub proof fn wrong_families_are_refused(
    doc: DocModel,
    id: Handle,
    i: int,
    text: Seq<char>,
    point: Point3,
    height: Real,
)
    requires
        doc.place(id) == Some(i),
    ensures
        ({
            let shape = doc.entities[i].shape;
            let text_like = shape is Text || shape is MText;
            &&& !text_like ==> retexted(shape, text) == Err::<ShapeModel, ErrorModel>(
                unsupported("SetTextContent is only for Text/MText"@),
            )
            &&& !text_like ==> text_of_entity(doc, id) == Err::<Seq<char>, ErrorModel>(
                unsupported("GetTextContent is only for Text/MText"@),
            )
            &&& !(shape is Insert) ==> attributed(shape, text, text) == Err::<
                ShapeModel,
                ErrorModel,
            >(unsupported("SetAttribute is only for Insert entities"@))
            &&& !(shape is Insert) ==> attributes_of(doc, id) == Err::<
                Seq<(Seq<char>, Seq<char>)>,
                ErrorModel,
            >(unsupported("GetAttributes is only for Insert entities"@))
            &&& !(shape is Viewport) ==> reviewed(shape, point, height) == Err::<
                ShapeModel,
                ErrorModel,
            >(unsupported("SetViewportView is only for Viewport"@))
            &&& !(shape is Viewport) ==> view_of(doc, id) == Err::<(Point3, Real), ErrorModel>(
                unsupported("GetViewportView is only for Viewport"@),
            )
            &&& !(shape is Point) ==> position_of(doc, id) == Err::<Point3, ErrorModel>(
                unsupported("GetPointPosition is only for Point entities"@),
            )
            &&& !(shape is Line) ==> line_of(doc, id) == Err::<(Point3, Point3), ErrorModel>(
                unsupported("GetLineGeometry is only for Line entities"@),
            )
            &&& !(shape is Hatch) ==> boundary_of(doc, id) == Err::<
                Seq<Seq<crate::value::Point2>>,
                ErrorModel,
            >(unsupported("GetHatchBoundary is only for Hatch"@))
            &&& !(shape is Dimension) ==> measure_kind_of(doc, id) == Err::<
                crate::doc_edits::MeasureKind,
                ErrorModel,
            >(unsupported("GetDimensionMeasurement is only for Dimension"@))
            &&& shape == ShapeModel::Dimension(Dimension::Further) ==> measure_kind_of(doc, id)
                == Err::<crate::doc_edits::MeasureKind, ErrorModel>(
                unsupported("dimension measurement for this sub-type"@),
            )
        }),
{
}

/// What is asked of a handle that names nothing is answered with the handle.
pub proof fn unknown_handles_are_named(doc: DocModel, id: Handle)
    requires
        doc.place(id) is None,
    ensures
        text_of_entity(doc, id) == Err::<Seq<char>, ErrorModel>(ErrorModel::UnknownId(id)),
        view_of(doc, id) == Err::<(Point3, Real), ErrorModel>(ErrorModel::UnknownId(id)),
        position_of(doc, id) == Err::<Point3, ErrorModel>(ErrorModel::UnknownId(id)),
        line_of(doc, id) == Err::<(Point3, Point3), ErrorModel>(ErrorModel::UnknownId(id)),
        boundary_of(doc, id) == Err::<Seq<Seq<crate::value::Point2>>, ErrorModel>(
            ErrorModel::UnknownId(id),
        ),
        measure_kind_of(doc, id) == Err::<crate::doc_edits::MeasureKind, ErrorModel>(
            ErrorModel::UnknownId(id),
        ),
        attributes_of(doc, id) == Err::<Seq<(Seq<char>, Seq<char>)>, ErrorModel>(
            ErrorModel::UnknownId(id),
        ),
        profile_of(doc, id, None) == Err::<u64, ErrorModel>(ErrorModel::UnknownId(id)),
{
}

/// A vertex off the height of the polyline or above the cap is refused, and so is
/// one of anything but a polyline.
pub proof fn vertices_are_refused(shape: ShapeModel, at: usize, point: Point3, cap: usize)
    ensures
        !(shape is LwPolyline) ==> vertex_added(shape, at, point, cap) == Err::<
            ShapeModel,
            ErrorModel,
        >(unsupported("AddVertex is only implemented for polylines"@)),
        shape matches ShapeModel::LwPolyline(p) ==> (!point.z.equals(p.form.elevation)
            || p.vertices.len() >= cap ==> vertex_added(shape, at, point, cap) == Err::<
            ShapeModel,
            ErrorModel,
        >(
            refuses(
                "AddVertex"@,
                ReasonModel::Note(
                    "vertex must share the polyline elevation and fit the item cap"@,
                ),
            ),
        )),
{
}

/// The answer to an image path that is refused says whether it is empty or of the
/// network.
pub proof fn image_paths_are_refused(path: Seq<char>)
    ensures
        trimmed(path).len() == 0 ==> image_path_failure(path) == Some(
            refuses("CreateRasterImage"@, ReasonModel::Note("empty image file path"@)),
        ),
        trimmed(path).len() >= 2 && (trimmed(path)[0] == '/' && trimmed(path)[1] == '/'
            || trimmed(path)[0] == '\\' && trimmed(path)[1] == '\\') ==> image_path_failure(path)
            == Some(unsupported("network/UNC image paths are not allowed"@)),
        image_path_failure(path) matches Some(ErrorModel::Unsupported(reason)) ==> reason
            == ReasonModel::Note("network/UNC image paths are not allowed"@) || reason
            == ReasonModel::Note("parent-traversal ('..') in image path is not allowed"@),
{
    let p = trimmed(path);
    reveal_strlit("\\\\");
    reveal_strlit("//");
    if p.len() >= 2 {
        assert(p.take(2)[0] == p[0] && p.take(2)[1] == p[1]);
        if p[0] == '/' && p[1] == '/' {
            assert(p.take(2) =~= "//"@);
        }
        if p[0] == '\\' && p[1] == '\\' {
            assert(p.take(2) =~= "\\\\"@);
        }
    }
}

/// A body that cannot be shown or stored is answered with which of the two failed.
pub proof fn bodies_are_refused(s: SessionModel, b: SolidBody)
    ensures
        !b.display ==> solid_stored(s, b) == (
            s,
            Err::<Handle, ErrorModel>(
                ErrorModel::Geometry {
                    kind: GeometryErrorKind::Other,
                    message: "solid display preparation failed"@,
                },
            ),
        ),
        b.display && b.stored is None ==> solid_stored(s, b) == (
            s,
            Err::<Handle, ErrorModel>(
                ErrorModel::Geometry {
                    kind: GeometryErrorKind::Acis,
                    message: "solid serialization failed"@,
                },
            ),
        ),
        lofted(s, None) == (
            s,
            Err::<Handle, ErrorModel>(
                ErrorModel::Geometry {
                    kind: GeometryErrorKind::InvalidInput,
                    message: "loft failed"@,
                },
            ),
        ),
{
}

/// Another body is refused for a handle that names no solid, and on a locked layer.
pub proof fn solid_updates_are_refused(s: SessionModel, id: Handle, b: SolidBody)
    ensures
        s.doc.place(id) is None ==> solid_updated(s, id, b) == (
            s,
            Some(ErrorModel::UnknownId(id)),
        ),
        s.doc.place(id) matches Some(i) ==> {
            &&& s.doc.locked_at(i) ==> solid_updated(s, id, b) == (
                s,
                Some(ErrorModel::Unsupported(ReasonModel::LockedLayer(id))),
            )
            &&& !s.doc.locked_at(i) && !(s.doc.entities[i].shape is Solid3D) ==> solid_updated(
                s,
                id,
                b,
            ) == (s, Some(ErrorModel::UnknownId(id)))
        },
{
}

/// The answer to a move that cannot be made says why: the handle names nothing,
/// the family cannot be moved, the layer is locked, the body of a solid is gone,
/// or the geometry failed.
pub proof fn moves_are_refused(
    doc: DocModel,
    bodies: Map<Handle, u64>,
    id: Handle,
    moved: MovedModel,
)
    ensures
        ({
            let r = prepared_move(doc, bodies, id, moved).1;
            let e = r->Err_0;
            &&& doc.place(id) is None ==> r is Err && e == ErrorModel::UnknownId(id)
            &&& doc.place(id) matches Some(i) ==> {
                let shape = doc.entities[i].shape;
                &&& !movable(shape) ==> r is Err && e == unsupported(
                    "transform is not supported for this entity family"@,
                )
                &&& movable(shape) && doc.locked_at(i) ==> r is Err && e
                    == ErrorModel::Unsupported(ReasonModel::LockedLayer(id))
                &&& shape is Solid3D && !doc.locked_at(i) && !bodies.contains_key(id)
                    && moved.lifted is None ==> r is Err && e == ErrorModel::UnknownId(id)
                &&& shape is Solid3D && !doc.locked_at(i) && (bodies.contains_key(id)
                    || moved.lifted is Some) && moved.solid is None ==> r is Err && e == (
                ErrorModel::Geometry {
                    kind: GeometryErrorKind::InvalidInput,
                    message: "transform failed"@,
                })
                &&& movable(shape) && !(shape is Solid3D) && !doc.locked_at(i)
                    && moved.shape is Err ==> r is Err && e == moved.shape->Err_0
            }
        }),
{
}

/// One new entity on a layer that is not there refuses all, with the reason of the
/// first such layer.
pub proof fn creations_are_refused(s: SessionModel, list: Seq<NewEntityModel>, name: Seq<char>)
    requires
        list.len() > 0,
        list[0].layer == Some(name),
        !layer_known(s.doc, name),
    ensures
        trimmed(name).len() > 0 ==> created(s, list) == (
            s,
            Err::<Seq<Handle>, ErrorModel>(refuses("CreateMany"@, ReasonModel::NoLayer(name))),
        ),
        trimmed(name).len() == 0 ==> created(s, list) == (
            s,
            Err::<Seq<Handle>, ErrorModel>(refuses("CreateMany"@, ReasonModel::EmptyLayerName)),
        ),
{
    lemma_row_from(s.doc.layers, keyed(keyed(trimmed(name))), 0);
}

/// A body without a box and a solid without a volume are answered as empty, and
/// the thirty-third solid in a request as too many.
pub proof fn measures_are_refused(
    s: SessionModel,
    id: Handle,
    i: int,
    lifted: Option<u64>,
    entity: Result<Aabb, ErrorModel>,
)
    requires
        s.doc.place(id) == Some(i),
        s.doc.entities[i].shape is Solid3D,
        s.bodies.contains_key(id),
    ensures
        bounded(s, id, lifted, None, entity).1 == Err::<Aabb, ErrorModel>(
            ErrorModel::Geometry { kind: GeometryErrorKind::Empty, message: "no bounds"@ },
        ),
        !(s.masses.contains_key(id) && s.masses[id].epoch == s.epoch) ==> {
            let r = weighed(s, id, lifted, None).1;
            &&& s.measured < 32 ==> r == Err::<(Real, Point3), ErrorModel>(
                ErrorModel::Geometry {
                    kind: GeometryErrorKind::Empty,
                    message: "solid has no measurable volume"@,
                },
            )
            &&& s.measured >= 32 ==> r == Err::<(Real, Point3), ErrorModel>(
                refuses(
                    "mass properties"@,
                    ReasonModel::Note("request exceeds 32 uncached solid queries"@),
                ),
            )
        },
{
}

/// A block that is not there is answered with its name, and an entity that is no
/// profile as such.
pub proof fn queries_are_refused(
    doc: DocModel,
    name: Seq<char>,
    facts: Seq<FactsModel>,
    id: Handle,
)
    ensures
        (forall|k: int|
            0 <= k < doc.blocks.len() ==> (#[trigger] doc.blocks[k]).key != keyed(name))
            ==> block_report(doc, name, facts) == Err::<
            Seq<crate::doc_queries::EntityViewModel>,
            ErrorModel,
        >(refuses("GetBlockEntities"@, ReasonModel::UnknownBlock(name))),
        doc.place(id) is Some ==> profile_of(doc, id, None) == Err::<u64, ErrorModel>(
            unsupported("entity is not a planar profile"@),
        ),
{
    crate::tables::lemma_block_from(doc.blocks, keyed(name), 0);
}

/// A record is refused by a name that its dictionary has, and changes to what is
/// no record are answered with the handle.
pub proof fn records_are_refused(doc: DocModel, id: Handle, spec: RecordSpecModel)
    ensures
        record_added(doc, spec).1 matches Err(e) ==> e == refuses(
            "CreateXRecord"@,
            ReasonModel::RecordExists(spec.name),
        ),
        doc.object_place(id) is None ==> record_set(doc, id, spec) == (
            doc,
            Some(refuses("SetXRecord"@, ReasonModel::UnknownObject(id))),
        ),
        doc.object_place(id) is Some && record_at(doc, id) is None ==> record_set(doc, id, spec)
            == (doc, Some(ErrorModel::Unsupported(ReasonModel::NotARecord(id)))),
        record_at(doc, id) is Some ==> (record_set(doc, id, spec).1 matches Some(e) ==> e
            == refuses("SetXRecord"@, ReasonModel::RecordExists(spec.name))),
{
}

} // verus!
