//! What the operations on an open drawing leave behind, entity by entity.
use crate::doc_api::{removed, unmodifiable, ErrorModel, ReasonModel, SessionModel};
use crate::doc_edits::{
    attributed, attributes_of, kind_measured, line_of, measurement_of, position_of, reshaped,
    retexted, reviewed, vertex_added, MeasureKind,
};
use crate::doc_entities::{
    angle_added, curve_added, definition_added, diameter_added, hatch_added,
    image_path_failure, insert_added, line_angle_added, linear_added, mtext_added, radius_added,
    table_added, text_added, viewport_added, with_image_added, with_shape_added,
};
use crate::doc_layers::{
    all_layers, entity_relayered, layer_created, layer_deleted, layer_updated,
    looked_up, sorted, sorted_insert,
};
use crate::document::{
    lemma_entity_from, new_entity_is_found, DocModel, LayerInfoModel,
};
use crate::entity::{
    BoundaryEdge, Color, Dimension, Handle, HatchStyle, ImagePlace, LwModel,
    ShapeModel, TextPlace, Transparency, Viewport,
};
use crate::tables::{keyed, lemma_row_from};
use crate::text::{split_on, trimmed};
use crate::text_laws::{only_outer_blanks_go, separators_part, spells};
use crate::value::{Point2, Point3, Real};
use vstd::prelude::*;

verus! {

/// Whether an entity with a shape is found under a handle, on a layer, with the
/// colour and the transparency of the layer and without data.
pub open spec fn plainly_found(
    doc: DocModel,
    handle: Handle,
    layer: Seq<char>,
    shape: ShapeModel,
) -> bool {
    exists|i: int|
        {
            &&& 0 <= i < doc.entities.len()
            &&& doc.place(handle) == Some(i)
            &&& (#[trigger] doc.entities[i]).common.handle == handle
            &&& doc.entities[i].common.layer == layer
            &&& doc.entities[i].common.color == Color::ByLayer
            &&& doc.entities[i].common.transparency == Transparency::ByLayer
            &&& doc.entities[i].common.xdata.len() == 0
            &&& doc.entities[i].shape == shape
        }
}

/// Whether a session has one entity more than another, behind the others and
/// under the next handle, and is the same otherwise.
pub open spec fn one_more(s: SessionModel, t: SessionModel) -> bool {
    &&& t == SessionModel { doc: t.doc, ..s }
    &&& t.doc.entities.len() == s.doc.entities.len() + 1
    &&& t.doc.entities.take(s.doc.entities.len() as int) == s.doc.entities
    &&& t.doc.entities.last().common.handle == s.doc.next_handle
    &&& t.doc.next_handle == s.doc.next_handle + 1
    &&& t.doc.layers == s.doc.layers
    &&& t.doc.looks == s.doc.looks
    &&& t.doc.objects == s.doc.objects
    &&& t.doc.root == s.doc.root
    &&& t.doc.current_layer == s.doc.current_layer
}

proof fn lemma_on_layer(s: SessionModel, layer: Seq<char>, shape: ShapeModel)
    requires
        s.doc.wf(),
        s.doc.next_handle < u64::MAX,
    ensures
        ({
            let t = s.with_doc(s.doc.with_new(layer, shape));
            plainly_found(t.doc, s.doc.next_handle, layer, shape) && one_more(s, t)
        }),
{
    new_entity_is_found(s.doc, layer, shape);
    let after = s.doc.with_new(layer, shape);
    let i = s.doc.entities.len() as int;
    assert(after.entities[i].shape == shape);
    assert(after.entities.take(i) =~= s.doc.entities);
}

proof fn lemma_added(s: SessionModel, shape: ShapeModel)
    requires
        s.doc.wf(),
        s.doc.next_handle < u64::MAX,
    ensures
        ({
            let t = with_shape_added(s, shape);
            plainly_found(t.doc, s.doc.next_handle, "0"@, shape) && one_more(s, t)
        }),
{
    lemma_on_layer(s, "0"@, shape);
}

/// The entity with a handle is the first that has it.
pub proof fn handle_names_the_first(doc: DocModel, handle: Handle, i: int)
    ensures
        doc.place(handle) == Some(i) <==> {
            &&& 0 <= i < doc.entities.len()
            &&& doc.entities[i].common.handle == handle
            &&& forall|k: int| 0 <= k < i ==> (#[trigger] doc.entities[k]).common.handle != handle
        },
        doc.place(handle) is None <==> forall|k: int|
            0 <= k < doc.entities.len() ==> (#[trigger] doc.entities[k]).common.handle != handle,
{
    lemma_entity_from(doc.entities, handle, 0);
    if let Some(j) = doc.place(handle) {
        if 0 <= i < doc.entities.len() && doc.entities[i].common.handle == handle && forall|k: int|
            0 <= k < i ==> (#[trigger] doc.entities[k]).common.handle != handle {
            if j < i {
                assert(doc.entities[j].common.handle != handle);
            }
            if i < j {
                assert(doc.entities[i].common.handle != handle);
            }
        }
        assert(doc.entities[j].common.handle == handle);
    }
}

/// A new block reference is found under the handle that was given out, at the
/// given point and turned by the given angle. On all three axes it has the given
/// scale, unless that is closer to zero than the least scale, one trillionth.
pub proof fn new_insert_stands_as_asked(
    s: SessionModel,
    block_name: Seq<char>,
    insert_point: Point3,
    scale: Real,
    rotation: Real,
)
    requires
        s.doc.wf(),
        s.doc.next_handle < u64::MAX,
        insert_added(s, block_name, insert_point, scale, rotation).1 is Ok,
    ensures
        ({
            let (t, r) = insert_added(s, block_name, insert_point, scale, rotation);
            let id = r->Ok_0;
            let i = t.doc.place(id)->0;
            let e = t.doc.entities[i];
            let at = e.shape->Insert_0.place;
            &&& id == s.doc.next_handle
            &&& one_more(s, t)
            &&& t.doc.place(id) is Some
            &&& 0 <= i < t.doc.entities.len()
            &&& e.common.handle == id
            &&& e.common.layer == "0"@
            &&& e.shape is Insert
            &&& e.shape->Insert_0.block_name == block_name
            &&& e.shape->Insert_0.attributes.len() == 0
            &&& at.insert_point == insert_point
            &&& at.rotation == rotation
            &&& at.normal.x.bits == 0 && at.normal.y.bits == 0 && at.normal.z.bits
                == 0x3FF0_0000_0000_0000
            &&& scale.magnitude() >= 4427486594234968593 ==> at.x_scale == scale && at.y_scale
                == scale && at.z_scale == scale
            &&& scale.magnitude() < 4427486594234968593 ==> at.x_scale.bits
                == 4427486594234968593 && at.y_scale == at.x_scale && at.z_scale == at.x_scale
        }),
{
    let (t, r) = insert_added(s, block_name, insert_point, scale, rotation);
    lemma_added(s, t.doc.entities.last().shape);
}

/// A reference to a block is refused exactly where no block has the name, and
/// changes nothing then.
pub proof fn unknown_blocks_are_not_inserted(
    s: SessionModel,
    block_name: Seq<char>,
    insert_point: Point3,
    scale: Real,
    rotation: Real,
)
    ensures
        ({
            let (t, r) = insert_added(s, block_name, insert_point, scale, rotation);
            let known = exists|k: int|
                0 <= k < s.doc.blocks.len() && (#[trigger] s.doc.blocks[k]).key == keyed(
                    block_name,
                );
            &&& r is Ok <==> known
            &&& !known ==> t == s && r == Err::<Handle, ErrorModel>(
                ErrorModel::Validation {
                    op: "CreateInsert"@,
                    reason: ReasonModel::UnknownBlock(block_name),
                },
            )
        }),
{
    crate::tables::lemma_block_from(s.doc.blocks, keyed(block_name), 0);
}

/// A new text is found under the handle that was given out, with the given
/// contents, place, height and angle. A text of several lines is not turned.
pub proof fn new_texts_say_what_was_asked(
    s: SessionModel,
    value: Seq<char>,
    place: TextPlace,
    at: Point3,
    height: Real,
)
    requires
        s.doc.wf(),
        s.doc.next_handle < u64::MAX,
    ensures
        ({
            let t = text_added(s, value, place);
            let shape = t.doc.entities.last().shape;
            &&& one_more(s, t)
            &&& plainly_found(t.doc, s.doc.next_handle, "0"@, shape)
            &&& shape is Text
            &&& shape->Text_0.value == value
            &&& shape->Text_0.place.insertion_point == place.insertion_point
            &&& shape->Text_0.place.height == place.height
            &&& shape->Text_0.place.rotation == place.rotation
        }),
        ({
            let t = mtext_added(s, value, at, height);
            let shape = t.doc.entities.last().shape;
            &&& one_more(s, t)
            &&& plainly_found(t.doc, s.doc.next_handle, "0"@, shape)
            &&& shape is MText
            &&& shape->MText_0.value == value
            &&& shape->MText_0.place.insertion_point == at
            &&& shape->MText_0.place.height == height
            &&& shape->MText_0.place.rotation.bits == 0
        }),
{
    lemma_added(s, text_added(s, value, place).doc.entities.last().shape);
    lemma_added(s, mtext_added(s, value, at, height).doc.entities.last().shape);
}

/// A new window is found under the handle that was given out, as it was asked
/// for.
pub proof fn new_window_stands_as_asked(s: SessionModel, viewport: Viewport)
    requires
        s.doc.wf(),
        s.doc.next_handle < u64::MAX,
    ensures
        ({
            let t = viewport_added(s, viewport);
            let shape = t.doc.entities.last().shape;
            &&& one_more(s, t)
            &&& plainly_found(t.doc, s.doc.next_handle, "0"@, shape)
            &&& shape is Viewport
            &&& shape->Viewport_0.center == viewport.center
            &&& shape->Viewport_0.width == viewport.width
            &&& shape->Viewport_0.height == viewport.height
            &&& shape->Viewport_0.view_target == viewport.view_target
            &&& shape->Viewport_0.view_height == viewport.view_height
        }),
{
    lemma_added(s, viewport_added(s, viewport).doc.entities.last().shape);
}

/// A new hatch is filled, and has one loop of segments: from each given point to
/// the next, and from the last to the first.
pub proof fn new_hatch_has_a_closed_boundary(s: SessionModel, points: Seq<Point2>, k: int)
    requires
        s.doc.wf(),
        s.doc.next_handle < u64::MAX,
        0 <= k < points.len(),
    ensures
        ({
            let t = hatch_added(s, points);
            let shape = t.doc.entities.last().shape;
            let path = shape->Hatch_0.paths[0];
            &&& one_more(s, t)
            &&& plainly_found(t.doc, s.doc.next_handle, "0"@, shape)
            &&& shape is Hatch
            &&& shape->Hatch_0.solid
            &&& shape->Hatch_0.style == HatchStyle::Normal
            &&& shape->Hatch_0.paths.len() == 1
            &&& path.len() == points.len()
            &&& k + 1 < points.len() ==> path[k] == (BoundaryEdge::Line {
                start: points[k],
                end: points[k + 1],
            })
            &&& k + 1 == points.len() ==> path[k] == (BoundaryEdge::Line {
                start: points[k],
                end: points[0],
            })
        }),
{
    lemma_added(s, hatch_added(s, points).doc.entities.last().shape);
}

/// A new dimension of a distance runs between the two given points in their
/// order, level and through the given definition point.
pub proof fn new_distance_runs_between_points(
    s: SessionModel,
    first: Point3,
    second: Point3,
    definition: Point3,
)
    requires
        s.doc.wf(),
        s.doc.next_handle < u64::MAX,
    ensures
        ({
            let t = linear_added(s, first, second, definition);
            let shape = t.doc.entities.last().shape;
            let d = shape->Dimension_0;
            &&& one_more(s, t)
            &&& plainly_found(t.doc, s.doc.next_handle, "0"@, shape)
            &&& shape is Dimension
            &&& d is Linear
            &&& d->Linear_first_point == first
            &&& d->Linear_second_point == second
            &&& d->Linear_definition_point == definition
            &&& d->rotation.bits == 0
            &&& d->Linear_normal.z.bits == 0x3FF0_0000_0000_0000
        }),
{
    lemma_added(s, linear_added(s, first, second, definition).doc.entities.last().shape);
}

/// New dimensions of a radius and of a diameter have the given center and point.
pub proof fn new_radius_starts_in_the_center(s: SessionModel, center: Point3, point: Point3)
    requires
        s.doc.wf(),
        s.doc.next_handle < u64::MAX,
    ensures
        ({
            let t = radius_added(s, center, point);
            let shape = t.doc.entities.last().shape;
            &&& one_more(s, t)
            &&& plainly_found(t.doc, s.doc.next_handle, "0"@, shape)
            &&& shape is Dimension
            &&& shape->Dimension_0 is Radius
            &&& shape->Dimension_0->Radius_center == center
            &&& shape->Dimension_0->Radius_point == point
        }),
        ({
            let t = diameter_added(s, center, point);
            let shape = t.doc.entities.last().shape;
            &&& one_more(s, t)
            &&& plainly_found(t.doc, s.doc.next_handle, "0"@, shape)
            &&& shape is Dimension
            &&& shape->Dimension_0 is Diameter
            &&& shape->Dimension_0->Diameter_center == center
            &&& shape->Dimension_0->Diameter_point == point
        }),
{
    lemma_added(s, radius_added(s, center, point).doc.entities.last().shape);
    lemma_added(s, diameter_added(s, center, point).doc.entities.last().shape);
}

/// A new dimension of an angle has it at the vertex, between the two points in
/// their order; between two lines, both start in the vertex.
pub proof fn new_angle_is_at_the_vertex(
    s: SessionModel,
    vertex: Point3,
    first: Point3,
    second: Point3,
    arc: Point3,
)
    requires
        s.doc.wf(),
        s.doc.next_handle < u64::MAX,
    ensures
        ({
            let t = angle_added(s, vertex, first, second, arc);
            let shape = t.doc.entities.last().shape;
            let d = shape->Dimension_0;
            &&& one_more(s, t)
            &&& plainly_found(t.doc, s.doc.next_handle, "0"@, shape)
            &&& shape is Dimension
            &&& d is Angular3Pt
            &&& d->vertex == vertex
            &&& d->Angular3Pt_first_point == first
            &&& d->Angular3Pt_second_point == second
            &&& d->Angular3Pt_definition_point == arc
        }),
        ({
            let t = line_angle_added(s, vertex, first, second, arc);
            let shape = t.doc.entities.last().shape;
            let d = shape->Dimension_0;
            &&& one_more(s, t)
            &&& plainly_found(t.doc, s.doc.next_handle, "0"@, shape)
            &&& shape is Dimension
            &&& d is Angular2Ln
            &&& d->first_start == vertex
            &&& d->first_end == first
            &&& d->second_start == vertex
            &&& d->second_end == second
            &&& d->dimension_arc == arc
        }),
{
    lemma_added(s, angle_added(s, vertex, first, second, arc).doc.entities.last().shape);
    lemma_added(s, line_angle_added(s, vertex, first, second, arc).doc.entities.last().shape);
}

/// A new template for attributes has the given tag, prompt, default and place.
pub proof fn new_template_stands_as_asked(
    s: SessionModel,
    tag: Seq<char>,
    prompt: Seq<char>,
    default_value: Seq<char>,
    place: TextPlace,
)
    requires
        s.doc.wf(),
        s.doc.next_handle < u64::MAX,
    ensures
        ({
            let t = definition_added(s, tag, prompt, default_value, place);
            let shape = t.doc.entities.last().shape;
            let d = shape->AttributeDefinition_0;
            &&& one_more(s, t)
            &&& plainly_found(t.doc, s.doc.next_handle, "0"@, shape)
            &&& shape is AttributeDefinition
            &&& d.tag == tag
            &&& d.prompt == prompt
            &&& d.default_value == default_value
            &&& d.place == place
        }),
{
    let t = definition_added(s, tag, prompt, default_value, place);
    lemma_added(s, t.doc.entities.last().shape);
}

/// A new table has a row for each row of the grid, and as many columns as the
/// first row has texts. Each cell holds its text, and cells without one are empty.
pub proof fn new_table_holds_the_grid(
    s: SessionModel,
    at: Point3,
    data: Seq<Seq<Seq<char>>>,
    r: int,
    c: int,
)
    requires
        s.doc.wf(),
        s.doc.next_handle < u64::MAX,
        0 <= r < data.len(),
        0 <= c < data[0].len() <= usize::MAX,
    ensures
        ({
            let t = table_added(s, at, data);
            let shape = t.doc.entities.last().shape;
            let table = shape->Table_0;
            &&& one_more(s, t)
            &&& plainly_found(t.doc, s.doc.next_handle, "0"@, shape)
            &&& shape is Table
            &&& table.insertion_point == at
            &&& table.columns == data[0].len()
            &&& table.rows.len() == data.len()
            &&& table.rows[r].len() == data[0].len()
            &&& c < data[r].len() ==> table.rows[r][c] == data[r][c]
            &&& c >= data[r].len() ==> table.rows[r][c] == ""@
        }),
{
    lemma_added(s, table_added(s, at, data).doc.entities.last().shape);
}

/// A curve goes to the layer that is asked for, or to the layer `0`, as it was
/// made. Where the layer is not there or no curve was made, nothing is added.
pub proof fn new_curve_goes_to_its_layer(
    s: SessionModel,
    name: Seq<char>,
    made: Result<ShapeModel, ErrorModel>,
)
    requires
        s.doc.wf(),
        s.doc.next_handle < u64::MAX,
    ensures
        made is Ok ==> {
            let (t, r) = curve_added(s, None, made);
            &&& r == Ok::<Handle, ErrorModel>(s.doc.next_handle)
            &&& one_more(s, t)
            &&& plainly_found(t.doc, s.doc.next_handle, "0"@, made->Ok_0)
        },
        made is Err ==> curve_added(s, None, made) == (
            s,
            Err::<Handle, ErrorModel>(made->Err_0),
        ),
        ({
            let (t, r) = curve_added(s, Some(name), made);
            let key = keyed(trimmed(name));
            let known = exists|k: int|
                0 <= k < s.doc.layers.len() && (#[trigger] s.doc.layers[k]).key == keyed(key);
            &&& r is Ok <==> trimmed(name).len() > 0 && known && made is Ok
            &&& r is Err ==> t == s
            &&& r is Ok ==> {
                &&& r->Ok_0 == s.doc.next_handle
                &&& one_more(s, t)
                &&& plainly_found(t.doc, s.doc.next_handle, key, made->Ok_0)
            }
            &&& trimmed(name).len() == 0 ==> r == Err::<Handle, ErrorModel>(
                ErrorModel::Validation { op: "CreateCurve"@, reason: ReasonModel::EmptyLayerName },
            )
            &&& trimmed(name).len() > 0 && !known ==> r == Err::<Handle, ErrorModel>(
                ErrorModel::Validation { op: "CreateCurve"@, reason: ReasonModel::NoLayer(name) },
            )
        }),
{
    let key = keyed(trimmed(name));
    lemma_row_from(s.doc.layers, keyed(key), 0);
    if made is Ok {
        lemma_added(s, made->Ok_0);
        lemma_on_layer(s, key, made->Ok_0);
    }
}

/// A line that was added reads back its ends, and a point its position.
pub proof fn new_curves_read_back(s: SessionModel, made: ShapeModel)
    requires
        s.doc.wf(),
        s.doc.next_handle < u64::MAX,
    ensures
        ({
            let t = curve_added(s, None, Ok(made)).0;
            &&& made matches ShapeModel::Line(l) ==> line_of(t.doc, s.doc.next_handle) == Ok::<
                (Point3, Point3),
                ErrorModel,
            >((l.start, l.end))
            &&& made matches ShapeModel::Point(p) ==> position_of(t.doc, s.doc.next_handle)
                == Ok::<Point3, ErrorModel>(p)
            &&& !(made is Line) ==> line_of(t.doc, s.doc.next_handle) is Err
            &&& !(made is Point) ==> position_of(t.doc, s.doc.next_handle) is Err
        }),
{
    lemma_added(s, made);
    new_entity_is_found(s.doc, "0"@, made);
}

proof fn lemma_last_piece(front: Seq<char>, c: char, end: Seq<char>, seps: Seq<char>)
    requires
        seps.contains(c),
        forall|i: int| 0 <= i < end.len() ==> !seps.contains(#[trigger] end[i]),
    ensures
        split_on(front.push(c) + end, seps).len() > 0,
        split_on(front.push(c) + end, seps).last() == end,
    decreases front.len(),
{
    separators_part(end, c, end, seps);
    if forall|i: int| 0 <= i < front.len() ==> !seps.contains(#[trigger] front[i]) {
        separators_part(front, c, end, seps);
        assert(split_on(front.push(c) + end, seps) =~= seq![front, end]);
    } else {
        let i = crate::text::first_of(front, seps);
        lemma_first(front, seps);
        let a = front.take(i);
        let rest = front.skip(i + 1);
        lemma_last_piece(rest, c, end, seps);
        separators_part(a, front[i], rest.push(c) + end, seps);
        assert(a.push(front[i]) + (rest.push(c) + end) =~= front.push(c) + end);
    }
}

proof fn lemma_first(s: Seq<char>, seps: Seq<char>)
    requires
        exists|i: int| 0 <= i < s.len() && seps.contains(#[trigger] s[i]),
    ensures
        0 <= crate::text::first_of(s, seps) < s.len(),
        seps.contains(s[crate::text::first_of(s, seps)]),
        forall|k: int|
            0 <= k < crate::text::first_of(s, seps) ==> !seps.contains(#[trigger] s[k]),
    decreases s.len(),
{
    if !seps.contains(s[0]) {
        let rest = s.drop_first();
        let i = choose|i: int| 0 <= i < s.len() && seps.contains(#[trigger] s[i]);
        assert(rest[i - 1] == s[i]);
        lemma_first(rest, seps);
        assert forall|k: int| 0 <= k < crate::text::first_of(s, seps) implies !seps.contains(
            #[trigger] s[k],
        ) by {
            if k > 0 {
                assert(s[k] == rest[k - 1]);
            }
        }
    }
}

/// Whether a text holds one of the nine endings of image files, in any case.
pub open spec fn ends_an_image(end: Seq<char>) -> bool {
    ||| spells(end, "PNG"@)
    ||| spells(end, "JPG"@)
    ||| spells(end, "JPEG"@)
    ||| spells(end, "BMP"@)
    ||| spells(end, "GIF"@)
    ||| spells(end, "TIF"@)
    ||| spells(end, "TIFF"@)
    ||| spells(end, "WEBP"@)
    ||| spells(end, "TGA"@)
}

proof fn lemma_same_letters(end: Seq<char>, small: Seq<char>, capital: Seq<char>)
    requires
        small.len() == capital.len(),
        forall|i: int|
            0 <= i < small.len() ==> 97 <= (#[trigger] small[i]) as int <= 122
                && capital[i] as int == small[i] as int - 32,
    ensures
        crate::text::same_but_case(end, small) <==> spells(end, capital),
{
    crate::text_laws::capitals_spell(small, capital);
    crate::text_laws::capitals_spell(end, capital);
}

/// A file name without separators is taken for an image exactly where what
/// follows its last full stop is the ending of an image file.
pub proof fn image_names_end_so(stem: Seq<char>, end: Seq<char>)
    requires
        stem.len() > 0,
        end.len() > 0,
        33 <= stem[0] as int <= 126,
        33 <= end.last() as int <= 126,
        forall|i: int|
            0 <= i < stem.len() ==> #[trigger] stem[i] != '/' && stem[i] != '\\',
        forall|i: int|
            0 <= i < end.len() ==> #[trigger] end[i] != '/' && end[i] != '\\' && end[i] != '.',
    ensures
        ({
            let path = stem.push('.') + end;
            &&& image_path_failure(path) is None <==> ends_an_image(end)
            &&& !ends_an_image(end) ==> image_path_failure(path) == Some(
                ErrorModel::Validation {
                    op: "CreateRasterImage"@,
                    reason: ReasonModel::ImageExtension(path),
                },
            )
        }),
{
    let path = stem.push('.') + end;
    let none = Seq::<char>::empty();
    only_outer_blanks_go(none, path, none);
    assert(none + path + none =~= path);
    reveal_strlit("\\\\");
    reveal_strlit("//");
    reveal_strlit("/\\");
    reveal_strlit("..");
    reveal_strlit(".");
    let slashes = "/\\"@;
    assert(slashes[0] == '/' && slashes[1] == '\\');
    assert forall|i: int| 0 <= i < path.len() implies !slashes.contains(#[trigger] path[i]) by {
        if i < stem.len() {
            assert(path[i] == stem[i]);
        } else if i > stem.len() {
            assert(path[i] == end[i - stem.len() - 1]);
        }
    }
    assert(slashes.contains('/'));
    separators_part(path, '/', none, slashes);
    assert(path[0] == stem[0]);
    if crate::text::begins(path, "\\\\"@) {
        assert(path.take(2)[0] == "\\\\"@[0]);
    }
    if crate::text::begins(path, "//"@) {
        assert(path.take(2)[0] == "//"@[0]);
    }
    assert(path.last() == end.last());
    assert(path != ".."@) by {
        if path == ".."@ {
            assert(path[1] == '.');
            assert(path.len() == 2);
        }
    }
    assert(!split_on(path, slashes).contains(".."@)) by {
        if split_on(path, slashes).contains(".."@) {
            let k = choose|k: int|
                0 <= k < split_on(path, slashes).len() && split_on(path, slashes)[k] == ".."@;
            assert(split_on(path, slashes)[k] == path);
        }
    }
    let dot = "."@;
    assert(dot[0] == '.');
    assert(dot.contains('.'));
    assert forall|i: int| 0 <= i < end.len() implies !dot.contains(#[trigger] end[i]) by {}
    lemma_last_piece(stem, '.', end, dot);
    reveal_strlit("png");
    reveal_strlit("PNG");
    reveal_strlit("jpg");
    reveal_strlit("JPG");
    reveal_strlit("jpeg");
    reveal_strlit("JPEG");
    reveal_strlit("bmp");
    reveal_strlit("BMP");
    reveal_strlit("gif");
    reveal_strlit("GIF");
    reveal_strlit("tif");
    reveal_strlit("TIF");
    reveal_strlit("tiff");
    reveal_strlit("TIFF");
    reveal_strlit("webp");
    reveal_strlit("WEBP");
    reveal_strlit("tga");
    reveal_strlit("TGA");
    lemma_same_letters(end, "png"@, "PNG"@);
    lemma_same_letters(end, "jpg"@, "JPG"@);
    lemma_same_letters(end, "jpeg"@, "JPEG"@);
    lemma_same_letters(end, "bmp"@, "BMP"@);
    lemma_same_letters(end, "gif"@, "GIF"@);
    lemma_same_letters(end, "tif"@, "TIF"@);
    lemma_same_letters(end, "tiff"@, "TIFF"@);
    lemma_same_letters(end, "webp"@, "WEBP"@);
    lemma_same_letters(end, "tga"@, "TGA"@);
}

/// Image paths of the network, paths that climb up and empty ones are refused,
/// whatever they end in.
pub proof fn unsafe_image_paths_are_refused(path: Seq<char>, front: Seq<char>, back: Seq<char>)
    ensures
        trimmed(path).len() == 0 ==> image_path_failure(path) is Some,
        trimmed(path).len() >= 2 && trimmed(path)[0] == '/' && trimmed(path)[1] == '/'
            ==> image_path_failure(path) is Some,
        trimmed(path).len() >= 2 && trimmed(path)[0] == '\\' && trimmed(path)[1] == '\\'
            ==> image_path_failure(path) is Some,
        ({
            let slash = seq!['/', '.', '.', '/'];
            trimmed(path) == front + slash + back && (forall|i: int|
                0 <= i < front.len() ==> #[trigger] front[i] != '/' && front[i] != '\\')
                ==> image_path_failure(path) is Some
        }),
{
    let p = trimmed(path);
    reveal_strlit("\\\\");
    reveal_strlit("//");
    reveal_strlit("/\\");
    reveal_strlit("..");
    if p.len() >= 2 {
        assert(p.take(2)[0] == p[0] && p.take(2)[1] == p[1]);
        if p[0] == '/' && p[1] == '/' {
            assert(p.take(2) =~= "//"@);
        }
        if p[0] == '\\' && p[1] == '\\' {
            assert(p.take(2) =~= "\\\\"@);
        }
    }
    let slash = seq!['/', '.', '.', '/'];
    let slashes = "/\\"@;
    assert(slashes[0] == '/' && slashes[1] == '\\');
    assert(slashes.contains('/'));
    if p == front + slash + back && (forall|i: int|
        0 <= i < front.len() ==> #[trigger] front[i] != '/' && front[i] != '\\') {
        assert forall|i: int| 0 <= i < front.len() implies !slashes.contains(
            #[trigger] front[i],
        ) by {}
        let up = seq!['.', '.'];
        let rest = up.push('/') + back;
        separators_part(front, '/', rest, slashes);
        separators_part(up, '/', back, slashes);
        assert(p =~= front.push('/') + rest);
        assert(up =~= ".."@);
        let parts = split_on(p, slashes);
        assert(parts == seq![front] + (seq![up] + split_on(back, slashes)));
        assert(parts[1] == up);
        assert(parts.contains(".."@));
    }
}

/// A new raster image shows the given file at the given place, and names an object
/// of its own that holds the path of the file.
pub proof fn new_image_shows_the_file(s: SessionModel, file_path: Seq<char>, place: ImagePlace)
    requires
        s.doc.wf(),
        s.doc.next_handle < u64::MAX - 1,
    ensures
        ({
            let t = with_image_added(s, file_path, place);
            let shape = t.doc.entities.last().shape;
            let filed = t.doc.objects.last();
            &&& plainly_found(t.doc, s.doc.next_handle, "0"@, shape)
            &&& shape is RasterImage
            &&& shape->RasterImage_0.file_path == file_path
            &&& shape->RasterImage_0.place == place
            &&& shape->RasterImage_0.definition == Some(filed.handle)
            &&& filed.handle == s.doc.next_handle + 1
            &&& filed.object == crate::document::ObjectModel::ImageDefinition(file_path)
            &&& t.doc.objects.len() == s.doc.objects.len() + 1
            &&& t.doc.entities.len() == s.doc.entities.len() + 1
            &&& t.doc.next_handle == s.doc.next_handle + 2
        }),
{
    crate::doc_entities::image_is_defined(s, file_path, place);
    let t = with_image_added(s, file_path, place);
    let i = s.doc.entities.len() as int;
    assert(t.doc.place(s.doc.next_handle) == Some(i));
    assert(t.doc.entities[i].common.handle == s.doc.next_handle);
}

/// Whether the entity at `i` is on a locked layer: the first row with the name of
/// its layer has looks that are locked.
pub open spec fn on_locked_layer(doc: DocModel, i: int) -> bool {
    exists|row: int|
        {
            &&& 0 <= row < doc.layers.len()
            &&& (#[trigger] doc.layers[row]).key == keyed(doc.entities[i].common.layer)
            &&& forall|k: int|
                0 <= k < row ==> (#[trigger] doc.layers[k]).key != keyed(
                    doc.entities[i].common.layer,
                )
            &&& 0 <= doc.layers[row].number < doc.looks.len()
            &&& doc.looks[doc.layers[row].number].style.flags.locked
        }
}

proof fn lemma_locked(doc: DocModel, i: int)
    ensures
        doc.locked_at(i) <==> on_locked_layer(doc, i),
{
    let key = keyed(doc.entities[i].common.layer);
    lemma_row_from(doc.layers, key, 0);
    if let Some(row) = doc.layer_row(doc.entities[i].common.layer) {
        assert(doc.layers[row].key == key);
        if on_locked_layer(doc, i) {
            let r = choose|r: int|
                {
                    &&& 0 <= r < doc.layers.len()
                    &&& (#[trigger] doc.layers[r]).key == key
                    &&& forall|k: int| 0 <= k < r ==> (#[trigger] doc.layers[k]).key != key
                    &&& 0 <= doc.layers[r].number < doc.looks.len()
                    &&& doc.looks[doc.layers[r].number].style.flags.locked
                };
            assert(r == row);
        }
    }
}

/// An entity on a locked layer cannot be changed, removed or put on another
/// layer, and each attempt is answered with that reason and changes nothing. An
/// entity on any other layer can be changed.
pub proof fn locked_entities_stay(
    s: SessionModel,
    id: Handle,
    i: int,
    layer: Seq<char>,
    change: spec_fn(ShapeModel) -> Result<ShapeModel, ErrorModel>,
)
    requires
        s.doc.place(id) == Some(i),
    ensures
        ({
            let e = ErrorModel::Unsupported(ReasonModel::LockedLayer(id));
            &&& on_locked_layer(s.doc, i) ==> {
                &&& unmodifiable(s.doc, id) == Some(e)
                &&& removed(s, id) == (s, Err::<bool, ErrorModel>(e))
                &&& entity_relayered(s.doc, id, layer) == (s.doc, Some(e))
                &&& change(s.doc.entities[i].shape) is Ok ==> reshaped(s, id, change) == (
                    s,
                    Some(e),
                )
            }
            &&& !on_locked_layer(s.doc, i) ==> {
                &&& unmodifiable(s.doc, id) is None
                &&& removed(s, id).1 is Ok
                &&& change(s.doc.entities[i].shape) is Ok ==> reshaped(s, id, change).1 is None
            }
        }),
{
    lemma_locked(s.doc, i);
}

/// A handle that names nothing is answered with that, and nothing changes.
pub proof fn unknown_handles_are_refused(
    s: SessionModel,
    id: Handle,
    layer: Seq<char>,
    change: spec_fn(ShapeModel) -> Result<ShapeModel, ErrorModel>,
)
    requires
        forall|k: int|
            0 <= k < s.doc.entities.len() ==> (#[trigger] s.doc.entities[k]).common.handle != id,
    ensures
        unmodifiable(s.doc, id) == Some(ErrorModel::UnknownId(id)),
        removed(s, id) == (s, Ok::<bool, ErrorModel>(false)),
        entity_relayered(s.doc, id, layer) == (s.doc, Some(ErrorModel::UnknownId(id))),
        reshaped(s, id, change) == (s, Some(ErrorModel::UnknownId(id))),
        line_of(s.doc, id) is Err,
        position_of(s.doc, id) is Err,
        attributes_of(s.doc, id) is Err,
{
    lemma_entity_from(s.doc.entities, id, 0);
}

/// Changing a text changes what it says, and neither its place nor its kind.
pub proof fn text_keeps_its_place(shape: ShapeModel, value: Seq<char>)
    ensures
        shape matches ShapeModel::Text(t) ==> retexted(shape, value) is Ok && {
            let u = retexted(shape, value)->Ok_0;
            u is Text && u->Text_0.value == value && u->Text_0.place == t.place
        },
        shape matches ShapeModel::MText(t) ==> retexted(shape, value) is Ok && {
            let u = retexted(shape, value)->Ok_0;
            u is MText && u->MText_0.value == value && u->MText_0.place == t.place
        },
        !(shape is Text) && !(shape is MText) ==> retexted(shape, value) is Err,
{
}

/// Turning a window to another view keeps its center and its size.
pub proof fn window_keeps_its_size(shape: ShapeModel, target: Point3, height: Real)
    ensures
        shape matches ShapeModel::Viewport(v) ==> reviewed(shape, target, height) is Ok && {
            let u = reviewed(shape, target, height)->Ok_0;
            &&& u is Viewport
            &&& u->Viewport_0.view_target == target
            &&& u->Viewport_0.view_height == height
            &&& u->Viewport_0.center == v.center
            &&& u->Viewport_0.width == v.width
            &&& u->Viewport_0.height == v.height
        },
        !(shape is Viewport) ==> reviewed(shape, target, height) is Err,
{
}

/// A value under a tag goes to the first attribute with the tag; without one, a
/// new attribute at the insertion point of the reference holds it. Nothing else
/// changes.
pub proof fn attribute_holds_the_value(
    shape: ShapeModel,
    tag: Seq<char>,
    value: Seq<char>,
    i: int,
)
    requires
        shape is Insert,
        ({
            let list = shape->Insert_0.attributes;
            &&& 0 <= i <= list.len()
            &&& i < list.len() ==> list[i].tag == tag
            &&& forall|k: int| 0 <= k < i ==> (#[trigger] list[k]).tag != tag
        }),
    ensures
        ({
            let old = shape->Insert_0;
            let new = attributed(shape, tag, value)->Ok_0->Insert_0;
            let n = old.attributes.len();
            &&& attributed(shape, tag, value) is Ok
            &&& attributed(shape, tag, value)->Ok_0 is Insert
            &&& new.block_name == old.block_name
            &&& new.place == old.place
            &&& new.attributes.len() == (if i < n {
                n
            } else {
                n + 1
            })
            &&& new.attributes[i].tag == tag
            &&& new.attributes[i].value == value
            &&& i < n ==> new.attributes[i].insertion_point == old.attributes[i].insertion_point
            &&& i == n ==> new.attributes[i].insertion_point == old.place.insert_point
            &&& forall|k: int|
                0 <= k < n && k != i ==> #[trigger] new.attributes[k] == old.attributes[k]
        }),
{
    lemma_attribute(shape->Insert_0.attributes, tag, 0, i);
}

proof fn lemma_attribute(
    list: Seq<crate::entity::AttributeModel>,
    tag: Seq<char>,
    from: int,
    i: int,
)
    requires
        0 <= from <= i <= list.len(),
        i < list.len() ==> list[i].tag == tag,
        forall|k: int| 0 <= k < i ==> (#[trigger] list[k]).tag != tag,
    ensures
        crate::doc_edits::attribute_from(list, tag, from) == (if i < list.len() {
            Some(i)
        } else {
            None
        }),
    decreases list.len() - from,
{
    if from < i {
        lemma_attribute(list, tag, from + 1, i);
    }
}

/// The attributes of a block reference are listed with their tags and values, in
/// their order.
pub proof fn attributes_are_listed(doc: DocModel, id: Handle, i: int, k: int)
    requires
        doc.place(id) == Some(i),
    ensures
        doc.entities[i].shape matches ShapeModel::Insert(ins) ==> {
            let list = attributes_of(doc, id)->Ok_0;
            &&& attributes_of(doc, id) is Ok
            &&& list.len() == ins.attributes.len()
            &&& 0 <= k < list.len() ==> list[k].0 == ins.attributes[k].tag && list[k].1
                == ins.attributes[k].value
        },
        !(doc.entities[i].shape is Insert) ==> attributes_of(doc, id) is Err,
{
}

/// A new vertex comes at the place that is asked for, plain and at the given
/// point, and the others keep their order. It must lie at the height of the
/// polyline, which must stay within the cap.
pub proof fn new_vertex_comes_at_its_place(
    p: LwModel,
    at: usize,
    point: Point3,
    cap: usize,
    k: int,
)
    requires
        p.vertices.len() <= usize::MAX,
    ensures
        ({
            let r = vertex_added(ShapeModel::LwPolyline(p), at, point, cap);
            let q = r->Ok_0->LwPolyline_0;
            let fits = point.z.equals(p.form.elevation) && p.vertices.len() < cap;
            &&& r is Ok <==> fits && at <= p.vertices.len()
            &&& r is Ok ==> {
                &&& r->Ok_0 is LwPolyline
                &&& q.form == p.form
                &&& q.vertices.len() == p.vertices.len() + 1
                &&& q.vertices[at as int].location.x == point.x
                &&& q.vertices[at as int].location.y == point.y
                &&& q.vertices[at as int].bulge.bits == 0
                &&& q.vertices[at as int].start_width.bits == 0
                &&& q.vertices[at as int].end_width.bits == 0
                &&& 0 <= k < at ==> q.vertices[k] == p.vertices[k]
                &&& at < k < q.vertices.len() ==> q.vertices[k] == p.vertices[k - 1]
            }
            &&& fits && at > p.vertices.len() ==> r == Err::<ShapeModel, ErrorModel>(
                ErrorModel::Validation {
                    op: "AddVertex"@,
                    reason: ReasonModel::OutOfRange { at, count: p.vertices.len() as usize },
                },
            )
        }),
{
}

/// Distances, radii and diameters are measured as distances, angles in degrees,
/// and a measure is handed on as it was computed.
pub proof fn dimensions_measure_their_kind(doc: DocModel, id: Handle, i: int, value: Real)
    requires
        doc.place(id) == Some(i),
    ensures
        doc.entities[i].shape matches ShapeModel::Dimension(d) ==> {
            &&& d is Linear || d is Radius || d is Diameter ==> kind_measured(d) == Some(
                MeasureKind::Distance,
            )
            &&& d is Angular3Pt || d is Angular2Ln ==> kind_measured(d) == Some(
                MeasureKind::Degrees,
            )
            &&& d is Further ==> measurement_of(doc, id, value) is Err
            &&& !(d is Further) ==> measurement_of(doc, id, value) == Ok::<Real, ErrorModel>(value)
        },
        !(doc.entities[i].shape is Dimension) ==> measurement_of(doc, id, value) is Err,
{
}

/// A layer that was made is looked up by its name with the looks it was described
/// with, each of them, under the name without white space around it; the other
/// layers stay.
pub proof fn new_layer_looks_as_described(doc: DocModel, info: LayerInfoModel)
    requires
        doc.layers_wf(),
        doc.next_handle < u64::MAX,
        layer_created(doc, info).1 is None,
    ensures
        ({
            let after = layer_created(doc, info).0;
            let row = after.layers.last();
            let look = after.looks[row.number].style;
            &&& after.layers.len() == doc.layers.len() + 1
            &&& after.layers.take(doc.layers.len() as int) == doc.layers
            &&& after.looks.take(doc.looks.len() as int) == doc.looks
            &&& after.entities == doc.entities
            &&& row.name == trimmed(info.name)
            &&& row.key == keyed(trimmed(info.name))
            &&& 0 <= row.number < after.looks.len()
            &&& after.looks[row.number].handle == doc.next_handle
            &&& after.next_handle == doc.next_handle + 1
            &&& look.flags.frozen == info.flags.frozen
            &&& look.flags.locked == info.flags.locked
            &&& look.flags.off == info.flags.off
            &&& look.flags.frozen_in_new_viewport == info.flags.frozen_in_new_viewport
            &&& look.color == info.color
            &&& look.line_type == info.line_type
            &&& look.line_weight == info.line_weight
            &&& look.plot_style == info.plot_style
            &&& look.is_plottable == info.is_plottable
        }),
{
    let after = layer_created(doc, info).0;
    assert(after.layers.take(doc.layers.len() as int) =~= doc.layers);
    assert(after.looks.take(doc.looks.len() as int) =~= doc.looks);
}

/// A layer that is looked up is the first row with the name, with all of its
/// looks; without such a row, or without a name, it is refused.
pub proof fn layers_are_looked_up(doc: DocModel, name: Seq<char>, row: int)
    requires
        doc.layers_wf(),
        0 <= row < doc.layers.len(),
        doc.layers[row].key == keyed(keyed(trimmed(name))),
    ensures
        trimmed(name).len() > 0 ==> {
            let info = looked_up(doc, name)->Ok_0;
            let look = doc.looks[doc.layers[row].number].style;
            &&& looked_up(doc, name) is Ok
            &&& info.name == doc.layers[row].name
            &&& info.flags.frozen == look.flags.frozen
            &&& info.flags.locked == look.flags.locked
            &&& info.flags.off == look.flags.off
            &&& info.flags.frozen_in_new_viewport == look.flags.frozen_in_new_viewport
            &&& info.color == look.color
            &&& info.line_type == look.line_type
            &&& info.line_weight == look.line_weight
            &&& info.plot_style == look.plot_style
            &&& info.is_plottable == look.is_plottable
        },
        trimmed(name).len() == 0 ==> looked_up(doc, name) is Err,
{
    lemma_row_from(doc.layers, keyed(keyed(trimmed(name))), 0);
    let found = doc.layer_row(keyed(trimmed(name)))->0;
    if found != row {
        assert(doc.layers[found].key != doc.layers[row].key);
    }
}

/// A changed layer has the looks it was described with in the place it had, and
/// the looks of all other layers stay. The names it had and has are reported.
pub proof fn changed_layer_looks_as_described(doc: DocModel, name: Seq<char>, info: LayerInfoModel)
    requires
        doc.layers_wf(),
        layer_updated(doc, name, info).1 is Ok,
    ensures
        ({
            let (after, r) = layer_updated(doc, name, info);
            let i = doc.layer_row(keyed(trimmed(name)))->0;
            let n = doc.layers[i].number;
            let look = after.looks[n].style;
            &&& 0 <= i < doc.layers.len()
            &&& r == Ok::<(Seq<char>, Seq<char>), ErrorModel>(
                (doc.layers[i].name, trimmed(info.name)),
            )
            &&& after.layers.len() == doc.layers.len()
            &&& after.layers[i].number == n
            &&& after.layers[i].name == trimmed(info.name)
            &&& forall|k: int|
                0 <= k < doc.layers.len() && k != i ==> #[trigger] after.layers[k] == doc.layers[k]
            &&& after.looks.len() == doc.looks.len()
            &&& after.looks[n].handle == doc.looks[n].handle
            &&& look.flags == info.flags
            &&& look.color == info.color
            &&& look.line_type == info.line_type
            &&& look.line_weight == info.line_weight
            &&& look.plot_style == info.plot_style
            &&& look.is_plottable == info.is_plottable
            &&& forall|k: int|
                0 <= k < doc.looks.len() && k != n ==> #[trigger] after.looks[k] == doc.looks[k]
            &&& after.entities == doc.entities
            &&& after.next_handle == doc.next_handle
        }),
{
    lemma_row_from(doc.layers, keyed(keyed(trimmed(name))), 0);
    let i = doc.layer_row(keyed(trimmed(name)))->0;
    assert(0 <= doc.layers[i].number < doc.looks.len());
    let after = layer_updated(doc, name, info).0;
    let from = keyed(trimmed(name));
    let to = keyed(trimmed(info.name));
    let moved = if from == to {
        doc.layers
    } else {
        crate::tables::renamed(doc.layers, i, to)
    };
    lemma_row_from(moved, keyed(to), 0);
    lemma_row_from(doc.layers, keyed(to), 0);
    assert(moved[i].key == keyed(to));
    let j = crate::tables::row_at(moved, keyed(to))->0;
    if j < i {
        assert(moved[j] == doc.layers[j]);
        assert(doc.layers[j].key == keyed(to));
    }
    if i < j {
        assert(moved[i].key != keyed(to));
    }
}

/// The layer `0`, the layer that is drawn on and a layer that an entity is on
/// cannot be deleted; any other layer goes, and only it.
pub proof fn deleting_takes_one_layer(doc: DocModel, name: Seq<char>)
    ensures
        ({
            let (after, failure) = layer_deleted(doc, name);
            let norm = keyed(trimmed(name));
            let used = exists|k: int|
                0 <= k < doc.entities.len() && keyed((#[trigger] doc.entities[k]).common.layer)
                    == norm;
            let known = exists|k: int|
                0 <= k < doc.layers.len() && (#[trigger] doc.layers[k]).key == keyed(norm);
            &&& failure is None <==> norm != "0"@ && known && keyed(doc.current_layer) != norm
                && !used
            &&& failure is Some ==> after == doc
            &&& failure is None ==> exists|i: int|
                {
                    &&& 0 <= i < doc.layers.len()
                    &&& (#[trigger] doc.layers[i]).key == keyed(norm)
                    &&& after.layers == doc.layers.remove(i)
                    &&& after == DocModel { layers: after.layers, ..doc }
                }
        }),
{
    lemma_row_from(doc.layers, keyed(keyed(trimmed(name))), 0);
    if layer_deleted(doc, name).1 is None {
        let i = doc.layer_row(keyed(trimmed(name)))->0;
        assert(doc.layers[i].key == keyed(keyed(trimmed(name))));
    }
}

/// An entity that is put on another layer has the name of that layer, and nothing
/// else of it and no other entity changes. A locked layer takes no entity.
pub proof fn only_the_layer_changes(doc: DocModel, id: Handle, layer: Seq<char>, row: int)
    requires
        doc.layers_wf(),
        unmodifiable(doc, id) is None,
        0 <= row < doc.layers.len(),
        doc.layers[row].key == keyed(keyed(trimmed(layer))),
    ensures
        ({
            let (after, failure) = entity_relayered(doc, id, layer);
            let i = doc.place(id)->0;
            let old = doc.entities[i];
            let new = after.entities[i];
            &&& doc.looks[doc.layers[row].number].style.flags.locked ==> after == doc && failure
                == Some(ErrorModel::Unsupported(ReasonModel::LockedTarget { id, layer }))
            &&& !doc.looks[doc.layers[row].number].style.flags.locked ==> {
                &&& failure is None
                &&& after == DocModel { entities: after.entities, ..doc }
                &&& after.entities.len() == doc.entities.len()
                &&& new.common.layer == doc.layers[row].name
                &&& new.common.handle == old.common.handle
                &&& new.common.color == old.common.color
                &&& new.common.transparency == old.common.transparency
                &&& new.common.xdata == old.common.xdata
                &&& new.shape == old.shape
                &&& forall|k: int|
                    0 <= k < doc.entities.len() && k != i ==> #[trigger] after.entities[k]
                        == doc.entities[k]
            }
        }),
{
    lemma_entity_from(doc.entities, id, 0);
    lemma_row_from(doc.layers, keyed(keyed(trimmed(layer))), 0);
    let found = doc.layer_row(keyed(trimmed(layer)))->0;
    if found != row {
        assert(doc.layers[found].key != doc.layers[row].key);
    }
}

proof fn lemma_inserted(list: Seq<LayerInfoModel>, x: LayerInfoModel, y: LayerInfoModel)
    ensures
        sorted_insert(list, x).len() == list.len() + 1,
        sorted_insert(list, x).to_multiset() == list.to_multiset().insert(x),
    decreases list.len(),
{
    broadcast use vstd::seq_lib::group_to_multiset_ensures;

    if list.len() > 0 && crate::text::text_before(x.name, list.last().name) {
        lemma_inserted(list.drop_last(), x, y);
        let inner = sorted_insert(list.drop_last(), x);
        assert(list.drop_last().push(list.last()) =~= list);
        assert(list.to_multiset() =~= list.drop_last().to_multiset().insert(list.last()));
        assert(inner.push(list.last()).to_multiset() =~= inner.to_multiset().insert(
            list.last(),
        ));
    } else {
        assert(list.push(x).to_multiset() =~= list.to_multiset().insert(x));
    }
}

proof fn lemma_sorted(list: Seq<LayerInfoModel>)
    ensures
        sorted(list).len() == list.len(),
        sorted(list).to_multiset() == list.to_multiset(),
    decreases list.len(),
{
    broadcast use vstd::seq_lib::group_to_multiset_ensures;

    if list.len() > 0 {
        lemma_sorted(list.drop_last());
        lemma_inserted(sorted(list.drop_last()), list.last(), list.last());
        assert(list.drop_last().push(list.last()) =~= list);
        assert(list.to_multiset() =~= list.drop_last().to_multiset().insert(list.last()));
    } else {
        assert(sorted(list) =~= list);
    }
}

/// All layers of a drawing are listed, each once, with its name and its looks.
pub proof fn all_layers_are_listed(doc: DocModel, i: int)
    requires
        doc.layers_wf(),
        0 <= i < doc.layers.len(),
    ensures
        sorted(all_layers(doc)).len() == doc.layers.len(),
        sorted(all_layers(doc)).to_multiset() == all_layers(doc).to_multiset(),
        all_layers(doc)[i].name == doc.layers[i].name,
        all_layers(doc)[i].color == doc.looks[doc.layers[i].number].style.color,
        all_layers(doc)[i].flags == doc.looks[doc.layers[i].number].style.flags,
        all_layers(doc)[i].line_type == doc.looks[doc.layers[i].number].style.line_type,
        all_layers(doc)[i].line_weight == doc.looks[doc.layers[i].number].style.line_weight,
        all_layers(doc)[i].plot_style == doc.looks[doc.layers[i].number].style.plot_style,
        all_layers(doc)[i].is_plottable == doc.looks[doc.layers[i].number].style.is_plottable,
{
    lemma_sorted(all_layers(doc));
}

/// The looks of a layer by its name are those of the first row with the name.
pub proof fn looks_are_found_by_name(doc: DocModel, name: Seq<char>, row: int)
    requires
        0 <= row < doc.layers.len(),
        doc.layers[row].key == keyed(name),
        forall|k: int| 0 <= k < row ==> (#[trigger] doc.layers[k]).key != keyed(name),
        0 <= doc.layers[row].number < doc.looks.len(),
    ensures
        doc.looks_by_name(name) == Some(doc.looks[doc.layers[row].number]),
        doc.layer_row(name) == Some(row),
        doc.style_at(row) == doc.looks[doc.layers[row].number].style,
        doc.layer_locked(name) == doc.looks[doc.layers[row].number].style.flags.locked,
{
    lemma_row_from(doc.layers, keyed(name), 0);
    let found = doc.layer_row(name)->0;
    if found < row {
        assert(doc.layers[found].key != keyed(name));
    }
    if row < found {
        assert(doc.layers[row].key != keyed(name));
    }
}

/// The layer of an entity is the one that the first entity with its handle names; an
/// unknown handle is refused by that handle.
pub proof fn layers_are_read_by_handle(doc: DocModel, id: Handle, i: int)
    ensures
        0 <= i < doc.entities.len() && doc.entities[i].common.handle == id && (forall|k: int|
            0 <= k < i ==> (#[trigger] doc.entities[k]).common.handle != id)
            ==> crate::doc_edits::layer_of(doc, id) == Ok::<Seq<char>, ErrorModel>(
            doc.entities[i].common.layer,
        ),
        (forall|k: int|
            0 <= k < doc.entities.len() ==> (#[trigger] doc.entities[k]).common.handle != id)
            ==> crate::doc_edits::layer_of(doc, id) == Err::<Seq<char>, ErrorModel>(
            ErrorModel::UnknownId(id),
        ),
{
    handle_names_the_first(doc, id, i);
}

/// A layer read in is found by its name with the handle and looks that were read. One
/// whose name another layer has changes nothing, so reading twice is reading once.
pub proof fn layers_are_read_in_once(
    doc: DocModel,
    name: Seq<char>,
    handle: Handle,
    style: crate::document::StyleModel,
)
    requires
        doc.layer_row(name) is None,
    ensures
        ({
            let once = crate::document::layer_loaded(doc, name, handle, style);
            &&& once.layer_row(name) is Some
            &&& once.looks_by_name(name) is Some
            &&& once.looks_by_name(name)->0.handle == handle
            &&& once.looks_by_name(name)->0.style == style
            &&& once.layers.len() == doc.layers.len() + 1
            &&& once.layers.last().name == name
            &&& once.entities == doc.entities
            &&& forall|h: Handle, other: crate::document::StyleModel|
                #[trigger] crate::document::layer_loaded(once, name, h, other) == once
        }),
{
    let once = crate::document::layer_loaded(doc, name, handle, style);
    lemma_row_from(doc.layers, keyed(name), 0);
    assert forall|k: int| 0 <= k < doc.layers.len() implies (#[trigger] once.layers[k]).key
        != keyed(name) by {
        assert(once.layers[k] == doc.layers[k]);
    }
    looks_are_found_by_name(once, name, doc.layers.len() as int);
}

/// A block read in holds the entities that were read, and the other blocks hold what
/// they held. One whose name another block has changes nothing.
pub proof fn blocks_are_read_in_once(
    doc: DocModel,
    name: Seq<char>,
    other: Seq<char>,
    entities: Seq<Handle>,
)
    requires
        crate::tables::block_contents(doc.blocks, name) is None,
    ensures
        ({
            let once = crate::document::block_loaded(doc, name, entities);
            &&& crate::tables::block_contents(once.blocks, name) == Some(entities)
            &&& keyed(other) != keyed(name) ==> crate::tables::block_contents(once.blocks, other)
                == crate::tables::block_contents(doc.blocks, other)
            &&& once.entities == doc.entities
            &&& once.layers == doc.layers
            &&& forall|list: Seq<Handle>|
                #[trigger] crate::document::block_loaded(once, name, list) == once
        }),
{
    let once = crate::document::block_loaded(doc, name, entities);
    lemma_block_pushed(doc.blocks, once.blocks.last(), keyed(name), 0);
    lemma_block_pushed(doc.blocks, once.blocks.last(), keyed(other), 0);
}

proof fn lemma_block_pushed(
    rows: Seq<crate::tables::BlockRow>,
    row: crate::tables::BlockRow,
    key: Seq<char>,
    from: int,
)
    requires
        0 <= from <= rows.len(),
    ensures
        crate::tables::block_from(rows.push(row), key, from) == (match crate::tables::block_from(
            rows,
            key,
            from,
        ) {
            Some(i) => Some(i),
            None => if row.key == key {
                Some(rows.len() as int)
            } else {
                None
            },
        }),
        crate::tables::block_from(rows, key, from) is Some ==> 0 <= crate::tables::block_from(
            rows,
            key,
            from,
        )->0 < rows.len(),
    decreases rows.len() - from,
{
    if from < rows.len() {
        assert(rows.push(row)[from] == rows[from]);
        lemma_block_pushed(rows, row, key, from + 1);
    } else {
        assert(rows.push(row)[from] == row);
        reveal_with_fuel(crate::tables::block_from, 2);
    }
}

} // verus!
