//! Making, changing and reading the entities of an open drawing.
use crate::doc_api::{
    lookup_failure, not_for, outcome, prepared_name, refusal, refused, ApiError, ErrorModel,
    Reason, ReasonModel, Session, SessionModel,
};
use crate::document::{
    lemma_object_from, new_entity_is_found, DocModel, FiledModel, Object, ObjectModel,
};
use crate::entity::{
    views, AttributeDefinition, AttributeDefinitionModel, AttributeModel, BoundaryEdge,
    BoundaryPath, Dimension, Handle, Hatch, HatchModel, HatchStyle, ImagePlace, Insert,
    InsertModel, InsertPlace, RasterImage, RasterImageModel, Shape, ShapeModel, Table,
    TableModel, TableRow, Text, TextModel, TextPlace, Viewport,
};
use crate::tables::{block_contents, block_get, keyed};
use crate::text::{
    after_prefix, begins, equal_but_case, owned, same, same_but_case, split, split_on, texts,
    trim, trimmed,
};
use crate::value::{upward, zero, Point2, Point3, Real};
use vstd::prelude::*;

verus! {

/// The session with one more entity on the layer `0`.
pub open spec fn with_shape_added(s: SessionModel, shape: ShapeModel) -> SessionModel {
    s.with_doc(s.doc.with_new("0"@, shape))
}

/// The session with one more raster image, and behind it the object that defines
/// the image, each under a handle of its own.
pub open spec fn with_image_added(
    s: SessionModel,
    file_path: Seq<char>,
    place: ImagePlace,
) -> SessionModel {
    let definition = (s.doc.next_handle + 1) as Handle;
    let t = with_shape_added(
        s,
        ShapeModel::RasterImage(
            RasterImageModel { file_path, place, definition: Some(definition) },
        ),
    );
    t.with_doc(
        DocModel {
            next_handle: (s.doc.next_handle + 2) as Handle,
            ..t.doc.with_object(definition, ObjectModel::ImageDefinition(file_path))
        },
    )
}

/// The contents of a made shape or of what went wrong.
pub open spec fn made_model(r: Result<Shape, ApiError>) -> Result<ShapeModel, ErrorModel> {
    match r {
        Ok(s) => Ok(s@),
        Err(e) => Err(e@),
    }
}

/// What adding a curve on a layer does. `made` is the curve as the geometry side
/// made it.
pub open spec fn curve_added(
    s: SessionModel,
    layer: Option<Seq<char>>,
    made: Result<ShapeModel, ErrorModel>,
) -> (SessionModel, Result<Handle, ErrorModel>) {
    match layer {
        Some(name) => match lookup_failure(s.doc, name) {
            Some(reason) => (s, Err(ErrorModel::Validation { op: "CreateCurve"@, reason })),
            None => match made {
                Err(e) => (s, Err(e)),
                Ok(shape) => (
                    s.with_doc(s.doc.with_new(keyed(trimmed(name)), shape)),
                    Ok(s.doc.next_handle),
                ),
            },
        },
        None => match made {
            Err(e) => (s, Err(e)),
            Ok(shape) => (with_shape_added(s, shape), Ok(s.doc.next_handle)),
        },
    }
}

/// The least scale of a block reference: one trillionth.
pub const LEAST_SCALE: u64 = 4427486594234968593;

/// A scale as a block reference takes it: one too close to zero becomes the
/// least scale.
pub open spec fn taken_scale(v: Real) -> Real {
    if v.magnitude() < LEAST_SCALE {
        Real { bits: LEAST_SCALE }
    } else {
        v
    }
}

fn take_scale(v: Real) -> (r: Real)
    ensures
        r == taken_scale(v),
{
    if v.size() < LEAST_SCALE {
        Real { bits: LEAST_SCALE }
    } else {
        v
    }
}

/// What adding a block reference does.
pub open spec fn insert_added(
    s: SessionModel,
    block_name: Seq<char>,
    insert_point: Point3,
    scale: Real,
    rotation: Real,
) -> (SessionModel, Result<Handle, ErrorModel>) {
    if block_contents(s.doc.blocks, block_name) is None {
        (
            s,
            Err(
                ErrorModel::Validation {
                    op: "CreateInsert"@,
                    reason: ReasonModel::UnknownBlock(block_name),
                },
            ),
        )
    } else {
        let k = taken_scale(scale);
        (
            with_shape_added(
                s,
                ShapeModel::Insert(
                    InsertModel {
                        block_name,
                        place: InsertPlace {
                            insert_point,
                            x_scale: k,
                            y_scale: k,
                            z_scale: k,
                            rotation,
                            normal: upward(),
                        },
                        attributes: Seq::empty(),
                    },
                ),
            ),
            Ok(s.doc.next_handle),
        )
    }
}

/// The closed chain of segments through points.
pub open spec fn ring(points: Seq<Point2>) -> Seq<BoundaryEdge> {
    Seq::new(
        points.len(),
        |i: int|
            BoundaryEdge::Line {
                start: points[i],
                end: points[if i + 1 < points.len() {
                    i + 1
                } else {
                    0
                }],
            },
    )
}

fn make_ring(points: &Vec<Point2>) -> (r: BoundaryPath)
    ensures
        r@ == ring(points@),
{
    let n: usize = points.len();
    let mut edges: Vec<BoundaryEdge> = Vec::new();
    let mut i: usize = 0;
    while i < n
        invariant
            i <= n == points@.len(),
            edges@ == ring(points@).take(i as int),
        decreases n - i,
    {
        let next: usize = if n - i > 1 {
            i + 1
        } else {
            0
        };
        edges.push(BoundaryEdge::Line { start: points[i], end: points[next] });
        proof {
            assert(ring(points@).take(i + 1) =~= ring(points@).take(i as int).push(
                ring(points@)[i as int],
            ));
        }
        i += 1;
    }
    proof {
        assert(ring(points@).take(n as int) =~= ring(points@));
    }
    BoundaryPath { edges }
}

/// The texts of a grid.
pub open spec fn grid(data: Seq<Vec<String>>) -> Seq<Seq<Seq<char>>> {
    Seq::new(data.len(), |i: int| texts(data[i]@))
}

/// A row of a table with `columns` cells: the given texts, as far as there are
/// cells for them, and empty cells behind them.
pub open spec fn fitted(row: Seq<Seq<char>>, columns: int) -> Seq<Seq<char>> {
    Seq::new(
        columns as nat,
        |c: int|
            if c < row.len() {
                row[c]
            } else {
                ""@
            },
    )
}

/// The number of cells in the first row of a grid.
pub open spec fn grid_columns(data: Seq<Seq<Seq<char>>>) -> int {
    if data.len() == 0 {
        0
    } else {
        data[0].len() as int
    }
}

fn fit_row(row: &Vec<String>, columns: usize) -> (r: TableRow)
    ensures
        r@ == fitted(texts(row@), columns as int),
{
    let mut cells: Vec<String> = Vec::new();
    let mut c: usize = 0;
    while c < columns
        invariant
            c <= columns,
            views(cells@) == fitted(texts(row@), columns as int).take(c as int),
        decreases columns - c,
    {
        let ghost before = cells@;
        let text = if c < row.len() {
            row[c].clone()
        } else {
            owned("")
        };
        let ghost t = text@;
        cells.push(text);
        proof {
            assert(views(cells@) =~= views(before).push(t));
            assert(fitted(texts(row@), columns as int).take(c + 1) =~= fitted(
                texts(row@),
                columns as int,
            ).take(c as int).push(t));
        }
        c += 1;
    }
    proof {
        assert(fitted(texts(row@), columns as int).take(columns as int) =~= fitted(
            texts(row@),
            columns as int,
        ));
    }
    TableRow { cells }
}

/// The table that a grid makes.
pub open spec fn table_of(insertion_point: Point3, data: Seq<Seq<Seq<char>>>) -> TableModel {
    TableModel {
        insertion_point,
        columns: grid_columns(data) as usize,
        rows: Seq::new(data.len(), |r: int| fitted(data[r], grid_columns(data))),
    }
}

/// Why an image path is refused. Only the ends of files that hold images are
/// taken, and neither paths of the network nor ones that climb up.
pub open spec fn image_path_failure(path: Seq<char>) -> Option<ErrorModel> {
    let p = trimmed(path);
    if p.len() == 0 {
        Some(refused("CreateRasterImage"@, "empty image file path"@))
    } else if begins(p, "\\\\"@) || begins(p, "//"@) {
        Some(not_for("network/UNC image paths are not allowed"@))
    } else if split_on(p, "/\\"@).contains(".."@) {
        Some(not_for("parent-traversal ('..') in image path is not allowed"@))
    } else if !image_ending(split_on(p, "."@).last()) {
        Some(
            ErrorModel::Validation {
                op: "CreateRasterImage"@,
                reason: ReasonModel::ImageExtension(path),
            },
        )
    } else {
        None
    }
}

/// Whether files with this ending hold images.
pub open spec fn image_ending(end: Seq<char>) -> bool {
    ||| same_but_case(end, "png"@)
    ||| same_but_case(end, "jpg"@)
    ||| same_but_case(end, "jpeg"@)
    ||| same_but_case(end, "bmp"@)
    ||| same_but_case(end, "gif"@)
    ||| same_but_case(end, "tif"@)
    ||| same_but_case(end, "tiff"@)
    ||| same_but_case(end, "webp"@)
    ||| same_but_case(end, "tga"@)
}

fn is_image_ending(end: &str) -> (r: bool)
    ensures
        r == image_ending(end@),
{
    equal_but_case(end, "png") || equal_but_case(end, "jpg") || equal_but_case(end, "jpeg")
        || equal_but_case(end, "bmp") || equal_but_case(end, "gif") || equal_but_case(end, "tif")
        || equal_but_case(end, "tiff") || equal_but_case(end, "webp") || equal_but_case(end, "tga")
}

/// Checks the path of an image before it goes into a drawing.
pub fn validate_image_path(path: &str) -> (r: Result<(), ApiError>)
    ensures
        refusal(r) == image_path_failure(path@),
{
    let p = trim(path);
    if p.as_str().is_empty() {
        return Err(
            ApiError::Validation {
                op: "CreateRasterImage",
                reason: Reason::Note("empty image file path"),
            },
        );
    }
    if after_prefix(p.as_str(), "\\\\").is_some() || after_prefix(p.as_str(), "//").is_some() {
        return Err(
            ApiError::Unsupported(Reason::Note("network/UNC image paths are not allowed")),
        );
    }
    let parts = split(p.as_str(), "/\\");
    let n: usize = parts.len();
    let mut i: usize = 0;
    while i < n
        invariant
            i <= n == parts@.len(),
            forall|k: int| 0 <= k < i ==> #[trigger] parts@[k]@ != ".."@,
            texts(parts@) == split_on(p@, "/\\"@),
            p@ == trimmed(path@),
            p@.len() > 0,
            !begins(p@, "\\\\"@),
            !begins(p@, "//"@),
        decreases n - i,
    {
        if same(parts[i].as_str(), "..") {
            proof {
                assert(texts(parts@)[i as int] == ".."@);
            }
            return Err(
                ApiError::Unsupported(
                    Reason::Note("parent-traversal ('..') in image path is not allowed"),
                ),
            );
        }
        i += 1;
    }
    proof {
        if texts(parts@).contains(".."@) {
            let k = texts(parts@).index_of(".."@);
            assert(parts@[k]@ == ".."@);
        }
    }
    let pieces = split(p.as_str(), ".");
    let m: usize = pieces.len();
    proof {
        assert(texts(pieces@).len() > 0);
        assert(texts(pieces@).last() == pieces@[m - 1]@);
    }
    if !is_image_ending(pieces[m - 1].as_str()) {
        return Err(
            ApiError::Validation {
                op: "CreateRasterImage",
                reason: Reason::ImageExtension(owned(path)),
            },
        );
    }
    Ok(())
}

/// What adding a window onto the model does.
pub open spec fn viewport_added(s: SessionModel, viewport: Viewport) -> SessionModel {
    with_shape_added(s, ShapeModel::Viewport(viewport))
}

/// What adding a text of one line does.
pub open spec fn text_added(s: SessionModel, value: Seq<char>, place: TextPlace) -> SessionModel {
    with_shape_added(s, ShapeModel::Text(TextModel { value, place }))
}

/// What adding a text of several lines does. It is not turned.
pub open spec fn mtext_added(
    s: SessionModel,
    value: Seq<char>,
    insertion_point: Point3,
    height: Real,
) -> SessionModel {
    with_shape_added(
        s,
        ShapeModel::MText(
            TextModel { value, place: TextPlace { insertion_point, height, rotation: zero() } },
        ),
    )
}

/// What adding a hatch inside a closed chain of segments does. A new hatch is
/// filled.
pub open spec fn hatch_added(s: SessionModel, boundary: Seq<Point2>) -> SessionModel {
    with_shape_added(
        s,
        ShapeModel::Hatch(
            HatchModel { solid: true, style: HatchStyle::Normal, paths: seq![ring(boundary)] },
        ),
    )
}

/// What adding a dimension of a distance does.
pub open spec fn linear_added(
    s: SessionModel,
    first_point: Point3,
    second_point: Point3,
    definition_point: Point3,
) -> SessionModel {
    with_shape_added(
        s,
        ShapeModel::Dimension(
            Dimension::Linear {
                first_point,
                second_point,
                definition_point,
                rotation: zero(),
                normal: upward(),
            },
        ),
    )
}

/// What adding a dimension of a radius does.
pub open spec fn radius_added(s: SessionModel, center: Point3, point: Point3) -> SessionModel {
    with_shape_added(s, ShapeModel::Dimension(Dimension::Radius { center, point }))
}

/// What adding a dimension of a diameter does.
pub open spec fn diameter_added(s: SessionModel, center: Point3, point: Point3) -> SessionModel {
    with_shape_added(s, ShapeModel::Dimension(Dimension::Diameter { center, point }))
}

/// What adding a dimension of the angle at a point does.
pub open spec fn angle_added(
    s: SessionModel,
    vertex: Point3,
    first_point: Point3,
    second_point: Point3,
    arc_location: Point3,
) -> SessionModel {
    with_shape_added(
        s,
        ShapeModel::Dimension(
            Dimension::Angular3Pt {
                vertex,
                first_point,
                second_point,
                definition_point: arc_location,
                normal: upward(),
            },
        ),
    )
}

/// What adding a dimension of the angle between two lines does. Both lines start
/// in the vertex.
pub open spec fn line_angle_added(
    s: SessionModel,
    vertex: Point3,
    first_point: Point3,
    second_point: Point3,
    arc_location: Point3,
) -> SessionModel {
    with_shape_added(
        s,
        ShapeModel::Dimension(
            Dimension::Angular2Ln {
                first_start: vertex,
                first_end: first_point,
                second_start: vertex,
                second_end: second_point,
                dimension_arc: arc_location,
                normal: upward(),
            },
        ),
    )
}

/// What adding a template for attributes does.
pub open spec fn definition_added(
    s: SessionModel,
    tag: Seq<char>,
    prompt: Seq<char>,
    default_value: Seq<char>,
    place: TextPlace,
) -> SessionModel {
    with_shape_added(
        s,
        ShapeModel::AttributeDefinition(
            AttributeDefinitionModel { tag, prompt, default_value, place },
        ),
    )
}

/// What adding a table of texts does.
pub open spec fn table_added(
    s: SessionModel,
    insertion_point: Point3,
    data: Seq<Seq<Seq<char>>>,
) -> SessionModel {
    with_shape_added(s, ShapeModel::Table(table_of(insertion_point, data)))
}

impl Session {
    fn add_shape(&mut self, shape: Shape) -> (r: Result<Handle, ApiError>)
        requires
            old(self)@.doc.next_handle < u64::MAX,
        ensures
            final(self)@ == with_shape_added(old(self)@, shape@),
            outcome(r) == Ok::<Handle, ErrorModel>(old(self)@.doc.next_handle),
    {
        let layer = owned("0");
        Ok(self.document.add_entity(layer, shape))
    }

    /// Adds a curve that the geometry side made, on the layer that is asked for.
    pub fn add_curve(&mut self, layer: &Option<String>, made: Result<Shape, ApiError>) -> (r: Result<
        Handle,
        ApiError,
    >)
        requires
            old(self)@.doc.next_handle < u64::MAX,
        ensures
            (final(self)@, outcome(r)) == curve_added(
                old(self)@,
                crate::document::text_model(*layer),
                made_model(made),
            ),
    {
        match layer {
            Some(name) => {
                if let Some(reason) = self.missing_layer(name.as_str()) {
                    return Err(ApiError::Validation { op: "CreateCurve", reason });
                }
                match made {
                    Err(e) => Err(e),
                    Ok(shape) => {
                        let norm = prepared_name(name.as_str());
                        Ok(self.document.add_entity(norm, shape))
                    },
                }
            },
            None => match made {
                Err(e) => Err(e),
                Ok(shape) => self.add_shape(shape),
            },
        }
    }

    /// Adds a reference to a block.
    pub fn add_insert(
        &mut self,
        block_name: &str,
        insert_point: Point3,
        scale: Real,
        rotation: Real,
    ) -> (r: Result<Handle, ApiError>)
        requires
            old(self)@.doc.next_handle < u64::MAX,
        ensures
            (final(self)@, outcome(r)) == insert_added(
                old(self)@,
                block_name@,
                insert_point,
                scale,
                rotation,
            ),
    {
        if block_get(&self.document.blocks, block_name).is_none() {
            return Err(
                ApiError::Validation {
                    op: "CreateInsert",
                    reason: Reason::UnknownBlock(owned(block_name)),
                },
            );
        }
        let k = take_scale(scale);
        let insert = Insert {
            block_name: owned(block_name),
            place: InsertPlace {
                insert_point,
                x_scale: k,
                y_scale: k,
                z_scale: k,
                rotation,
                normal: upward(),
            },
            attributes: Vec::new(),
        };
        proof {
            assert(views(insert.attributes@) =~= Seq::<AttributeModel>::empty());
        }
        self.add_shape(Shape::Insert(insert))
    }

    /// Adds a window onto the model.
    pub fn add_viewport(&mut self, viewport: Viewport) -> (r: Result<Handle, ApiError>)
        requires
            old(self)@.doc.next_handle < u64::MAX,
        ensures
            final(self)@ == viewport_added(old(self)@, viewport),
            outcome(r) == Ok::<Handle, ErrorModel>(old(self)@.doc.next_handle),
    {
        self.add_shape(Shape::Viewport(viewport))
    }

    /// Adds a text of one line.
    pub fn add_text(&mut self, value: &str, place: TextPlace) -> (r: Result<Handle, ApiError>)
        requires
            old(self)@.doc.next_handle < u64::MAX,
        ensures
            final(self)@ == text_added(old(self)@, value@, place),
            outcome(r) == Ok::<Handle, ErrorModel>(old(self)@.doc.next_handle),
    {
        self.add_shape(Shape::Text(Text { value: owned(value), place }))
    }

    /// Adds a text of several lines, which is not turned.
    pub fn add_mtext(&mut self, value: &str, insertion_point: Point3, height: Real) -> (r: Result<
        Handle,
        ApiError,
    >)
        requires
            old(self)@.doc.next_handle < u64::MAX,
        ensures
            final(self)@ == mtext_added(old(self)@, value@, insertion_point, height),
            outcome(r) == Ok::<Handle, ErrorModel>(old(self)@.doc.next_handle),
    {
        let place = TextPlace { insertion_point, height, rotation: crate::value::zero() };
        self.add_shape(Shape::MText(Text { value: owned(value), place }))
    }

    /// Adds a hatch inside a closed chain of segments. A new hatch is filled,
    /// whether a filled one was asked for or not.
    pub fn add_hatch(&mut self, boundary: &Vec<Point2>, solid: bool) -> (r: Result<
        Handle,
        ApiError,
    >)
        requires
            old(self)@.doc.next_handle < u64::MAX,
        ensures
            final(self)@ == hatch_added(old(self)@, boundary@),
            outcome(r) == Ok::<Handle, ErrorModel>(old(self)@.doc.next_handle),
    {
        let mut paths: Vec<BoundaryPath> = Vec::new();
        paths.push(make_ring(boundary));
        proof {
            assert(views(paths@) =~= seq![ring(boundary@)]);
        }
        self.add_shape(Shape::Hatch(Hatch { solid: true, style: HatchStyle::Normal, paths }))
    }

    /// Adds a dimension of a distance.
    pub fn add_dimension_linear(
        &mut self,
        first_point: Point3,
        second_point: Point3,
        definition_point: Point3,
    ) -> (r: Result<Handle, ApiError>)
        requires
            old(self)@.doc.next_handle < u64::MAX,
        ensures
            final(self)@ == linear_added(
                old(self)@,
                first_point,
                second_point,
                definition_point,
            ),
            outcome(r) == Ok::<Handle, ErrorModel>(old(self)@.doc.next_handle),
    {
        self.add_shape(
            Shape::Dimension(
                Dimension::Linear {
                    first_point,
                    second_point,
                    definition_point,
                    rotation: zero(),
                    normal: upward(),
                },
            ),
        )
    }

    /// Adds a dimension of a radius.
    pub fn add_dimension_radius(&mut self, center: Point3, point: Point3) -> (r: Result<
        Handle,
        ApiError,
    >)
        requires
            old(self)@.doc.next_handle < u64::MAX,
        ensures
            final(self)@ == radius_added(old(self)@, center, point),
            outcome(r) == Ok::<Handle, ErrorModel>(old(self)@.doc.next_handle),
    {
        self.add_shape(Shape::Dimension(Dimension::Radius { center, point }))
    }

    /// Adds a dimension of a diameter.
    pub fn add_dimension_diameter(&mut self, center: Point3, point: Point3) -> (r: Result<
        Handle,
        ApiError,
    >)
        requires
            old(self)@.doc.next_handle < u64::MAX,
        ensures
            final(self)@ == diameter_added(old(self)@, center, point),
            outcome(r) == Ok::<Handle, ErrorModel>(old(self)@.doc.next_handle),
    {
        self.add_shape(Shape::Dimension(Dimension::Diameter { center, point }))
    }

    /// Adds a dimension of the angle at a point.
    pub fn add_dimension_angular(
        &mut self,
        vertex: Point3,
        first_point: Point3,
        second_point: Point3,
        arc_location: Point3,
    ) -> (r: Result<Handle, ApiError>)
        requires
            old(self)@.doc.next_handle < u64::MAX,
        ensures
            final(self)@ == angle_added(
                old(self)@,
                vertex,
                first_point,
                second_point,
                arc_location,
            ),
            outcome(r) == Ok::<Handle, ErrorModel>(old(self)@.doc.next_handle),
    {
        self.add_shape(
            Shape::Dimension(
                Dimension::Angular3Pt {
                    vertex,
                    first_point,
                    second_point,
                    definition_point: arc_location,
                    normal: upward(),
                },
            ),
        )
    }

    /// Adds a dimension of the angle between two lines.
    pub fn add_dimension_angular2ln(
        &mut self,
        vertex: Point3,
        first_point: Point3,
        second_point: Point3,
        arc_location: Point3,
    ) -> (r: Result<Handle, ApiError>)
        requires
            old(self)@.doc.next_handle < u64::MAX,
        ensures
            final(self)@ == line_angle_added(
                old(self)@,
                vertex,
                first_point,
                second_point,
                arc_location,
            ),
            outcome(r) == Ok::<Handle, ErrorModel>(old(self)@.doc.next_handle),
    {
        self.add_shape(
            Shape::Dimension(
                Dimension::Angular2Ln {
                    first_start: vertex,
                    first_end: first_point,
                    second_start: vertex,
                    second_end: second_point,
                    dimension_arc: arc_location,
                    normal: upward(),
                },
            ),
        )
    }

    /// Adds a template for attributes.
    pub fn add_attribute_definition(
        &mut self,
        tag: &str,
        prompt: &str,
        default_value: &str,
        place: TextPlace,
    ) -> (r: Result<Handle, ApiError>)
        requires
            old(self)@.doc.next_handle < u64::MAX,
        ensures
            final(self)@ == definition_added(
                old(self)@,
                tag@,
                prompt@,
                default_value@,
                place,
            ),
            outcome(r) == Ok::<Handle, ErrorModel>(old(self)@.doc.next_handle),
    {
        self.add_shape(
            Shape::AttributeDefinition(
                AttributeDefinition {
                    tag: owned(tag),
                    prompt: owned(prompt),
                    default_value: owned(default_value),
                    place,
                },
            ),
        )
    }

    /// Adds a table of texts. It has as many columns as the first row of the
    /// grid has texts.
    pub fn add_table(&mut self, insertion_point: Point3, data: &Vec<Vec<String>>) -> (r: Result<
        Handle,
        ApiError,
    >)
        requires
            old(self)@.doc.next_handle < u64::MAX,
        ensures
            final(self)@ == table_added(old(self)@, insertion_point, grid(data@)),
            outcome(r) == Ok::<Handle, ErrorModel>(old(self)@.doc.next_handle),
    {
        let n: usize = data.len();
        let columns: usize = if n == 0 {
            0
        } else {
            data[0].len()
        };
        let ghost goal = table_of(insertion_point, grid(data@));
        proof {
            if n > 0 {
                assert(grid(data@)[0] == texts(data@[0]@));
            }
            assert(columns == grid_columns(grid(data@)));
        }
        let mut rows: Vec<TableRow> = Vec::new();
        let mut i: usize = 0;
        while i < n
            invariant
                i <= n == data@.len(),
                columns == grid_columns(grid(data@)),
                goal == table_of(insertion_point, grid(data@)),
                views(rows@) == goal.rows.take(i as int),
            decreases n - i,
        {
            let ghost before = rows@;
            let row = fit_row(&data[i], columns);
            let ghost m = row@;
            rows.push(row);
            proof {
                assert(grid(data@)[i as int] == texts(data@[i as int]@));
                assert(views(rows@) =~= views(before).push(m));
                assert(goal.rows.take(i + 1) =~= goal.rows.take(i as int).push(m));
            }
            i += 1;
        }
        proof {
            assert(goal.rows.take(n as int) =~= goal.rows);
        }
        self.add_shape(Shape::Table(Table { insertion_point, columns, rows }))
    }

    /// Adds a raster image from a file, and the object that defines it.
    pub fn add_raster_image(&mut self, file_path: &str, place: ImagePlace) -> (r: Result<
        Handle,
        ApiError,
    >)
        requires
            old(self)@.doc.next_handle < u64::MAX - 1,
        ensures
            match image_path_failure(file_path@) {
                Some(e) => final(self)@ == old(self)@ && outcome(r) == Err::<Handle, ErrorModel>(e),
                None => {
                    let definition = (old(self)@.doc.next_handle + 1) as Handle;
                    &&& final(self)@ == with_image_added(old(self)@, file_path@, place)
                    &&& outcome(r) == Ok::<Handle, ErrorModel>(old(self)@.doc.next_handle)
                    &&& final(self)@.doc.object_place(definition) is Some
                    &&& old(self)@.doc.wf() ==> old(self)@.doc.object_place(definition) is None
                },
            },
    {
        match validate_image_path(file_path) {
            Err(e) => Err(e),
            Ok(_) => {
                let definition: Handle = self.document.next_handle + 1;
                let added = self.add_shape(
                    Shape::RasterImage(
                        RasterImage {
                            file_path: owned(file_path),
                            place,
                            definition: Some(definition),
                        },
                    ),
                );
                let _ = self.document.file_object(Object::ImageDefinition(owned(file_path)));
                proof {
                    image_is_defined(old(self)@, file_path@, place);
                }
                added
            },
        }
    }
}

/// A new raster image names the object that defines it. That object is filed
/// under a handle that nothing had, with the path of the image, and no other
/// entity and no other object changes.
pub proof fn image_is_defined(s: SessionModel, file_path: Seq<char>, place: ImagePlace)
    requires
        s.doc.next_handle < u64::MAX - 1,
    ensures
        ({
            let after = with_image_added(s, file_path, place).doc;
            let definition = (s.doc.next_handle + 1) as Handle;
            &&& after.entities.len() == s.doc.entities.len() + 1
            &&& after.entities.last().shape == ShapeModel::RasterImage(
                RasterImageModel { file_path, place, definition: Some(definition) },
            )
            &&& after.entities.drop_last() == s.doc.entities
            &&& after.objects.len() == s.doc.objects.len() + 1
            &&& after.objects.last() == (FiledModel {
                handle: definition,
                object: ObjectModel::ImageDefinition(file_path),
            })
            &&& after.objects.drop_last() == s.doc.objects
            &&& after.object_place(definition) is Some
            &&& s.doc.wf() ==> {
                &&& after.wf()
                &&& s.doc.object_place(definition) is None
                &&& after.object_place(definition) == Some(s.doc.objects.len() as int)
                &&& after.place(s.doc.next_handle) == Some(s.doc.entities.len() as int)
            }
        }),
{
    let after = with_image_added(s, file_path, place).doc;
    let definition = (s.doc.next_handle + 1) as Handle;
    assert(after.entities.drop_last() =~= s.doc.entities);
    assert(after.objects.drop_last() =~= s.doc.objects);
    lemma_object_from(s.doc.objects, definition, 0);
    lemma_object_from(after.objects, definition, 0);
    assert(after.objects[s.doc.objects.len() as int].handle == definition);
    if s.doc.wf() {
        new_entity_is_found(
            s.doc,
            "0"@,
            ShapeModel::RasterImage(
                RasterImageModel { file_path, place, definition: Some(definition) },
            ),
        );
        assert forall|k: int| 0 <= k < s.doc.objects.len() implies after.objects[k]
            == #[trigger] s.doc.objects[k] by {}
    }
}

} // verus!
