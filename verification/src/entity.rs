//! Drawing entities as the editing commands see them. Coordinates and other
//! measures are held by their bits; the commands move, copy and classify them.
use crate::value::{upward, zero, Point2, Point3, Real};
use vstd::prelude::*;

verus! {

/// Names an object of a drawing. Zero names nothing.
pub type Handle = u64;

/// The handle that names nothing.
pub const NO_HANDLE: Handle = 0;

/// How an entity or a layer is coloured.
#[derive(Clone, Copy, Debug, PartialEq, Eq, Structural)]
pub enum Color {
    ByLayer,
    /// No colour at all.
    Unset,
    ByBlock,
    Index(u8),
    Rgb { r: u8, g: u8, b: u8 },
}

/// How far an entity can be seen through: 0 is opaque, 255 is clear.
#[derive(Clone, Copy, Debug, PartialEq, Eq, Structural)]
pub enum Transparency {
    ByLayer,
    ByBlock,
    Explicit(u8),
}

/// The contents of each value of a list.
pub open spec fn views<T: View>(s: Seq<T>) -> Seq<T::V> {
    Seq::new(s.len(), |i: int| s[i]@)
}

/// Taking the first value off a list that is the rest of another from `k` on
/// leaves the rest from `k + 1` on.
pub proof fn lemma_first_taken<T: View>(rest: Seq<T>, all: Seq<T::V>, k: int)
    requires
        0 <= k < all.len(),
        views(rest) == all.skip(k),
    ensures
        rest.len() == all.len() - k,
        rest[0]@ == all[k],
        views(rest.remove(0)) == all.skip(k + 1),
{
    let tail = all.skip(k);
    assert(tail.len() == all.len() - k);
    assert(views(rest).len() == rest.len());
    rest.remove_ensures(0);
    assert(views(rest)[0] == rest[0]@);
    assert(tail[0] == all[k]);
    let left = rest.remove(0);
    assert forall|i: int| 0 <= i < left.len() implies #[trigger] views(left)[i] == all.skip(
        k + 1,
    )[i] by {
        assert(views(left)[i] == left[i]@);
        assert(left[i] == rest[i + 1]);
        assert(views(rest)[i + 1] == rest[i + 1]@);
        assert(tail[i + 1] == all[k + i + 1]);
        assert(all.skip(k + 1)[i] == all[k + 1 + i]);
    }
    assert(views(left) =~= all.skip(k + 1));
}

/// One value of the extended data that an application hangs on an entity.
#[derive(Debug)]
pub enum XDataValue {
    Text(String),
    ControlString(String),
    LayerName(String),
    BinaryData(Vec<u8>),
    Handle(Handle),
    Point3D(Point3),
    Position3D(Point3),
    Displacement3D(Point3),
    Direction3D(Point3),
    Number(Real),
    Distance(Real),
    ScaleFactor(Real),
    Integer16(i16),
    Integer32(i32),
}

/// The contents of an [`XDataValue`].
pub enum XDataModel {
    Text(Seq<char>),
    ControlString(Seq<char>),
    LayerName(Seq<char>),
    BinaryData(Seq<u8>),
    Handle(Handle),
    Point3D(Point3),
    Position3D(Point3),
    Displacement3D(Point3),
    Direction3D(Point3),
    Number(Real),
    Distance(Real),
    ScaleFactor(Real),
    Integer16(i16),
    Integer32(i32),
}

impl View for XDataValue {
    type V = XDataModel;

    open spec fn view(&self) -> XDataModel {
        match self {
            XDataValue::Text(s) => XDataModel::Text(s@),
            XDataValue::ControlString(s) => XDataModel::ControlString(s@),
            XDataValue::LayerName(s) => XDataModel::LayerName(s@),
            XDataValue::BinaryData(b) => XDataModel::BinaryData(b@),
            XDataValue::Handle(h) => XDataModel::Handle(*h),
            XDataValue::Point3D(p) => XDataModel::Point3D(*p),
            XDataValue::Position3D(p) => XDataModel::Position3D(*p),
            XDataValue::Displacement3D(p) => XDataModel::Displacement3D(*p),
            XDataValue::Direction3D(p) => XDataModel::Direction3D(*p),
            XDataValue::Number(v) => XDataModel::Number(*v),
            XDataValue::Distance(v) => XDataModel::Distance(*v),
            XDataValue::ScaleFactor(v) => XDataModel::ScaleFactor(*v),
            XDataValue::Integer16(n) => XDataModel::Integer16(*n),
            XDataValue::Integer32(n) => XDataModel::Integer32(*n),
        }
    }
}

impl XDataValue {
    /// A copy of the value.
    pub fn duplicate(&self) -> (r: XDataValue)
        ensures
            r@ == self@,
    {
        match self {
            XDataValue::Text(s) => XDataValue::Text(s.clone()),
            XDataValue::ControlString(s) => XDataValue::ControlString(s.clone()),
            XDataValue::LayerName(s) => XDataValue::LayerName(s.clone()),
            XDataValue::BinaryData(b) => XDataValue::BinaryData(copy_of(b)),
            XDataValue::Handle(h) => XDataValue::Handle(*h),
            XDataValue::Point3D(p) => XDataValue::Point3D(*p),
            XDataValue::Position3D(p) => XDataValue::Position3D(*p),
            XDataValue::Displacement3D(p) => XDataValue::Displacement3D(*p),
            XDataValue::Direction3D(p) => XDataValue::Direction3D(*p),
            XDataValue::Number(v) => XDataValue::Number(*v),
            XDataValue::Distance(v) => XDataValue::Distance(*v),
            XDataValue::ScaleFactor(v) => XDataValue::ScaleFactor(*v),
            XDataValue::Integer16(n) => XDataValue::Integer16(*n),
            XDataValue::Integer32(n) => XDataValue::Integer32(*n),
        }
    }
}

/// A copy of a list of extended data values.
pub fn copy_values(v: &Vec<XDataValue>) -> (r: Vec<XDataValue>)
    ensures
        views(r@) == views(v@),
{
    let mut out: Vec<XDataValue> = Vec::new();
    let n: usize = v.len();
    let mut i: usize = 0;
    while i < n
        invariant
            i <= n == v@.len(),
            out@.len() == i,
            forall|k: int| 0 <= k < i ==> #[trigger] out@[k]@ == v@[k]@,
        decreases n - i,
    {
        out.push(v[i].duplicate());
        i += 1;
    }
    proof {
        assert(views(out@) =~= views(v@));
    }
    out
}

/// The extended data of one application.
#[derive(Debug)]
pub struct XDataRecord {
    pub application_name: String,
    pub values: Vec<XDataValue>,
}

/// The contents of an [`XDataRecord`].
#[verifier::ext_equal]
pub struct XDataRecordModel {
    pub application_name: Seq<char>,
    pub values: Seq<XDataModel>,
}

impl View for XDataRecord {
    type V = XDataRecordModel;

    open spec fn view(&self) -> XDataRecordModel {
        XDataRecordModel {
            application_name: self.application_name@,
            values: views(self.values@),
        }
    }
}

impl XDataRecord {
    /// A copy of the record.
    pub fn duplicate(&self) -> (r: XDataRecord)
        ensures
            r@ == self@,
    {
        XDataRecord {
            application_name: self.application_name.clone(),
            values: copy_values(&self.values),
        }
    }
}

/// A copy of a list of extended data records.
pub fn copy_records(v: &Vec<XDataRecord>) -> (r: Vec<XDataRecord>)
    ensures
        views(r@) == views(v@),
{
    let mut out: Vec<XDataRecord> = Vec::new();
    let n: usize = v.len();
    let mut i: usize = 0;
    while i < n
        invariant
            i <= n == v@.len(),
            out@.len() == i,
            forall|k: int| 0 <= k < i ==> #[trigger] out@[k]@ == v@[k]@,
        decreases n - i,
    {
        out.push(v[i].duplicate());
        i += 1;
    }
    proof {
        assert(views(out@) =~= views(v@));
    }
    out
}

/// What every entity has: its handle, the properties it is drawn with and the
/// data that applications hang on it.
#[derive(Debug)]
pub struct Common {
    pub handle: Handle,
    pub layer: String,
    pub color: Color,
    pub transparency: Transparency,
    pub xdata: Vec<XDataRecord>,
}

/// The contents of a [`Common`].
#[verifier::ext_equal]
pub struct CommonModel {
    pub handle: Handle,
    pub layer: Seq<char>,
    pub color: Color,
    pub transparency: Transparency,
    pub xdata: Seq<XDataRecordModel>,
}

impl View for Common {
    type V = CommonModel;

    open spec fn view(&self) -> CommonModel {
        CommonModel {
            handle: self.handle,
            layer: self.layer@,
            color: self.color,
            transparency: self.transparency,
            xdata: views(self.xdata@),
        }
    }
}

/// The properties of an entity that was just made: no handle yet, on the layer
/// `0`, everything else by layer.
pub open spec fn fresh_model() -> CommonModel {
    CommonModel {
        handle: NO_HANDLE,
        layer: "0"@,
        color: Color::ByLayer,
        transparency: Transparency::ByLayer,
        xdata: Seq::empty(),
    }
}

impl Common {
    /// The properties of an entity that was just made.
    pub fn fresh() -> (r: Common)
        ensures
            r@ == fresh_model(),
    {
        let r = Common {
            handle: NO_HANDLE,
            layer: "0".to_owned(),
            color: Color::ByLayer,
            transparency: Transparency::ByLayer,
            xdata: Vec::new(),
        };
        proof {
            assert(views(r.xdata@) =~= Seq::<XDataRecordModel>::empty());
        }
        r
    }

    /// A copy of the properties with another handle.
    pub fn with_handle(&self, handle: Handle) -> (r: Common)
        ensures
            r@ == (CommonModel { handle, ..self@ }),
    {
        Common {
            handle,
            layer: self.layer.clone(),
            color: self.color,
            transparency: self.transparency,
            xdata: copy_records(&self.xdata),
        }
    }
}

/// A vertex of a lightweight polyline.
#[derive(Clone, Copy, Debug, PartialEq, Eq, Structural)]
pub struct LwVertex {
    pub location: Point2,
    pub bulge: Real,
    pub start_width: Real,
    pub end_width: Real,
    pub vertex_id: i32,
}

impl LwVertex {
    /// A vertex without bulge and width.
    #[verifier::allow_in_spec]
    pub fn new(location: Point2) -> LwVertex
        returns
            (LwVertex {
                location,
                bulge: zero(),
                start_width: zero(),
                end_width: zero(),
                vertex_id: 0,
            }),
    {
        LwVertex { location, bulge: zero(), start_width: zero(), end_width: zero(), vertex_id: 0 }
    }
}

/// What a lightweight polyline has besides its vertices.
#[derive(Clone, Copy, Debug, PartialEq, Eq, Structural)]
pub struct LwForm {
    pub is_closed: bool,
    pub plinegen: bool,
    pub constant_width: Real,
    pub elevation: Real,
    pub thickness: Real,
    pub normal: Point3,
}

/// A polyline in a plane whose vertices are records of one entity.
#[derive(Debug)]
pub struct LwPolyline {
    pub vertices: Vec<LwVertex>,
    pub form: LwForm,
}

/// The contents of an [`LwPolyline`].
#[verifier::ext_equal]
pub struct LwModel {
    pub vertices: Seq<LwVertex>,
    pub form: LwForm,
}

impl View for LwPolyline {
    type V = LwModel;

    open spec fn view(&self) -> LwModel {
        LwModel { vertices: self.vertices@, form: self.form }
    }
}

/// How a curve-fit polyline or a mesh is smoothed.
#[derive(Clone, Copy, Debug, PartialEq, Eq, Structural)]
pub enum Smoothing {
    Plain,
    Quadratic,
    Cubic,
    Bezier,
}

/// The bit of a polyline's flags that closes it.
pub const POLYLINE_CLOSED: u16 = 1;

/// The bit of a polyline's flags that marks a spline fit.
pub const POLYLINE_SPLINE_FIT: u16 = 4;

/// The bit of a polyline's flags that runs line types through its vertices.
pub const POLYLINE_CONTINUOUS: u16 = 128;

/// The bit of a mesh's flags that closes it in the M direction.
pub const MESH_CLOSED_M: u16 = 1;

/// The bit of a mesh's flags that closes it in the N direction.
pub const MESH_CLOSED_N: u16 = 32;

/// The bit of a vertex's flags that marks a control point of a spline frame.
pub const VERTEX_CONTROL: u8 = 16;

/// Whether any bit of `bit` is set in `flags`.
pub open spec fn flag_set(flags: u16, bit: u16) -> bool {
    flags & bit != 0
}

/// `flags` with the bits of `bit` set or cleared.
pub open spec fn with_flag(flags: u16, bit: u16, on: bool) -> u16 {
    if on {
        flags | bit
    } else {
        flags & !bit
    }
}

/// Whether any bit of `bit` is set in `flags`.
pub fn has_flag(flags: u16, bit: u16) -> (r: bool)
    ensures
        r == flag_set(flags, bit),
{
    flags & bit != 0
}

/// Sets or clears bits of `flags`.
pub fn put_flag(flags: u16, bit: u16, on: bool) -> (r: u16)
    ensures
        r == with_flag(flags, bit, on),
{
    if on {
        flags | bit
    } else {
        flags & !bit
    }
}

/// A flag that was put reads back, and no other bit changes.
pub proof fn flag_reads_back(flags: u16, bit: u16, on: bool, other: u16)
    requires
        bit != 0,
        bit & other == 0,
    ensures
        flag_set(with_flag(flags, bit, on), bit) == on,
        flag_set(with_flag(flags, bit, on), other) == flag_set(flags, other),
{
    assert((flags | bit) & bit == bit) by (bit_vector);
    assert((flags & !bit) & bit == 0) by (bit_vector);
    assert((flags | bit) & other == flags & other) by (bit_vector)
        requires
            bit & other == 0,
    ;
    assert((flags & !bit) & other == flags & other) by (bit_vector)
        requires
            bit & other == 0,
    ;
}

/// A vertex of a heavy polyline.
#[derive(Clone, Copy, Debug, PartialEq, Eq, Structural)]
pub struct Vertex2D {
    pub location: Point3,
    pub flags: u8,
    pub start_width: Real,
    pub end_width: Real,
    pub bulge: Real,
    pub curve_tangent: Real,
    pub id: i32,
}

impl Vertex2D {
    /// A vertex without flags, bulge and width.
    #[verifier::allow_in_spec]
    pub fn new(location: Point3) -> Vertex2D
        returns
            (Vertex2D {
                location,
                flags: 0,
                start_width: zero(),
                end_width: zero(),
                bulge: zero(),
                curve_tangent: zero(),
                id: 0,
            }),
    {
        Vertex2D {
            location,
            flags: 0,
            start_width: zero(),
            end_width: zero(),
            bulge: zero(),
            curve_tangent: zero(),
            id: 0,
        }
    }
}

/// What a heavy polyline has besides its vertices.
#[derive(Clone, Copy, Debug, PartialEq, Eq, Structural)]
pub struct Form2D {
    pub flags: u16,
    pub smooth: Smoothing,
    pub start_width: Real,
    pub end_width: Real,
    pub thickness: Real,
    pub elevation: Real,
    pub normal: Point3,
}

/// A polyline in a plane whose vertices are entities of their own.
#[derive(Debug)]
pub struct Polyline2D {
    pub vertices: Vec<Vertex2D>,
    pub form: Form2D,
}

/// The contents of a [`Polyline2D`].
#[verifier::ext_equal]
pub struct Model2D {
    pub vertices: Seq<Vertex2D>,
    pub form: Form2D,
}

impl View for Polyline2D {
    type V = Model2D;

    open spec fn view(&self) -> Model2D {
        Model2D { vertices: self.vertices@, form: self.form }
    }
}

/// A vertex of a polyline in space.
#[derive(Clone, Copy, Debug, PartialEq, Eq, Structural)]
pub struct Vertex3D {
    pub position: Point3,
    pub flags: u8,
}

/// A polyline in space.
#[derive(Debug)]
pub struct Polyline3D {
    pub vertices: Vec<Vertex3D>,
    pub closed: bool,
    pub spline_fit: bool,
    pub smooth: Smoothing,
    pub normal: Point3,
}

/// The contents of a [`Polyline3D`].
#[verifier::ext_equal]
pub struct Model3D {
    pub vertices: Seq<Vertex3D>,
    pub closed: bool,
    pub spline_fit: bool,
    pub smooth: Smoothing,
    pub normal: Point3,
}

impl View for Polyline3D {
    type V = Model3D;

    open spec fn view(&self) -> Model3D {
        Model3D {
            vertices: self.vertices@,
            closed: self.closed,
            spline_fit: self.spline_fit,
            smooth: self.smooth,
            normal: self.normal,
        }
    }
}

/// What a polygon mesh has besides its vertices.
#[derive(Clone, Copy, Debug, PartialEq, Eq, Structural)]
pub struct MeshForm {
    pub flags: u16,
    pub m_count: i16,
    pub n_count: i16,
    pub m_density: i16,
    pub n_density: i16,
    pub smooth: Smoothing,
}

/// A mesh of M by N vertices, held row after row.
#[derive(Debug)]
pub struct PolygonMesh {
    pub vertices: Vec<Point3>,
    pub form: MeshForm,
}

/// The contents of a [`PolygonMesh`].
#[verifier::ext_equal]
pub struct MeshModel {
    pub vertices: Seq<Point3>,
    pub form: MeshForm,
}

impl View for PolygonMesh {
    type V = MeshModel;

    open spec fn view(&self) -> MeshModel {
        MeshModel { vertices: self.vertices@, form: self.form }
    }
}

/// A straight segment.
#[derive(Clone, Copy, Debug, PartialEq, Eq, Structural)]
pub struct Line {
    pub start: Point3,
    pub end: Point3,
    pub thickness: Real,
    pub normal: Point3,
}

/// A circular arc.
#[derive(Clone, Copy, Debug, PartialEq, Eq, Structural)]
pub struct Arc {
    pub center: Point3,
    pub radius: Real,
    pub start_angle: Real,
    pub end_angle: Real,
    pub thickness: Real,
    pub normal: Point3,
}

/// An ellipse or a part of one.
#[derive(Clone, Copy, Debug, PartialEq, Eq, Structural)]
pub struct Ellipse {
    pub center: Point3,
    pub major_axis: Point3,
    pub ratio: Real,
    pub start: Real,
    pub end: Real,
    pub normal: Point3,
}

/// The properties of a spline that are yes or no.
#[derive(Clone, Copy, Debug, PartialEq, Eq, Structural)]
pub struct SplineFlags {
    pub closed: bool,
    pub periodic: bool,
    pub rational: bool,
    pub planar: bool,
    pub linear: bool,
}

/// What a spline has besides its lists.
#[derive(Clone, Copy, Debug, PartialEq, Eq, Structural)]
pub struct SplineForm {
    pub degree: i32,
    pub flags: SplineFlags,
    pub normal: Point3,
    pub begin_tangent: Point3,
    pub end_tangent: Point3,
    pub knot_parameterization: i32,
}

/// A spline curve by control points, by fit points, or by both.
#[derive(Debug)]
pub struct Spline {
    pub control_points: Vec<Point3>,
    pub knots: Vec<Real>,
    pub weights: Vec<Real>,
    pub fit_points: Vec<Point3>,
    pub form: SplineForm,
}

/// The contents of a [`Spline`].
#[verifier::ext_equal]
pub struct SplineModel {
    pub control_points: Seq<Point3>,
    pub knots: Seq<Real>,
    pub weights: Seq<Real>,
    pub fit_points: Seq<Point3>,
    pub form: SplineForm,
}

impl View for Spline {
    type V = SplineModel;

    open spec fn view(&self) -> SplineModel {
        SplineModel {
            control_points: self.control_points@,
            knots: self.knots@,
            weights: self.weights@,
            fit_points: self.fit_points@,
            form: self.form,
        }
    }
}

/// Neither closed, periodic, rational, planar nor linear.
#[verifier::allow_in_spec]
pub fn plain_flags() -> SplineFlags
    returns
        (SplineFlags {
            closed: false,
            periodic: false,
            rational: false,
            planar: false,
            linear: false,
        }),
{
    SplineFlags { closed: false, periodic: false, rational: false, planar: false, linear: false }
}

/// A circle.
#[derive(Clone, Copy, Debug, PartialEq, Eq, Structural)]
pub struct Circle {
    pub center: Point3,
    pub radius: Real,
    pub normal: Point3,
}

/// A line without an end, or without either end.
#[derive(Clone, Copy, Debug, PartialEq, Eq, Structural)]
pub struct Ray {
    pub base_point: Point3,
    pub direction: Point3,
}

/// A window of a sheet onto the model.
#[derive(Clone, Copy, Debug, PartialEq, Eq, Structural)]
pub struct Viewport {
    pub center: Point3,
    pub width: Real,
    pub height: Real,
    pub view_target: Point3,
    pub view_height: Real,
}

/// Where and how large a text stands.
#[derive(Clone, Copy, Debug, PartialEq, Eq, Structural)]
pub struct TextPlace {
    pub insertion_point: Point3,
    pub height: Real,
    pub rotation: Real,
}

/// A text of one line or of several.
#[derive(Debug)]
pub struct Text {
    pub value: String,
    pub place: TextPlace,
}

/// The contents of a [`Text`].
#[verifier::ext_equal]
pub struct TextModel {
    pub value: Seq<char>,
    pub place: TextPlace,
}

impl View for Text {
    type V = TextModel;

    open spec fn view(&self) -> TextModel {
        TextModel { value: self.value@, place: self.place }
    }
}

/// A value attached to a block reference under a tag.
#[derive(Debug)]
pub struct Attribute {
    pub tag: String,
    pub value: String,
    pub insertion_point: Point3,
}

/// The contents of an [`Attribute`].
#[verifier::ext_equal]
pub struct AttributeModel {
    pub tag: Seq<char>,
    pub value: Seq<char>,
    pub insertion_point: Point3,
}

impl View for Attribute {
    type V = AttributeModel;

    open spec fn view(&self) -> AttributeModel {
        AttributeModel {
            tag: self.tag@,
            value: self.value@,
            insertion_point: self.insertion_point,
        }
    }
}

/// Where a block reference stands.
#[derive(Clone, Copy, Debug, PartialEq, Eq, Structural)]
pub struct InsertPlace {
    pub insert_point: Point3,
    pub x_scale: Real,
    pub y_scale: Real,
    pub z_scale: Real,
    pub rotation: Real,
    pub normal: Point3,
}

/// A reference to a block.
#[derive(Debug)]
pub struct Insert {
    pub block_name: String,
    pub place: InsertPlace,
    pub attributes: Vec<Attribute>,
}

/// The contents of an [`Insert`].
#[verifier::ext_equal]
pub struct InsertModel {
    pub block_name: Seq<char>,
    pub place: InsertPlace,
    pub attributes: Seq<AttributeModel>,
}

impl View for Insert {
    type V = InsertModel;

    open spec fn view(&self) -> InsertModel {
        InsertModel {
            block_name: self.block_name@,
            place: self.place,
            attributes: views(self.attributes@),
        }
    }
}

/// Which of nested areas a hatch fills.
#[derive(Clone, Copy, Debug, PartialEq, Eq, Structural)]
pub enum HatchStyle {
    Normal,
    Outer,
    Ignore,
}

/// A piece of a hatch boundary. Curved pieces are not looked into.
#[derive(Clone, Copy, Debug, PartialEq, Eq, Structural)]
pub enum BoundaryEdge {
    Line { start: Point2, end: Point2 },
    Curved,
}

/// A loop of a hatch boundary.
#[derive(Debug)]
pub struct BoundaryPath {
    pub edges: Vec<BoundaryEdge>,
}

impl View for BoundaryPath {
    type V = Seq<BoundaryEdge>;

    open spec fn view(&self) -> Seq<BoundaryEdge> {
        self.edges@
    }
}

/// A filled area.
#[derive(Debug)]
pub struct Hatch {
    pub solid: bool,
    pub style: HatchStyle,
    pub paths: Vec<BoundaryPath>,
}

/// The contents of a [`Hatch`].
#[verifier::ext_equal]
pub struct HatchModel {
    pub solid: bool,
    pub style: HatchStyle,
    pub paths: Seq<Seq<BoundaryEdge>>,
}

impl View for Hatch {
    type V = HatchModel;

    open spec fn view(&self) -> HatchModel {
        HatchModel { solid: self.solid, style: self.style, paths: views(self.paths@) }
    }
}

/// A dimension by the points that it measures.
#[derive(Clone, Copy, Debug, PartialEq, Eq, Structural)]
pub enum Dimension {
    /// A distance along a direction, which the rotation gives in the plane with
    /// the normal.
    Linear {
        first_point: Point3,
        second_point: Point3,
        definition_point: Point3,
        rotation: Real,
        normal: Point3,
    },
    Radius { center: Point3, point: Point3 },
    Diameter { center: Point3, point: Point3 },
    Angular3Pt {
        vertex: Point3,
        first_point: Point3,
        second_point: Point3,
        definition_point: Point3,
        normal: Point3,
    },
    /// The angle between two lines, each by its ends.
    Angular2Ln {
        first_start: Point3,
        first_end: Point3,
        second_start: Point3,
        second_end: Point3,
        dimension_arc: Point3,
        normal: Point3,
    },
    /// Aligned, ordinate and other dimensions, which are not looked into.
    Further,
}

/// A template for the attributes of block references.
#[derive(Debug)]
pub struct AttributeDefinition {
    pub tag: String,
    pub prompt: String,
    pub default_value: String,
    pub place: TextPlace,
}

/// The contents of an [`AttributeDefinition`].
#[verifier::ext_equal]
pub struct AttributeDefinitionModel {
    pub tag: Seq<char>,
    pub prompt: Seq<char>,
    pub default_value: Seq<char>,
    pub place: TextPlace,
}

impl View for AttributeDefinition {
    type V = AttributeDefinitionModel;

    open spec fn view(&self) -> AttributeDefinitionModel {
        AttributeDefinitionModel {
            tag: self.tag@,
            prompt: self.prompt@,
            default_value: self.default_value@,
            place: self.place,
        }
    }
}

/// One row of a table.
#[derive(Debug)]
pub struct TableRow {
    pub cells: Vec<String>,
}

impl View for TableRow {
    type V = Seq<Seq<char>>;

    open spec fn view(&self) -> Seq<Seq<char>> {
        views(self.cells@)
    }
}

/// A table of texts.
#[derive(Debug)]
pub struct Table {
    pub insertion_point: Point3,
    pub columns: usize,
    pub rows: Vec<TableRow>,
}

/// The contents of a [`Table`].
#[verifier::ext_equal]
pub struct TableModel {
    pub insertion_point: Point3,
    pub columns: usize,
    pub rows: Seq<Seq<Seq<char>>>,
}

impl View for Table {
    type V = TableModel;

    open spec fn view(&self) -> TableModel {
        TableModel {
            insertion_point: self.insertion_point,
            columns: self.columns,
            rows: views(self.rows@),
        }
    }
}

/// Where a raster image stands.
#[derive(Clone, Copy, Debug, PartialEq, Eq, Structural)]
pub struct ImagePlace {
    pub insertion_point: Point3,
    pub u_vector: Point3,
    pub v_vector: Point3,
    pub size: Point2,
}

/// A raster image.
#[derive(Debug)]
pub struct RasterImage {
    pub file_path: String,
    pub place: ImagePlace,
    /// The object that defines the image.
    pub definition: Option<Handle>,
}

/// The contents of a [`RasterImage`].
#[verifier::ext_equal]
pub struct RasterImageModel {
    pub file_path: Seq<char>,
    pub place: ImagePlace,
    pub definition: Option<Handle>,
}

impl View for RasterImage {
    type V = RasterImageModel;

    open spec fn view(&self) -> RasterImageModel {
        RasterImageModel {
            file_path: self.file_path@,
            place: self.place,
            definition: self.definition,
        }
    }
}

/// The shape of an entity. Families whose shape nothing here looks into are
/// held by their name.
#[derive(Debug)]
pub enum Shape {
    Line(Line),
    Circle(Circle),
    Arc(Arc),
    Ellipse(Ellipse),
    Spline(Spline),
    Ray(Ray),
    XLine(Ray),
    Point(Point3),
    LwPolyline(LwPolyline),
    Polyline2D(Polyline2D),
    Polyline3D(Polyline3D),
    PolygonMesh(PolygonMesh),
    Insert(Insert),
    Viewport(Viewport),
    Text(Text),
    MText(Text),
    Hatch(Hatch),
    Dimension(Dimension),
    AttributeDefinition(AttributeDefinition),
    Table(Table),
    RasterImage(RasterImage),
    /// A solid, by the name of its stored body.
    Solid3D(u64),
    /// A region, and whether it carries a stored body.
    Region(bool),
    Other(String),
}

/// The contents of a [`Shape`].
pub enum ShapeModel {
    Line(Line),
    Circle(Circle),
    Arc(Arc),
    Ellipse(Ellipse),
    Spline(SplineModel),
    Ray(Ray),
    XLine(Ray),
    Point(Point3),
    LwPolyline(LwModel),
    Polyline2D(Model2D),
    Polyline3D(Model3D),
    PolygonMesh(MeshModel),
    Insert(InsertModel),
    Viewport(Viewport),
    Text(TextModel),
    MText(TextModel),
    Hatch(HatchModel),
    Dimension(Dimension),
    AttributeDefinition(AttributeDefinitionModel),
    Table(TableModel),
    RasterImage(RasterImageModel),
    Solid3D(u64),
    Region(bool),
    Other(Seq<char>),
}

impl View for Shape {
    type V = ShapeModel;

    open spec fn view(&self) -> ShapeModel {
        match self {
            Shape::Line(x) => ShapeModel::Line(*x),
            Shape::Circle(x) => ShapeModel::Circle(*x),
            Shape::Arc(x) => ShapeModel::Arc(*x),
            Shape::Ellipse(x) => ShapeModel::Ellipse(*x),
            Shape::Spline(x) => ShapeModel::Spline(x@),
            Shape::Ray(x) => ShapeModel::Ray(*x),
            Shape::XLine(x) => ShapeModel::XLine(*x),
            Shape::Point(x) => ShapeModel::Point(*x),
            Shape::LwPolyline(x) => ShapeModel::LwPolyline(x@),
            Shape::Polyline2D(x) => ShapeModel::Polyline2D(x@),
            Shape::Polyline3D(x) => ShapeModel::Polyline3D(x@),
            Shape::PolygonMesh(x) => ShapeModel::PolygonMesh(x@),
            Shape::Insert(x) => ShapeModel::Insert(x@),
            Shape::Viewport(x) => ShapeModel::Viewport(*x),
            Shape::Text(x) => ShapeModel::Text(x@),
            Shape::MText(x) => ShapeModel::MText(x@),
            Shape::Hatch(x) => ShapeModel::Hatch(x@),
            Shape::Dimension(x) => ShapeModel::Dimension(*x),
            Shape::AttributeDefinition(x) => ShapeModel::AttributeDefinition(x@),
            Shape::Table(x) => ShapeModel::Table(x@),
            Shape::RasterImage(x) => ShapeModel::RasterImage(x@),
            Shape::Solid3D(x) => ShapeModel::Solid3D(*x),
            Shape::Region(x) => ShapeModel::Region(*x),
            Shape::Other(x) => ShapeModel::Other(x@),
        }
    }
}

/// An entity of a drawing.
#[derive(Debug)]
pub struct Entity {
    pub common: Common,
    pub shape: Shape,
}

/// The contents of an [`Entity`].
#[verifier::ext_equal]
pub struct EntityModel {
    pub common: CommonModel,
    pub shape: ShapeModel,
}

impl View for Entity {
    type V = EntityModel;

    open spec fn view(&self) -> EntityModel {
        EntityModel { common: self.common@, shape: self.shape@ }
    }
}

/// A copy of a list of values that can be copied.
pub fn copy_of<T: Copy>(v: &Vec<T>) -> (r: Vec<T>)
    ensures
        r@ == v@,
{
    copy_range(v, 0, v.len())
}

/// A copy of the values `v[from..to]`.
pub fn copy_range<T: Copy>(v: &Vec<T>, from: usize, to: usize) -> (r: Vec<T>)
    requires
        from <= to <= v@.len(),
    ensures
        r@ == v@.subrange(from as int, to as int),
{
    let mut out: Vec<T> = Vec::new();
    let mut i: usize = from;
    while i < to
        invariant
            from <= i <= to <= v@.len(),
            out@ == v@.subrange(from as int, i as int),
        decreases to - i,
    {
        out.push(v[i]);
        proof {
            assert(v@.subrange(from as int, i + 1) =~= v@.subrange(from as int, i as int).push(
                v@[i as int],
            ));
        }
        i += 1;
    }
    out
}

impl Spline {
    /// A copy of the spline.
    pub fn duplicate(&self) -> (r: Spline)
        ensures
            r@ == self@,
    {
        Spline {
            control_points: copy_of(&self.control_points),
            knots: copy_of(&self.knots),
            weights: copy_of(&self.weights),
            fit_points: copy_of(&self.fit_points),
            form: self.form,
        }
    }
}

/// The form of an open polyline without width in the horizontal plane.
#[verifier::allow_in_spec]
pub fn plain_form() -> LwForm
    returns
        (LwForm {
            is_closed: false,
            plinegen: false,
            constant_width: zero(),
            elevation: zero(),
            thickness: zero(),
            normal: upward(),
        }),
{
    LwForm {
        is_closed: false,
        plinegen: false,
        constant_width: zero(),
        elevation: zero(),
        thickness: zero(),
        normal: upward(),
    }
}

/// A spline with the properties it is drawn with.
#[derive(Debug)]
pub struct SplineEntity {
    pub common: Common,
    pub spline: Spline,
}

/// The contents of a [`SplineEntity`].
#[verifier::ext_equal]
pub struct SplineEntityModel {
    pub common: CommonModel,
    pub spline: SplineModel,
}

impl View for SplineEntity {
    type V = SplineEntityModel;

    open spec fn view(&self) -> SplineEntityModel {
        SplineEntityModel { common: self.common@, spline: self.spline@ }
    }
}

impl SplineEntityModel {
    /// The spline as an entity of a drawing.
    pub open spec fn entity(self) -> EntityModel {
        EntityModel { common: self.common, shape: ShapeModel::Spline(self.spline) }
    }
}

impl SplineEntity {
    /// A copy of the spline and its properties.
    pub fn duplicate(&self) -> (r: SplineEntity)
        ensures
            r@ == self@,
    {
        SplineEntity {
            common: self.common.with_handle(self.common.handle),
            spline: self.spline.duplicate(),
        }
    }

    /// The spline as an entity of a drawing.
    pub fn into_entity(self) -> (r: Entity)
        ensures
            r@ == self@.entity(),
    {
        Entity { common: self.common, shape: Shape::Spline(self.spline) }
    }
}

} // verus!
