//! A drawing as the document operations see it: its entities, its layers and
//! blocks by name, and the objects that carry the data of applications.
use crate::entity::{
    fresh_model, views, Color, Common, CommonModel, Entity, EntityModel, Handle, Shape,
    ShapeModel,
};
use crate::tables::{
    block_add, block_append, block_contents, block_extended, block_from, block_rows, block_table,
    distinct_keys, distinct_numbers, keyed, layer_add, layer_get, layer_rows, layer_table,
    lemma_block_from, no_blocks, no_rows, row_at, BlockRow, BlockTable, LayerTable, NameRow,
};
use crate::text::owned;
use crate::value::{Point3, Real};
use vstd::prelude::*;

verus! {

/// The states of a layer that are yes or no.
#[derive(Clone, Copy, Debug, PartialEq, Eq, Structural)]
pub struct LayerFlags {
    pub frozen: bool,
    pub locked: bool,
    pub frozen_in_new_viewport: bool,
    pub off: bool,
}

/// How thick lines are drawn.
#[derive(Clone, Copy, Debug, PartialEq, Eq, Structural)]
pub enum LineWeight {
    ByLayer,
    ByBlock,
    /// The weight that the program draws with by default.
    Standard,
    /// A weight in hundredths of a millimetre.
    Value(i16),
}

/// A layer as it is asked for and reported.
#[derive(Debug)]
pub struct LayerInfo {
    pub name: String,
    pub flags: LayerFlags,
    pub color: Color,
    pub line_type: String,
    pub line_weight: LineWeight,
    pub plot_style: String,
    pub is_plottable: bool,
}

/// The contents of a [`LayerInfo`].
#[verifier::ext_equal]
pub struct LayerInfoModel {
    pub name: Seq<char>,
    pub flags: LayerFlags,
    pub color: Color,
    pub line_type: Seq<char>,
    pub line_weight: LineWeight,
    pub plot_style: Seq<char>,
    pub is_plottable: bool,
}

impl View for LayerInfo {
    type V = LayerInfoModel;

    open spec fn view(&self) -> LayerInfoModel {
        LayerInfoModel {
            name: self.name@,
            flags: self.flags,
            color: self.color,
            line_type: self.line_type@,
            line_weight: self.line_weight,
            plot_style: self.plot_style@,
            is_plottable: self.is_plottable,
        }
    }
}

/// What a layer looks like, apart from its name.
#[derive(Debug)]
pub struct LayerStyle {
    pub flags: LayerFlags,
    /// Whether the layer comes from a referenced drawing.
    pub xref_dependent: bool,
    pub color: Color,
    /// The name of the colour and of the book it is from.
    pub color_name: Option<String>,
    pub book_name: Option<String>,
    pub line_type: String,
    pub line_weight: LineWeight,
    pub plot_style: String,
    pub is_plottable: bool,
}

/// The contents of a [`LayerStyle`].
#[verifier::ext_equal]
pub struct StyleModel {
    pub flags: LayerFlags,
    pub xref_dependent: bool,
    pub color: Color,
    pub color_name: Option<Seq<char>>,
    pub book_name: Option<Seq<char>>,
    pub line_type: Seq<char>,
    pub line_weight: LineWeight,
    pub plot_style: Seq<char>,
    pub is_plottable: bool,
}

/// The contents of a text, where there is one.
pub open spec fn text_model(s: Option<String>) -> Option<Seq<char>> {
    match s {
        Some(s) => Some(s@),
        None => None,
    }
}

impl View for LayerStyle {
    type V = StyleModel;

    open spec fn view(&self) -> StyleModel {
        StyleModel {
            flags: self.flags,
            xref_dependent: self.xref_dependent,
            color: self.color,
            color_name: text_model(self.color_name),
            book_name: text_model(self.book_name),
            line_type: self.line_type@,
            line_weight: self.line_weight,
            plot_style: self.plot_style@,
            is_plottable: self.is_plottable,
        }
    }
}

/// How a layer looks that nothing was said of.
pub open spec fn plain_style() -> StyleModel {
    StyleModel {
        flags: LayerFlags {
            frozen: false,
            locked: false,
            frozen_in_new_viewport: false,
            off: false,
        },
        xref_dependent: false,
        color: Color::Index(7),
        color_name: None,
        book_name: None,
        line_type: "Continuous"@,
        line_weight: LineWeight::Standard,
        plot_style: ""@,
        is_plottable: true,
    }
}

impl LayerStyle {
    /// How a layer looks that nothing was said of.
    pub fn plain() -> (r: LayerStyle)
        ensures
            r@ == plain_style(),
    {
        LayerStyle {
            flags: LayerFlags {
                frozen: false,
                locked: false,
                frozen_in_new_viewport: false,
                off: false,
            },
            xref_dependent: false,
            color: Color::Index(7),
            color_name: None,
            book_name: None,
            line_type: owned("Continuous"),
            line_weight: LineWeight::Standard,
            plot_style: owned(""),
            is_plottable: true,
        }
    }
}

/// How a layer of a drawing looks, and its handle.
#[derive(Debug)]
pub struct Looks {
    pub handle: Handle,
    pub style: LayerStyle,
}

/// The contents of a [`Looks`].
#[verifier::ext_equal]
pub struct LooksModel {
    pub handle: Handle,
    pub style: StyleModel,
}

impl View for Looks {
    type V = LooksModel;

    open spec fn view(&self) -> LooksModel {
        LooksModel { handle: self.handle, style: self.style@ }
    }
}

/// How an object behaves when it is copied into another drawing.
#[derive(Clone, Copy, Debug, PartialEq, Eq, Structural)]
pub enum CloningFlags {
    NotApplicable,
    KeepExisting,
    UseClone,
    XrefName,
    Name,
    UnmangleName,
}

/// One value of a record.
#[derive(Debug)]
pub enum RecordValue {
    Text(String),
    Double(Real),
    Int16(i16),
    Int32(i32),
    Int64(i64),
    Byte(u8),
    Bool(bool),
    Handle(Handle),
    Point3D(Point3),
    Chunk(Vec<u8>),
}

/// The contents of a [`RecordValue`].
pub enum RecordValueModel {
    Text(Seq<char>),
    Double(Real),
    Int16(i16),
    Int32(i32),
    Int64(i64),
    Byte(u8),
    Bool(bool),
    Handle(Handle),
    Point3D(Point3),
    Chunk(Seq<u8>),
}

impl View for RecordValue {
    type V = RecordValueModel;

    open spec fn view(&self) -> RecordValueModel {
        match self {
            RecordValue::Text(s) => RecordValueModel::Text(s@),
            RecordValue::Double(v) => RecordValueModel::Double(*v),
            RecordValue::Int16(n) => RecordValueModel::Int16(*n),
            RecordValue::Int32(n) => RecordValueModel::Int32(*n),
            RecordValue::Int64(n) => RecordValueModel::Int64(*n),
            RecordValue::Byte(n) => RecordValueModel::Byte(*n),
            RecordValue::Bool(b) => RecordValueModel::Bool(*b),
            RecordValue::Handle(h) => RecordValueModel::Handle(*h),
            RecordValue::Point3D(p) => RecordValueModel::Point3D(*p),
            RecordValue::Chunk(b) => RecordValueModel::Chunk(b@),
        }
    }
}

impl RecordValue {
    /// A copy of the value.
    pub fn duplicate(&self) -> (r: RecordValue)
        ensures
            r@ == self@,
    {
        match self {
            RecordValue::Text(s) => RecordValue::Text(s.clone()),
            RecordValue::Double(v) => RecordValue::Double(*v),
            RecordValue::Int16(n) => RecordValue::Int16(*n),
            RecordValue::Int32(n) => RecordValue::Int32(*n),
            RecordValue::Int64(n) => RecordValue::Int64(*n),
            RecordValue::Byte(n) => RecordValue::Byte(*n),
            RecordValue::Bool(b) => RecordValue::Bool(*b),
            RecordValue::Handle(h) => RecordValue::Handle(*h),
            RecordValue::Point3D(p) => RecordValue::Point3D(*p),
            RecordValue::Chunk(b) => RecordValue::Chunk(crate::entity::copy_of(b)),
        }
    }
}

/// One entry of a record: a group code and its value.
#[derive(Debug)]
pub struct RecordEntry {
    pub code: i32,
    pub value: RecordValue,
}

/// The contents of a [`RecordEntry`].
#[verifier::ext_equal]
pub struct RecordEntryModel {
    pub code: i32,
    pub value: RecordValueModel,
}

impl View for RecordEntry {
    type V = RecordEntryModel;

    open spec fn view(&self) -> RecordEntryModel {
        RecordEntryModel { code: self.code, value: self.value@ }
    }
}

/// A copy of the entries of a record.
pub fn copy_entries(v: &Vec<RecordEntry>) -> (r: Vec<RecordEntry>)
    ensures
        views(r@) == views(v@),
{
    let mut out: Vec<RecordEntry> = Vec::new();
    let n: usize = v.len();
    let mut i: usize = 0;
    while i < n
        invariant
            i <= n == v@.len(),
            out@.len() == i,
            forall|k: int| 0 <= k < i ==> #[trigger] out@[k]@ == v@[k]@,
        decreases n - i,
    {
        out.push(RecordEntry { code: v[i].code, value: v[i].value.duplicate() });
        i += 1;
    }
    proof {
        assert(views(out@) =~= views(v@));
    }
    out
}

/// A record as it is asked for and reported.
#[derive(Debug)]
pub struct RecordSpec {
    pub name: String,
    pub cloning_flags: CloningFlags,
    pub entries: Vec<RecordEntry>,
}

/// The contents of a [`RecordSpec`].
#[verifier::ext_equal]
pub struct RecordSpecModel {
    pub name: Seq<char>,
    pub cloning_flags: CloningFlags,
    pub entries: Seq<RecordEntryModel>,
}

impl View for RecordSpec {
    type V = RecordSpecModel;

    open spec fn view(&self) -> RecordSpecModel {
        RecordSpecModel {
            name: self.name@,
            cloning_flags: self.cloning_flags,
            entries: views(self.entries@),
        }
    }
}

/// How one object refers to another.
#[derive(Clone, Copy, Debug, PartialEq, Eq, Structural)]
pub enum ReferenceKind {
    Undefined,
    SoftOwnership,
    HardOwnership,
    SoftPointer,
    HardPointer,
}

/// A reference from a record to another object.
#[derive(Clone, Copy, Debug, PartialEq, Eq, Structural)]
pub struct Reference {
    pub handle: Handle,
    pub kind: ReferenceKind,
}

/// A record of values under a name.
#[derive(Debug)]
pub struct XRecord {
    pub name: String,
    pub owner: Handle,
    pub cloning_flags: CloningFlags,
    pub entries: Vec<RecordEntry>,
    /// The objects that the entries refer to.
    pub references: Vec<Reference>,
}

/// The contents of an [`XRecord`].
#[verifier::ext_equal]
pub struct XRecordModel {
    pub name: Seq<char>,
    pub owner: Handle,
    pub cloning_flags: CloningFlags,
    pub entries: Seq<RecordEntryModel>,
    pub references: Seq<Reference>,
}

impl View for XRecord {
    type V = XRecordModel;

    open spec fn view(&self) -> XRecordModel {
        XRecordModel {
            name: self.name@,
            owner: self.owner,
            cloning_flags: self.cloning_flags,
            entries: views(self.entries@),
            references: self.references@,
        }
    }
}

/// A name in a dictionary and the object it leads to.
#[derive(Debug)]
pub struct DictEntry {
    pub name: String,
    pub handle: Handle,
}

/// The contents of a [`DictEntry`].
#[verifier::ext_equal]
pub struct DictEntryModel {
    pub name: Seq<char>,
    pub handle: Handle,
}

impl View for DictEntry {
    type V = DictEntryModel;

    open spec fn view(&self) -> DictEntryModel {
        DictEntryModel { name: self.name@, handle: self.handle }
    }
}

/// A dictionary of objects.
#[derive(Debug)]
pub struct Dictionary {
    pub owner: Handle,
    pub entries: Vec<DictEntry>,
}

/// The contents of a [`Dictionary`].
#[verifier::ext_equal]
pub struct DictionaryModel {
    pub owner: Handle,
    pub entries: Seq<DictEntryModel>,
}

impl View for Dictionary {
    type V = DictionaryModel;

    open spec fn view(&self) -> DictionaryModel {
        DictionaryModel { owner: self.owner, entries: views(self.entries@) }
    }
}

/// An object of a drawing that is not drawn.
#[derive(Debug)]
pub enum Object {
    Dictionary(Dictionary),
    XRecord(XRecord),
    /// The definition of a raster image, by the path of its file.
    ImageDefinition(String),
    /// Any other object, which is not looked into.
    Other,
}

/// The contents of an [`Object`].
pub enum ObjectModel {
    Dictionary(DictionaryModel),
    XRecord(XRecordModel),
    ImageDefinition(Seq<char>),
    Other,
}

impl View for Object {
    type V = ObjectModel;

    open spec fn view(&self) -> ObjectModel {
        match self {
            Object::Dictionary(d) => ObjectModel::Dictionary(d@),
            Object::XRecord(x) => ObjectModel::XRecord(x@),
            Object::ImageDefinition(path) => ObjectModel::ImageDefinition(path@),
            Object::Other => ObjectModel::Other,
        }
    }
}

/// An object and its handle.
#[derive(Debug)]
pub struct Filed {
    pub handle: Handle,
    pub object: Object,
}

/// The contents of a [`Filed`].
#[verifier::ext_equal]
pub struct FiledModel {
    pub handle: Handle,
    pub object: ObjectModel,
}

impl View for Filed {
    type V = FiledModel;

    open spec fn view(&self) -> FiledModel {
        FiledModel { handle: self.handle, object: self.object@ }
    }
}

/// Looks with those under a number changed.
pub open spec fn restyled(looks: Seq<LooksModel>, number: int, style: StyleModel) -> Seq<
    LooksModel,
> {
    if 0 <= number < looks.len() {
        looks.update(number, LooksModel { style, ..looks[number] })
    } else {
        looks
    }
}

/// The name of the block that holds the entities of model space.
pub const MODEL_SPACE: &'static str = "*Model_Space";

/// A drawing.
pub struct Document {
    pub entities: Vec<Entity>,
    pub layers: LayerTable,
    /// How the layers look, by the numbers in their rows. The looks of a layer
    /// that is gone stay behind, and its number is not used again.
    pub looks: Vec<Looks>,
    pub blocks: BlockTable,
    pub objects: Vec<Filed>,
    /// The handle of the dictionary that all named objects hang on.
    pub root: Handle,
    /// The layer that is drawn on.
    pub current_layer: String,
    /// The handle that the next new object gets.
    pub next_handle: Handle,
}

/// The contents of a [`Document`].
#[verifier::ext_equal]
pub struct DocModel {
    pub entities: Seq<EntityModel>,
    pub layers: Seq<NameRow>,
    pub looks: Seq<LooksModel>,
    pub blocks: Seq<BlockRow>,
    pub objects: Seq<FiledModel>,
    pub root: Handle,
    pub current_layer: Seq<char>,
    pub next_handle: Handle,
}

impl View for Document {
    type V = DocModel;

    open spec fn view(&self) -> DocModel {
        DocModel {
            entities: views(self.entities@),
            layers: layer_rows(self.layers),
            looks: views(self.looks@),
            blocks: block_rows(self.blocks),
            objects: views(self.objects@),
            root: self.root,
            current_layer: self.current_layer@,
            next_handle: self.next_handle,
        }
    }
}

/// The first entity with a handle, from `from` on.
pub open spec fn entity_from(entities: Seq<EntityModel>, handle: Handle, from: int) -> Option<int>
    decreases entities.len() - from,
{
    if from < 0 || from >= entities.len() {
        None
    } else if entities[from].common.handle == handle {
        Some(from)
    } else {
        entity_from(entities, handle, from + 1)
    }
}

/// The first object with a handle, from `from` on.
pub open spec fn object_from(objects: Seq<FiledModel>, handle: Handle, from: int) -> Option<int>
    decreases objects.len() - from,
{
    if from < 0 || from >= objects.len() {
        None
    } else if objects[from].handle == handle {
        Some(from)
    } else {
        object_from(objects, handle, from + 1)
    }
}

pub proof fn lemma_entity_from(entities: Seq<EntityModel>, handle: Handle, from: int)
    requires
        0 <= from <= entities.len(),
    ensures
        match entity_from(entities, handle, from) {
            Some(i) => from <= i < entities.len() && entities[i].common.handle == handle
                && forall|k: int|
                from <= k < i ==> (#[trigger] entities[k]).common.handle != handle,
            None => forall|k: int|
                from <= k < entities.len() ==> (#[trigger] entities[k]).common.handle != handle,
        },
    decreases entities.len() - from,
{
    if from < entities.len() && entities[from].common.handle != handle {
        lemma_entity_from(entities, handle, from + 1);
    }
}

pub proof fn lemma_object_from(objects: Seq<FiledModel>, handle: Handle, from: int)
    requires
        0 <= from <= objects.len(),
    ensures
        match object_from(objects, handle, from) {
            Some(i) => from <= i < objects.len() && objects[i].handle == handle && forall|k: int|
                from <= k < i ==> (#[trigger] objects[k]).handle != handle,
            None => forall|k: int|
                from <= k < objects.len() ==> (#[trigger] objects[k]).handle != handle,
        },
    decreases objects.len() - from,
{
    if from < objects.len() && objects[from].handle != handle {
        lemma_object_from(objects, handle, from + 1);
    }
}

impl DocModel {
    /// Where the entity with a handle stands.
    pub open spec fn place(self, handle: Handle) -> Option<int> {
        entity_from(self.entities, handle, 0)
    }

    /// Where the object with a handle stands.
    pub open spec fn object_place(self, handle: Handle) -> Option<int> {
        object_from(self.objects, handle, 0)
    }

    /// The dictionary with a handle.
    pub open spec fn dictionary(self, handle: Handle) -> Option<DictionaryModel> {
        match self.object_place(handle) {
            Some(i) => match self.objects[i].object {
                ObjectModel::Dictionary(d) => Some(d),
                _ => None,
            },
            None => None,
        }
    }

    /// The row of the layer found by a name.
    pub open spec fn layer_row(self, name: Seq<char>) -> Option<int> {
        row_at(self.layers, keyed(name))
    }

    /// How the layer in a row looks.
    pub open spec fn style_at(self, row: int) -> StyleModel {
        let number = self.layers[row].number;
        if 0 <= number < self.looks.len() {
            self.looks[number].style
        } else {
            plain_style()
        }
    }

    /// The looks of the layer found by a name, and its handle.
    pub open spec fn looks_by_name(self, name: Seq<char>) -> Option<LooksModel> {
        match self.layer_row(name) {
            Some(i) => if 0 <= self.layers[i].number < self.looks.len() {
                Some(self.looks[self.layers[i].number])
            } else {
                None
            },
            None => None,
        }
    }

    /// Whether the layer found by a name is locked.
    pub open spec fn layer_locked(self, name: Seq<char>) -> bool {
        match self.layer_row(name) {
            Some(i) => self.style_at(i).flags.locked,
            None => false,
        }
    }

    /// Whether the entity at a place is on a locked layer.
    pub open spec fn locked_at(self, i: int) -> bool {
        self.layer_locked(self.entities[i].common.layer)
    }

    /// The drawing with one more layer, behind the others and with looks of its
    /// own.
    pub open spec fn with_layer(self, name: Seq<char>, handle: Handle, style: StyleModel) -> DocModel {
        DocModel {
            layers: self.layers.push(
                NameRow { key: keyed(name), name, number: self.looks.len() as int },
            ),
            looks: self.looks.push(LooksModel { handle, style }),
            ..self
        }
    }

    /// The drawing with one more entity, which gets the next handle and comes
    /// last in model space.
    pub open spec fn with_new(self, layer: Seq<char>, shape: ShapeModel) -> DocModel {
        DocModel {
            entities: self.entities.push(
                EntityModel {
                    common: CommonModel { handle: self.next_handle, layer, ..fresh_model() },
                    shape,
                },
            ),
            blocks: block_extended(self.blocks, MODEL_SPACE@, self.next_handle),
            next_handle: (self.next_handle + 1) as Handle,
            ..self
        }
    }

    /// The drawing with one more object under a handle.
    pub open spec fn with_object(self, handle: Handle, object: ObjectModel) -> DocModel {
        DocModel { objects: self.objects.push(FiledModel { handle, object }), ..self }
    }

    /// The drawing with another shape at a place.
    pub open spec fn with_shape(self, i: int, shape: ShapeModel) -> DocModel {
        DocModel {
            entities: self.entities.update(i, EntityModel { shape, ..self.entities[i] }),
            ..self
        }
    }

    /// Whether each layer is found by a name of its own and has looks of its own.
    pub open spec fn layers_wf(self) -> bool {
        &&& distinct_keys(self.layers)
        &&& distinct_numbers(self.layers)
        &&& forall|i: int|
            0 <= i < self.layers.len() ==> 0 <= (#[trigger] self.layers[i]).number
                < self.looks.len()
    }

    /// Whether handles and names leave no doubt: no two entities, no two objects
    /// and no two layers have the same, and no handle of an entity or an object is
    /// as large as the next one. Each layer has looks of its own.
    pub open spec fn wf(self) -> bool {
        &&& forall|i: int, j: int|
            0 <= i < self.entities.len() && 0 <= j < self.entities.len() && i != j
                ==> #[trigger] self.entities[i].common.handle
                != #[trigger] self.entities[j].common.handle
        &&& forall|i: int|
            0 <= i < self.entities.len() ==> (#[trigger] self.entities[i]).common.handle
                < self.next_handle
        &&& forall|i: int, j: int|
            0 <= i < self.objects.len() && 0 <= j < self.objects.len() && i != j
                ==> #[trigger] self.objects[i].handle != #[trigger] self.objects[j].handle
        &&& forall|i: int|
            0 <= i < self.objects.len() ==> (#[trigger] self.objects[i]).handle
                < self.next_handle
        &&& self.layers_wf()
        &&& self.root < self.next_handle
    }
}

/// The drawing with a layer read in, where none has its name.
pub open spec fn layer_loaded(
    doc: DocModel,
    name: Seq<char>,
    handle: Handle,
    style: StyleModel,
) -> DocModel {
    if doc.layer_row(name) is None {
        doc.with_layer(name, handle, style)
    } else {
        doc
    }
}

/// The drawing with a block read in, where none has its name.
pub open spec fn block_loaded(doc: DocModel, name: Seq<char>, entities: Seq<Handle>) -> DocModel {
    if block_contents(doc.blocks, name) is None {
        DocModel { blocks: doc.blocks.push(BlockRow { key: keyed(name), entities }), ..doc }
    } else {
        doc
    }
}

impl Document {
    /// An empty drawing that draws on the layer `0`, which is not there yet.
    pub fn new(root: Handle, next_handle: Handle) -> (r: Document)
        ensures
            r@ == (DocModel {
                entities: Seq::empty(),
                layers: no_rows(),
                looks: Seq::empty(),
                blocks: no_blocks(),
                objects: Seq::empty(),
                root,
                current_layer: "0"@,
                next_handle,
            }),
            root < next_handle ==> r@.wf(),
    {
        let r = Document {
            entities: Vec::new(),
            layers: layer_table(),
            looks: Vec::new(),
            blocks: block_table(),
            objects: Vec::new(),
            root,
            current_layer: owned("0"),
            next_handle,
        };
        proof {
            assert(views(r.entities@) =~= Seq::<EntityModel>::empty());
            assert(views(r.objects@) =~= Seq::<FiledModel>::empty());
            assert(views(r.looks@) =~= Seq::<LooksModel>::empty());
        }
        r
    }

    /// Puts a layer at the end of the table, unless its name is taken.
    pub fn load_layer(&mut self, name: &str, handle: Handle, style: LayerStyle) -> (r: bool)
        ensures
            r == old(self)@.layer_row(name@) is None,
            final(self)@ == layer_loaded(old(self)@, name@, handle, style@),
    {
        let added = layer_add(&mut self.layers, name, self.looks.len() as u64);
        if added {
            let ghost before = self.looks@;
            let new = Looks { handle, style };
            let ghost m = new@;
            self.looks.push(new);
            proof {
                assert(views(self.looks@) =~= views(before).push(m));
            }
        }
        added
    }

    /// The looks of the layer found by a name, and its handle.
    pub fn layer_looks(&self, name: &str) -> (r: Option<&Looks>)
        ensures
            match r {
                Some(looks) => self@.looks_by_name(name@) == Some(looks@),
                None => self@.looks_by_name(name@) is None,
            },
    {
        match layer_get(&self.layers, name) {
            Some((number, _)) => self.looks_of(number),
            None => None,
        }
    }

    /// The looks of the layer with a number in its row, and its handle.
    pub(crate) fn looks_of(&self, number: u64) -> (r: Option<&Looks>)
        ensures
            match r {
                Some(looks) => number < self@.looks.len() && looks@ == self@.looks[number as int],
                None => number >= self@.looks.len(),
            },
    {
        if number < self.looks.len() as u64 {
            let i: usize = number as usize;
            proof {
                assert(self@.looks[i as int] == self.looks@[i as int]@);
            }
            Some(&self.looks[i])
        } else {
            None
        }
    }

    /// Gives the layer with a number in its row other looks.
    pub(crate) fn restyle(&mut self, number: u64, style: LayerStyle)
        ensures
            final(self)@ == (DocModel {
                looks: restyled(old(self)@.looks, number as int, style@),
                ..old(self)@
            }),
    {
        if number < self.looks.len() as u64 {
            let i: usize = number as usize;
            let ghost before = self.looks@;
            let ghost m = style@;
            self.looks[i].style = style;
            proof {
                assert(views(self.looks@) =~= restyled(views(before), number as int, m));
            }
        }
    }

    /// Puts a block at the end of the table, unless its name is taken.
    pub fn load_block(&mut self, name: &str, entities: &Vec<Handle>) -> (r: bool)
        ensures
            r == block_contents(old(self)@.blocks, name@) is None,
            final(self)@ == block_loaded(old(self)@, name@, entities@),
    {
        block_add(&mut self.blocks, name, entities)
    }

    /// Where the entity with a handle stands.
    pub fn find(&self, handle: Handle) -> (r: Option<usize>)
        ensures
            match r {
                Some(i) => self@.place(handle) == Some(i as int) && i < self.entities@.len()
                    && self@.entities[i as int].common.handle == handle,
                None => self@.place(handle) is None,
            },
    {
        let n: usize = self.entities.len();
        let mut i: usize = 0;
        while i < n
            invariant
                i <= n == self.entities@.len(),
                self@.place(handle) == entity_from(self@.entities, handle, i as int),
            decreases n - i,
        {
            proof {
                assert(self@.entities[i as int] == self.entities@[i as int]@);
            }
            if self.entities[i].common.handle == handle {
                return Some(i);
            }
            i += 1;
        }
        None
    }

    /// Where the object with a handle stands.
    pub fn find_object(&self, handle: Handle) -> (r: Option<usize>)
        ensures
            match r {
                Some(i) => self@.object_place(handle) == Some(i as int) && i < self.objects@.len()
                    && self@.objects[i as int].handle == handle,
                None => self@.object_place(handle) is None,
            },
    {
        let n: usize = self.objects.len();
        let mut i: usize = 0;
        while i < n
            invariant
                i <= n == self.objects@.len(),
                self@.object_place(handle) == object_from(self@.objects, handle, i as int),
            decreases n - i,
        {
            proof {
                assert(self@.objects[i as int] == self.objects@[i as int]@);
            }
            if self.objects[i].handle == handle {
                return Some(i);
            }
            i += 1;
        }
        None
    }

    /// Whether the layer found by a name is locked.
    pub fn is_layer_locked(&self, name: &str) -> (r: bool)
        ensures
            r == self@.layer_locked(name@),
    {
        match layer_get(&self.layers, name) {
            Some((number, _)) => match self.looks_of(number) {
                Some(looks) => looks.style.flags.locked,
                None => false,
            },
            None => false,
        }
    }

    /// Whether the entity at a place is on a locked layer.
    pub fn is_locked(&self, i: usize) -> (r: bool)
        requires
            i < self.entities@.len(),
        ensures
            r == self@.locked_at(i as int),
    {
        proof {
            assert(self@.entities[i as int] == self.entities@[i as int]@);
        }
        self.is_layer_locked(self.entities[i].common.layer.as_str())
    }

    /// Takes the next handle.
    pub fn allocate_handle(&mut self) -> (r: Handle)
        requires
            old(self)@.next_handle < u64::MAX,
        ensures
            r == old(self)@.next_handle,
            final(self)@ == (DocModel {
                next_handle: (old(self)@.next_handle + 1) as Handle,
                ..old(self)@
            }),
    {
        let handle: Handle = self.next_handle;
        self.next_handle = handle + 1;
        handle
    }

    /// Adds an entity on a layer, under the next handle and in model space.
    pub fn add_entity(&mut self, layer: String, shape: Shape) -> (r: Handle)
        requires
            old(self)@.next_handle < u64::MAX,
        ensures
            r == old(self)@.next_handle,
            final(self)@ == old(self)@.with_new(layer@, shape@),
    {
        let handle: Handle = self.allocate_handle();
        let mut common = Common::fresh();
        common.handle = handle;
        common.layer = layer;
        let ghost before = self.entities@;
        let e = Entity { common, shape };
        let ghost m = e@;
        self.entities.push(e);
        block_append(&mut self.blocks, MODEL_SPACE, handle);
        proof {
            assert(views(self.entities@) =~= views(before).push(m));
        }
        handle
    }

    /// Files an object under the next handle.
    pub fn file_object(&mut self, object: Object) -> (r: Handle)
        requires
            old(self)@.next_handle < u64::MAX,
        ensures
            r == old(self)@.next_handle,
            final(self)@ == (DocModel {
                next_handle: (old(self)@.next_handle + 1) as Handle,
                ..old(self)@.with_object(old(self)@.next_handle, object@)
            }),
    {
        let handle: Handle = self.allocate_handle();
        let ghost before = self.objects@;
        let filed = Filed { handle, object };
        let ghost m = filed@;
        self.objects.push(filed);
        proof {
            assert(views(self.objects@) =~= views(before).push(m));
        }
        handle
    }

    /// Gives the entity at a place another shape.
    pub fn set_shape(&mut self, i: usize, shape: Shape)
        requires
            i < old(self).entities@.len(),
        ensures
            final(self)@ == old(self)@.with_shape(i as int, shape@),
            final(self).entities@.len() == old(self).entities@.len(),
    {
        let ghost before = self.entities@;
        self.entities[i].shape = shape;
        proof {
            assert(views(self.entities@) =~= views(before).update(
                i as int,
                EntityModel { shape: shape@, ..before[i as int]@ },
            ));
        }
    }
}

/// The block of model space, where there is one, lists every new entity last, and
/// no other block changes.
pub proof fn new_entity_joins_model_space(doc: DocModel, layer: Seq<char>, shape: ShapeModel)
    ensures
        ({
            let after = doc.with_new(layer, shape);
            &&& block_contents(after.blocks, MODEL_SPACE@) == (match block_contents(
                doc.blocks,
                MODEL_SPACE@,
            ) {
                Some(list) => Some(list.push(doc.next_handle)),
                None => None,
            })
            &&& after.blocks.len() == doc.blocks.len()
            &&& forall|name: Seq<char>|
                keyed(name) != keyed(MODEL_SPACE@) ==> #[trigger] block_contents(
                    after.blocks,
                    name,
                ) == block_contents(doc.blocks, name)
        }),
{
    let after = doc.with_new(layer, shape);
    let key = keyed(MODEL_SPACE@);
    lemma_block_from(doc.blocks, key, 0);
    lemma_block_from(after.blocks, key, 0);
    assert forall|k: int| 0 <= k < doc.blocks.len() implies (#[trigger] after.blocks[k]).key
        == doc.blocks[k].key by {}
    if let Some(i) = block_from(doc.blocks, key, 0) {
        assert(after.blocks[i].key == key);
        if let Some(j) = block_from(after.blocks, key, 0) {
            assert(after.blocks[j].key == doc.blocks[j].key);
            assert(j == i);
        }
    } else if let Some(j) = block_from(after.blocks, key, 0) {
        assert(after.blocks[j].key == doc.blocks[j].key);
    }
    assert forall|name: Seq<char>| keyed(name) != key implies #[trigger] block_contents(
        after.blocks,
        name,
    ) == block_contents(doc.blocks, name) by {
        lemma_block_from(doc.blocks, keyed(name), 0);
        lemma_block_from(after.blocks, keyed(name), 0);
        let a = block_from(doc.blocks, keyed(name), 0);
        let b = block_from(after.blocks, keyed(name), 0);
        if let Some(i) = a {
            assert(after.blocks[i].key == doc.blocks[i].key);
        }
        if let Some(i) = b {
            assert(after.blocks[i].key == doc.blocks[i].key);
        }
    }
}

/// Adding an entity keeps handles without doubt, and the new entity is found
/// under the handle that was given out.
pub proof fn new_entity_is_found(doc: DocModel, layer: Seq<char>, shape: ShapeModel)
    requires
        doc.wf(),
        doc.next_handle < u64::MAX,
    ensures
        ({
            let after = doc.with_new(layer, shape);
            &&& after.wf()
            &&& after.place(doc.next_handle) == Some(doc.entities.len() as int)
            &&& doc.place(doc.next_handle) is None
            &&& forall|h: Handle|
                h != doc.next_handle ==> #[trigger] after.place(h) == doc.place(h)
        }),
{
    let after = doc.with_new(layer, shape);
    lemma_entity_from(doc.entities, doc.next_handle, 0);
    lemma_entity_from(after.entities, doc.next_handle, 0);
    assert(after.entities[doc.entities.len() as int].common.handle == doc.next_handle);
    assert forall|k: int| 0 <= k < doc.entities.len() implies after.entities[k]
        == #[trigger] doc.entities[k] by {}
    assert forall|h: Handle| h != doc.next_handle implies #[trigger] after.place(h) == doc.place(
        h,
    ) by {
        lemma_entity_from(doc.entities, h, 0);
        lemma_entity_from(after.entities, h, 0);
        if let Some(i) = doc.place(h) {
            assert(after.entities[i].common.handle == h);
        }
    }
}

} // verus!
