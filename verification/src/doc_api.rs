//! The operations that plugins perform on an open drawing.
use crate::document::{lemma_entity_from, DocModel, Document};
use crate::entity::{views, Handle};
use crate::handle_map::{map_new, map_remove};
use crate::tables::{ascii, ascii_names_settle, keyed, layer_contains, normalize, settled};
use crate::text::{decimal, join, join3, number, owned, texts, trim, trimmed};
use crate::value::{Point3, Real};
use rustc_hash::FxHashMap;
use vstd::prelude::*;

verus! {

/// Why a request was refused, with what it is about.
#[derive(Debug)]
pub enum Reason {
    /// A sentence of its own.
    Note(&'static str),
    /// The entity is on a locked layer.
    LockedLayer(Handle),
    /// The entity cannot be moved to a locked layer.
    LockedTarget { id: Handle, layer: String },
    EmptyLayerName,
    NoLayer(String),
    LayerExists(String),
    LayerInUse(String),
    /// A name is taken in a table.
    EntryExists(String),
    UnknownBlock(String),
    UnknownObject(Handle),
    NotARecord(Handle),
    RecordExists(String),
    /// A place past the end of a list.
    OutOfRange { at: usize, count: usize },
    ImageExtension(String),
    /// What the geometry side said.
    Outside(String),
}

/// The contents of a [`Reason`].
pub enum ReasonModel {
    Note(Seq<char>),
    LockedLayer(Handle),
    LockedTarget { id: Handle, layer: Seq<char> },
    EmptyLayerName,
    NoLayer(Seq<char>),
    LayerExists(Seq<char>),
    LayerInUse(Seq<char>),
    EntryExists(Seq<char>),
    UnknownBlock(Seq<char>),
    UnknownObject(Handle),
    NotARecord(Handle),
    RecordExists(Seq<char>),
    OutOfRange { at: usize, count: usize },
    ImageExtension(Seq<char>),
    Outside(Seq<char>),
}

impl View for Reason {
    type V = ReasonModel;

    open spec fn view(&self) -> ReasonModel {
        match self {
            Reason::Note(s) => ReasonModel::Note(s@),
            Reason::LockedLayer(id) => ReasonModel::LockedLayer(*id),
            Reason::LockedTarget { id, layer } => ReasonModel::LockedTarget {
                id: *id,
                layer: layer@,
            },
            Reason::EmptyLayerName => ReasonModel::EmptyLayerName,
            Reason::NoLayer(s) => ReasonModel::NoLayer(s@),
            Reason::LayerExists(s) => ReasonModel::LayerExists(s@),
            Reason::LayerInUse(s) => ReasonModel::LayerInUse(s@),
            Reason::EntryExists(s) => ReasonModel::EntryExists(s@),
            Reason::UnknownBlock(s) => ReasonModel::UnknownBlock(s@),
            Reason::UnknownObject(id) => ReasonModel::UnknownObject(*id),
            Reason::NotARecord(id) => ReasonModel::NotARecord(*id),
            Reason::RecordExists(s) => ReasonModel::RecordExists(s@),
            Reason::OutOfRange { at, count } => ReasonModel::OutOfRange { at: *at, count: *count },
            Reason::ImageExtension(s) => ReasonModel::ImageExtension(s@),
            Reason::Outside(s) => ReasonModel::Outside(s@),
        }
    }
}

/// The sentence for a reason. `shown` is how the program writes the object or
/// the text that the reason is about, where the sentence shows it that way.
pub open spec fn sentence(r: ReasonModel, shown: Seq<char>) -> Seq<char> {
    match r {
        ReasonModel::Note(s) => s,
        ReasonModel::LockedLayer(id) => "entity "@ + shown + " is on a locked layer"@,
        ReasonModel::LockedTarget { id, layer } => "entity "@ + shown
            + " cannot be moved to locked layer '"@ + layer + "'"@,
        ReasonModel::EmptyLayerName => "empty layer name"@,
        ReasonModel::NoLayer(s) => "layer '"@ + s + "' does not exist"@,
        ReasonModel::LayerExists(s) => "layer '"@ + s + "' already exists"@,
        ReasonModel::LayerInUse(s) => "layer '"@ + s + "' is still in use"@,
        ReasonModel::EntryExists(s) => "Entry '"@ + s + "' already exists in table"@,
        ReasonModel::UnknownBlock(s) => "unknown block "@ + shown,
        ReasonModel::UnknownObject(id) => "unknown ObjectId "@ + shown,
        ReasonModel::NotARecord(id) => "ObjectId "@ + shown + " is not an XRecord"@,
        ReasonModel::RecordExists(s) => "XRecord '"@ + s + "' already exists"@,
        ReasonModel::OutOfRange { at, count } => "index "@ + decimal(at as nat)
            + " out of range ("@ + decimal(count as nat) + " vertices)"@,
        ReasonModel::ImageExtension(s) => "unsupported image file extension in "@ + shown,
        ReasonModel::Outside(s) => s,
    }
}

impl Reason {
    /// The sentence for this reason. `shown` is how the program writes the
    /// object or the text that the reason is about.
    pub fn text(&self, shown: &str) -> (r: String)
        ensures
            r@ == sentence(self@, shown@),
    {
        match self {
            Reason::Note(s) => owned(s),
            Reason::LockedLayer(_) => join3("entity ", shown, " is on a locked layer"),
            Reason::LockedTarget { id: _, layer } => {
                let head = join3("entity ", shown, " cannot be moved to locked layer '");
                join3(head.as_str(), layer.as_str(), "'")
            },
            Reason::EmptyLayerName => owned("empty layer name"),
            Reason::NoLayer(s) => join3("layer '", s.as_str(), "' does not exist"),
            Reason::LayerExists(s) => join3("layer '", s.as_str(), "' already exists"),
            Reason::LayerInUse(s) => join3("layer '", s.as_str(), "' is still in use"),
            Reason::EntryExists(s) => join3("Entry '", s.as_str(), "' already exists in table"),
            Reason::UnknownBlock(_) => join("unknown block ", shown),
            Reason::UnknownObject(_) => join("unknown ObjectId ", shown),
            Reason::NotARecord(_) => join3("ObjectId ", shown, " is not an XRecord"),
            Reason::RecordExists(s) => join3("XRecord '", s.as_str(), "' already exists"),
            Reason::OutOfRange { at, count } => {
                let a = number(*at as u64);
                let c = number(*count as u64);
                let head = join3("index ", a.as_str(), " out of range (");
                join3(head.as_str(), c.as_str(), " vertices)")
            },
            Reason::ImageExtension(_) => join("unsupported image file extension in ", shown),
            Reason::Outside(s) => owned(s.as_str()),
        }
    }

    /// A copy of the reason.
    pub fn duplicate(&self) -> (r: Reason)
        ensures
            r@ == self@,
    {
        match self {
            Reason::Note(s) => Reason::Note(s),
            Reason::LockedLayer(id) => Reason::LockedLayer(*id),
            Reason::LockedTarget { id, layer } => Reason::LockedTarget {
                id: *id,
                layer: layer.clone(),
            },
            Reason::EmptyLayerName => Reason::EmptyLayerName,
            Reason::NoLayer(s) => Reason::NoLayer(s.clone()),
            Reason::LayerExists(s) => Reason::LayerExists(s.clone()),
            Reason::LayerInUse(s) => Reason::LayerInUse(s.clone()),
            Reason::EntryExists(s) => Reason::EntryExists(s.clone()),
            Reason::UnknownBlock(s) => Reason::UnknownBlock(s.clone()),
            Reason::UnknownObject(id) => Reason::UnknownObject(*id),
            Reason::NotARecord(id) => Reason::NotARecord(*id),
            Reason::RecordExists(s) => Reason::RecordExists(s.clone()),
            Reason::OutOfRange { at, count } => Reason::OutOfRange { at: *at, count: *count },
            Reason::ImageExtension(s) => Reason::ImageExtension(s.clone()),
            Reason::Outside(s) => Reason::Outside(s.clone()),
        }
    }
}

/// What kind of geometry failed.
#[derive(Clone, Copy, Debug, PartialEq, Eq, Structural)]
pub enum GeometryErrorKind {
    InvalidInput,
    Empty,
    Acis,
    Other,
}

/// How a request was refused.
#[derive(Debug)]
pub enum ApiError {
    /// Nothing has this handle.
    UnknownId(Handle),
    /// What the operation was asked for cannot be.
    Validation { op: &'static str, reason: Reason },
    /// The operation does not do this.
    Unsupported(Reason),
    /// The geometry side failed.
    Geometry { kind: GeometryErrorKind, message: &'static str },
}

/// The contents of an [`ApiError`].
pub enum ErrorModel {
    UnknownId(Handle),
    Validation { op: Seq<char>, reason: ReasonModel },
    Unsupported(ReasonModel),
    Geometry { kind: GeometryErrorKind, message: Seq<char> },
}

impl View for ApiError {
    type V = ErrorModel;

    open spec fn view(&self) -> ErrorModel {
        match self {
            ApiError::UnknownId(id) => ErrorModel::UnknownId(*id),
            ApiError::Validation { op, reason } => ErrorModel::Validation {
                op: op@,
                reason: reason@,
            },
            ApiError::Unsupported(reason) => ErrorModel::Unsupported(reason@),
            ApiError::Geometry { kind, message } => ErrorModel::Geometry {
                kind: *kind,
                message: message@,
            },
        }
    }
}

impl ApiError {
    /// A copy of the error.
    pub fn duplicate(&self) -> (r: ApiError)
        ensures
            r@ == self@,
    {
        match self {
            ApiError::UnknownId(id) => ApiError::UnknownId(*id),
            ApiError::Validation { op, reason } => ApiError::Validation {
                op,
                reason: reason.duplicate(),
            },
            ApiError::Unsupported(reason) => ApiError::Unsupported(reason.duplicate()),
            ApiError::Geometry { kind, message } => ApiError::Geometry { kind: *kind, message },
        }
    }
}

/// The error for an entity on a locked layer.
pub open spec fn locked_error(id: Handle) -> ErrorModel {
    ErrorModel::Unsupported(ReasonModel::LockedLayer(id))
}

/// The error for an operation that does not do this.
pub open spec fn not_for(note: Seq<char>) -> ErrorModel {
    ErrorModel::Unsupported(ReasonModel::Note(note))
}

/// The error for a request that cannot be, with a sentence of its own.
pub open spec fn refused(op: Seq<char>, note: Seq<char>) -> ErrorModel {
    ErrorModel::Validation { op, reason: ReasonModel::Note(note) }
}

/// The contents of the result of an operation.
pub open spec fn outcome<T>(r: Result<T, ApiError>) -> Result<T, ErrorModel> {
    match r {
        Ok(v) => Ok(v),
        Err(e) => Err(e@),
    }
}

/// The volume and the centroid of a solid, and the revision they were computed
/// at.
#[derive(Clone, Copy, Debug, PartialEq, Eq, Structural)]
pub struct Mass {
    pub epoch: u64,
    pub volume: Real,
    pub centroid: Point3,
}

/// An open drawing with what the program keeps beside it.
pub struct Session {
    /// The tab that the drawing is open in.
    pub tab_id: u64,
    pub document: Document,
    /// The bodies of the solids that were looked at, by the names that the
    /// geometry side gave them.
    pub bodies: FxHashMap<Handle, u64>,
    /// The revision of the geometry.
    pub epoch: u64,
    /// The label of the step that is being recorded.
    pub recording: Option<String>,
    /// The labels of the steps that can be taken back.
    pub history: Vec<String>,
    /// How many solids this request measured anew.
    pub measured: u32,
    pub masses: FxHashMap<Handle, Mass>,
    /// The most items that one request may have.
    pub item_cap: usize,
    /// Whether a change was recorded that is not saved yet.
    pub dirty: bool,
}

/// The contents of a [`Session`].
#[verifier::ext_equal]
pub struct SessionModel {
    pub tab_id: u64,
    pub doc: DocModel,
    pub bodies: Map<Handle, u64>,
    pub epoch: u64,
    pub recording: Option<Seq<char>>,
    pub history: Seq<Seq<char>>,
    pub measured: u32,
    pub masses: Map<Handle, Mass>,
    pub item_cap: usize,
    pub dirty: bool,
}

impl View for Session {
    type V = SessionModel;

    open spec fn view(&self) -> SessionModel {
        SessionModel {
            tab_id: self.tab_id,
            doc: self.document@,
            bodies: self.bodies@,
            epoch: self.epoch,
            recording: crate::document::text_model(self.recording),
            history: texts(self.history@),
            measured: self.measured,
            masses: self.masses@,
            item_cap: self.item_cap,
            dirty: self.dirty,
        }
    }
}

impl SessionModel {
    /// The session with another drawing.
    pub open spec fn with_doc(self, doc: DocModel) -> SessionModel {
        SessionModel { doc, ..self }
    }
}

/// The most bytes that a request may have.
pub const FRAME_LIMIT: u64 = 67108864;

/// What a request of `length` bytes for a tab is answered before it is read.
pub open spec fn admission(s: SessionModel, tab_id: u64, length: int) -> (SessionModel, Option<Seq<char>>) {
    if tab_id != s.tab_id {
        (
            s,
            Some(
                "DocApi tab mismatch: request names tab "@ + decimal(tab_id as nat)
                    + " but the bound tab is "@ + decimal(s.tab_id as nat),
            ),
        )
    } else {
        (
            SessionModel { measured: 0, ..s },
            if length > FRAME_LIMIT {
                Some("DocApi frame exceeds 64 MiB"@)
            } else {
                None
            },
        )
    }
}

/// The steps of recording a change.
pub open spec fn begun(s: SessionModel, label: Seq<char>) -> SessionModel {
    SessionModel { recording: Some(label), ..s }
}

/// The session once a recorded change is complete.
pub open spec fn finished(s: SessionModel) -> SessionModel {
    SessionModel {
        recording: None,
        history: match s.recording {
            Some(label) => s.history.push(label),
            None => s.history,
        },
        dirty: s.dirty || s.recording is Some,
        epoch: (s.epoch + 1) as u64,
        ..s
    }
}

impl Session {
    /// Opens a drawing.
    pub fn new(tab_id: u64, document: Document, item_cap: usize) -> (r: Session)
        ensures
            r@ == (SessionModel {
                tab_id,
                doc: document@,
                bodies: Map::empty(),
                epoch: 0,
                recording: None,
                history: Seq::empty(),
                measured: 0,
                masses: Map::empty(),
                item_cap,
                dirty: false,
            }),
    {
        let r = Session {
            tab_id,
            document,
            bodies: map_new(),
            epoch: 0,
            recording: None,
            history: Vec::new(),
            measured: 0,
            masses: map_new(),
            item_cap,
            dirty: false,
        };
        proof {
            assert(texts(r.history@) =~= Seq::<Seq<char>>::empty());
        }
        r
    }

    /// Decides whether a request of so many bytes is read: it must name the tab
    /// of this session and must not be too long. A request that names the tab
    /// begins with a full allowance of measurements.
    pub fn open_request(&mut self, tab_id: u64, length: usize) -> (r: Result<(), String>)
        ensures
            ({
                let (after, refusal) = admission(old(self)@, tab_id, length as int);
                &&& final(self)@ == after
                &&& match r {
                    Ok(_) => refusal is None,
                    Err(text) => refusal == Some(text@),
                }
            }),
    {
        if tab_id != self.tab_id {
            let a = number(tab_id);
            let b = number(self.tab_id);
            let head = join3(
                "DocApi tab mismatch: request names tab ",
                a.as_str(),
                " but the bound tab is ",
            );
            return Err(join(head.as_str(), b.as_str()));
        }
        self.measured = 0;
        if length as u64 > FRAME_LIMIT {
            return Err(owned("DocApi frame exceeds 64 MiB"));
        }
        Ok(())
    }

    /// Begins to record a change.
    pub fn push_undo(&mut self, label: &str)
        ensures
            final(self)@ == begun(old(self)@, label@),
    {
        self.recording = Some(owned(label));
    }

    /// Gives up the recording of a change.
    pub fn cancel_op(&mut self)
        ensures
            final(self)@ == (SessionModel { recording: None, ..old(self)@ }),
    {
        self.recording = None;
    }

    /// Completes the recording of a change: it can be taken back as one step,
    /// and the geometry has a new revision.
    pub fn finalize_op(&mut self)
        requires
            old(self)@.epoch < u64::MAX,
        ensures
            final(self)@ == finished(old(self)@),
    {
        if let Some(label) = self.recording.take() {
            let ghost before = self.history@;
            let ghost l = label@;
            self.history.push(label);
            self.dirty = true;
            proof {
                assert(texts(self.history@) =~= texts(before).push(l));
            }
        }
        self.epoch = self.epoch + 1;
    }

    /// The revision of the geometry.
    pub fn revision(&self) -> (r: u64)
        ensures
            r == self@.epoch,
    {
        self.epoch
    }

    /// Whether an entity has this handle.
    pub fn entity_exists(&self, id: Handle) -> (r: bool)
        ensures
            r == self@.doc.place(id) is Some,
    {
        self.document.find(id).is_some()
    }

    /// Whether an object has this handle.
    pub fn object_exists(&self, id: Handle) -> (r: bool)
        ensures
            r == self@.doc.object_place(id) is Some,
    {
        self.document.find_object(id).is_some()
    }
}

/// Why an entity cannot be changed: nothing has its handle, or it is on a locked
/// layer.
pub open spec fn unmodifiable(doc: DocModel, id: Handle) -> Option<ErrorModel> {
    match doc.place(id) {
        None => Some(ErrorModel::UnknownId(id)),
        Some(i) => if doc.locked_at(i) {
            Some(locked_error(id))
        } else {
            None
        },
    }
}

/// The contents of a refusal without a value.
pub open spec fn refusal(r: Result<(), ApiError>) -> Option<ErrorModel> {
    match r {
        Ok(_) => None,
        Err(e) => Some(e@),
    }
}

impl Session {
    /// Checks that an entity can be changed.
    pub fn can_modify(&self, id: Handle) -> (r: Result<(), ApiError>)
        ensures
            refusal(r) == unmodifiable(self@.doc, id),
    {
        match self.document.find(id) {
            None => Err(ApiError::UnknownId(id)),
            Some(i) => {
                if self.document.is_locked(i) {
                    Err(ApiError::Unsupported(Reason::LockedLayer(id)))
                } else {
                    Ok(())
                }
            },
        }
    }

    /// Checks that an entity can be removed.
    pub fn can_remove(&self, id: Handle) -> (r: Result<(), ApiError>)
        ensures
            refusal(r) == unmodifiable(self@.doc, id),
    {
        self.can_modify(id)
    }
}

/// Why no layer is found by a name, white space around it aside.
pub open spec fn lookup_failure(doc: DocModel, name: Seq<char>) -> Option<ReasonModel> {
    let norm = keyed(trimmed(name));
    if norm.len() == 0 {
        Some(ReasonModel::EmptyLayerName)
    } else if doc.layer_row(norm) is None {
        Some(ReasonModel::NoLayer(name))
    } else {
        None
    }
}

/// A name as entities and tables are compared by it: without white space around
/// it and with its letters upper-cased.
pub(crate) fn prepared_name(name: &str) -> (r: String)
    ensures
        r@ == keyed(trimmed(name@)),
        ascii(trimmed(name@)) ==> settled(trimmed(name@)),
{
    let plain = trim(name);
    let norm = normalize(plain.as_str());
    proof {
        assert(norm@ =~= keyed(plain@));
        if ascii(plain@) {
            ascii_names_settle(plain@);
        }
    }
    norm
}

/// The contents of a reason, where there is one.
pub open spec fn reason_model(r: Option<Reason>) -> Option<ReasonModel> {
    match r {
        Some(r) => Some(r@),
        None => None,
    }
}

impl Session {
    /// Why no layer is found by a name.
    pub fn missing_layer(&self, name: &str) -> (r: Option<Reason>)
        ensures
            reason_model(r) == lookup_failure(self@.doc, name@),
    {
        let norm = prepared_name(name);
        if norm.as_str().is_empty() {
            Some(Reason::EmptyLayerName)
        } else if !layer_contains(&self.document.layers, norm.as_str()) {
            Some(Reason::NoLayer(owned(name)))
        } else {
            None
        }
    }
}

/// What removing an entity does.
pub open spec fn removed(s: SessionModel, id: Handle) -> (SessionModel, Result<bool, ErrorModel>) {
    match s.doc.place(id) {
        None => (s, Ok(false)),
        Some(i) => if s.doc.locked_at(i) {
            (s, Err(locked_error(id)))
        } else {
            let doc = DocModel { entities: s.doc.entities.remove(i), ..s.doc };
            (
                SessionModel { doc, bodies: s.bodies.remove(id), ..s },
                Ok(doc.place(id) is None),
            )
        },
    }
}

impl Session {
    /// Removes an entity and forgets its body. Tells whether it is gone: nothing
    /// is to be done for a handle that names nothing.
    pub fn remove_entity(&mut self, id: Handle) -> (r: Result<bool, ApiError>)
        ensures
            (final(self)@, outcome(r)) == removed(old(self)@, id),
    {
        match self.document.find(id) {
            None => Ok(false),
            Some(i) => {
                if self.document.is_locked(i) {
                    return Err(ApiError::Unsupported(Reason::LockedLayer(id)));
                }
                let ghost before = self.document.entities@;
                let _ = self.document.entities.remove(i);
                proof {
                    assert(views(self.document.entities@) =~= views(before).remove(i as int));
                }
                map_remove(&mut self.bodies, id);
                Ok(self.document.find(id).is_none())
            },
        }
    }
}

/// An entity that was removed is gone, and every other entity stays.
pub proof fn removed_entity_is_gone(s: SessionModel, id: Handle)
    requires
        s.doc.wf(),
        s.doc.place(id) is Some,
        removed(s, id).1 is Ok,
    ensures
        ({
            let after = removed(s, id).0;
            &&& removed(s, id).1 == Ok::<bool, ErrorModel>(true)
            &&& after.doc.place(id) is None
            &&& after.doc.wf()
            &&& after.doc.entities.len() == s.doc.entities.len() - 1
            &&& forall|h: Handle|
                h != id && (#[trigger] s.doc.place(h)) is Some ==> after.doc.place(h) is Some
                    && after.doc.entities[after.doc.place(h)->0]
                    == s.doc.entities[s.doc.place(h)->0]
        }),
{
    let i = s.doc.place(id)->0;
    let after = removed(s, id).0;
    lemma_entity_from(s.doc.entities, id, 0);
    lemma_entity_from(after.doc.entities, id, 0);
    assert forall|k: int| 0 <= k < after.doc.entities.len() implies #[trigger] after.doc.entities[k]
        == s.doc.entities[if k < i {
        k
    } else {
        k + 1
    }] by {}
    if let Some(j) = after.doc.place(id) {
        let x = if j < i {
            j
        } else {
            j + 1
        };
        assert(s.doc.entities[x].common.handle == s.doc.entities[i].common.handle);
    }
    assert forall|h: Handle| h != id && (#[trigger] s.doc.place(h)) is Some implies after.doc.place(
        h,
    ) is Some && after.doc.entities[after.doc.place(h)->0] == s.doc.entities[s.doc.place(
        h,
    )->0] by {
        lemma_entity_from(s.doc.entities, h, 0);
        lemma_entity_from(after.doc.entities, h, 0);
        let p = s.doc.place(h)->0;
        let q = if p < i {
            p
        } else {
            p - 1
        };
        assert(after.doc.entities[q] == s.doc.entities[p]);
        if let Some(j) = after.doc.place(h) {
            let x = if j < i {
                j
            } else {
                j + 1
            };
            assert(after.doc.entities[j] == s.doc.entities[x]);
            if x != p {
                assert(s.doc.entities[x].common.handle != s.doc.entities[p].common.handle);
            }
        }
    }
    assert forall|a: int, b: int|
        0 <= a < after.doc.entities.len() && 0 <= b < after.doc.entities.len() && a
            != b implies #[trigger] after.doc.entities[a].common.handle
        != #[trigger] after.doc.entities[b].common.handle by {
        let x = if a < i {
            a
        } else {
            a + 1
        };
        let y = if b < i {
            b
        } else {
            b + 1
        };
        assert(s.doc.entities[x].common.handle != s.doc.entities[y].common.handle);
    }
}

/// A removal that is refused leaves the session as it was.
pub proof fn refused_removal_keeps(s: SessionModel, id: Handle)
    ensures
        removed(s, id).1 is Err ==> removed(s, id).0 == s && unmodifiable(s.doc, id) == Some(
            locked_error(id),
        ),
        s.doc.place(id) is None ==> removed(s, id) == (s, Ok::<bool, ErrorModel>(false)),
{
}

/// A request for another tab is refused and changes nothing.
pub proof fn other_tab_is_refused(s: SessionModel, tab_id: u64, length: int)
    requires
        tab_id != s.tab_id,
    ensures
        admission(s, tab_id, length).1 is Some,
        admission(s, tab_id, length).0 == s,
{
}

/// A request that is read begins with a full allowance of measurements, and so
/// does one that is too long; neither touches the drawing.
pub proof fn admitted_request_starts_afresh(s: SessionModel, length: int)
    ensures
        admission(s, s.tab_id, length).0.measured == 0,
        admission(s, s.tab_id, length).0.doc == s.doc,
        admission(s, s.tab_id, length).1 is None <==> length <= FRAME_LIMIT,
{
}

} // verus!
