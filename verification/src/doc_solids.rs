//! Solids and other entities whose geometry is computed elsewhere: making many
//! at once, moving many at once, and what is asked of bodies.
use crate::doc_api::{
    begun, finished, locked_error, lookup_failure, not_for, outcome, prepared_name, refusal,
    unmodifiable, ApiError, ErrorModel, GeometryErrorKind, Reason, Session, SessionModel,
};
use crate::doc_entities::made_model;
use crate::document::{lemma_entity_from, text_model, DocModel};
use crate::entity::{lemma_first_taken, views, Handle, Shape, ShapeModel};
use crate::handle_map::{map_get, map_insert};
use crate::tables::keyed;
use crate::text::{owned, trimmed};
use vstd::prelude::*;

verus! {

/// A body of the geometry side with what is needed to store it: whether it can
/// be shown, and the name of its stored form where there is one.
#[derive(Clone, Copy, Debug, PartialEq, Eq, Structural)]
pub struct SolidBody {
    pub body: u64,
    pub display: bool,
    pub stored: Option<u64>,
}

/// Why a body cannot be stored.
pub open spec fn solid_failure(b: SolidBody) -> Option<ErrorModel> {
    if !b.display {
        Some(
            ErrorModel::Geometry {
                kind: GeometryErrorKind::Other,
                message: "solid display preparation failed"@,
            },
        )
    } else if b.stored is None {
        Some(
            ErrorModel::Geometry {
                kind: GeometryErrorKind::Acis,
                message: "solid serialization failed"@,
            },
        )
    } else {
        None
    }
}

/// The bodies once one was restored from its stored form where it was missing.
pub open spec fn lifted_in(bodies: Map<Handle, u64>, id: Handle, lifted: Option<u64>) -> Map<
    Handle,
    u64,
> {
    match lifted {
        Some(b) => if bodies.contains_key(id) {
            bodies
        } else {
            bodies.insert(id, b)
        },
        None => bodies,
    }
}

/// The body of a solid, where there is one.
pub open spec fn body_of(bodies: Map<Handle, u64>, id: Handle) -> Result<u64, ErrorModel> {
    if bodies.contains_key(id) {
        Ok(bodies[id])
    } else {
        Err(ErrorModel::UnknownId(id))
    }
}

/// An entity ready to be put into the drawing: its shape, and its body where it
/// is a solid.
#[derive(Debug)]
pub struct Prepared {
    pub shape: Shape,
    pub solid: Option<u64>,
}

/// The contents of a [`Prepared`].
#[verifier::ext_equal]
pub struct PreparedModel {
    pub shape: ShapeModel,
    pub solid: Option<u64>,
}

impl View for Prepared {
    type V = PreparedModel;

    open spec fn view(&self) -> PreparedModel {
        PreparedModel { shape: self.shape@, solid: self.solid }
    }
}

/// A body as an entity, or why it cannot be one.
pub open spec fn prepared_solid(b: SolidBody) -> Result<PreparedModel, ErrorModel> {
    match solid_failure(b) {
        Some(e) => Err(e),
        None => Ok(
            PreparedModel { shape: ShapeModel::Solid3D(b.stored->0), solid: Some(b.body) },
        ),
    }
}

/// The contents of a prepared entity or of what went wrong.
pub open spec fn prepared_outcome(r: Result<Prepared, ApiError>) -> Result<
    PreparedModel,
    ErrorModel,
> {
    match r {
        Ok(p) => Ok(p@),
        Err(e) => Err(e@),
    }
}

fn prepare_solid(b: SolidBody) -> (r: Result<Prepared, ApiError>)
    ensures
        prepared_outcome(r) == prepared_solid(b),
{
    if !b.display {
        return Err(
            ApiError::Geometry {
                kind: GeometryErrorKind::Other,
                message: "solid display preparation failed",
            },
        );
    }
    match b.stored {
        None => Err(
            ApiError::Geometry {
                kind: GeometryErrorKind::Acis,
                message: "solid serialization failed",
            },
        ),
        Some(name) => Ok(Prepared { shape: Shape::Solid3D(name), solid: Some(b.body) }),
    }
}

/// The bodies with the one of a prepared entity under a handle.
pub open spec fn registered(bodies: Map<Handle, u64>, id: Handle, solid: Option<u64>) -> Map<
    Handle,
    u64,
> {
    match solid {
        Some(b) => bodies.insert(id, b),
        None => bodies,
    }
}

/// The session with a prepared entity added on a layer.
pub open spec fn prepared_added(s: SessionModel, layer: Seq<char>, p: PreparedModel) -> SessionModel {
    SessionModel {
        doc: s.doc.with_new(layer, p.shape),
        bodies: registered(s.bodies, s.doc.next_handle, p.solid),
        ..s
    }
}

/// The session with a prepared entity in the place of another.
pub open spec fn prepared_put(s: SessionModel, id: Handle, p: PreparedModel) -> SessionModel {
    match s.doc.place(id) {
        Some(i) => SessionModel {
            doc: s.doc.with_shape(i, p.shape),
            bodies: registered(s.bodies, id, p.solid),
            ..s
        },
        None => s,
    }
}

/// What storing a body as a new solid does.
pub open spec fn solid_stored(s: SessionModel, b: SolidBody) -> (
    SessionModel,
    Result<Handle, ErrorModel>,
) {
    match prepared_solid(b) {
        Err(e) => (s, Err(e)),
        Ok(p) => (prepared_added(s, "0"@, p), Ok(s.doc.next_handle)),
    }
}

/// What giving a solid another body does.
pub open spec fn solid_updated(s: SessionModel, id: Handle, b: SolidBody) -> (
    SessionModel,
    Option<ErrorModel>,
) {
    match s.doc.place(id) {
        None => (s, Some(ErrorModel::UnknownId(id))),
        Some(i) => if s.doc.locked_at(i) {
            (s, Some(locked_error(id)))
        } else if !(s.doc.entities[i].shape is Solid3D) {
            (s, Some(ErrorModel::UnknownId(id)))
        } else {
            match prepared_solid(b) {
                Err(e) => (s, Some(e)),
                Ok(p) => (prepared_put(s, id, p), None),
            }
        },
    }
}

/// What making a solid between profiles does. `made` is the body that the
/// geometry side made of them.
pub open spec fn lofted(s: SessionModel, made: Option<SolidBody>) -> (
    SessionModel,
    Result<Handle, ErrorModel>,
) {
    match made {
        None => (
            s,
            Err(
                ErrorModel::Geometry {
                    kind: GeometryErrorKind::InvalidInput,
                    message: "loft failed"@,
                },
            ),
        ),
        Some(b) => solid_stored(s, b),
    }
}

impl Session {
    /// The body of a solid. `lifted` is the body that the geometry side restores
    /// from the stored form of the entity; it is kept where none is kept yet.
    pub fn resolve_body(&mut self, id: Handle, lifted: Option<u64>) -> (r: Result<u64, ApiError>)
        ensures
            final(self)@ == (SessionModel {
                bodies: lifted_in(old(self)@.bodies, id, lifted),
                ..old(self)@
            }),
            outcome(r) == body_of(final(self)@.bodies, id),
    {
        if map_get(&self.bodies, id).is_none() {
            if let Some(b) = lifted {
                map_insert(&mut self.bodies, id, b);
            }
        }
        match map_get(&self.bodies, id) {
            Some(b) => Ok(*b),
            None => Err(ApiError::UnknownId(id)),
        }
    }

    fn add_prepared(&mut self, layer: String, p: Prepared) -> (r: Handle)
        requires
            old(self)@.doc.next_handle < u64::MAX,
        ensures
            final(self)@ == prepared_added(old(self)@, layer@, p@),
            r == old(self)@.doc.next_handle,
    {
        let Prepared { shape, solid } = p;
        let handle: Handle = self.document.add_entity(layer, shape);
        if let Some(b) = solid {
            map_insert(&mut self.bodies, handle, b);
        }
        handle
    }

    fn put_prepared(&mut self, id: Handle, p: Prepared)
        requires
            old(self)@.doc.place(id) is Some,
            !old(self)@.doc.locked_at(old(self)@.doc.place(id)->0),
        ensures
            final(self)@ == prepared_put(old(self)@, id, p@),
    {
        let Prepared { shape, solid } = p;
        if let Some(i) = self.document.find(id) {
            self.document.set_shape(i, shape);
            if let Some(b) = solid {
                map_insert(&mut self.bodies, id, b);
            }
        }
    }

    /// Stores a body as a new solid.
    pub fn store_solid(&mut self, body: SolidBody) -> (r: Result<Handle, ApiError>)
        requires
            old(self)@.doc.next_handle < u64::MAX,
        ensures
            (final(self)@, outcome(r)) == solid_stored(old(self)@, body),
    {
        match prepare_solid(body) {
            Err(e) => Err(e),
            Ok(p) => {
                let layer = owned("0");
                Ok(self.add_prepared(layer, p))
            },
        }
    }

    /// Gives a solid another body.
    pub fn update_solid(&mut self, id: Handle, body: SolidBody) -> (r: Result<(), ApiError>)
        ensures
            (final(self)@, refusal(r)) == solid_updated(old(self)@, id, body),
    {
        match self.can_modify(id) {
            Err(e) => return Err(e),
            Ok(_) => {},
        }
        let i: usize = match self.document.find(id) {
            None => return Err(ApiError::UnknownId(id)),
            Some(i) => i,
        };
        proof {
            assert(self@.doc.entities[i as int] == self.document.entities@[i as int]@);
        }
        match &self.document.entities[i].shape {
            Shape::Solid3D(_) => {},
            _ => return Err(ApiError::UnknownId(id)),
        }
        match prepare_solid(body) {
            Err(e) => Err(e),
            Ok(p) => {
                self.put_prepared(id, p);
                Ok(())
            },
        }
    }

    /// Stores the solid that the geometry side made between profiles.
    pub fn loft(&mut self, made: Option<SolidBody>) -> (r: Result<Handle, ApiError>)
        requires
            old(self)@.doc.next_handle < u64::MAX,
        ensures
            (final(self)@, outcome(r)) == lofted(old(self)@, made),
    {
        match made {
            None => Err(
                ApiError::Geometry {
                    kind: GeometryErrorKind::InvalidInput,
                    message: "loft failed",
                },
            ),
            Some(b) => self.store_solid(b),
        }
    }
}

/// A new entity as the geometry side made it, or what went wrong there.
#[derive(Debug)]
pub enum Made {
    Curve(Result<Shape, ApiError>),
    Solid(Result<SolidBody, ApiError>),
}

/// The contents of a [`Made`].
pub enum MadeModel {
    Curve(Result<ShapeModel, ErrorModel>),
    Solid(Result<SolidBody, ErrorModel>),
}

impl View for Made {
    type V = MadeModel;

    open spec fn view(&self) -> MadeModel {
        match self {
            Made::Curve(r) => MadeModel::Curve(made_model(*r)),
            Made::Solid(r) => MadeModel::Solid(outcome(*r)),
        }
    }
}

/// An entity that is asked for: the layer it shall be on, and what was made for
/// it.
#[derive(Debug)]
pub struct NewEntity {
    pub layer: Option<String>,
    pub made: Made,
}

/// The contents of a [`NewEntity`].
#[verifier::ext_equal]
pub struct NewEntityModel {
    pub layer: Option<Seq<char>>,
    pub made: MadeModel,
}

impl View for NewEntity {
    type V = NewEntityModel;

    open spec fn view(&self) -> NewEntityModel {
        NewEntityModel { layer: text_model(self.layer), made: self.made@ }
    }
}

/// Why the layer of a new entity cannot be used.
pub open spec fn layer_failure(doc: DocModel, e: NewEntityModel) -> Option<ErrorModel> {
    match e.layer {
        Some(name) => match lookup_failure(doc, name) {
            Some(reason) => Some(ErrorModel::Validation { op: "CreateMany"@, reason }),
            None => None,
        },
        None => None,
    }
}

/// A new entity ready for the drawing, or why it cannot be made.
pub open spec fn prepared_new(e: NewEntityModel) -> Result<PreparedModel, ErrorModel> {
    match e.made {
        MadeModel::Curve(Ok(shape)) => Ok(PreparedModel { shape, solid: None }),
        MadeModel::Curve(Err(e)) => Err(e),
        MadeModel::Solid(Ok(b)) => prepared_solid(b),
        MadeModel::Solid(Err(e)) => Err(e),
    }
}

/// The layer that a new entity goes to. A solid goes to the layer `0` whatever
/// was asked for.
pub open spec fn new_layer(e: NewEntityModel) -> Seq<char> {
    match (e.made, e.layer) {
        (MadeModel::Curve(_), Some(name)) => keyed(trimmed(name)),
        _ => "0"@,
    }
}

/// The first failure of the layers of new entities, from `from` on.
pub open spec fn first_layer_failure(
    doc: DocModel,
    list: Seq<NewEntityModel>,
    from: int,
) -> Option<ErrorModel>
    decreases list.len() - from,
{
    if from < 0 || from >= list.len() {
        None
    } else if layer_failure(doc, list[from]) is Some {
        layer_failure(doc, list[from])
    } else {
        first_layer_failure(doc, list, from + 1)
    }
}

/// The first failure of making new entities, from `from` on.
pub open spec fn first_new_failure(list: Seq<NewEntityModel>, from: int) -> Option<ErrorModel>
    decreases list.len() - from,
{
    if from < 0 || from >= list.len() {
        None
    } else if prepared_new(list[from]) is Err {
        Some(prepared_new(list[from])->Err_0)
    } else {
        first_new_failure(list, from + 1)
    }
}

/// The session with new entities added, one after the other.
pub open spec fn all_added(s: SessionModel, list: Seq<NewEntityModel>) -> SessionModel
    decreases list.len(),
{
    if list.len() == 0 {
        s
    } else {
        prepared_added(
            all_added(s, list.drop_last()),
            new_layer(list.last()),
            prepared_new(list.last())->Ok_0,
        )
    }
}

/// The handles that so many new objects get.
pub open spec fn fresh_handles(next: Handle, count: nat) -> Seq<Handle> {
    Seq::new(count, |i: int| (next + i) as Handle)
}

/// What making many entities at once does: all of them in one step that can be
/// taken back, or nothing at all.
pub open spec fn created(s: SessionModel, list: Seq<NewEntityModel>) -> (
    SessionModel,
    Result<Seq<Handle>, ErrorModel>,
) {
    match first_layer_failure(s.doc, list, 0) {
        Some(e) => (s, Err(e)),
        None => match first_new_failure(list, 0) {
            Some(e) => (s, Err(e)),
            None => (
                finished(all_added(begun(s, "CreateMany"@), list)),
                Ok(fresh_handles(s.doc.next_handle, list.len())),
            ),
        },
    }
}

/// The contents of a list of handles or of what went wrong.
pub open spec fn handles_outcome(r: Result<Vec<Handle>, ApiError>) -> Result<
    Seq<Handle>,
    ErrorModel,
> {
    match r {
        Ok(v) => Ok(v@),
        Err(e) => Err(e@),
    }
}

/// Adding entities takes one handle each and touches neither the revision nor
/// the history.
pub proof fn lemma_all_added(s: SessionModel, list: Seq<NewEntityModel>)
    requires
        s.doc.next_handle + list.len() <= u64::MAX,
    ensures
        all_added(s, list).doc.next_handle == s.doc.next_handle + list.len(),
        all_added(s, list).epoch == s.epoch,
        all_added(s, list).history == s.history,
        all_added(s, list).recording == s.recording,
        all_added(s, list).doc.entities.len() == s.doc.entities.len() + list.len(),
        all_added(s, list).doc.layers == s.doc.layers,
        all_added(s, list).doc.looks == s.doc.looks,
        forall|i: int|
            0 <= i < s.doc.entities.len() ==> #[trigger] all_added(s, list).doc.entities[i]
                == s.doc.entities[i],
    decreases list.len(),
{
    if list.len() > 0 {
        lemma_all_added(s, list.drop_last());
    }
}

fn failure_of(e: &NewEntity) -> (r: Option<ApiError>)
    ensures
        match r {
            Some(err) => prepared_new(e@) == Err::<PreparedModel, ErrorModel>(err@),
            None => prepared_new(e@) is Ok,
        },
{
    match &e.made {
        Made::Curve(Ok(_)) => None,
        Made::Curve(Err(err)) => Some(err.duplicate()),
        Made::Solid(Ok(b)) => match prepare_solid(*b) {
            Ok(_) => None,
            Err(err) => Some(err),
        },
        Made::Solid(Err(err)) => Some(err.duplicate()),
    }
}

impl Session {
    /// Makes many entities at once, or none: all layers are checked first, then
    /// all entities, and only then is the drawing touched.
    pub fn create_many(&mut self, list: Vec<NewEntity>) -> (r: Result<Vec<Handle>, ApiError>)
        requires
            old(self)@.doc.next_handle + list@.len() <= u64::MAX,
            old(self)@.epoch < u64::MAX,
        ensures
            (final(self)@, handles_outcome(r)) == created(old(self)@, views(list@)),
    {
        let ghost all = views(list@);
        let ghost start = self@;
        let n: usize = list.len();
        let mut i: usize = 0;
        while i < n
            invariant
                i <= n == list@.len(),
                all == views(list@),
                self@ == start,
                start == old(self)@,
                first_layer_failure(start.doc, all, 0) == first_layer_failure(
                    start.doc,
                    all,
                    i as int,
                ),
            decreases n - i,
        {
            proof {
                assert(all[i as int] == list@[i as int]@);
            }
            if let Some(name) = &list[i].layer {
                if let Some(reason) = self.missing_layer(name.as_str()) {
                    return Err(ApiError::Validation { op: "CreateMany", reason });
                }
            }
            i += 1;
        }
        let mut j: usize = 0;
        while j < n
            invariant
                j <= n == list@.len(),
                all == views(list@),
                self@ == start,
                start == old(self)@,
                first_layer_failure(start.doc, all, 0) is None,
                first_new_failure(all, 0) == first_new_failure(all, j as int),
                forall|k: int| 0 <= k < j ==> prepared_new(#[trigger] all[k]) is Ok,
            decreases n - j,
        {
            proof {
                assert(all[j as int] == list@[j as int]@);
            }
            if let Some(e) = failure_of(&list[j]) {
                return Err(e);
            }
            j += 1;
        }
        self.push_undo("CreateMany");
        let ghost base = self@;
        let mut rest = list;
        let mut ids: Vec<Handle> = Vec::new();
        let mut k: usize = 0;
        proof {
            assert(all.take(0) =~= Seq::<NewEntityModel>::empty());
            assert(views(rest@) =~= all.skip(0));
        }
        while k < n
            invariant
                k <= n == all.len(),
                rest@.len() == n - k,
                views(rest@) == all.skip(k as int),
                base == begun(start, "CreateMany"@),
                start == old(self)@,
                start.doc.next_handle + n <= u64::MAX,
                forall|x: int| 0 <= x < n ==> prepared_new(#[trigger] all[x]) is Ok,
                self@ == all_added(base, all.take(k as int)),
                ids@ == fresh_handles(start.doc.next_handle, k as nat),
            decreases n - k,
        {
            let ghost left = rest@;
            let e = rest.remove(0);
            proof {
                lemma_first_taken(left, all, k as int);
                assert(all.take(k + 1).drop_last() =~= all.take(k as int));
                lemma_all_added(base, all.take(k as int));
            }
            let NewEntity { layer, made } = e;
            let (goal, p) = match made {
                Made::Curve(c) => match c {
                    Ok(shape) => (
                        match &layer {
                            Some(name) => prepared_name(name.as_str()),
                            None => owned("0"),
                        },
                        Prepared { shape, solid: None },
                    ),
                    Err(err) => return Err(err),
                },
                Made::Solid(b) => match b {
                    Ok(b) => match prepare_solid(b) {
                        Ok(p) => (owned("0"), p),
                        Err(err) => return Err(err),
                    },
                    Err(err) => return Err(err),
                },
            };
            let h: Handle = self.add_prepared(goal, p);
            let ghost before = ids@;
            ids.push(h);
            proof {
                assert(ids@ =~= fresh_handles(start.doc.next_handle, (k + 1) as nat));
            }
            k += 1;
        }
        proof {
            assert(all.take(n as int) =~= all);
            lemma_all_added(base, all);
        }
        self.finalize_op();
        Ok(ids)
    }
}

/// What the geometry side makes of an entity that is moved: the body restored
/// from the stored form of a solid, the moved body of a solid, and the moved
/// shape of anything else.
#[derive(Debug)]
pub struct Moved {
    pub lifted: Option<u64>,
    pub solid: Option<SolidBody>,
    pub shape: Result<Shape, ApiError>,
}

/// The contents of a [`Moved`].
#[verifier::ext_equal]
pub struct MovedModel {
    pub lifted: Option<u64>,
    pub solid: Option<SolidBody>,
    pub shape: Result<ShapeModel, ErrorModel>,
}

impl View for Moved {
    type V = MovedModel;

    open spec fn view(&self) -> MovedModel {
        MovedModel { lifted: self.lifted, solid: self.solid, shape: made_model(self.shape) }
    }
}

/// Whether entities of this family can be moved.
pub open spec fn movable(shape: ShapeModel) -> bool {
    match shape {
        ShapeModel::Solid3D(_) => true,
        ShapeModel::Line(_) => true,
        ShapeModel::Circle(_) => true,
        ShapeModel::Arc(_) => true,
        ShapeModel::Ellipse(_) => true,
        ShapeModel::Spline(_) => true,
        ShapeModel::Ray(_) => true,
        ShapeModel::XLine(_) => true,
        ShapeModel::Insert(_) => true,
        ShapeModel::Viewport(_) => true,
        ShapeModel::Text(_) => true,
        ShapeModel::MText(_) => true,
        ShapeModel::Point(_) => true,
        ShapeModel::LwPolyline(_) => true,
        _ => false,
    }
}

fn is_movable(shape: &Shape) -> (r: bool)
    ensures
        r == movable(shape@),
{
    match shape {
        Shape::Solid3D(_) => true,
        Shape::Line(_) => true,
        Shape::Circle(_) => true,
        Shape::Arc(_) => true,
        Shape::Ellipse(_) => true,
        Shape::Spline(_) => true,
        Shape::Ray(_) => true,
        Shape::XLine(_) => true,
        Shape::Insert(_) => true,
        Shape::Viewport(_) => true,
        Shape::Text(_) => true,
        Shape::MText(_) => true,
        Shape::Point(_) => true,
        Shape::LwPolyline(_) => true,
        _ => false,
    }
}

/// What checking whether an entity can be moved does to the bodies, and why it
/// cannot be.
pub open spec fn transformability(
    doc: DocModel,
    bodies: Map<Handle, u64>,
    id: Handle,
    lifted: Option<u64>,
) -> (Map<Handle, u64>, Option<ErrorModel>) {
    match doc.place(id) {
        None => (bodies, Some(ErrorModel::UnknownId(id))),
        Some(i) => if !movable(doc.entities[i].shape) {
            (bodies, Some(not_for("transform is not supported for this entity family"@)))
        } else if doc.locked_at(i) {
            (bodies, Some(locked_error(id)))
        } else if doc.entities[i].shape is Solid3D {
            let after = lifted_in(bodies, id, lifted);
            (
                after,
                if after.contains_key(id) {
                    None
                } else {
                    Some(ErrorModel::UnknownId(id))
                },
            )
        } else {
            (bodies, None)
        },
    }
}

/// What preparing a move does to the bodies, and the moved entity.
pub open spec fn prepared_move(
    doc: DocModel,
    bodies: Map<Handle, u64>,
    id: Handle,
    moved: MovedModel,
) -> (Map<Handle, u64>, Result<PreparedModel, ErrorModel>) {
    let (after, failure) = transformability(doc, bodies, id, moved.lifted);
    match failure {
        Some(e) => (after, Err(e)),
        None => (
            after,
            if doc.entities[doc.place(id)->0].shape is Solid3D {
                match moved.solid {
                    None => Err(
                        ErrorModel::Geometry {
                            kind: GeometryErrorKind::InvalidInput,
                            message: "transform failed"@,
                        },
                    ),
                    Some(b) => prepared_solid(b),
                }
            } else {
                match moved.shape {
                    Ok(shape) => Ok(PreparedModel { shape, solid: None }),
                    Err(e) => Err(e),
                }
            },
        ),
    }
}

/// The bodies once the first `count` moves are prepared.
pub open spec fn bodies_prepared(
    s: SessionModel,
    ids: Seq<Handle>,
    moved: Seq<MovedModel>,
    count: int,
) -> Map<Handle, u64>
    decreases count,
{
    if count <= 0 {
        s.bodies
    } else {
        prepared_move(
            s.doc,
            bodies_prepared(s, ids, moved, count - 1),
            ids[count - 1],
            moved[count - 1],
        ).0
    }
}

/// The move at a place, prepared after the ones before it.
pub open spec fn move_at(s: SessionModel, ids: Seq<Handle>, moved: Seq<MovedModel>, i: int) -> Result<
    PreparedModel,
    ErrorModel,
> {
    prepared_move(s.doc, bodies_prepared(s, ids, moved, i), ids[i], moved[i]).1
}

/// The first move that cannot be prepared, from `from` on.
pub open spec fn first_stuck(
    s: SessionModel,
    ids: Seq<Handle>,
    moved: Seq<MovedModel>,
    from: int,
) -> Option<int>
    decreases ids.len() - from,
{
    if from < 0 || from >= ids.len() {
        None
    } else if move_at(s, ids, moved, from) is Err {
        Some(from)
    } else {
        first_stuck(s, ids, moved, from + 1)
    }
}

/// The session with the first `count` prepared entities put in place.
pub open spec fn all_put(
    s: SessionModel,
    ids: Seq<Handle>,
    prepared: Seq<PreparedModel>,
    count: int,
) -> SessionModel
    decreases count,
{
    if count <= 0 {
        s
    } else {
        prepared_put(all_put(s, ids, prepared, count - 1), ids[count - 1], prepared[count - 1])
    }
}

/// What moving many entities at once does: all of them in one step that can be
/// taken back, or no entity at all. Bodies that were restored on the way stay
/// restored.
pub open spec fn transformed(s: SessionModel, ids: Seq<Handle>, moved: Seq<MovedModel>) -> (
    SessionModel,
    Option<ErrorModel>,
) {
    match first_stuck(s, ids, moved, 0) {
        Some(i) => (
            SessionModel { bodies: bodies_prepared(s, ids, moved, i + 1), ..s },
            Some(move_at(s, ids, moved, i)->Err_0),
        ),
        None => {
            let ready = SessionModel {
                bodies: bodies_prepared(s, ids, moved, ids.len() as int),
                ..s
            };
            let prepared = Seq::new(ids.len(), |i: int| move_at(s, ids, moved, i)->Ok_0);
            (
                finished(
                    all_put(begun(ready, "TransformMany"@), ids, prepared, ids.len() as int),
                ),
                None,
            )
        },
    }
}

/// What moving one entity does.
pub open spec fn transformed_one(s: SessionModel, id: Handle, moved: MovedModel) -> (
    SessionModel,
    Option<ErrorModel>,
) {
    let (bodies, ready) = prepared_move(s.doc, s.bodies, id, moved);
    let t = SessionModel { bodies, ..s };
    match ready {
        Err(e) => (t, Some(e)),
        Ok(p) => (prepared_put(t, id, p), None),
    }
}

/// Putting shapes in place moves no entity, changes no layer and touches neither
/// the revision nor the history.
pub proof fn lemma_all_put(
    s: SessionModel,
    ids: Seq<Handle>,
    prepared: Seq<PreparedModel>,
    count: int,
)
    requires
        0 <= count <= ids.len(),
        ids.len() == prepared.len(),
    ensures
        ({
            let t = all_put(s, ids, prepared, count);
            &&& t.doc.entities.len() == s.doc.entities.len()
            &&& forall|k: int|
                0 <= k < s.doc.entities.len() ==> (#[trigger] t.doc.entities[k]).common
                    == s.doc.entities[k].common
            &&& t.doc.layers == s.doc.layers
            &&& t.doc.looks == s.doc.looks
            &&& t.doc.next_handle == s.doc.next_handle
            &&& t.epoch == s.epoch
            &&& t.history == s.history
            &&& t.recording == s.recording
            &&& forall|h: Handle| #[trigger] t.doc.place(h) == s.doc.place(h)
            &&& forall|k: int|
                0 <= k < s.doc.entities.len() ==> #[trigger] t.doc.locked_at(k)
                    == s.doc.locked_at(k)
        }),
    decreases count,
{
    if count > 0 {
        lemma_all_put(s, ids, prepared, count - 1);
        let u = all_put(s, ids, prepared, count - 1);
        lemma_entity_from(u.doc.entities, ids[count - 1], 0);
    }
    let t = all_put(s, ids, prepared, count);
    assert forall|h: Handle| #[trigger] t.doc.place(h) == s.doc.place(h) by {
        lemma_entity_from(t.doc.entities, h, 0);
        lemma_entity_from(s.doc.entities, h, 0);
        if let Some(i) = t.doc.place(h) {
            assert(s.doc.entities[i].common == t.doc.entities[i].common);
        }
        if let Some(j) = s.doc.place(h) {
            assert(t.doc.entities[j].common == s.doc.entities[j].common);
        }
    }
    assert forall|k: int| 0 <= k < s.doc.entities.len() implies #[trigger] t.doc.locked_at(k)
        == s.doc.locked_at(k) by {
        assert(t.doc.entities[k].common == s.doc.entities[k].common);
    }
}

impl Session {
    /// Checks everything that moving an entity can fail on: its handle, its
    /// family, its layer and, for a solid, its body.
    pub fn ensure_transformable(&mut self, id: Handle, lifted: Option<u64>) -> (r: Result<
        (),
        ApiError,
    >)
        ensures
            ({
                let (bodies, failure) = transformability(
                    old(self)@.doc,
                    old(self)@.bodies,
                    id,
                    lifted,
                );
                &&& final(self)@ == (SessionModel { bodies, ..old(self)@ })
                &&& refusal(r) == failure
            }),
    {
        let i: usize = match self.document.find(id) {
            None => return Err(ApiError::UnknownId(id)),
            Some(i) => i,
        };
        proof {
            assert(self@.doc.entities[i as int] == self.document.entities@[i as int]@);
        }
        if !is_movable(&self.document.entities[i].shape) {
            return Err(
                ApiError::Unsupported(
                    Reason::Note("transform is not supported for this entity family"),
                ),
            );
        }
        if self.document.is_locked(i) {
            return Err(ApiError::Unsupported(Reason::LockedLayer(id)));
        }
        let solid = match &self.document.entities[i].shape {
            Shape::Solid3D(_) => true,
            _ => false,
        };
        if solid {
            match self.resolve_body(id, lifted) {
                Ok(_) => {},
                Err(e) => return Err(e),
            }
        }
        Ok(())
    }

    fn prepare_move(&mut self, id: Handle, moved: Moved) -> (r: Result<Prepared, ApiError>)
        ensures
            ({
                let (bodies, ready) = prepared_move(
                    old(self)@.doc,
                    old(self)@.bodies,
                    id,
                    moved@,
                );
                &&& final(self)@ == (SessionModel { bodies, ..old(self)@ })
                &&& prepared_outcome(r) == ready
            }),
    {
        let Moved { lifted, solid, shape } = moved;
        match self.ensure_transformable(id, lifted) {
            Err(e) => return Err(e),
            Ok(_) => {},
        }
        let i: usize = match self.document.find(id) {
            None => return Err(ApiError::UnknownId(id)),
            Some(i) => i,
        };
        proof {
            assert(self@.doc.entities[i as int] == self.document.entities@[i as int]@);
        }
        match &self.document.entities[i].shape {
            Shape::Solid3D(_) => match solid {
                None => Err(
                    ApiError::Geometry {
                        kind: GeometryErrorKind::InvalidInput,
                        message: "transform failed",
                    },
                ),
                Some(b) => prepare_solid(b),
            },
            _ => match shape {
                Ok(shape) => Ok(Prepared { shape, solid: None }),
                Err(e) => Err(e),
            },
        }
    }

    /// Moves one entity.
    pub fn transform_entity(&mut self, id: Handle, moved: Moved) -> (r: Result<(), ApiError>)
        ensures
            (final(self)@, refusal(r)) == transformed_one(old(self)@, id, moved@),
    {
        match self.prepare_move(id, moved) {
            Err(e) => Err(e),
            Ok(p) => {
                self.put_prepared(id, p);
                Ok(())
            },
        }
    }

    /// Moves many entities at once, or none: every move is prepared first, so
    /// that putting the moved entities in place cannot fail.
    pub fn transform_many(&mut self, ids: &Vec<Handle>, moved: Vec<Moved>) -> (r: Result<
        (),
        ApiError,
    >)
        requires
            ids@.len() == moved@.len(),
            old(self)@.epoch < u64::MAX,
        ensures
            (final(self)@, refusal(r)) == transformed(old(self)@, ids@, views(moved@)),
    {
        let ghost all = views(moved@);
        let ghost start = self@;
        let ghost goal = Seq::new(ids@.len(), |i: int| move_at(start, ids@, all, i)->Ok_0);
        let n: usize = ids.len();
        let mut rest = moved;
        let mut ready: Vec<Prepared> = Vec::new();
        let mut i: usize = 0;
        proof {
            assert(views(rest@) =~= all.skip(0));
            assert(views(ready@) =~= goal.take(0));
        }
        while i < n
            invariant
                i <= n == ids@.len(),
                all == views(moved@),
                all.len() == n,
                rest@.len() == n - i,
                views(rest@) == all.skip(i as int),
                start == old(self)@,
                self@ == (SessionModel {
                    bodies: bodies_prepared(start, ids@, all, i as int),
                    ..start
                }),
                first_stuck(start, ids@, all, 0) == first_stuck(start, ids@, all, i as int),
                forall|k: int| 0 <= k < i ==> (#[trigger] move_at(start, ids@, all, k)) is Ok,
                goal == Seq::new(ids@.len(), |i: int| move_at(start, ids@, all, i)->Ok_0),
                views(ready@) == goal.take(i as int),
            decreases n - i,
        {
            let ghost left = rest@;
            let m = rest.remove(0);
            proof {
                lemma_first_taken(left, all, i as int);
            }
            match self.prepare_move(ids[i], m) {
                Err(e) => {
                    return Err(e);
                },
                Ok(p) => {
                    let ghost before = ready@;
                    let ghost pm = p@;
                    ready.push(p);
                    proof {
                        assert(views(ready@) =~= views(before).push(pm));
                        assert(goal.take(i + 1) =~= goal.take(i as int).push(pm));
                    }
                },
            }
            i += 1;
        }
        proof {
            assert(goal.take(n as int) =~= goal);
        }
        self.push_undo("TransformMany");
        let ghost base = self@;
        let mut left = ready;
        let mut k: usize = 0;
        proof {
            assert(views(left@) =~= goal.skip(0));
        }
        while k < n
            invariant
                k <= n == ids@.len(),
                goal.len() == n,
                left@.len() == n - k,
                views(left@) == goal.skip(k as int),
                start == old(self)@,
                base == begun(
                    SessionModel {
                        bodies: bodies_prepared(start, ids@, all, n as int),
                        ..start
                    },
                    "TransformMany"@,
                ),
                forall|x: int| 0 <= x < n ==> (#[trigger] move_at(start, ids@, all, x)) is Ok,
                self@ == all_put(base, ids@, goal, k as int),
            decreases n - k,
        {
            let ghost old_left = left@;
            let p = left.remove(0);
            proof {
                lemma_first_taken(old_left, goal, k as int);
                lemma_all_put(base, ids@, goal, k as int);
                assert(move_at(start, ids@, all, k as int) is Ok);
                let id = ids@[k as int];
                assert(base.doc == start.doc);
                assert(self@.doc.place(id) == base.doc.place(id));
                lemma_entity_from(base.doc.entities, id, 0);
                assert(self@.doc.locked_at(base.doc.place(id)->0) == base.doc.locked_at(
                    base.doc.place(id)->0,
                ));
            }
            self.put_prepared(ids[k], p);
            k += 1;
        }
        proof {
            lemma_all_put(base, ids@, goal, n as int);
        }
        self.finalize_op();
        Ok(())
    }
}

/// Making many entities is all or nothing: where it is refused, the session is as
/// it was.
pub proof fn create_all_or_nothing(s: SessionModel, list: Seq<NewEntityModel>)
    requires
        s.doc.next_handle + list.len() <= u64::MAX,
        s.epoch < u64::MAX,
    ensures
        created(s, list).1 is Err ==> created(s, list).0 == s,
        created(s, list).1 is Ok ==> {
            let after = created(s, list).0;
            &&& after.doc.entities.len() == s.doc.entities.len() + list.len()
            &&& after.epoch == s.epoch + 1
            &&& after.history == s.history.push("CreateMany"@)
            &&& after.recording is None
            &&& forall|i: int|
                0 <= i < s.doc.entities.len() ==> #[trigger] after.doc.entities[i]
                    == s.doc.entities[i]
        },
{
    lemma_all_added(begun(s, "CreateMany"@), list);
}

/// Making many entities succeeds exactly when every layer is found and every
/// entity can be made.
pub proof fn create_succeeds_when_all_do(s: SessionModel, list: Seq<NewEntityModel>)
    ensures
        created(s, list).1 is Ok <==> forall|i: int|
            0 <= i < list.len() ==> layer_failure(s.doc, #[trigger] list[i]) is None
                && prepared_new(list[i]) is Ok,
{
    lemma_first_failures(s.doc, list, 0);
    assert forall|i: int| created(s, list).1 is Ok && 0 <= i < list.len() implies layer_failure(
        s.doc,
        #[trigger] list[i],
    ) is None && prepared_new(list[i]) is Ok by {}
}

proof fn lemma_first_failures(doc: DocModel, list: Seq<NewEntityModel>, from: int)
    requires
        0 <= from <= list.len(),
    ensures
        first_layer_failure(doc, list, from) is None <==> forall|i: int|
            from <= i < list.len() ==> layer_failure(doc, #[trigger] list[i]) is None,
        first_new_failure(list, from) is None <==> forall|i: int|
            from <= i < list.len() ==> prepared_new(#[trigger] list[i]) is Ok,
    decreases list.len() - from,
{
    if from < list.len() {
        lemma_first_failures(doc, list, from + 1);
        assert(layer_failure(doc, list[from]) is None || first_layer_failure(
            doc,
            list,
            from,
        ) is Some);
    }
}

/// Moving many entities is all or nothing: where it is refused, neither the
/// drawing nor the revision nor the history changes, and where it is not, it is
/// one step.
pub proof fn transform_all_or_nothing(s: SessionModel, ids: Seq<Handle>, moved: Seq<MovedModel>)
    requires
        ids.len() == moved.len(),
        s.epoch < u64::MAX,
    ensures
        ({
            let (after, failure) = transformed(s, ids, moved);
            &&& failure is Some ==> after.doc == s.doc && after.epoch == s.epoch && after.history
                == s.history && after.recording == s.recording
            &&& failure is None ==> after.epoch == s.epoch + 1 && after.history
                == s.history.push("TransformMany"@) && after.recording is None
        }),
{
    if first_stuck(s, ids, moved, 0) is None {
        let ready = SessionModel { bodies: bodies_prepared(s, ids, moved, ids.len() as int), ..s };
        let prepared = Seq::new(ids.len(), |i: int| move_at(s, ids, moved, i)->Ok_0);
        lemma_all_put(begun(ready, "TransformMany"@), ids, prepared, ids.len() as int);
    }
}

/// Moving entities changes shapes only: every entity keeps its place, its handle,
/// its layer and all other properties.
pub proof fn transform_keeps_properties(s: SessionModel, ids: Seq<Handle>, moved: Seq<MovedModel>)
    requires
        ids.len() == moved.len(),
    ensures
        ({
            let after = transformed(s, ids, moved).0;
            &&& after.doc.entities.len() == s.doc.entities.len()
            &&& forall|k: int|
                0 <= k < s.doc.entities.len() ==> (#[trigger] after.doc.entities[k]).common
                    == s.doc.entities[k].common
        }),
{
    if first_stuck(s, ids, moved, 0) is None {
        let ready = SessionModel { bodies: bodies_prepared(s, ids, moved, ids.len() as int), ..s };
        let prepared = Seq::new(ids.len(), |i: int| move_at(s, ids, moved, i)->Ok_0);
        lemma_all_put(begun(ready, "TransformMany"@), ids, prepared, ids.len() as int);
    }
}

/// One handle that names nothing, one entity on a locked layer or one of a family
/// that cannot be moved is enough to refuse the whole move.
pub proof fn one_refusal_refuses_all(
    s: SessionModel,
    ids: Seq<Handle>,
    moved: Seq<MovedModel>,
    i: int,
)
    requires
        ids.len() == moved.len(),
        0 <= i < ids.len(),
        unmodifiable(s.doc, ids[i]) is Some || (s.doc.place(ids[i]) matches Some(k)
            && !movable(s.doc.entities[k].shape)),
    ensures
        transformed(s, ids, moved).1 is Some,
{
    lemma_stuck(s, ids, moved, 0, i);
}

proof fn lemma_stuck(
    s: SessionModel,
    ids: Seq<Handle>,
    moved: Seq<MovedModel>,
    from: int,
    i: int,
)
    requires
        0 <= from <= i < ids.len(),
        move_at(s, ids, moved, i) is Err,
    ensures
        first_stuck(s, ids, moved, from) is Some,
    decreases i - from,
{
    if from < i && !(move_at(s, ids, moved, from) is Err) {
        lemma_stuck(s, ids, moved, from + 1, i);
    }
}

/// A solid that was stored has the body it was stored with.
pub proof fn stored_body_is_found(s: SessionModel, b: SolidBody, lifted: Option<u64>)
    requires
        solid_stored(s, b).1 is Ok,
    ensures
        ({
            let (after, id) = (solid_stored(s, b).0, solid_stored(s, b).1->Ok_0);
            body_of(lifted_in(after.bodies, id, lifted), id) == Ok::<u64, ErrorModel>(b.body)
        }),
{
}

} // verus!
