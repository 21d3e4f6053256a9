//! Asking about the entities of an open drawing.
use crate::doc_api::{
    not_for, outcome, refused, ApiError, ErrorModel, GeometryErrorKind, Mass, Reason,
    ReasonModel, Session, SessionModel,
};
use crate::doc_solids::{body_of, lifted_in};
use crate::document::DocModel;
use crate::entity::{views, EntityModel, Handle, Shape, ShapeModel};
use crate::handle_map::{map_get, map_insert, map_len, map_new};
use crate::tables::{block_contents, block_get, keyed, normalize};
use crate::text::{equal_but_case, owned, same_but_case, trim, trimmed};
use crate::value::{Point3, Real};
use vstd::prelude::*;

verus! {

/// A box along the axes.
#[derive(Clone, Copy, Debug, PartialEq, Eq, Structural)]
pub struct Aabb {
    pub min: Point3,
    pub max: Point3,
}

/// What the geometry side says of an entity: the name of its family and the box
/// around it, where there is one.
#[derive(Debug)]
pub struct EntityFacts {
    pub kind: String,
    pub bounds: Option<Aabb>,
}

/// The contents of an [`EntityFacts`].
#[verifier::ext_equal]
pub struct FactsModel {
    pub kind: Seq<char>,
    pub bounds: Option<Aabb>,
}

impl View for EntityFacts {
    type V = FactsModel;

    open spec fn view(&self) -> FactsModel {
        FactsModel { kind: self.kind@, bounds: self.bounds }
    }
}

/// What is reported of an entity.
#[derive(Debug)]
pub struct EntityView {
    pub id: Handle,
    pub kind: String,
    pub layer: String,
    pub bounds: Option<Aabb>,
}

/// The contents of an [`EntityView`].
#[verifier::ext_equal]
pub struct EntityViewModel {
    pub id: Handle,
    pub kind: Seq<char>,
    pub layer: Seq<char>,
    pub bounds: Option<Aabb>,
}

impl View for EntityView {
    type V = EntityViewModel;

    open spec fn view(&self) -> EntityViewModel {
        EntityViewModel {
            id: self.id,
            kind: self.kind@,
            layer: self.layer@,
            bounds: self.bounds,
        }
    }
}

/// Whether an entity is asked for: its family has the given name and its layer
/// is the given one, where these are given.
pub open spec fn asked_for(
    e: EntityModel,
    facts: FactsModel,
    kind: Option<Seq<char>>,
    layer: Option<Seq<char>>,
) -> bool {
    &&& match kind {
        Some(k) => same_but_case(facts.kind, k),
        None => true,
    }
    &&& match layer {
        Some(l) => keyed(e.common.layer) == keyed(trimmed(l)),
        None => true,
    }
}

/// The report on an entity.
pub open spec fn report(e: EntityModel, facts: FactsModel, include_bounds: bool) -> EntityViewModel {
    EntityViewModel {
        id: e.common.handle,
        kind: facts.kind,
        layer: e.common.layer,
        bounds: if include_bounds {
            facts.bounds
        } else {
            None
        },
    }
}

/// The reports on those of the first `count` entities that are asked for.
pub open spec fn listed(
    entities: Seq<EntityModel>,
    facts: Seq<FactsModel>,
    kind: Option<Seq<char>>,
    layer: Option<Seq<char>>,
    include_bounds: bool,
    count: int,
) -> Seq<EntityViewModel>
    decreases count,
{
    if count <= 0 {
        Seq::empty()
    } else {
        let before = listed(entities, facts, kind, layer, include_bounds, count - 1);
        if asked_for(entities[count - 1], facts[count - 1], kind, layer) {
            before.push(report(entities[count - 1], facts[count - 1], include_bounds))
        } else {
            before
        }
    }
}

/// The contents of a text that may be missing.
pub open spec fn given(s: Option<&str>) -> Option<Seq<char>> {
    match s {
        Some(s) => Some(s@),
        None => None,
    }
}

/// The report on a part of a block. A part that is gone is reported as missing.
pub open spec fn part_report(doc: DocModel, handle: Handle, facts: FactsModel) -> EntityViewModel {
    match doc.place(handle) {
        Some(i) => EntityViewModel {
            id: handle,
            kind: facts.kind,
            layer: doc.entities[i].common.layer,
            bounds: facts.bounds,
        },
        None => EntityViewModel { id: handle, kind: "Missing"@, layer: ""@, bounds: None },
    }
}

/// The reports on the parts of a block.
pub open spec fn block_report(doc: DocModel, name: Seq<char>, facts: Seq<FactsModel>) -> Result<
    Seq<EntityViewModel>,
    ErrorModel,
> {
    match block_contents(doc.blocks, name) {
        None => Err(
            ErrorModel::Validation {
                op: "GetBlockEntities"@,
                reason: ReasonModel::UnknownBlock(name),
            },
        ),
        Some(handles) => Ok(
            Seq::new(handles.len(), |i: int| part_report(doc, handles[i], facts[i])),
        ),
    }
}

/// The contents of a list of reports or of what went wrong.
pub open spec fn reports_outcome(r: Result<Vec<EntityView>, ApiError>) -> Result<
    Seq<EntityViewModel>,
    ErrorModel,
> {
    match r {
        Ok(v) => Ok(views(v@)),
        Err(e) => Err(e@),
    }
}

/// What the geometry side says of the box around an entity: the body restored
/// from its stored form, the box around the body, and the box around an entity
/// without a body.
#[derive(Debug)]
pub struct BoundsFacts {
    pub lifted: Option<u64>,
    pub body: Option<Aabb>,
    pub entity: Result<Aabb, ApiError>,
}

/// Whether the box around an entity is the one around its body.
pub open spec fn bounded_by_body(doc: DocModel, id: Handle) -> bool {
    match doc.place(id) {
        Some(i) => match doc.entities[i].shape {
            ShapeModel::Solid3D(_) => true,
            ShapeModel::Region(stored) => stored,
            _ => false,
        },
        None => false,
    }
}

/// What asking for the box around an entity does.
pub open spec fn bounded(
    s: SessionModel,
    id: Handle,
    lifted: Option<u64>,
    body: Option<Aabb>,
    entity: Result<Aabb, ErrorModel>,
) -> (SessionModel, Result<Aabb, ErrorModel>) {
    if bounded_by_body(s.doc, id) {
        let bodies = lifted_in(s.bodies, id, lifted);
        (
            SessionModel { bodies, ..s },
            match body_of(bodies, id) {
                Err(e) => Err(e),
                Ok(_) => match body {
                    Some(b) => Ok(b),
                    None => Err(
                        ErrorModel::Geometry {
                            kind: GeometryErrorKind::Empty,
                            message: "no bounds"@,
                        },
                    ),
                },
            },
        )
    } else {
        (s, entity)
    }
}

/// The most solids that one request may measure anew.
pub const MEASURE_LIMIT: u32 = 32;

/// What asking for a report on one entity does. A box that cannot be had is left
/// out of the report.
pub open spec fn viewed(
    s: SessionModel,
    id: Handle,
    kind: Seq<char>,
    lifted: Option<u64>,
    body: Option<Aabb>,
    entity: Result<Aabb, ErrorModel>,
) -> (SessionModel, Result<EntityViewModel, ErrorModel>) {
    match s.doc.place(id) {
        None => (s, Err(ErrorModel::UnknownId(id))),
        Some(i) => {
            let (after, b) = bounded(s, id, lifted, body, entity);
            (
                after,
                Ok(
                    EntityViewModel {
                        id,
                        kind,
                        layer: s.doc.entities[i].common.layer,
                        bounds: match b {
                            Ok(b) => Some(b),
                            Err(_) => None,
                        },
                    },
                ),
            )
        },
    }
}

/// The contents of a report or of what went wrong.
pub open spec fn view_outcome(r: Result<EntityView, ApiError>) -> Result<
    EntityViewModel,
    ErrorModel,
> {
    match r {
        Ok(v) => Ok(v@),
        Err(e) => Err(e@),
    }
}

/// The volume of what was measured.
pub open spec fn volume_of(r: Result<(Real, Point3), ErrorModel>) -> Result<Real, ErrorModel> {
    match r {
        Ok((volume, centroid)) => Ok(volume),
        Err(e) => Err(e),
    }
}

/// The centroid of what was measured.
pub open spec fn centroid_of(r: Result<(Real, Point3), ErrorModel>) -> Result<
    Point3,
    ErrorModel,
> {
    match r {
        Ok((volume, centroid)) => Ok(centroid),
        Err(e) => Err(e),
    }
}

/// The profile of an entity, where it is a planar one.
pub open spec fn profile_of(doc: DocModel, id: Handle, found: Option<u64>) -> Result<
    u64,
    ErrorModel,
> {
    match (doc.place(id), found) {
        (None, _) => Err(ErrorModel::UnknownId(id)),
        (Some(_), Some(p)) => Ok(p),
        (Some(_), None) => Err(not_for("entity is not a planar profile"@)),
    }
}

/// The masses that are kept once another is found: the table starts over when it
/// is full.
pub open spec fn mass_kept(s: SessionModel, id: Handle, mass: Mass) -> Map<Handle, Mass> {
    if s.masses.len() >= s.item_cap {
        Map::empty().insert(id, mass)
    } else {
        s.masses.insert(id, mass)
    }
}

/// Whether asking for the volume and the centroid of a solid measures it anew:
/// they are not kept from this revision, and the limit is not reached.
pub open spec fn measured_anew(s: SessionModel, id: Handle) -> bool {
    !(s.masses.contains_key(id) && s.masses[id].epoch == s.epoch) && s.measured < MEASURE_LIMIT
}

/// What asking for the volume and the centroid of a solid does. `found` is what
/// the geometry side measures.
pub open spec fn weighed(
    s: SessionModel,
    id: Handle,
    lifted: Option<u64>,
    found: Option<(Real, Point3)>,
) -> (SessionModel, Result<(Real, Point3), ErrorModel>) {
    if s.masses.contains_key(id) && s.masses[id].epoch == s.epoch {
        (s, Ok((s.masses[id].volume, s.masses[id].centroid)))
    } else if s.measured >= MEASURE_LIMIT {
        (s, Err(refused("mass properties"@, "request exceeds 32 uncached solid queries"@)))
    } else {
        let t = SessionModel { bodies: lifted_in(s.bodies, id, lifted), ..s };
        match body_of(t.bodies, id) {
            Err(e) => (t, Err(e)),
            Ok(_) => {
                let u = SessionModel { measured: (t.measured + 1) as u32, ..t };
                match found {
                    None => (
                        u,
                        Err(
                            ErrorModel::Geometry {
                                kind: GeometryErrorKind::Empty,
                                message: "solid has no measurable volume"@,
                            },
                        ),
                    ),
                    Some((volume, centroid)) => (
                        SessionModel {
                            masses: mass_kept(u, id, Mass { epoch: u.epoch, volume, centroid }),
                            ..u
                        },
                        Ok((volume, centroid)),
                    ),
                }
            },
        }
    }
}

impl Session {
    /// Reports on all entities of a family and of a layer, in the order of the
    /// drawing. `facts` is what the geometry side says of the entities.
    pub fn enumerate_entities(
        &self,
        kind: Option<&str>,
        layer: Option<&str>,
        include_bounds: bool,
        facts: &Vec<EntityFacts>,
    ) -> (r: Result<Vec<EntityView>, ApiError>)
        requires
            facts@.len() == self@.doc.entities.len(),
        ensures
            reports_outcome(r) == Ok::<Seq<EntityViewModel>, ErrorModel>(
                listed(
                    self@.doc.entities,
                    views(facts@),
                    given(kind),
                    given(layer),
                    include_bounds,
                    self@.doc.entities.len() as int,
                ),
            ),
    {
        let n: usize = self.document.entities.len();
        let mut out: Vec<EntityView> = Vec::new();
        let mut i: usize = 0;
        proof {
            assert(views(out@) =~= Seq::<EntityViewModel>::empty());
        }
        while i < n
            invariant
                i <= n == self.document.entities@.len(),
                facts@.len() == n,
                views(out@) == listed(
                    self@.doc.entities,
                    views(facts@),
                    given(kind),
                    given(layer),
                    include_bounds,
                    i as int,
                ),
            decreases n - i,
        {
            let e = &self.document.entities[i];
            proof {
                assert(self@.doc.entities[i as int] == e@);
                assert(views(facts@)[i as int] == facts@[i as int]@);
            }
            let right_kind = match kind {
                Some(k) => equal_but_case(facts[i].kind.as_str(), k),
                None => true,
            };
            let right_layer = match layer {
                Some(l) => {
                    let plain = trim(l);
                    let a = normalize(e.common.layer.as_str());
                    let b = normalize(plain.as_str());
                    proof {
                        assert(a@ =~= keyed(e.common.layer@));
                        assert(b@ =~= keyed(plain@));
                    }
                    a == b
                },
                None => true,
            };
            if right_kind && right_layer {
                let ghost before = out@;
                let v = EntityView {
                    id: e.common.handle,
                    kind: facts[i].kind.clone(),
                    layer: e.common.layer.clone(),
                    bounds: if include_bounds {
                        facts[i].bounds
                    } else {
                        None
                    },
                };
                let ghost m = v@;
                out.push(v);
                proof {
                    assert(views(out@) =~= views(before).push(m));
                }
            }
            i += 1;
        }
        Ok(out)
    }

    /// The handles of the parts of a block, where there is such a block.
    pub fn block_parts(&self, block_name: &str) -> (r: Option<Vec<Handle>>)
        ensures
            match r {
                Some(parts) => block_contents(self@.doc.blocks, block_name@) == Some(parts@),
                None => block_contents(self@.doc.blocks, block_name@) is None,
            },
    {
        block_get(&self.document.blocks, block_name)
    }

    /// Reports on the parts of a block. `facts` is what the geometry side says
    /// of [`Self::block_parts`], part by part.
    pub fn block_entities(&self, block_name: &str, facts: &Vec<EntityFacts>) -> (r: Result<
        Vec<EntityView>,
        ApiError,
    >)
        requires
            match block_contents(self@.doc.blocks, block_name@) {
                Some(handles) => handles.len() == facts@.len(),
                None => true,
            },
        ensures
            reports_outcome(r) == block_report(self@.doc, block_name@, views(facts@)),
    {
        let handles = match block_get(&self.document.blocks, block_name) {
            None => return Err(
                ApiError::Validation {
                    op: "GetBlockEntities",
                    reason: Reason::UnknownBlock(owned(block_name)),
                },
            ),
            Some(v) => v,
        };
        let ghost goal = Seq::new(
            handles@.len(),
            |i: int| part_report(self@.doc, handles@[i], views(facts@)[i]),
        );
        let n: usize = handles.len();
        let mut out: Vec<EntityView> = Vec::new();
        let mut i: usize = 0;
        proof {
            assert(views(out@) =~= goal.take(0));
        }
        while i < n
            invariant
                i <= n == handles@.len(),
                facts@.len() == n,
                goal == Seq::new(
                    handles@.len(),
                    |i: int| part_report(self@.doc, handles@[i], views(facts@)[i]),
                ),
                views(out@) == goal.take(i as int),
            decreases n - i,
        {
            let ghost before = out@;
            let h: Handle = handles[i];
            let v = match self.document.find(h) {
                Some(k) => {
                    proof {
                        assert(self@.doc.entities[k as int] == self.document.entities@[k as int]@);
                    }
                    EntityView {
                        id: h,
                        kind: facts[i].kind.clone(),
                        layer: self.document.entities[k].common.layer.clone(),
                        bounds: facts[i].bounds,
                    }
                },
                None => EntityView {
                    id: h,
                    kind: owned("Missing"),
                    layer: owned(""),
                    bounds: None,
                },
            };
            let ghost m = v@;
            out.push(v);
            proof {
                assert(views(facts@)[i as int] == facts@[i as int]@);
                assert(views(out@) =~= views(before).push(m));
                assert(goal.take(i + 1) =~= goal.take(i as int).push(m));
            }
            i += 1;
        }
        proof {
            assert(goal.take(n as int) =~= goal);
        }
        Ok(out)
    }

    /// The box around an entity.
    pub fn bounds(&mut self, id: Handle, facts: &BoundsFacts) -> (r: Result<Aabb, ApiError>)
        ensures
            (final(self)@, outcome(r)) == bounded(
                old(self)@,
                id,
                facts.lifted,
                facts.body,
                outcome(facts.entity),
            ),
    {
        let by_body = match self.document.find(id) {
            Some(i) => {
                proof {
                    assert(self@.doc.entities[i as int] == self.document.entities@[i as int]@);
                }
                match &self.document.entities[i].shape {
                    Shape::Solid3D(_) => true,
                    Shape::Region(stored) => *stored,
                    _ => false,
                }
            },
            None => false,
        };
        if by_body {
            match self.resolve_body(id, facts.lifted) {
                Err(e) => Err(e),
                Ok(_) => match facts.body {
                    Some(b) => Ok(b),
                    None => Err(
                        ApiError::Geometry {
                            kind: GeometryErrorKind::Empty,
                            message: "no bounds",
                        },
                    ),
                },
            }
        } else {
            match &facts.entity {
                Ok(b) => Ok(*b),
                Err(e) => Err(e.duplicate()),
            }
        }
    }

    /// The report on one entity. `kind` is the name of its family.
    pub fn get_entity(&mut self, id: Handle, kind: &str, facts: &BoundsFacts) -> (r: Result<
        EntityView,
        ApiError,
    >)
        ensures
            (final(self)@, view_outcome(r)) == viewed(
                old(self)@,
                id,
                kind@,
                facts.lifted,
                facts.body,
                outcome(facts.entity),
            ),
    {
        let i: usize = match self.document.find(id) {
            None => return Err(ApiError::UnknownId(id)),
            Some(i) => i,
        };
        proof {
            assert(self@.doc.entities[i as int] == self.document.entities@[i as int]@);
        }
        let layer = self.document.entities[i].common.layer.clone();
        let bounds = match self.bounds(id, facts) {
            Ok(b) => Some(b),
            Err(_) => None,
        };
        Ok(EntityView { id, kind: owned(kind), layer, bounds })
    }

    /// Whether a solid has to be measured to know its volume and its centroid.
    pub fn measures_anew(&self, id: Handle) -> (r: bool)
        ensures
            r == measured_anew(self@, id),
    {
        if let Some(m) = map_get(&self.masses, id) {
            if m.epoch == self.epoch {
                return false;
            }
        }
        self.measured < MEASURE_LIMIT
    }

    /// The volume and the centroid of a solid. They are kept until the geometry
    /// has another revision, and one request measures only so many solids anew.
    pub fn mass_properties(
        &mut self,
        id: Handle,
        lifted: Option<u64>,
        found: Option<(Real, Point3)>,
    ) -> (r: Result<(Real, Point3), ApiError>)
        ensures
            (final(self)@, outcome(r)) == weighed(old(self)@, id, lifted, found),
    {
        let epoch: u64 = self.epoch;
        if let Some(m) = map_get(&self.masses, id) {
            if m.epoch == epoch {
                return Ok((m.volume, m.centroid));
            }
        }
        if self.measured >= MEASURE_LIMIT {
            return Err(
                ApiError::Validation {
                    op: "mass properties",
                    reason: Reason::Note("request exceeds 32 uncached solid queries"),
                },
            );
        }
        match self.resolve_body(id, lifted) {
            Err(e) => return Err(e),
            Ok(_) => {},
        }
        self.measured = self.measured + 1;
        match found {
            None => Err(
                ApiError::Geometry {
                    kind: GeometryErrorKind::Empty,
                    message: "solid has no measurable volume",
                },
            ),
            Some((volume, centroid)) => {
                if map_len(&self.masses) >= self.item_cap {
                    self.masses = map_new();
                }
                map_insert(&mut self.masses, id, Mass { epoch, volume, centroid });
                Ok((volume, centroid))
            },
        }
    }

    /// The volume of a solid.
    pub fn volume(
        &mut self,
        id: Handle,
        lifted: Option<u64>,
        found: Option<(Real, Point3)>,
    ) -> (r: Result<Real, ApiError>)
        ensures
            final(self)@ == weighed(old(self)@, id, lifted, found).0,
            outcome(r) == volume_of(weighed(old(self)@, id, lifted, found).1),
    {
        match self.mass_properties(id, lifted, found) {
            Ok((volume, _)) => Ok(volume),
            Err(e) => Err(e),
        }
    }

    /// The centroid of a solid.
    pub fn centroid(
        &mut self,
        id: Handle,
        lifted: Option<u64>,
        found: Option<(Real, Point3)>,
    ) -> (r: Result<Point3, ApiError>)
        ensures
            final(self)@ == weighed(old(self)@, id, lifted, found).0,
            outcome(r) == centroid_of(weighed(old(self)@, id, lifted, found).1),
    {
        match self.mass_properties(id, lifted, found) {
            Ok((_, centroid)) => Ok(centroid),
            Err(e) => Err(e),
        }
    }

    /// The profile of an entity, by the name that the geometry side gave it.
    /// `found` is the profile where the entity is a planar one.
    pub fn profile(&self, id: Handle, found: Option<u64>) -> (r: Result<u64, ApiError>)
        ensures
            outcome(r) == profile_of(self@.doc, id, found),
    {
        match self.document.find(id) {
            None => Err(ApiError::UnknownId(id)),
            Some(_) => match found {
                Some(p) => Ok(p),
                None => Err(ApiError::Unsupported(Reason::Note("entity is not a planar profile"))),
            },
        }
    }
}

/// Asking for volumes changes neither the drawing nor the revision nor the
/// history.
pub proof fn weighing_keeps(
    s: SessionModel,
    id: Handle,
    lifted: Option<u64>,
    found: Option<(Real, Point3)>,
)
    ensures
        weighed(s, id, lifted, found).0.doc == s.doc,
        weighed(s, id, lifted, found).0.epoch == s.epoch,
        weighed(s, id, lifted, found).0.history == s.history,
{
}

/// Asking for boxes changes neither the drawing nor the revision nor the history.
pub proof fn bounding_keeps(
    s: SessionModel,
    id: Handle,
    lifted: Option<u64>,
    body: Option<Aabb>,
    entity: Result<Aabb, ErrorModel>,
)
    ensures
        bounded(s, id, lifted, body, entity).0.doc == s.doc,
        bounded(s, id, lifted, body, entity).0.epoch == s.epoch,
        bounded(s, id, lifted, body, entity).0.history == s.history,
{
}

/// A solid that is not measured anew is answered for without its body and without
/// a measure.
pub proof fn nothing_is_measured_in_vain(
    s: SessionModel,
    id: Handle,
    lifted: Option<u64>,
    found: Option<(Real, Point3)>,
)
    requires
        !measured_anew(s, id),
    ensures
        weighed(s, id, lifted, found) == weighed(s, id, None, None),
        weighed(s, id, lifted, found).0 == s,
{
}

/// A volume that was found is found again at the same revision without measuring,
/// whatever the geometry side would say then.
pub proof fn volume_is_kept(
    s: SessionModel,
    id: Handle,
    lifted: Option<u64>,
    found: Option<(Real, Point3)>,
    lifted_later: Option<u64>,
    found_later: Option<(Real, Point3)>,
)
    requires
        weighed(s, id, lifted, found).1 is Ok,
    ensures
        ({
            let (t, first) = weighed(s, id, lifted, found);
            weighed(t, id, lifted_later, found_later) == (t, first)
        }),
{
}

/// No request measures more solids anew than the limit allows.
pub proof fn measuring_is_limited(
    s: SessionModel,
    id: Handle,
    lifted: Option<u64>,
    found: Option<(Real, Point3)>,
)
    requires
        s.measured <= MEASURE_LIMIT,
    ensures
        weighed(s, id, lifted, found).0.measured <= MEASURE_LIMIT,
{
}

/// Whether a report is on one of the first `count` entities, and one that is
/// asked for.
pub open spec fn reports_on_one(
    entities: Seq<EntityModel>,
    facts: Seq<FactsModel>,
    kind: Option<Seq<char>>,
    layer: Option<Seq<char>>,
    include_bounds: bool,
    count: int,
    v: EntityViewModel,
) -> bool {
    exists|i: int|
        0 <= i < count && asked_for(#[trigger] entities[i], facts[i], kind, layer) && v == report(
            entities[i],
            facts[i],
            include_bounds,
        )
}

/// Of the first `count` entities those are listed, and only those, that are asked
/// for.
pub proof fn listed_are_asked_for(
    entities: Seq<EntityModel>,
    facts: Seq<FactsModel>,
    kind: Option<Seq<char>>,
    layer: Option<Seq<char>>,
    include_bounds: bool,
    count: int,
)
    requires
        0 <= count <= entities.len(),
        entities.len() == facts.len(),
    ensures
        forall|k: int|
            0 <= k < listed(entities, facts, kind, layer, include_bounds, count).len()
                ==> reports_on_one(
                entities,
                facts,
                kind,
                layer,
                include_bounds,
                count,
                #[trigger] listed(entities, facts, kind, layer, include_bounds, count)[k],
            ),
        forall|i: int|
            0 <= i < count && asked_for(#[trigger] entities[i], facts[i], kind, layer) ==> listed(
                entities,
                facts,
                kind,
                layer,
                include_bounds,
                count,
            ).contains(report(entities[i], facts[i], include_bounds)),
    decreases count,
{
    if count > 0 {
        listed_are_asked_for(entities, facts, kind, layer, include_bounds, count - 1);
        let before = listed(entities, facts, kind, layer, include_bounds, count - 1);
        let all = listed(entities, facts, kind, layer, include_bounds, count);
        assert forall|k: int| 0 <= k < all.len() implies reports_on_one(
            entities,
            facts,
            kind,
            layer,
            include_bounds,
            count,
            #[trigger] all[k],
        ) by {
            if k < before.len() {
                assert(all[k] == before[k]);
                let i = choose|i: int|
                    0 <= i < count - 1 && asked_for(#[trigger] entities[i], facts[i], kind, layer)
                        && before[k] == report(entities[i], facts[i], include_bounds);
                assert(asked_for(entities[i], facts[i], kind, layer));
            } else {
                assert(asked_for(entities[count - 1], facts[count - 1], kind, layer));
            }
        }
        assert forall|i: int|
            0 <= i < count && asked_for(
                #[trigger] entities[i],
                facts[i],
                kind,
                layer,
            ) implies all.contains(report(entities[i], facts[i], include_bounds)) by {
            let v = report(entities[i], facts[i], include_bounds);
            if i < count - 1 {
                assert(before.contains(v));
                let k = before.index_of(v);
                assert(all[k] == v);
            } else {
                assert(all[all.len() - 1] == v);
            }
        }
    }
}

} // verus!
