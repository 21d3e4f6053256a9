//! What queries, records and solids of an open drawing give back.
use crate::doc_api::{
    admission, begun, finished, sentence, unmodifiable, ErrorModel, ReasonModel, SessionModel,
};
use crate::doc_queries::{
    block_report, bounded, centroid_of, listed, profile_of, viewed, volume_of, weighed, Aabb,
    EntityViewModel, FactsModel,
};
use crate::doc_records::{
    data_of, data_set, lemma_data_from, lemma_filed, lemma_with_dictionary,
    lemma_with_entries, numbered, owner_from, owner_of, record_added, record_at, references_of, with_data,
    with_dictionary, without_handle, without_name,
};
use crate::doc_solids::{
    all_added, all_put, bodies_prepared, body_of, created, first_stuck, lemma_all_added,
    lemma_all_put, lofted, movable, move_at, solid_stored, solid_updated, transformed,
    transformed_one, MadeModel, MovedModel, NewEntityModel, PreparedModel, SolidBody,
};
use crate::document::{
    lemma_entity_from, new_entity_is_found, DictEntryModel, DocModel, FiledModel, ObjectModel,
    RecordEntryModel, RecordSpecModel, Reference, ReferenceKind,
    XRecordModel,
};
use crate::entity::{EntityModel, Handle, ShapeModel, XDataModel, XDataRecordModel};
use crate::tables::keyed;
use crate::prompt_laws::{lemma_shows, shows};
use crate::text::{decimal, trimmed};
use crate::text_laws::case_is_passed_over;
use crate::value::{Point3, Real};
use vstd::prelude::*;

verus! {

/// Whether two texts are the same, letters in either case.
pub open spec fn same_letters(a: Seq<char>, b: Seq<char>) -> bool {
    &&& a.len() == b.len()
    &&& forall|i: int|
        0 <= i < a.len() ==> {
            ||| #[trigger] a[i] == b[i]
            ||| 65 <= a[i] as int <= 90 && b[i] as int == a[i] as int + 32
            ||| 97 <= a[i] as int <= 122 && b[i] as int == a[i] as int - 32
        }
}

/// Going through the entities of a drawing, one is reported behind the others
/// where its family and its layer are asked for or not given: with its handle, its
/// family, its layer and, where that is wanted, the box around it. Any other is
/// passed over.
pub proof fn entities_are_reported(
    entities: Seq<EntityModel>,
    facts: Seq<FactsModel>,
    kind: Option<Seq<char>>,
    layer: Option<Seq<char>>,
    with_boxes: bool,
    count: int,
)
    requires
        0 <= count < entities.len(),
        entities.len() == facts.len(),
    ensures
        ({
            let before = listed(entities, facts, kind, layer, with_boxes, count);
            let after = listed(entities, facts, kind, layer, with_boxes, count + 1);
            let e = entities[count];
            let asked = (kind is None || same_letters(facts[count].kind, kind->0)) && (layer
                is None || keyed(e.common.layer) == keyed(trimmed(layer->0)));
            &&& !asked ==> after == before
            &&& asked ==> {
                &&& after.len() == before.len() + 1
                &&& after.take(before.len() as int) == before
                &&& after.last().id == e.common.handle
                &&& after.last().kind == facts[count].kind
                &&& after.last().layer == e.common.layer
                &&& with_boxes ==> after.last().bounds == facts[count].bounds
                &&& !with_boxes ==> after.last().bounds is None
            }
        }),
        listed(entities, facts, kind, layer, with_boxes, 0).len() == 0,
{
    if kind is Some {
        case_is_passed_over(facts[count].kind, kind->0);
    }
    let before = listed(entities, facts, kind, layer, with_boxes, count);
    let after = listed(entities, facts, kind, layer, with_boxes, count + 1);
    if after.len() == before.len() + 1 {
        assert(after.take(before.len() as int) =~= before);
    }
}

/// Every part of a block is reported in its order, with its layer, its family and
/// its box; a part that is gone is reported as missing.
pub proof fn parts_are_reported(
    doc: DocModel,
    name: Seq<char>,
    facts: Seq<FactsModel>,
    row: int,
    k: int,
)
    requires
        0 <= row < doc.blocks.len(),
        doc.blocks[row].key == keyed(name),
        forall|i: int| 0 <= i < row ==> (#[trigger] doc.blocks[i]).key != keyed(name),
        0 <= k < doc.blocks[row].entities.len(),
    ensures
        ({
            let r = block_report(doc, name, facts);
            let h = doc.blocks[row].entities[k];
            let v = r->Ok_0[k];
            &&& r is Ok
            &&& r->Ok_0.len() == doc.blocks[row].entities.len()
            &&& v.id == h
            &&& doc.place(h) matches Some(i) ==> v.kind == facts[k].kind && v.layer
                == doc.entities[i].common.layer && v.bounds == facts[k].bounds
            &&& doc.place(h) is None ==> v.kind == "Missing"@ && v.layer == ""@
                && v.bounds is None
        }),
{
    lemma_block(doc.blocks, keyed(name), 0, row);
}

proof fn lemma_block(rows: Seq<crate::tables::BlockRow>, key: Seq<char>, from: int, row: int)
    requires
        0 <= from <= row < rows.len(),
        rows[row].key == key,
        forall|i: int| 0 <= i < row ==> (#[trigger] rows[i]).key != key,
    ensures
        crate::tables::block_from(rows, key, from) == Some(row),
    decreases rows.len() - from,
{
    if from < row {
        assert(rows[from].key != key);
        lemma_block(rows, key, from + 1, row);
    }
}

/// A report on one entity has its handle, its layer and the box around it, as far
/// as that can be had.
pub proof fn one_entity_is_reported(
    s: SessionModel,
    id: Handle,
    kind: Seq<char>,
    lifted: Option<u64>,
    body: Option<Aabb>,
    entity: Result<Aabb, ErrorModel>,
)
    ensures
        ({
            let (t, r) = viewed(s, id, kind, lifted, body, entity);
            let b = bounded(s, id, lifted, body, entity);
            &&& s.doc.place(id) is None ==> t == s && r == Err::<EntityViewModel, ErrorModel>(
                ErrorModel::UnknownId(id),
            )
            &&& s.doc.place(id) matches Some(i) ==> {
                &&& t == b.0
                &&& r is Ok
                &&& r->Ok_0.id == id
                &&& r->Ok_0.kind == kind
                &&& r->Ok_0.layer == s.doc.entities[i].common.layer
                &&& b.1 is Ok ==> r->Ok_0.bounds == Some(b.1->Ok_0)
                &&& b.1 is Err ==> r->Ok_0.bounds is None
            }
        }),
{
}

/// The box around a solid, and around a region that holds a body, is the box
/// around its body, which is restored where it was missing. The box around any
/// other entity is its own, and changes nothing.
pub proof fn boxes_are_given(
    s: SessionModel,
    id: Handle,
    i: int,
    lifted: Option<u64>,
    body: Option<Aabb>,
    entity: Result<Aabb, ErrorModel>,
)
    requires
        s.doc.place(id) == Some(i),
    ensures
        ({
            let (t, r) = bounded(s, id, lifted, body, entity);
            let shape = s.doc.entities[i].shape;
            let solid = shape is Solid3D || shape == ShapeModel::Region(true);
            let held = s.bodies.contains_key(id) || lifted is Some;
            &&& !solid ==> t == s && r == entity
            &&& solid && held && body is Some ==> r == Ok::<Aabb, ErrorModel>(body->0)
            &&& solid && held && body is None ==> r is Err
            &&& solid && !held ==> r == Err::<Aabb, ErrorModel>(ErrorModel::UnknownId(id))
            &&& solid && !s.bodies.contains_key(id) && lifted is Some ==> t.bodies
                == s.bodies.insert(id, lifted->0)
            &&& solid && (s.bodies.contains_key(id) || lifted is None) ==> t == s
        }),
{
}

/// The volume and the centroid of a solid are what was kept of them from this
/// revision, or else what is measured now and kept. At most thirty-two solids are
/// measured anew in a request.
pub proof fn masses_are_given(
    s: SessionModel,
    id: Handle,
    lifted: Option<u64>,
    found: Option<(Real, Point3)>,
)
    ensures
        ({
            let (t, r) = weighed(s, id, lifted, found);
            let kept = s.masses.contains_key(id) && s.masses[id].epoch == s.epoch;
            let held = s.bodies.contains_key(id) || lifted is Some;
            &&& kept ==> t == s && r == Ok::<(Real, Point3), ErrorModel>(
                (s.masses[id].volume, s.masses[id].centroid),
            )
            &&& !kept && s.measured >= 32 ==> t == s && r is Err
            &&& !kept && s.measured < 32 && !held ==> t.measured == s.measured && r == Err::<
                (Real, Point3),
                ErrorModel,
            >(ErrorModel::UnknownId(id))
            &&& !kept && s.measured < 32 && held ==> {
                &&& t.measured == s.measured + 1
                &&& found is None ==> r is Err && t.masses == s.masses
                &&& found is Some ==> {
                    &&& r == Ok::<(Real, Point3), ErrorModel>(found->0)
                    &&& t.masses.contains_key(id)
                    &&& t.masses[id].volume == (found->0).0
                    &&& t.masses[id].centroid == (found->0).1
                    &&& t.masses[id].epoch == s.epoch
                }
            }
            &&& volume_of(r) is Ok <==> r is Ok
            &&& r is Ok ==> volume_of(r) == Ok::<Real, ErrorModel>((r->Ok_0).0)
            &&& r is Ok ==> centroid_of(r) == Ok::<Point3, ErrorModel>((r->Ok_0).1)
            &&& r is Err ==> volume_of(r) == Err::<Real, ErrorModel>(r->Err_0) && centroid_of(r)
                == Err::<Point3, ErrorModel>(r->Err_0)
        }),
{
}

/// The profile of an entity is the one that was found.
pub proof fn profiles_are_given(doc: DocModel, id: Handle, found: Option<u64>)
    ensures
        doc.place(id) is None ==> profile_of(doc, id, found) == Err::<u64, ErrorModel>(
            ErrorModel::UnknownId(id),
        ),
        doc.place(id) is Some && found is Some ==> profile_of(doc, id, found) == Ok::<
            u64,
            ErrorModel,
        >(found->0),
        doc.place(id) is Some && found is None ==> profile_of(doc, id, found) is Err,
{
}

/// The entries of a record are gone through one by one: a handle under a group
/// code from 330 to 369 is a reference. Where the record had references before,
/// they keep their kinds in order; a new one is a soft pointer, a hard pointer, a
/// soft or a hard owner by the ten that its code is in. All else is none.
pub proof fn references_follow_codes(
    entries: Seq<RecordEntryModel>,
    e: RecordEntryModel,
    previous: Seq<Reference>,
)
    ensures
        references_of(Seq::empty(), previous).len() == 0,
        ({
            let before = references_of(entries, previous);
            let after = references_of(entries.push(e), previous);
            let refers = e.value is Handle && 330 <= e.code <= 369;
            let kind = after.last().kind;
            &&& !refers ==> after == before
            &&& refers ==> {
                &&& after.len() == before.len() + 1
                &&& after.take(before.len() as int) == before
                &&& after.last().handle == e.value->Handle_0
                &&& before.len() < previous.len() ==> kind == previous[before.len() as int].kind
                &&& before.len() >= previous.len() ==> {
                    &&& e.code < 340 ==> kind == ReferenceKind::SoftPointer
                    &&& 340 <= e.code < 350 ==> kind == ReferenceKind::HardPointer
                    &&& 350 <= e.code < 360 ==> kind == ReferenceKind::SoftOwnership
                    &&& 360 <= e.code ==> kind == ReferenceKind::HardOwnership
                }
            }
        }),
{
    let f = |e: RecordEntryModel| crate::doc_records::link_of(e);
    let links = entries.map_values(f);
    let more = entries.push(e).map_values(f);
    assert(more.drop_last() =~= links);
    assert(more.last() == crate::doc_records::link_of(e));
    assert(Seq::<RecordEntryModel>::empty().map_values(f) =~= Seq::empty());
    let before = references_of(entries, previous);
    let after = references_of(entries.push(e), previous);
    if e.value is Handle && 330 <= e.code <= 369 {
        assert(after.take(before.len() as int) =~= before);
    }
}

/// References are written with the numbers of their kinds: 1 and 2 for soft and
/// hard owners, 3 and 4 for soft and hard pointers, 0 for any other.
pub proof fn kinds_are_numbered(list: Seq<Reference>, k: int)
    requires
        0 <= k < list.len(),
    ensures
        numbered(list).len() == list.len(),
        numbered(list)[k].0 == list[k].handle,
        list[k].kind == ReferenceKind::SoftOwnership ==> numbered(list)[k].1 == 1,
        list[k].kind == ReferenceKind::HardOwnership ==> numbered(list)[k].1 == 2,
        list[k].kind == ReferenceKind::SoftPointer ==> numbered(list)[k].1 == 3,
        list[k].kind == ReferenceKind::HardPointer ==> numbered(list)[k].1 == 4,
        list[k].kind == ReferenceKind::Undefined ==> numbered(list)[k].1 == 0,
{
}

/// A new record has the name, the flags and the entries that were given, in their
/// order, and refers to just what its entries refer to.
pub proof fn new_record_holds_what_was_given(doc: DocModel, spec: RecordSpecModel)
    requires
        doc.wf(),
        doc.next_handle < u64::MAX - 1,
        record_added(doc, spec).1 is Ok,
    ensures
        ({
            let (after, id) = (record_added(doc, spec).0, record_added(doc, spec).1->Ok_0);
            let x = record_at(after, id)->0;
            &&& record_at(after, id) is Some
            &&& doc.object_place(id) is None
            &&& x.name == spec.name
            &&& x.cloning_flags == spec.cloning_flags
            &&& x.entries == spec.entries
            &&& x.references == references_of(spec.entries, Seq::empty())
            &&& after.entities == doc.entities
            &&& after.layers == doc.layers
        }),
{
    let (ready, dict) = with_dictionary(doc);
    lemma_with_dictionary(doc);
    let handle = ready.next_handle;
    let record = ObjectModel::XRecord(
        XRecordModel {
            name: spec.name,
            owner: dict,
            cloning_flags: spec.cloning_flags,
            entries: spec.entries,
            references: references_of(spec.entries, Seq::empty()),
        },
    );
    let next = DocModel { next_handle: (handle + 1) as Handle, ..ready };
    lemma_filed(next, handle, record);
    let stored = DocModel {
        objects: crate::doc_records::filed(ready.objects, handle, record),
        ..next
    };
    assert(ready.object_place(dict) is Some);
    assert(stored.dictionary(dict) == ready.dictionary(dict));
    let entries = stored.dictionary(dict)->0.entries.push(
        DictEntryModel { name: spec.name, handle },
    );
    lemma_with_entries(stored, dict, entries);
    let after = crate::doc_records::with_entries(stored, dict, entries);
    assert(after.object_place(handle) == stored.object_place(handle));
    crate::document::lemma_object_from(doc.objects, handle, 0);
}

/// Taking the entries with a name, or those that lead to an object, out of a
/// dictionary takes all of these, in any case of the letters, and no other.
pub proof fn entries_are_taken_out(
    entries: Seq<DictEntryModel>,
    e: DictEntryModel,
    name: Seq<char>,
    handle: Handle,
)
    ensures
        same_letters(e.name, name) ==> without_name(entries.push(e), name) == without_name(
            entries,
            name,
        ),
        !same_letters(e.name, name) ==> without_name(entries.push(e), name) == without_name(
            entries,
            name,
        ).push(e),
        e.handle == handle ==> without_handle(entries.push(e), handle) == without_handle(
            entries,
            handle,
        ),
        e.handle != handle ==> without_handle(entries.push(e), handle) == without_handle(
            entries,
            handle,
        ).push(e),
        without_name(Seq::empty(), name).len() == 0,
        without_handle(Seq::empty(), handle).len() == 0,
{
    case_is_passed_over(e.name, name);
    assert(entries.push(e).drop_last() =~= entries);
}

/// The dictionary of a record is the one that it names, as long as that leads to
/// it.
pub proof fn records_name_their_dictionary(doc: DocModel, handle: Handle, owner: Handle, k: int)
    requires
        doc.dictionary(owner) is Some,
        0 <= k < doc.dictionary(owner)->0.entries.len(),
        doc.dictionary(owner)->0.entries[k].handle == handle,
    ensures
        owner_of(doc, handle, owner) == Some(owner),
{
}

/// Data of an application takes the place of what the application had, or comes
/// behind the data of the others, which stays. Taking data away takes just that of
/// the application.
pub proof fn data_is_hung_up(
    list: Seq<XDataRecordModel>,
    name: Seq<char>,
    values: Seq<XDataModel>,
    i: int,
    k: int,
)
    requires
        0 <= i <= list.len(),
        i < list.len() ==> list[i].application_name == name,
        forall|j: int| 0 <= j < i ==> (#[trigger] list[j]).application_name != name,
    ensures
        ({
            let new = with_data(list, name, Some(values));
            &&& new.len() == (if i < list.len() {
                list.len()
            } else {
                list.len() + 1
            })
            &&& new[i].application_name == name
            &&& new[i].values == values
            &&& 0 <= k < list.len() && k != i ==> new[k] == list[k]
        }),
        i < list.len() ==> with_data(list, name, None) == list.remove(i),
        i == list.len() ==> with_data(list, name, None) == list,
{
    lemma_data_from(list, name, 0);
    let found = crate::doc_records::data_from(list, name, 0);
    if i < list.len() {
        assert(found == Some(i)) by {
            if let Some(j) = found {
                if j < i {
                    assert(list[j].application_name != name);
                }
            }
        }
    } else if let Some(j) = found {
        assert(list[j].application_name != name);
    }
}

/// Whether each application has data at most once.
pub open spec fn once_each(list: Seq<XDataRecordModel>) -> bool {
    forall|a: int, b: int|
        0 <= a < list.len() && 0 <= b < list.len() && a != b ==> #[trigger] list[a].application_name
            != #[trigger] list[b].application_name
}

/// Data that was taken away is gone, where the application had it once.
pub proof fn data_taken_away_is_gone(doc: DocModel, id: Handle, name: Seq<char>)
    requires
        unmodifiable(doc, id) is None,
        once_each(doc.entities[doc.place(id)->0].common.xdata),
    ensures
        ({
            let (after, failure) = data_set(doc, id, name, None);
            &&& failure is None
            &&& data_of(after, id, name) == Ok::<Option<XDataRecordModel>, ErrorModel>(None)
            &&& after.entities.len() == doc.entities.len()
            &&& after.entities[doc.place(id)->0].shape == doc.entities[doc.place(id)->0].shape
        }),
{
    let after = data_set(doc, id, name, None).0;
    lemma_entity_from(doc.entities, id, 0);
    lemma_entity_from(after.entities, id, 0);
    let i = doc.place(id)->0;
    assert(after.entities[i].common.handle == id);
    let j = after.place(id)->0;
    if j < i {
        assert(after.entities[j] == doc.entities[j]);
    }
    let list = doc.entities[i].common.xdata;
    let now = with_data(list, name, None);
    lemma_data_from(list, name, 0);
    lemma_data_from(now, name, 0);
    if let Some(k) = crate::doc_records::data_from(list, name, 0) {
        assert forall|q: int| 0 <= q < now.len() implies (#[trigger] now[q]).application_name
            != name by {
            let p = if q < k {
                q
            } else {
                q + 1
            };
            assert(now[q] == list[p]);
            assert(list[p].application_name != list[k].application_name);
        }
    }
}

/// A body that can be shown and stored becomes a solid on the layer `0` under the
/// next handle, and is held for it. Any other body is refused, and so is a solid
/// between profiles where none could be made.
pub proof fn stored_solid_is_found(s: SessionModel, b: SolidBody)
    requires
        s.doc.wf(),
        s.doc.next_handle < u64::MAX,
    ensures
        ({
            let (t, r) = solid_stored(s, b);
            let h = s.doc.next_handle;
            &&& r is Ok <==> b.display && b.stored is Some
            &&& r is Err ==> t == s
            &&& r is Ok ==> {
                &&& r->Ok_0 == h
                &&& t.doc.place(h) == Some(s.doc.entities.len() as int)
                &&& t.doc.entities.last().common.handle == h
                &&& t.doc.entities.last().common.layer == "0"@
                &&& t.doc.entities.last().shape == ShapeModel::Solid3D(b.stored->0)
                &&& body_of(t.bodies, h) == Ok::<u64, ErrorModel>(b.body)
                &&& t.bodies == s.bodies.insert(h, b.body)
            }
        }),
        lofted(s, Some(b)) == solid_stored(s, b),
        lofted(s, None).0 == s,
        lofted(s, None).1 is Err,
{
    if b.stored is Some {
        new_entity_is_found(s.doc, "0"@, ShapeModel::Solid3D(b.stored->0));
    }
}

/// A solid that is given another body holds it, and keeps its place and its
/// properties; nothing but a solid can be given one.
pub proof fn updated_solid_holds_the_body(s: SessionModel, id: Handle, b: SolidBody, i: int)
    requires
        s.doc.place(id) == Some(i),
    ensures
        ({
            let (t, failure) = solid_updated(s, id, b);
            let solid = s.doc.entities[i].shape is Solid3D;
            &&& failure is None <==> solid && !s.doc.locked_at(i) && b.display && b.stored is Some
            &&& failure is Some ==> t == s
            &&& failure is None ==> {
                &&& t.bodies == s.bodies.insert(id, b.body)
                &&& t.doc.entities.len() == s.doc.entities.len()
                &&& t.doc.entities[i].shape == ShapeModel::Solid3D(b.stored->0)
                &&& t.doc.entities[i].common == s.doc.entities[i].common
                &&& forall|k: int|
                    0 <= k < s.doc.entities.len() && k != i ==> #[trigger] t.doc.entities[k]
                        == s.doc.entities[k]
            }
        }),
{
    lemma_entity_from(s.doc.entities, id, 0);
}

proof fn lemma_each_added(s: SessionModel, list: Seq<NewEntityModel>, k: int)
    requires
        s.doc.next_handle + list.len() <= u64::MAX,
        0 <= k < list.len(),
        forall|i: int|
            0 <= i < list.len() ==> crate::doc_solids::prepared_new(#[trigger] list[i]) is Ok,
    ensures
        ({
            let t = all_added(s, list);
            let e = t.doc.entities[s.doc.entities.len() + k];
            &&& e.common.handle == s.doc.next_handle + k
            &&& list[k].made matches MadeModel::Curve(Ok(shape)) ==> e.shape == shape && (
            list[k].layer is None ==> e.common.layer == "0"@) && (list[k].layer matches Some(
                name,
            ) ==> e.common.layer == keyed(trimmed(name)))
            &&& list[k].made matches MadeModel::Solid(Ok(b)) ==> e.shape == ShapeModel::Solid3D(
                b.stored->0,
            ) && e.common.layer == "0"@ && t.bodies.contains_key((s.doc.next_handle + k) as Handle)
                && t.bodies[(s.doc.next_handle + k) as Handle] == b.body
        }),
    decreases list.len(),
{
    let rest = list.drop_last();
    lemma_all_added(s, rest);
    lemma_all_added(s, list);
    assert forall|i: int| 0 <= i < rest.len() implies crate::doc_solids::prepared_new(
        #[trigger] rest[i],
    ) is Ok by {
        assert(rest[i] == list[i]);
    }
    let u = all_added(s, rest);
    assert(list.last() == list[list.len() - 1]);
    assert(u.doc.entities.len() == s.doc.entities.len() + rest.len());
    if k < rest.len() {
        lemma_each_added(s, rest, k);
        assert(rest[k] == list[k]);
    }
}

/// Many entities made at once come one behind the other under consecutive
/// handles: each curve as it was made and on its layer, each solid with its body.
/// The whole is one step, which is recorded, and the drawing counts as changed.
pub proof fn many_are_made(s: SessionModel, list: Seq<NewEntityModel>, k: int)
    requires
        s.doc.next_handle + list.len() <= u64::MAX,
        s.epoch < u64::MAX,
        created(s, list).1 is Ok,
        0 <= k < list.len(),
    ensures
        ({
            let (t, r) = created(s, list);
            let h = (s.doc.next_handle + k) as Handle;
            let e = t.doc.entities[s.doc.entities.len() + k];
            &&& r->Ok_0.len() == list.len()
            &&& r->Ok_0[k] == h
            &&& t.doc.entities.len() == s.doc.entities.len() + list.len()
            &&& e.common.handle == h
            &&& list[k].made matches MadeModel::Curve(Ok(shape)) ==> e.shape == shape && (
            list[k].layer is None ==> e.common.layer == "0"@) && (list[k].layer matches Some(
                name,
            ) ==> e.common.layer == keyed(trimmed(name)))
            &&& list[k].made matches MadeModel::Solid(Ok(b)) ==> e.shape == ShapeModel::Solid3D(
                b.stored->0,
            ) && e.common.layer == "0"@ && t.bodies.contains_key(h) && t.bodies[h] == b.body
            &&& t.epoch == s.epoch + 1
            &&& t.history == s.history.push("CreateMany"@)
            &&& t.dirty
            &&& t.recording is None
        }),
{
    let started = begun(s, "CreateMany"@);
    crate::doc_solids::create_succeeds_when_all_do(s, list);
    lemma_all_added(started, list);
    lemma_each_added(started, list, k);
    lemma_still_recording(started, list);
}

proof fn lemma_still_recording(s: SessionModel, list: Seq<NewEntityModel>)
    ensures
        all_added(s, list).recording == s.recording,
        all_added(s, list).history == s.history,
    decreases list.len(),
{
    if list.len() > 0 {
        lemma_still_recording(s, list.drop_last());
    }
}

/// A recorded change is one step of the history under its label, makes the
/// drawing count as changed and starts a new revision.
pub proof fn changes_are_recorded(s: SessionModel, label: Seq<char>)
    requires
        s.epoch < u64::MAX,
    ensures
        ({
            let t = finished(begun(s, label));
            &&& t.history == s.history.push(label)
            &&& t.recording is None
            &&& t.dirty
            &&& t.epoch == s.epoch + 1
            &&& t.doc == s.doc
            &&& t.bodies == s.bodies
        }),
        s.recording is None ==> finished(s).history == s.history && finished(s).dirty == s.dirty
            && finished(s).epoch == s.epoch + 1,
{
}

/// A moved entity has the moved shape and keeps its properties, and a moved solid
/// holds the moved body. Dimensions, hatches and the other families stay where
/// they are.
pub proof fn one_entity_is_moved(s: SessionModel, id: Handle, moved: MovedModel, i: int)
    requires
        s.doc.place(id) == Some(i),
    ensures
        ({
            let (t, failure) = transformed_one(s, id, moved);
            let shape = s.doc.entities[i].shape;
            let open = !s.doc.locked_at(i);
            &&& failure is Some ==> t.doc == s.doc
            &&& failure is None ==> {
                &&& open
                &&& t.doc.entities.len() == s.doc.entities.len()
                &&& t.doc.entities[i].common == s.doc.entities[i].common
                &&& forall|k: int|
                    0 <= k < s.doc.entities.len() && k != i ==> #[trigger] t.doc.entities[k]
                        == s.doc.entities[k]
                &&& shape is Solid3D ==> moved.solid is Some && t.doc.entities[i].shape
                    == ShapeModel::Solid3D((moved.solid->0).stored->0) && t.bodies.contains_key(id)
                    && t.bodies[id] == (moved.solid->0).body
                &&& !(shape is Solid3D) ==> moved.shape is Ok && t.doc.entities[i].shape
                    == moved.shape->Ok_0 && t.bodies == s.bodies
            }
            &&& open && !(shape is Solid3D) && movable(shape) && moved.shape is Ok
                ==> failure is None
            &&& open && shape is Solid3D && (s.bodies.contains_key(id) || moved.lifted is Some)
                && moved.solid is Some && (moved.solid->0).display && (
            moved.solid->0).stored is Some ==> failure is None
            &&& !movable(shape) ==> failure is Some
            &&& s.doc.locked_at(i) ==> failure is Some
        }),
{
    lemma_entity_from(s.doc.entities, id, 0);
}

/// Lines, curves, texts, points, windows, block references and solids can be
/// moved; the other families cannot.
pub proof fn families_that_move(shape: ShapeModel)
    ensures
        shape is Solid3D || shape is Line || shape is Circle || shape is Arc || shape is Ellipse
            || shape is Spline || shape is Ray || shape is XLine || shape is Point
            || shape is LwPolyline || shape is Text || shape is MText || shape is Insert
            || shape is Viewport ==> movable(shape),
        shape is Hatch || shape is Dimension || shape is Table || shape is RasterImage
            || shape is AttributeDefinition || shape is Polyline2D || shape is Polyline3D
            || shape is PolygonMesh || shape is Region || shape is Other ==> !movable(shape),
{
}

proof fn lemma_put(
    s: SessionModel,
    ids: Seq<Handle>,
    prepared: Seq<PreparedModel>,
    count: int,
    k: int,
)
    requires
        0 <= k < count <= ids.len(),
        ids.len() == prepared.len(),
        ids.no_duplicates(),
        forall|i: int| 0 <= i < ids.len() ==> s.doc.place(#[trigger] ids[i]) is Some,
    ensures
        ({
            let t = all_put(s, ids, prepared, count);
            &&& t.doc.entities[s.doc.place(ids[k])->0].shape == prepared[k].shape
            &&& prepared[k].solid is Some ==> t.bodies.contains_key(ids[k]) && t.bodies[ids[k]]
                == prepared[k].solid->0
        }),
    decreases count,
{
    let u = all_put(s, ids, prepared, count - 1);
    lemma_all_put(s, ids, prepared, count - 1);
    let last = ids[count - 1];
    assert(u.doc.place(last) == s.doc.place(last));
    lemma_entity_from(s.doc.entities, last, 0);
    lemma_entity_from(s.doc.entities, ids[k], 0);
    assert(s.doc.place(ids[k]) is Some);
    if k < count - 1 {
        lemma_put(s, ids, prepared, count - 1, k);
        assert(ids[k] != last);
    }
}

proof fn lemma_untouched(
    s: SessionModel,
    ids: Seq<Handle>,
    prepared: Seq<PreparedModel>,
    count: int,
    j: int,
)
    requires
        0 <= count <= ids.len(),
        ids.len() == prepared.len(),
        0 <= j < s.doc.entities.len(),
        forall|i: int| 0 <= i < ids.len() ==> #[trigger] ids[i] != s.doc.entities[j].common.handle,
    ensures
        all_put(s, ids, prepared, count).doc.entities[j] == s.doc.entities[j],
    decreases count,
{
    if count > 0 {
        let u = all_put(s, ids, prepared, count - 1);
        lemma_untouched(s, ids, prepared, count - 1, j);
        lemma_all_put(s, ids, prepared, count - 1);
        let last = ids[count - 1];
        lemma_entity_from(u.doc.entities, last, 0);
        if let Some(p) = u.doc.place(last) {
            assert(u.doc.entities[p].common.handle == last);
            assert(p != j);
        }
    }
}

proof fn lemma_none_stuck(s: SessionModel, ids: Seq<Handle>, moved: Seq<MovedModel>, from: int, k: int)
    requires
        0 <= from <= k < ids.len(),
        first_stuck(s, ids, moved, from) is None,
    ensures
        move_at(s, ids, moved, k) is Ok,
    decreases k - from,
{
    if from < k {
        lemma_none_stuck(s, ids, moved, from + 1, k);
    }
}

/// Of many entities that are moved at once, each has the shape that it was moved
/// to, and each solid the body; the others stay as they are. The whole is one
/// step, which is recorded.
pub proof fn many_are_moved(
    s: SessionModel,
    ids: Seq<Handle>,
    moved: Seq<MovedModel>,
    k: int,
    j: int,
)
    requires
        ids.len() == moved.len(),
        ids.no_duplicates(),
        s.epoch < u64::MAX,
        transformed(s, ids, moved).1 is None,
        0 <= k < ids.len(),
        0 <= j < s.doc.entities.len(),
    ensures
        ({
            let t = transformed(s, ids, moved).0;
            let i = s.doc.place(ids[k])->0;
            let old = s.doc.entities[i];
            let new = t.doc.entities[i];
            &&& s.doc.place(ids[k]) is Some
            &&& 0 <= i < s.doc.entities.len()
            &&& new.common == old.common
            &&& !(old.shape is Solid3D) ==> moved[k].shape is Ok && new.shape
                == moved[k].shape->Ok_0
            &&& old.shape is Solid3D ==> {
                &&& moved[k].solid is Some
                &&& new.shape == ShapeModel::Solid3D((moved[k].solid->0).stored->0)
                &&& t.bodies.contains_key(ids[k])
                &&& t.bodies[ids[k]] == (moved[k].solid->0).body
            }
            &&& (forall|q: int|
                0 <= q < ids.len() ==> #[trigger] ids[q] != s.doc.entities[j].common.handle)
                ==> t.doc.entities[j] == s.doc.entities[j]
            &&& t.history == s.history.push("TransformMany"@)
            &&& t.epoch == s.epoch + 1
            &&& t.dirty
        }),
{
    let ready = SessionModel {
        bodies: bodies_prepared(s, ids, moved, ids.len() as int),
        ..s
    };
    let prepared = Seq::new(ids.len(), |i: int| move_at(s, ids, moved, i)->Ok_0);
    let from = begun(ready, "TransformMany"@);
    assert forall|i: int| 0 <= i < ids.len() implies from.doc.place(#[trigger] ids[i]) is Some by {
        lemma_none_stuck(s, ids, moved, 0, i);
    }
    lemma_none_stuck(s, ids, moved, 0, k);
    lemma_put(from, ids, prepared, ids.len() as int, k);
    lemma_all_put(from, ids, prepared, ids.len() as int);
    lemma_entity_from(s.doc.entities, ids[k], 0);
    if forall|q: int|
        0 <= q < ids.len() ==> #[trigger] ids[q] != s.doc.entities[j].common.handle {
        lemma_untouched(from, ids, prepared, ids.len() as int, j);
    }
}

/// Whether an object is a dictionary with an entry that leads to a handle.
pub open spec fn leads(object: ObjectModel, handle: Handle) -> bool {
    object matches ObjectModel::Dictionary(d) && exists|k: int|
        0 <= k < d.entries.len() && (#[trigger] d.entries[k]).handle == handle
}

proof fn lemma_owner(objects: Seq<FiledModel>, handle: Handle, from: int, i: int)
    requires
        0 <= from <= i < objects.len(),
        leads(objects[i].object, handle),
        forall|k: int| 0 <= k < i ==> !leads((#[trigger] objects[k]).object, handle),
    ensures
        owner_from(objects, handle, from) == Some(objects[i].handle),
    decreases i - from,
{
    if from < i {
        assert(!leads(objects[from].object, handle));
        lemma_owner(objects, handle, from + 1, i);
    }
}

/// A record whose named dictionary does not lead to it is in the first dictionary
/// that does.
pub proof fn lost_records_are_searched_for(doc: DocModel, handle: Handle, owner: Handle, i: int)
    requires
        doc.dictionary(owner) matches Some(d) ==> forall|k: int|
            0 <= k < d.entries.len() ==> (#[trigger] d.entries[k]).handle != handle,
        0 <= i < doc.objects.len(),
        leads(doc.objects[i].object, handle),
        forall|k: int| 0 <= k < i ==> !leads((#[trigger] doc.objects[k]).object, handle),
    ensures
        owner_of(doc, handle, owner) == Some(doc.objects[i].handle),
{
    lemma_owner(doc.objects, handle, 0, i);
}

/// A request is admitted for the tab that is bound, up to sixty-four mebibytes.
/// The refusal for another tab shows both.
pub proof fn requests_are_admitted(s: SessionModel, tab_id: u64, length: int)
    ensures
        ({
            let (t, refusal) = admission(s, tab_id, length);
            &&& refusal is None <==> tab_id == s.tab_id && length <= 67108864
            &&& tab_id != s.tab_id ==> t == s && shows(refusal->0, decimal(tab_id as nat))
                && shows(refusal->0, decimal(s.tab_id as nat))
            &&& tab_id == s.tab_id ==> t == (SessionModel { measured: 0, ..s })
        }),
{
    let a = "DocApi tab mismatch: request names tab "@;
    let b = " but the bound tab is "@;
    let x = decimal(tab_id as nat);
    let y = decimal(s.tab_id as nat);
    let none = Seq::<char>::empty();
    lemma_shows(a, x, b + y);
    assert(a + x + (b + y) =~= a + x + b + y);
    lemma_shows(a + x + b, y, none);
    assert(a + x + b + y + none =~= a + x + b + y);
}

/// A refusal says what it is about: the layer, the entry, the record, the index or
/// the object as the program writes it.
pub proof fn refusals_name_their_subject(
    name: Seq<char>,
    shown: Seq<char>,
    id: Handle,
    at: usize,
    count: usize,
)
    ensures
        sentence(ReasonModel::Note(name), shown) == name,
        sentence(ReasonModel::Outside(name), shown) == name,
        shows(sentence(ReasonModel::LockedLayer(id), shown), shown),
        shows(sentence(ReasonModel::LockedTarget { id, layer: name }, shown), shown),
        shows(sentence(ReasonModel::LockedTarget { id, layer: name }, shown), name),
        shows(sentence(ReasonModel::NoLayer(name), shown), name),
        shows(sentence(ReasonModel::LayerExists(name), shown), name),
        shows(sentence(ReasonModel::LayerInUse(name), shown), name),
        shows(sentence(ReasonModel::EntryExists(name), shown), name),
        shows(sentence(ReasonModel::UnknownBlock(name), shown), shown),
        shows(sentence(ReasonModel::UnknownObject(id), shown), shown),
        shows(sentence(ReasonModel::NotARecord(id), shown), shown),
        shows(sentence(ReasonModel::RecordExists(name), shown), name),
        shows(sentence(ReasonModel::ImageExtension(name), shown), shown),
        shows(sentence(ReasonModel::OutOfRange { at, count }, shown), decimal(at as nat)),
        shows(sentence(ReasonModel::OutOfRange { at, count }, shown), decimal(count as nat)),
{
    let none = Seq::<char>::empty();
    lemma_shows("entity "@, shown, " is on a locked layer"@);
    let moved = " cannot be moved to locked layer '"@;
    lemma_shows("entity "@, shown, moved + name + "'"@);
    assert("entity "@ + shown + (moved + name + "'"@) =~= "entity "@ + shown + moved + name
        + "'"@);
    lemma_shows("entity "@ + shown + moved, name, "'"@);
    lemma_shows("layer '"@, name, "' does not exist"@);
    lemma_shows("layer '"@, name, "' already exists"@);
    lemma_shows("layer '"@, name, "' is still in use"@);
    lemma_shows("Entry '"@, name, "' already exists in table"@);
    lemma_shows("unknown block "@, shown, none);
    assert("unknown block "@ + shown + none =~= "unknown block "@ + shown);
    lemma_shows("unknown ObjectId "@, shown, none);
    assert("unknown ObjectId "@ + shown + none =~= "unknown ObjectId "@ + shown);
    lemma_shows("ObjectId "@, shown, " is not an XRecord"@);
    lemma_shows("XRecord '"@, name, "' already exists"@);
    lemma_shows("unsupported image file extension in "@, shown, none);
    assert("unsupported image file extension in "@ + shown + none
        =~= "unsupported image file extension in "@ + shown);
    let x = decimal(at as nat);
    let y = decimal(count as nat);
    lemma_shows("index "@, x, " out of range ("@ + y + " vertices)"@);
    assert("index "@ + x + (" out of range ("@ + y + " vertices)"@) =~= "index "@ + x
        + " out of range ("@ + y + " vertices)"@);
    lemma_shows("index "@ + x + " out of range ("@, y, " vertices)"@);
}

} // verus!
