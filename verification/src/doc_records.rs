//! The data that applications keep in an open drawing: records under names and
//! data that hangs on entities.
use crate::doc_api::{
    outcome, refusal, unmodifiable, ApiError, ErrorModel, Reason, ReasonModel, Session,
};
use crate::doc_layers::invalid;
use crate::document::{
    copy_entries, lemma_entity_from, lemma_object_from, object_from, DictEntry, DictEntryModel,
    Dictionary, DictionaryModel, DocModel, Document, Filed, FiledModel, Object, ObjectModel,
    RecordEntry, RecordEntryModel, RecordSpec, RecordSpecModel, RecordValue, RecordValueModel,
    Reference, ReferenceKind, XRecord, XRecordModel,
};
use crate::entity::{
    copy_of, views, CommonModel, EntityModel, Handle, XDataModel, XDataRecord, XDataRecordModel,
    XDataValue,
};
use crate::text::{equal_but_case, owned, same, same_but_case};
use acadrust::objects::{ProxyObjectReference, ProxyReferenceKind as Kind, XRecordEntry, XRecordValue};
use vstd::prelude::*;

verus! {

/// The name of the dictionary that the records are kept in.
#[verifier::allow_in_spec]
pub fn record_dictionary() -> &'static str
    returns
        "OCS_XRECORD_DICT",
{
    "OCS_XRECORD_DICT"
}

/// The first entry with a name, whatever the case of its letters, from `from` on.
pub open spec fn named_from(entries: Seq<DictEntryModel>, name: Seq<char>, from: int) -> Option<int>
    decreases entries.len() - from,
{
    if from < 0 || from >= entries.len() {
        None
    } else if same_but_case(entries[from].name, name) {
        Some(from)
    } else {
        named_from(entries, name, from + 1)
    }
}

/// Whether an entry leads to an object.
pub open spec fn leads_to(entries: Seq<DictEntryModel>, handle: Handle) -> bool {
    exists|i: int| 0 <= i < entries.len() && (#[trigger] entries[i]).handle == handle
}

/// Whether an entry has a name, whatever the case of its letters, and leads to
/// another object than `handle`.
pub open spec fn taken(entries: Seq<DictEntryModel>, name: Seq<char>, handle: Handle) -> bool {
    exists|i: int|
        0 <= i < entries.len() && (#[trigger] entries[i]).handle != handle && same_but_case(
            entries[i].name,
            name,
        )
}

/// The entries without those that have a name.
pub open spec fn without_name(entries: Seq<DictEntryModel>, name: Seq<char>) -> Seq<DictEntryModel>
    decreases entries.len(),
{
    if entries.len() == 0 {
        Seq::empty()
    } else {
        let before = without_name(entries.drop_last(), name);
        if same_but_case(entries.last().name, name) {
            before
        } else {
            before.push(entries.last())
        }
    }
}

/// The entries without those that lead to an object.
pub open spec fn without_handle(entries: Seq<DictEntryModel>, handle: Handle) -> Seq<DictEntryModel>
    decreases entries.len(),
{
    if entries.len() == 0 {
        Seq::empty()
    } else {
        let before = without_handle(entries.drop_last(), handle);
        if entries.last().handle == handle {
            before
        } else {
            before.push(entries.last())
        }
    }
}

/// The objects with one under a handle, in place of any other.
pub open spec fn filed(objects: Seq<FiledModel>, handle: Handle, object: ObjectModel) -> Seq<
    FiledModel,
> {
    match object_from(objects, handle, 0) {
        Some(i) => objects.update(i, FiledModel { handle, object }),
        None => objects.push(FiledModel { handle, object }),
    }
}

/// The drawing with other entries in a dictionary, where it is there.
pub open spec fn with_entries(doc: DocModel, dict: Handle, entries: Seq<DictEntryModel>) -> DocModel {
    match doc.dictionary(dict) {
        Some(d) => DocModel {
            objects: filed(
                doc.objects,
                dict,
                ObjectModel::Dictionary(DictionaryModel { entries, ..d }),
            ),
            ..doc
        },
        None => doc,
    }
}

/// The dictionary that the root names for the records.
pub open spec fn known_dictionary(doc: DocModel) -> Option<Handle> {
    match doc.dictionary(doc.root) {
        Some(root) => match named_from(root.entries, record_dictionary()@, 0) {
            Some(i) => if doc.dictionary(root.entries[i].handle) is Some {
                Some(root.entries[i].handle)
            } else {
                None
            },
            None => None,
        },
        None => None,
    }
}

/// The drawing with a new, empty dictionary for the records, named by the root
/// where there is one.
pub open spec fn dictionary_made(doc: DocModel) -> DocModel {
    let handle = doc.next_handle;
    let made = DocModel {
        objects: filed(
            doc.objects,
            handle,
            ObjectModel::Dictionary(DictionaryModel { owner: doc.root, entries: Seq::empty() }),
        ),
        next_handle: (handle + 1) as Handle,
        ..doc
    };
    match made.dictionary(doc.root) {
        Some(root) => with_entries(
            made,
            doc.root,
            without_name(root.entries, record_dictionary()@).push(
                DictEntryModel { name: record_dictionary()@, handle },
            ),
        ),
        None => made,
    }
}

/// The drawing with a dictionary for the records, and its handle. It is made the
/// first time it is needed.
pub open spec fn with_dictionary(doc: DocModel) -> (DocModel, Handle) {
    match known_dictionary(doc) {
        Some(h) => (doc, h),
        None => (dictionary_made(doc), doc.next_handle),
    }
}

/// Whether a handle names a dictionary with an entry that leads to an object.
pub open spec fn owns(doc: DocModel, dict: Handle, handle: Handle) -> bool {
    match doc.dictionary(dict) {
        Some(d) => leads_to(d.entries, handle),
        None => false,
    }
}

/// The first dictionary with an entry that leads to an object, from `from` on.
pub open spec fn owner_from(objects: Seq<FiledModel>, handle: Handle, from: int) -> Option<Handle>
    decreases objects.len() - from,
{
    if from < 0 || from >= objects.len() {
        None
    } else {
        match objects[from].object {
            ObjectModel::Dictionary(d) => if leads_to(d.entries, handle) {
                Some(objects[from].handle)
            } else {
                owner_from(objects, handle, from + 1)
            },
            _ => owner_from(objects, handle, from + 1),
        }
    }
}

/// The dictionary that a record is in: the one the record names, or else any
/// that leads to it.
pub open spec fn owner_of(doc: DocModel, handle: Handle, owner: Handle) -> Option<Handle> {
    if owns(doc, owner, handle) {
        Some(owner)
    } else {
        owner_from(doc.objects, handle, 0)
    }
}

/// How a group code refers to an object.
pub open spec fn code_kind(code: i32) -> ReferenceKind {
    if 330 <= code <= 339 {
        ReferenceKind::SoftPointer
    } else if 340 <= code <= 349 {
        ReferenceKind::HardPointer
    } else if 350 <= code <= 359 {
        ReferenceKind::SoftOwnership
    } else if 360 <= code <= 369 {
        ReferenceKind::HardOwnership
    } else {
        ReferenceKind::Undefined
    }
}

/// The group code of an entry, and the handle it holds where it holds one.
pub open spec fn link_of(e: RecordEntryModel) -> (i32, Option<Handle>) {
    (
        e.code,
        match e.value {
            RecordValueModel::Handle(handle) => Some(handle),
            _ => None,
        },
    )
}

/// The references that some links make: one for each handle under the group code
/// of a reference. Where there were references before, they keep their kinds in
/// order.
pub open spec fn linked(links: Seq<(i32, Option<Handle>)>, previous: Seq<Reference>) -> Seq<
    Reference,
>
    decreases links.len(),
{
    if links.len() == 0 {
        Seq::empty()
    } else {
        let before = linked(links.drop_last(), previous);
        match links.last() {
            (code, Some(handle)) if 330 <= code <= 369 => before.push(
                Reference {
                    handle,
                    kind: if before.len() < previous.len() {
                        previous[before.len() as int].kind
                    } else {
                        code_kind(code)
                    },
                },
            ),
            _ => before,
        }
    }
}

/// The references that the entries of a record make.
pub open spec fn references_of(entries: Seq<RecordEntryModel>, previous: Seq<Reference>) -> Seq<
    Reference,
> {
    linked(entries.map_values(|e: RecordEntryModel| link_of(e)), previous)
}

/// The number of a kind of reference.
pub open spec fn kind_number(kind: ReferenceKind) -> u8 {
    match kind {
        ReferenceKind::Undefined => 0,
        ReferenceKind::SoftOwnership => 1,
        ReferenceKind::HardOwnership => 2,
        ReferenceKind::SoftPointer => 3,
        ReferenceKind::HardPointer => 4,
    }
}

/// References with their kinds by number.
pub open spec fn numbered(references: Seq<Reference>) -> Seq<(Handle, u8)> {
    references.map_values(|x: Reference| (x.handle, kind_number(x.kind)))
}

/// `acadrust::objects::XRecord::synchronize_object_references`: the references
/// of a record are made anew of its entries. An entry with a group code from 330
/// to 369 that holds a handle makes a reference to it, and the references keep
/// the kinds of the references before them by their number; a further one has
/// the kind of its group code. Kinds of references go by their numbers.
#[verifier::external_body]
fn synchronize(links: &Vec<(i32, Option<Handle>)>, previous: &Vec<(Handle, u8)>) -> (r: Vec<
    (Handle, u8),
>)
    requires
        exists|before: Seq<Reference>| previous@ == #[trigger] numbered(before),
    ensures
        forall|before: Seq<Reference>|
            previous@ == #[trigger] numbered(before) ==> r@ == numbered(linked(links@, before)),
{
    let kinds = [Kind::Undefined, Kind::SoftOwnership, Kind::HardOwnership, Kind::SoftPointer, Kind::HardPointer];
    let held = |v: Option<Handle>| v.map_or(XRecordValue::Bool(false), |h| XRecordValue::Handle(h.into()));
    let mut x = acadrust::objects::XRecord::new();
    x.entries = links.iter().map(|l| XRecordEntry::new(l.0, held(l.1))).collect();
    x.object_references = previous.iter().map(|p| ProxyObjectReference {
        handle: p.0.into(),
        kind: kinds[p.1 as usize],
    }).collect();
    x.synchronize_object_references();
    x.object_references.iter().map(|p| (p.handle.value(), p.kind as u8)).collect()
}

fn number_kinds(references: &Vec<Reference>) -> (r: Vec<(Handle, u8)>)
    ensures
        r@ == numbered(references@),
{
    let n: usize = references.len();
    let mut out: Vec<(Handle, u8)> = Vec::new();
    let mut i: usize = 0;
    while i < n
        invariant
            i <= n == references@.len(),
            out@ == numbered(references@).take(i as int),
        decreases n - i,
    {
        let kind: u8 = match references[i].kind {
            ReferenceKind::Undefined => 0,
            ReferenceKind::SoftOwnership => 1,
            ReferenceKind::HardOwnership => 2,
            ReferenceKind::SoftPointer => 3,
            ReferenceKind::HardPointer => 4,
        };
        out.push((references[i].handle, kind));
        proof {
            let all = numbered(references@);
            assert(all.take(i + 1) =~= all.take(i as int).push(all[i as int]));
        }
        i += 1;
    }
    proof {
        assert(numbered(references@).take(n as int) =~= numbered(references@));
    }
    out
}

fn name_kinds(list: &Vec<(Handle, u8)>, Ghost(goal): Ghost<Seq<Reference>>) -> (r: Vec<Reference>)
    requires
        list@ == numbered(goal),
    ensures
        r@ == goal,
{
    let n: usize = list.len();
    let mut out: Vec<Reference> = Vec::new();
    let mut i: usize = 0;
    while i < n
        invariant
            i <= n == list@.len(),
            list@ == numbered(goal),
            out@ == goal.take(i as int),
        decreases n - i,
    {
        let (handle, number) = list[i];
        let kind = if number == 0 {
            ReferenceKind::Undefined
        } else if number == 1 {
            ReferenceKind::SoftOwnership
        } else if number == 2 {
            ReferenceKind::HardOwnership
        } else if number == 3 {
            ReferenceKind::SoftPointer
        } else {
            ReferenceKind::HardPointer
        };
        proof {
            assert(list@[i as int] == (goal[i as int].handle, kind_number(goal[i as int].kind)));
            assert(goal.take(i + 1) =~= goal.take(i as int).push(goal[i as int]));
        }
        out.push(Reference { handle, kind });
        i += 1;
    }
    proof {
        assert(goal.take(n as int) =~= goal);
    }
    out
}

/// The group codes of some entries, each with the handle that its entry holds.
fn collect_links(entries: &Vec<RecordEntry>) -> (r: Vec<(i32, Option<Handle>)>)
    ensures
        r@ == views(entries@).map_values(|e: RecordEntryModel| link_of(e)),
{
    let ghost all = views(entries@);
    let n: usize = entries.len();
    let mut out: Vec<(i32, Option<Handle>)> = Vec::new();
    let mut i: usize = 0;
    while i < n
        invariant
            i <= n == entries@.len(),
            all == views(entries@),
            out@.len() == i,
            forall|k: int| 0 <= k < i ==> #[trigger] out@[k] == link_of(all[k]),
        decreases n - i,
    {
        let e = &entries[i];
        proof {
            assert(all[i as int] == e@);
        }
        let held: Option<Handle> = match e.value {
            RecordValue::Handle(handle) => Some(handle),
            _ => None,
        };
        out.push((e.code, held));
        i += 1;
    }
    proof {
        assert(out@ =~= all.map_values(|e: RecordEntryModel| link_of(e)));
    }
    out
}

fn make_references(entries: &Vec<RecordEntry>, previous: &Vec<Reference>) -> (r: Vec<Reference>)
    ensures
        r@ == references_of(views(entries@), previous@),
{
    let links = collect_links(entries);
    let before = number_kinds(previous);
    let made = synchronize(&links, &before);
    name_kinds(&made, Ghost(references_of(views(entries@), previous@)))
}

/// What making a record does.
pub open spec fn record_added(doc: DocModel, spec: RecordSpecModel) -> (
    DocModel,
    Result<Handle, ErrorModel>,
) {
    let (ready, dict) = with_dictionary(doc);
    let d = ready.dictionary(dict);
    if d is Some && named_from(d->0.entries, spec.name, 0) is Some {
        (ready, Err(invalid("CreateXRecord"@, ReasonModel::RecordExists(spec.name))))
    } else {
        let handle = ready.next_handle;
        let stored = DocModel {
            objects: filed(
                ready.objects,
                handle,
                ObjectModel::XRecord(
                    XRecordModel {
                        name: spec.name,
                        owner: dict,
                        cloning_flags: spec.cloning_flags,
                        entries: spec.entries,
                        references: references_of(spec.entries, Seq::empty()),
                    },
                ),
            ),
            next_handle: (handle + 1) as Handle,
            ..ready
        };
        (
            match stored.dictionary(dict) {
                Some(d) => with_entries(
                    stored,
                    dict,
                    d.entries.push(DictEntryModel { name: spec.name, handle }),
                ),
                None => stored,
            },
            Ok(handle),
        )
    }
}

/// The record with a handle.
pub open spec fn record_at(doc: DocModel, id: Handle) -> Option<XRecordModel> {
    match doc.object_place(id) {
        Some(i) => match doc.objects[i].object {
            ObjectModel::XRecord(x) => Some(x),
            _ => None,
        },
        None => None,
    }
}

/// The dictionary that a record goes into when it is changed.
pub open spec fn dictionary_for(doc: DocModel, id: Handle, owner: Handle) -> (DocModel, Handle) {
    match owner_of(doc, id, owner) {
        Some(h) => (doc, h),
        None => with_dictionary(doc),
    }
}

/// What changing a record does.
pub open spec fn record_set(doc: DocModel, id: Handle, spec: RecordSpecModel) -> (
    DocModel,
    Option<ErrorModel>,
) {
    if doc.object_place(id) is None {
        (doc, Some(invalid("SetXRecord"@, ReasonModel::UnknownObject(id))))
    } else {
        match record_at(doc, id) {
            None => (doc, Some(ErrorModel::Unsupported(ReasonModel::NotARecord(id)))),
            Some(record) => {
                let (ready, dict) = dictionary_for(doc, id, record.owner);
                let d = ready.dictionary(dict);
                if d is Some && taken(d->0.entries, spec.name, id) {
                    (ready, Some(invalid("SetXRecord"@, ReasonModel::RecordExists(spec.name))))
                } else {
                    let stored = DocModel {
                        objects: filed(
                            ready.objects,
                            id,
                            ObjectModel::XRecord(
                                XRecordModel {
                                    name: spec.name,
                                    owner: dict,
                                    cloning_flags: spec.cloning_flags,
                                    entries: spec.entries,
                                    references: references_of(spec.entries, record.references),
                                },
                            ),
                        ),
                        ..ready
                    };
                    (
                        match stored.dictionary(dict) {
                            Some(d) => with_entries(
                                stored,
                                dict,
                                without_handle(d.entries, id).push(
                                    DictEntryModel { name: spec.name, handle: id },
                                ),
                            ),
                            None => stored,
                        },
                        None,
                    )
                }
            },
        }
    }
}

/// What a record holds.
pub open spec fn record_spec(doc: DocModel, id: Handle) -> Option<RecordSpecModel> {
    match record_at(doc, id) {
        Some(x) => Some(
            RecordSpecModel {
                name: x.name,
                cloning_flags: x.cloning_flags,
                entries: x.entries,
            },
        ),
        None => None,
    }
}

fn entry_named(entries: &Vec<DictEntry>, name: &str) -> (r: Option<usize>)
    ensures
        match r {
            Some(i) => named_from(views(entries@), name@, 0) == Some(i as int) && i
                < entries@.len(),
            None => named_from(views(entries@), name@, 0) is None,
        },
{
    let n: usize = entries.len();
    let mut i: usize = 0;
    while i < n
        invariant
            i <= n == entries@.len(),
            named_from(views(entries@), name@, 0) == named_from(views(entries@), name@, i as int),
        decreases n - i,
    {
        proof {
            assert(views(entries@)[i as int] == entries@[i as int]@);
        }
        if equal_but_case(entries[i].name.as_str(), name) {
            return Some(i);
        }
        i += 1;
    }
    None
}

fn has_entry_for(entries: &Vec<DictEntry>, handle: Handle) -> (r: bool)
    ensures
        r == leads_to(views(entries@), handle),
{
    let n: usize = entries.len();
    let mut i: usize = 0;
    while i < n
        invariant
            i <= n == entries@.len(),
            forall|k: int| 0 <= k < i ==> (#[trigger] views(entries@)[k]).handle != handle,
        decreases n - i,
    {
        proof {
            assert(views(entries@)[i as int] == entries@[i as int]@);
        }
        if entries[i].handle == handle {
            return true;
        }
        i += 1;
    }
    false
}

fn is_taken(entries: &Vec<DictEntry>, name: &str, handle: Handle) -> (r: bool)
    ensures
        r == taken(views(entries@), name@, handle),
{
    let n: usize = entries.len();
    let mut i: usize = 0;
    while i < n
        invariant
            i <= n == entries@.len(),
            forall|k: int|
                0 <= k < i ==> (#[trigger] views(entries@)[k]).handle == handle || !same_but_case(
                    views(entries@)[k].name,
                    name@,
                ),
        decreases n - i,
    {
        proof {
            assert(views(entries@)[i as int] == entries@[i as int]@);
        }
        if entries[i].handle != handle && equal_but_case(entries[i].name.as_str(), name) {
            return true;
        }
        i += 1;
    }
    false
}

fn drop_named(entries: Vec<DictEntry>, name: &str) -> (r: Vec<DictEntry>)
    ensures
        views(r@) == without_name(views(entries@), name@),
{
    let ghost all = views(entries@);
    let n: usize = entries.len();
    let mut rest = entries;
    let mut out: Vec<DictEntry> = Vec::new();
    let mut i: usize = 0;
    proof {
        assert(all.take(0) =~= Seq::<DictEntryModel>::empty());
        assert(views(rest@) =~= all.skip(0));
        assert(views(out@) =~= without_name(all.take(0), name@));
    }
    while i < n
        invariant
            i <= n == all.len(),
            rest@.len() == n - i,
            views(rest@) == all.skip(i as int),
            views(out@) == without_name(all.take(i as int), name@),
        decreases n - i,
    {
        let ghost left = rest@;
        let e = rest.remove(0);
        proof {
            crate::entity::lemma_first_taken(left, all, i as int);
            assert(all.take(i + 1).drop_last() =~= all.take(i as int));
        }
        if !equal_but_case(e.name.as_str(), name) {
            let ghost before = out@;
            let ghost m = e@;
            out.push(e);
            proof {
                assert(views(out@) =~= views(before).push(m));
            }
        }
        i += 1;
    }
    proof {
        assert(all.take(n as int) =~= all);
    }
    out
}

fn drop_handle(entries: Vec<DictEntry>, handle: Handle) -> (r: Vec<DictEntry>)
    ensures
        views(r@) == without_handle(views(entries@), handle),
{
    let ghost all = views(entries@);
    let n: usize = entries.len();
    let mut rest = entries;
    let mut out: Vec<DictEntry> = Vec::new();
    let mut i: usize = 0;
    proof {
        assert(all.take(0) =~= Seq::<DictEntryModel>::empty());
        assert(views(rest@) =~= all.skip(0));
        assert(views(out@) =~= without_handle(all.take(0), handle));
    }
    while i < n
        invariant
            i <= n == all.len(),
            rest@.len() == n - i,
            views(rest@) == all.skip(i as int),
            views(out@) == without_handle(all.take(i as int), handle),
        decreases n - i,
    {
        let ghost left = rest@;
        let e = rest.remove(0);
        proof {
            crate::entity::lemma_first_taken(left, all, i as int);
            assert(all.take(i + 1).drop_last() =~= all.take(i as int));
        }
        if e.handle != handle {
            let ghost before = out@;
            let ghost m = e@;
            out.push(e);
            proof {
                assert(views(out@) =~= views(before).push(m));
            }
        }
        i += 1;
    }
    proof {
        assert(all.take(n as int) =~= all);
    }
    out
}

impl Document {
    fn file(&mut self, handle: Handle, object: Object)
        ensures
            final(self)@ == (DocModel {
                objects: filed(old(self)@.objects, handle, object@),
                ..old(self)@
            }),
    {
        let ghost before = self.objects@;
        let f = Filed { handle, object };
        let ghost m = f@;
        match self.find_object(handle) {
            Some(i) => {
                self.objects.set(i, f);
                proof {
                    assert(views(self.objects@) =~= views(before).update(i as int, m));
                }
            },
            None => {
                self.objects.push(f);
                proof {
                    assert(views(self.objects@) =~= views(before).push(m));
                }
            },
        }
    }

    fn find_dictionary(&self, handle: Handle) -> (r: Option<usize>)
        ensures
            match r {
                Some(i) => self@.object_place(handle) == Some(i as int) && i < self.objects@.len()
                    && self@.objects[i as int].handle == handle && self.objects@[i as int].object
                    is Dictionary && self@.dictionary(handle) is Some && self@.dictionary(
                    handle,
                )->0 == self.objects@[i as int].object->Dictionary_0@,
                None => self@.dictionary(handle) is None,
            },
    {
        match self.find_object(handle) {
            Some(i) => {
                proof {
                    assert(self@.objects[i as int] == self.objects@[i as int]@);
                }
                match &self.objects[i].object {
                    Object::Dictionary(_) => Some(i),
                    _ => None,
                }
            },
            None => None,
        }
    }

    /// The dictionary that the root names for the records.
    pub fn record_dictionary_known(&self) -> (r: Option<Handle>)
        ensures
            r == known_dictionary(self@),
    {
        match self.find_dictionary(self.root) {
            Some(i) => match &self.objects[i].object {
                Object::Dictionary(root) => match entry_named(&root.entries, record_dictionary()) {
                    Some(k) => {
                        proof {
                            assert(root@.entries[k as int] == root.entries@[k as int]@);
                        }
                        let h: Handle = root.entries[k].handle;
                        if self.find_dictionary(h).is_some() {
                            Some(h)
                        } else {
                            None
                        }
                    },
                    None => None,
                },
                _ => None,
            },
            None => None,
        }
    }

    /// The dictionary that records are kept in. It is made the first time it is
    /// needed and used from then on.
    pub fn xrecord_dictionary_handle(&mut self) -> (r: Handle)
        requires
            old(self)@.next_handle < u64::MAX,
        ensures
            (final(self)@, r) == with_dictionary(old(self)@),
    {
        if let Some(h) = self.record_dictionary_known() {
            return h;
        }
        let root: Handle = self.root;
        let handle: Handle = self.allocate_handle();
        let d = Dictionary { owner: root, entries: Vec::new() };
        proof {
            assert(d@.entries =~= Seq::<DictEntryModel>::empty());
        }
        self.file(handle, Object::Dictionary(d));
        if let Some(i) = self.find_dictionary(root) {
            let ghost before = self.objects@;
            let ghost doc = self@;
            match &mut self.objects[i].object {
                Object::Dictionary(d) => {
                    let mut held: Vec<DictEntry> = Vec::new();
                    held.append(&mut d.entries);
                    let mut kept = drop_named(held, record_dictionary());
                    let ghost k = kept@;
                    let e = DictEntry { name: owned(record_dictionary()), handle };
                    let ghost m = e@;
                    kept.push(e);
                    proof {
                        assert(views(kept@) =~= views(k).push(m));
                    }
                    d.entries = kept;
                },
                _ => {},
            }
            proof {
                assert(views(self.objects@) =~= dictionary_made(old(self)@).objects);
            }
        }
        handle
    }

    /// The dictionary that a record is in: the one it names, or else the first
    /// that leads to it.
    pub fn xrecord_owner_dictionary(&self, record: Handle, owner: Handle) -> (r: Option<Handle>)
        ensures
            r == owner_of(self@, record, owner),
    {
        if let Some(i) = self.find_dictionary(owner) {
            if let Object::Dictionary(d) = &self.objects[i].object {
                if has_entry_for(&d.entries, record) {
                    return Some(owner);
                }
            }
        }
        let n: usize = self.objects.len();
        let mut i: usize = 0;
        while i < n
            invariant
                i <= n == self.objects@.len(),
                !owns(self@, owner, record),
                owner_from(self@.objects, record, 0) == owner_from(
                    self@.objects,
                    record,
                    i as int,
                ),
            decreases n - i,
        {
            proof {
                assert(self@.objects[i as int] == self.objects@[i as int]@);
            }
            if let Object::Dictionary(d) = &self.objects[i].object {
                if has_entry_for(&d.entries, record) {
                    return Some(self.objects[i].handle);
                }
            }
            i += 1;
        }
        None
    }
}

/// The contents of a record that may be missing.
pub open spec fn spec_outcome(r: Option<RecordSpec>) -> Option<RecordSpecModel> {
    match r {
        Some(s) => Some(s@),
        None => None,
    }
}

impl Session {
    /// Makes a record under a name that no other record has.
    pub fn add_xrecord(&mut self, spec: &RecordSpec) -> (r: Result<Handle, ApiError>)
        requires
            old(self)@.doc.next_handle < u64::MAX - 1,
        ensures
            ({
                let (doc, result) = record_added(old(self)@.doc, spec@);
                final(self)@ == old(self)@.with_doc(doc) && outcome(r) == result
            }),
    {
        let dict: Handle = self.document.xrecord_dictionary_handle();
        if let Some(i) = self.document.find_dictionary(dict) {
            if let Object::Dictionary(d) = &self.document.objects[i].object {
                if entry_named(&d.entries, spec.name.as_str()).is_some() {
                    return Err(
                        ApiError::Validation {
                            op: "CreateXRecord",
                            reason: Reason::RecordExists(spec.name.clone()),
                        },
                    );
                }
            }
        }
        let none: Vec<Reference> = Vec::new();
        let references = make_references(&spec.entries, &none);
        let record = XRecord {
            name: spec.name.clone(),
            owner: dict,
            cloning_flags: spec.cloning_flags,
            entries: copy_entries(&spec.entries),
            references,
        };
        let handle: Handle = self.document.allocate_handle();
        self.document.file(handle, Object::XRecord(record));
        if let Some(i) = self.document.find_dictionary(dict) {
            let ghost stored = self.document@;
            match &mut self.document.objects[i].object {
                Object::Dictionary(d) => {
                    let ghost before = d.entries@;
                    let e = DictEntry { name: spec.name.clone(), handle };
                    let ghost m = e@;
                    d.entries.push(e);
                    proof {
                        assert(views(d.entries@) =~= views(before).push(m));
                    }
                },
                _ => {},
            }
            proof {
                let goal = with_entries(
                    stored,
                    dict,
                    stored.dictionary(dict)->0.entries.push(
                        DictEntryModel { name: spec.name@, handle },
                    ),
                );
                assert(views(self.document.objects@) =~= goal.objects);
            }
        }
        Ok(handle)
    }

    /// Changes a record, its name included.
    pub fn set_xrecord(&mut self, id: Handle, spec: &RecordSpec) -> (r: Result<(), ApiError>)
        requires
            old(self)@.doc.next_handle < u64::MAX,
        ensures
            ({
                let (doc, failure) = record_set(old(self)@.doc, id, spec@);
                final(self)@ == old(self)@.with_doc(doc) && refusal(r) == failure
            }),
    {
        let i: usize = match self.document.find_object(id) {
            None => return Err(
                ApiError::Validation { op: "SetXRecord", reason: Reason::UnknownObject(id) },
            ),
            Some(i) => i,
        };
        proof {
            assert(self@.doc.objects[i as int] == self.document.objects@[i as int]@);
        }
        let (owner, previous) = match &self.document.objects[i].object {
            Object::XRecord(x) => (x.owner, copy_of(&x.references)),
            _ => return Err(ApiError::Unsupported(Reason::NotARecord(id))),
        };
        let dict: Handle = match self.document.xrecord_owner_dictionary(id, owner) {
            Some(h) => h,
            None => self.document.xrecord_dictionary_handle(),
        };
        if let Some(k) = self.document.find_dictionary(dict) {
            if let Object::Dictionary(d) = &self.document.objects[k].object {
                if is_taken(&d.entries, spec.name.as_str(), id) {
                    return Err(
                        ApiError::Validation {
                            op: "SetXRecord",
                            reason: Reason::RecordExists(spec.name.clone()),
                        },
                    );
                }
            }
        }
        let references = make_references(&spec.entries, &previous);
        let record = XRecord {
            name: spec.name.clone(),
            owner: dict,
            cloning_flags: spec.cloning_flags,
            entries: copy_entries(&spec.entries),
            references,
        };
        self.document.file(id, Object::XRecord(record));
        if let Some(k) = self.document.find_dictionary(dict) {
            let ghost stored = self.document@;
            match &mut self.document.objects[k].object {
                Object::Dictionary(d) => {
                    let mut held: Vec<DictEntry> = Vec::new();
                    held.append(&mut d.entries);
                    let mut kept = drop_handle(held, id);
                    let ghost before = kept@;
                    let e = DictEntry { name: spec.name.clone(), handle: id };
                    let ghost m = e@;
                    kept.push(e);
                    proof {
                        assert(views(kept@) =~= views(before).push(m));
                    }
                    d.entries = kept;
                },
                _ => {},
            }
            proof {
                let goal = with_entries(
                    stored,
                    dict,
                    without_handle(stored.dictionary(dict)->0.entries, id).push(
                        DictEntryModel { name: spec.name@, handle: id },
                    ),
                );
                assert(views(self.document.objects@) =~= goal.objects);
            }
        }
        Ok(())
    }

    /// What a record holds. Nothing is reported of any other object.
    pub fn xrecord(&self, id: Handle) -> (r: Option<RecordSpec>)
        ensures
            spec_outcome(r) == record_spec(self@.doc, id),
    {
        match self.document.find_object(id) {
            None => None,
            Some(i) => {
                proof {
                    assert(self@.doc.objects[i as int] == self.document.objects@[i as int]@);
                }
                match &self.document.objects[i].object {
                    Object::XRecord(x) => Some(
                        RecordSpec {
                            name: x.name.clone(),
                            cloning_flags: x.cloning_flags,
                            entries: copy_entries(&x.entries),
                        },
                    ),
                    _ => None,
                }
            },
        }
    }
}

/// The first record of an application, from `from` on.
pub open spec fn data_from(list: Seq<XDataRecordModel>, name: Seq<char>, from: int) -> Option<int>
    decreases list.len() - from,
{
    if from < 0 || from >= list.len() {
        None
    } else if list[from].application_name == name {
        Some(from)
    } else {
        data_from(list, name, from + 1)
    }
}

/// The records with other values for an application: in place of those it had,
/// or else at the end. Without values its record goes.
pub open spec fn with_data(
    list: Seq<XDataRecordModel>,
    name: Seq<char>,
    values: Option<Seq<XDataModel>>,
) -> Seq<XDataRecordModel> {
    match (data_from(list, name, 0), values) {
        (Some(i), Some(v)) => list.update(
            i,
            XDataRecordModel { application_name: name, values: v },
        ),
        (None, Some(v)) => list.push(XDataRecordModel { application_name: name, values: v }),
        (Some(i), None) => list.remove(i),
        (None, None) => list,
    }
}

/// What hanging data on an entity does.
pub open spec fn data_set(
    doc: DocModel,
    id: Handle,
    name: Seq<char>,
    values: Option<Seq<XDataModel>>,
) -> (DocModel, Option<ErrorModel>) {
    match unmodifiable(doc, id) {
        Some(e) => (doc, Some(e)),
        None => {
            let i = doc.place(id)->0;
            (
                DocModel {
                    entities: doc.entities.update(
                        i,
                        EntityModel {
                            common: CommonModel {
                                xdata: with_data(doc.entities[i].common.xdata, name, values),
                                ..doc.entities[i].common
                            },
                            ..doc.entities[i]
                        },
                    ),
                    ..doc
                },
                None,
            )
        },
    }
}

/// The data that an application hung on an entity.
pub open spec fn data_of(doc: DocModel, id: Handle, name: Seq<char>) -> Result<
    Option<XDataRecordModel>,
    ErrorModel,
> {
    match doc.place(id) {
        None => Err(ErrorModel::UnknownId(id)),
        Some(i) => Ok(
            match data_from(doc.entities[i].common.xdata, name, 0) {
                Some(k) => Some(doc.entities[i].common.xdata[k]),
                None => None,
            },
        ),
    }
}

/// The contents of values that may be missing.
pub open spec fn values_model(v: Option<Vec<XDataValue>>) -> Option<Seq<XDataModel>> {
    match v {
        Some(v) => Some(views(v@)),
        None => None,
    }
}

/// The contents of data that may be missing, or of what went wrong.
pub open spec fn data_outcome(r: Result<Option<XDataRecord>, ApiError>) -> Result<
    Option<XDataRecordModel>,
    ErrorModel,
> {
    match r {
        Ok(Some(d)) => Ok(Some(d@)),
        Ok(None) => Ok(None),
        Err(e) => Err(e@),
    }
}

fn find_data(list: &Vec<XDataRecord>, name: &str) -> (r: Option<usize>)
    ensures
        match r {
            Some(i) => data_from(views(list@), name@, 0) == Some(i as int) && i < list@.len(),
            None => data_from(views(list@), name@, 0) is None,
        },
{
    let n: usize = list.len();
    let mut i: usize = 0;
    while i < n
        invariant
            i <= n == list@.len(),
            data_from(views(list@), name@, 0) == data_from(views(list@), name@, i as int),
        decreases n - i,
    {
        proof {
            assert(views(list@)[i as int] == list@[i as int]@);
        }
        if same(list[i].application_name.as_str(), name) {
            return Some(i);
        }
        i += 1;
    }
    None
}

fn put_data(list: &mut Vec<XDataRecord>, name: &str, values: Option<Vec<XDataValue>>)
    ensures
        views(final(list)@) == with_data(views(old(list)@), name@, values_model(values)),
{
    let ghost before = list@;
    match find_data(list, name) {
        Some(i) => match values {
            Some(v) => {
                let d = XDataRecord { application_name: owned(name), values: v };
                let ghost m = d@;
                list.set(i, d);
                proof {
                    assert(views(list@) =~= views(before).update(i as int, m));
                }
            },
            None => {
                let _ = list.remove(i);
                proof {
                    assert(views(list@) =~= views(before).remove(i as int));
                }
            },
        },
        None => {
            if let Some(v) = values {
                let d = XDataRecord { application_name: owned(name), values: v };
                let ghost m = d@;
                list.push(d);
                proof {
                    assert(views(list@) =~= views(before).push(m));
                }
            }
        },
    }
}

impl Session {
    /// Hangs the data of an application on an entity, or takes it away.
    pub fn set_xdata(&mut self, id: Handle, application_name: &str, values: Option<Vec<XDataValue>>) -> (r:
        Result<(), ApiError>)
        ensures
            ({
                let (doc, failure) = data_set(
                    old(self)@.doc,
                    id,
                    application_name@,
                    values_model(values),
                );
                final(self)@ == old(self)@.with_doc(doc) && refusal(r) == failure
            }),
    {
        match self.can_modify(id) {
            Err(e) => return Err(e),
            Ok(_) => {},
        }
        let i: usize = match self.document.find(id) {
            None => return Err(ApiError::UnknownId(id)),
            Some(i) => i,
        };
        let ghost before = self@;
        proof {
            assert(self@.doc.entities[i as int] == self.document.entities@[i as int]@);
        }
        put_data(&mut self.document.entities[i].common.xdata, application_name, values);
        proof {
            let goal = data_set(before.doc, id, application_name@, values_model(values)).0;
            assert(self@.doc.entities =~= goal.entities);
        }
        Ok(())
    }

    /// The data that an application hung on an entity.
    pub fn xdata(&self, id: Handle, application_name: &str) -> (r: Result<
        Option<XDataRecord>,
        ApiError,
    >)
        ensures
            data_outcome(r) == data_of(self@.doc, id, application_name@),
    {
        match self.document.find(id) {
            None => Err(ApiError::UnknownId(id)),
            Some(i) => {
                proof {
                    assert(self@.doc.entities[i as int] == self.document.entities@[i as int]@);
                }
                let list = &self.document.entities[i].common.xdata;
                match find_data(list, application_name) {
                    None => Ok(None),
                    Some(k) => {
                        proof {
                            assert(views(list@)[k as int] == list@[k as int]@);
                        }
                        Ok(Some(list[k].duplicate()))
                    },
                }
            },
        }
    }
}

pub proof fn lemma_data_from(list: Seq<XDataRecordModel>, name: Seq<char>, from: int)
    requires
        0 <= from <= list.len(),
    ensures
        match data_from(list, name, from) {
            Some(i) => from <= i < list.len() && list[i].application_name == name && forall|k: int|
                from <= k < i ==> (#[trigger] list[k]).application_name != name,
            None => forall|k: int|
                from <= k < list.len() ==> (#[trigger] list[k]).application_name != name,
        },
    decreases list.len() - from,
{
    if from < list.len() && list[from].application_name != name {
        lemma_data_from(list, name, from + 1);
    }
}

/// Data that was hung on an entity reads back.
pub proof fn data_reads_back(doc: DocModel, id: Handle, name: Seq<char>, values: Seq<XDataModel>)
    requires
        data_set(doc, id, name, Some(values)).1 is None,
    ensures
        data_of(data_set(doc, id, name, Some(values)).0, id, name) == Ok::<
            Option<XDataRecordModel>,
            ErrorModel,
        >(Some(XDataRecordModel { application_name: name, values })),
{
    let after = data_set(doc, id, name, Some(values)).0;
    lemma_entity_from(doc.entities, id, 0);
    lemma_entity_from(after.entities, id, 0);
    let i = doc.place(id)->0;
    assert(after.entities[i].common.handle == id);
    let j = after.place(id)->0;
    if j < i {
        assert(after.entities[j] == doc.entities[j]);
    }
    let list = doc.entities[i].common.xdata;
    let now = with_data(list, name, Some(values));
    lemma_data_from(list, name, 0);
    lemma_data_from(now, name, 0);
    let k = match data_from(list, name, 0) {
        Some(k) => k,
        None => list.len() as int,
    };
    assert(now[k].application_name == name);
    let q = data_from(now, name, 0)->0;
    if q < k {
        assert(now[q] == list[q]);
    }
}

/// Data that cannot be hung on an entity leaves the drawing as it was.
pub proof fn refused_data_keeps(
    doc: DocModel,
    id: Handle,
    name: Seq<char>,
    values: Option<Seq<XDataModel>>,
)
    ensures
        data_set(doc, id, name, values).1 is Some <==> unmodifiable(doc, id) is Some,
        data_set(doc, id, name, values).1 is Some ==> data_set(doc, id, name, values).0 == doc,
{
}

/// Filing an object changes what is under its handle and nothing else.
pub proof fn lemma_filed(doc: DocModel, handle: Handle, object: ObjectModel)
    ensures
        ({
            let after = DocModel { objects: filed(doc.objects, handle, object), ..doc };
            &&& after.object_place(handle) is Some
            &&& after.objects[after.object_place(handle)->0].object == object
            &&& forall|h: Handle|
                h != handle ==> #[trigger] after.object_place(h) == doc.object_place(h)
            &&& forall|h: Handle|
                h != handle && (#[trigger] doc.object_place(h)) is Some
                    ==> after.objects[doc.object_place(h)->0]
                    == doc.objects[doc.object_place(h)->0]
        }),
{
    let after = DocModel { objects: filed(doc.objects, handle, object), ..doc };
    lemma_object_from(doc.objects, handle, 0);
    lemma_object_from(after.objects, handle, 0);
    let p = match doc.object_place(handle) {
        Some(i) => i,
        None => doc.objects.len() as int,
    };
    assert(after.objects[p].handle == handle);
    let q = after.object_place(handle)->0;
    if q < p {
        assert(after.objects[q] == doc.objects[q]);
    }
    assert forall|h: Handle| h != handle implies #[trigger] after.object_place(h)
        == doc.object_place(h) by {
        lemma_object_from(doc.objects, h, 0);
        lemma_object_from(after.objects, h, 0);
        if let Some(i) = doc.object_place(h) {
            assert(after.objects[i] == doc.objects[i]);
            let j = after.object_place(h)->0;
            if j < i {
                assert(after.objects[j] == doc.objects[j]);
            }
        }
        if let Some(j) = after.object_place(h) {
            assert(j != p);
            assert(after.objects[j] == doc.objects[j]);
        }
    }
    assert forall|h: Handle|
        h != handle && (#[trigger] doc.object_place(h)) is Some implies after.objects[doc.object_place(
        h,
    )->0] == doc.objects[doc.object_place(h)->0] by {
        lemma_object_from(doc.objects, h, 0);
    }
}

/// Giving a dictionary other entries changes that dictionary and nothing else.
pub proof fn lemma_with_entries(doc: DocModel, dict: Handle, entries: Seq<DictEntryModel>)
    requires
        doc.dictionary(dict) is Some,
    ensures
        ({
            let after = with_entries(doc, dict, entries);
            &&& after.dictionary(dict) == Some(
                DictionaryModel { entries, ..doc.dictionary(dict)->0 },
            )
            &&& forall|h: Handle|
                h != dict ==> #[trigger] after.object_place(h) == doc.object_place(h)
            &&& forall|h: Handle|
                h != dict && (#[trigger] doc.object_place(h)) is Some
                    ==> after.objects[doc.object_place(h)->0]
                    == doc.objects[doc.object_place(h)->0]
            &&& after.next_handle == doc.next_handle
            &&& after.root == doc.root
        }),
{
    lemma_filed(
        doc,
        dict,
        ObjectModel::Dictionary(DictionaryModel { entries, ..doc.dictionary(dict)->0 }),
    );
}

/// The dictionary for the records is a dictionary, and one that was just made is
/// empty.
pub proof fn lemma_with_dictionary(doc: DocModel)
    requires
        doc.wf(),
        doc.next_handle < u64::MAX,
    ensures
        ({
            let (ready, dict) = with_dictionary(doc);
            &&& ready.dictionary(dict) is Some
            &&& known_dictionary(doc) is Some ==> ready == doc
            &&& known_dictionary(doc) is None ==> dict == doc.next_handle && ready.next_handle
                == doc.next_handle + 1 && ready.dictionary(dict)->0.entries.len() == 0
            &&& dict < ready.next_handle
            &&& ready.next_handle >= doc.next_handle
            &&& forall|h: Handle|
                record_at(doc, h) is Some ==> #[trigger] record_at(ready, h) == record_at(doc, h)
            &&& forall|h: Handle|
                h >= ready.next_handle ==> (#[trigger] ready.object_place(h)) is None
        }),
{
    let (ready, dict) = with_dictionary(doc);
    assert forall|h: Handle| h >= doc.next_handle implies (#[trigger] doc.object_place(h)) is None by {
        lemma_object_from(doc.objects, h, 0);
    }
    match known_dictionary(doc) {
        Some(h) => {
            lemma_object_from(doc.objects, h, 0);
        },
        None => {
            let handle = doc.next_handle;
            let empty = ObjectModel::Dictionary(
                DictionaryModel { owner: doc.root, entries: Seq::empty() },
            );
            let next = DocModel { next_handle: (handle + 1) as Handle, ..doc };
            lemma_filed(next, handle, empty);
            let made = DocModel { objects: filed(doc.objects, handle, empty), ..next };
            assert forall|h: Handle| #[trigger] next.object_place(h) == doc.object_place(h) by {}
            assert(made.dictionary(handle) == Some(
                DictionaryModel { owner: doc.root, entries: Seq::empty() },
            ));
            assert forall|h: Handle| record_at(doc, h) is Some implies #[trigger] record_at(made, h)
                == record_at(doc, h) by {
                assert(doc.object_place(h) is Some);
                assert(h != handle);
                assert(next.object_place(h) is Some);
                assert(made.object_place(h) == next.object_place(h));
            }
            assert forall|h: Handle| h > handle implies (#[trigger] made.object_place(h)) is None by {
                assert(doc.object_place(h) is None);
                assert(next.object_place(h) is None);
            }
            if let Some(root) = made.dictionary(doc.root) {
                let entries = without_name(root.entries, record_dictionary()@).push(
                    DictEntryModel { name: record_dictionary()@, handle },
                );
                lemma_with_entries(made, doc.root, entries);
                assert(ready == with_entries(made, doc.root, entries));
                assert(made.object_place(handle) is Some);
                assert(ready.object_place(handle) == made.object_place(handle));
                assert forall|h: Handle| record_at(doc, h) is Some implies #[trigger] record_at(
                    ready,
                    h,
                ) == record_at(doc, h) by {
                    assert(record_at(made, h) == record_at(doc, h));
                    assert(made.object_place(h) is Some);
                    assert(h != doc.root);
                    assert(ready.object_place(h) == made.object_place(h));
                }
                assert forall|h: Handle| h >= ready.next_handle implies (
                #[trigger] ready.object_place(h)) is None by {
                    assert(made.object_place(h) is None);
                }
            } else {
                assert(ready == made);
            }
        },
    }
}

/// A record that was made reads back, and its dictionary leads to it by its
/// name.
pub proof fn record_reads_back(doc: DocModel, spec: RecordSpecModel)
    requires
        doc.wf(),
        doc.next_handle < u64::MAX - 1,
        record_added(doc, spec).1 is Ok,
    ensures
        ({
            let (after, id) = (record_added(doc, spec).0, record_added(doc, spec).1->Ok_0);
            &&& record_spec(after, id) == Some(spec)
            &&& after.dictionary(record_at(after, id)->0.owner) is Some
            &&& after.dictionary(record_at(after, id)->0.owner)->0.entries.last() == (
            DictEntryModel { name: spec.name, handle: id })
            &&& owns(after, record_at(after, id)->0.owner, id)
        }),
{
    let (ready, dict) = with_dictionary(doc);
    lemma_with_dictionary(doc);
    let handle = ready.next_handle;
    let record = ObjectModel::XRecord(
        XRecordModel {
            name: spec.name,
            owner: dict,
            cloning_flags: spec.cloning_flags,
            entries: spec.entries,
            references: references_of(spec.entries, Seq::empty()),
        },
    );
    let next = DocModel { next_handle: (handle + 1) as Handle, ..ready };
    lemma_filed(next, handle, record);
    let stored = DocModel { objects: filed(ready.objects, handle, record), ..next };
    assert(ready.object_place(dict) is Some);
    assert(next.object_place(dict) == ready.object_place(dict));
    assert(stored.dictionary(dict) == ready.dictionary(dict));
    let entries = stored.dictionary(dict)->0.entries.push(
        DictEntryModel { name: spec.name, handle },
    );
    lemma_with_entries(stored, dict, entries);
    let after = with_entries(stored, dict, entries);
    assert(after.object_place(handle) == stored.object_place(handle));
    assert(entries[entries.len() - 1].handle == handle);
}

/// A record that cannot be made leaves the drawing as it was.
pub proof fn refused_record_keeps(doc: DocModel, spec: RecordSpecModel)
    requires
        doc.wf(),
        doc.next_handle < u64::MAX - 1,
        record_added(doc, spec).1 is Err,
    ensures
        record_added(doc, spec).0 == doc,
{
    lemma_with_dictionary(doc);
}

/// A record that cannot be changed leaves the drawing as it was.
pub proof fn refused_change_keeps(doc: DocModel, id: Handle, spec: RecordSpecModel)
    requires
        doc.wf(),
        doc.next_handle < u64::MAX,
        record_set(doc, id, spec).1 is Some,
    ensures
        record_set(doc, id, spec).0 == doc,
{
    if record_at(doc, id) is Some && owner_of(doc, id, record_at(doc, id)->0.owner) is None {
        lemma_with_dictionary(doc);
    }
}

proof fn lemma_first_named(entries: Seq<DictEntryModel>, name: Seq<char>, from: int)
    requires
        0 <= from <= entries.len(),
    ensures
        match named_from(entries, name, from) {
            Some(i) => from <= i < entries.len() && same_but_case(entries[i].name, name)
                && forall|k: int|
                from <= k < i ==> !same_but_case((#[trigger] entries[k]).name, name),
            None => forall|k: int|
                from <= k < entries.len() ==> !same_but_case((#[trigger] entries[k]).name, name),
        },
    decreases entries.len() - from,
{
    if from < entries.len() && !same_but_case(entries[from].name, name) {
        lemma_first_named(entries, name, from + 1);
    }
}

proof fn lemma_without_name(entries: Seq<DictEntryModel>, name: Seq<char>)
    ensures
        forall|i: int|
            0 <= i < without_name(entries, name).len() ==> !same_but_case(
                (#[trigger] without_name(entries, name)[i]).name,
                name,
            ),
    decreases entries.len(),
{
    if entries.len() > 0 {
        lemma_without_name(entries.drop_last(), name);
        let before = without_name(entries.drop_last(), name);
        let out = without_name(entries, name);
        assert forall|i: int| 0 <= i < out.len() implies !same_but_case(
            (#[trigger] out[i]).name,
            name,
        ) by {
            if i < before.len() {
                assert(out[i] == before[i]);
            }
        }
    }
}

/// The root leads to the dictionary for the records once that is there.
proof fn lemma_root_leads(doc: DocModel)
    requires
        doc.wf(),
        doc.next_handle < u64::MAX,
        doc.dictionary(doc.root) is Some,
    ensures
        ({
            let (ready, dict) = with_dictionary(doc);
            let root = ready.dictionary(doc.root)->0;
            let found = named_from(root.entries, record_dictionary()@, 0);
            &&& ready.root == doc.root
            &&& ready.dictionary(doc.root) is Some
            &&& found is Some
            &&& root.entries[found->0].handle == dict
        }),
{
    if known_dictionary(doc) is None {
        let name = record_dictionary()@;
        let handle = doc.next_handle;
        let empty = ObjectModel::Dictionary(
            DictionaryModel { owner: doc.root, entries: Seq::empty() },
        );
        let next = DocModel { next_handle: (handle + 1) as Handle, ..doc };
        lemma_filed(next, handle, empty);
        let made = DocModel { objects: filed(doc.objects, handle, empty), ..next };
        assert(next.object_place(doc.root) == doc.object_place(doc.root));
        assert(made.object_place(doc.root) == next.object_place(doc.root));
        assert(made.dictionary(doc.root) == doc.dictionary(doc.root));
        let old_root = made.dictionary(doc.root)->0;
        let kept = without_name(old_root.entries, name);
        let entries = kept.push(DictEntryModel { name, handle });
        lemma_with_entries(made, doc.root, entries);
        lemma_without_name(old_root.entries, name);
        lemma_first_named(entries, name, 0);
        assert(same_but_case(entries[entries.len() - 1].name, name));
        let k = named_from(entries, name, 0)->0;
        if k < kept.len() {
            assert(entries[k] == kept[k]);
        }
    }
}

/// The dictionary for the records is made once: in a drawing with a root
/// dictionary, asking for it again gives the same handle and changes nothing.
pub proof fn dictionary_is_reused(doc: DocModel)
    requires
        doc.wf(),
        doc.next_handle < u64::MAX,
        doc.dictionary(doc.root) is Some,
    ensures
        with_dictionary(with_dictionary(doc).0) == with_dictionary(doc),
{
    lemma_with_dictionary(doc);
    lemma_root_leads(doc);
}

/// Making a record once leaves the dictionary for the records known, where the
/// drawing has a root dictionary.
proof fn lemma_dictionary_stays_known(doc: DocModel, spec: RecordSpecModel)
    requires
        doc.wf(),
        doc.next_handle < u64::MAX - 1,
        doc.dictionary(doc.root) is Some,
        record_added(doc, spec).1 is Ok,
    ensures
        ({
            let after = record_added(doc, spec).0;
            let dict = with_dictionary(doc).1;
            &&& known_dictionary(after) == Some(dict)
            &&& after.dictionary(dict) is Some
            &&& after.dictionary(dict)->0.entries.len() > 0
            &&& after.dictionary(dict)->0.entries.last().name == spec.name
        }),
{
    let name = record_dictionary()@;
    let (ready, dict) = with_dictionary(doc);
    lemma_with_dictionary(doc);
    // The root leads to the dictionary before the record is stored.
    lemma_root_leads(doc);
    let root = ready.dictionary(doc.root)->0;
    let handle = ready.next_handle;
    let record = ObjectModel::XRecord(
        XRecordModel {
            name: spec.name,
            owner: dict,
            cloning_flags: spec.cloning_flags,
            entries: spec.entries,
            references: references_of(spec.entries, Seq::empty()),
        },
    );
    let next = DocModel { next_handle: (handle + 1) as Handle, ..ready };
    lemma_filed(next, handle, record);
    let stored = DocModel { objects: filed(ready.objects, handle, record), ..next };
    assert(ready.object_place(dict) is Some);
    assert(next.object_place(dict) == ready.object_place(dict));
    assert(stored.object_place(dict) == next.object_place(dict));
    assert(stored.dictionary(dict) == ready.dictionary(dict));
    assert(ready.object_place(doc.root) is Some);
    assert(doc.root != handle);
    assert(next.object_place(doc.root) == ready.object_place(doc.root));
    assert(stored.object_place(doc.root) == next.object_place(doc.root));
    assert(stored.dictionary(doc.root) == ready.dictionary(doc.root));
    let added = DictEntryModel { name: spec.name, handle };
    let entries = stored.dictionary(dict)->0.entries.push(added);
    lemma_with_entries(stored, dict, entries);
    let after = with_entries(stored, dict, entries);
    assert(after == record_added(doc, spec).0);
    lemma_first_named(root.entries, name, 0);
    if dict == doc.root {
        lemma_first_named(entries, name, 0);
        let k = named_from(root.entries, name, 0)->0;
        assert(entries[k] == root.entries[k]);
        let q = named_from(entries, name, 0)->0;
        if q < k {
            assert(entries[q] == root.entries[q]);
        }
    } else {
        assert(after.object_place(doc.root) == stored.object_place(doc.root));
        assert(after.dictionary(doc.root) == stored.dictionary(doc.root));
    }
}

/// A name is not given to two records: in a drawing with a root dictionary,
/// making a record is refused once its name is taken, whatever the case of its
/// letters.
pub proof fn record_names_differ(doc: DocModel, spec: RecordSpecModel, again: RecordSpecModel)
    requires
        doc.wf(),
        doc.next_handle < u64::MAX - 1,
        doc.dictionary(doc.root) is Some,
        record_added(doc, spec).1 is Ok,
        same_but_case(spec.name, again.name),
    ensures
        record_added(record_added(doc, spec).0, again) == (
            record_added(doc, spec).0,
            Err::<Handle, ErrorModel>(
                invalid("CreateXRecord"@, ReasonModel::RecordExists(again.name)),
            ),
        ),
{
    lemma_dictionary_stays_known(doc, spec);
    let after = record_added(doc, spec).0;
    let dict = with_dictionary(doc).1;
    let entries = after.dictionary(dict)->0.entries;
    lemma_first_named(entries, again.name, 0);
    assert(same_but_case(entries[entries.len() - 1].name, again.name));
}

proof fn lemma_without_handle(entries: Seq<DictEntryModel>, handle: Handle)
    ensures
        forall|i: int|
            0 <= i < without_handle(entries, handle).len() ==> (#[trigger] without_handle(
                entries,
                handle,
            )[i]).handle != handle,
        forall|i: int|
            0 <= i < without_handle(entries, handle).len() ==> entries.contains(
                #[trigger] without_handle(entries, handle)[i],
            ),
    decreases entries.len(),
{
    if entries.len() > 0 {
        let rest = entries.drop_last();
        lemma_without_handle(rest, handle);
        let out = without_handle(entries, handle);
        let before = without_handle(rest, handle);
        assert forall|i: int| 0 <= i < out.len() implies (#[trigger] out[i]).handle != handle
            && entries.contains(out[i]) by {
            if i < before.len() {
                assert(out[i] == before[i]);
                let k = rest.index_of(before[i]);
                assert(entries[k] == before[i]);
            } else {
                assert(out[i] == entries[entries.len() - 1]);
            }
        }
    }
}

/// A record that was changed reads back, and its dictionary leads to it by its
/// new name and by no other.
pub proof fn changed_record_reads_back(doc: DocModel, id: Handle, spec: RecordSpecModel)
    requires
        doc.wf(),
        doc.next_handle < u64::MAX,
        record_set(doc, id, spec).1 is None,
    ensures
        ({
            let after = record_set(doc, id, spec).0;
            let dict = record_at(after, id)->0.owner;
            let entries = after.dictionary(dict)->0.entries;
            &&& record_spec(after, id) == Some(spec)
            &&& after.dictionary(dict) is Some
            &&& entries.last() == (DictEntryModel { name: spec.name, handle: id })
            &&& forall|i: int|
                0 <= i < entries.len() - 1 ==> (#[trigger] entries[i]).handle != id
        }),
{
    let record = record_at(doc, id)->0;
    let (ready, dict) = dictionary_for(doc, id, record.owner);
    if owner_of(doc, id, record.owner) is None {
        lemma_with_dictionary(doc);
    } else if !owns(doc, record.owner, id) {
        lemma_owner_from(doc, id, 0);
    }
    assert(ready.dictionary(dict) is Some);
    assert(record_at(ready, id) == record_at(doc, id));
    assert(dict != id);
    let changed = ObjectModel::XRecord(
        XRecordModel {
            name: spec.name,
            owner: dict,
            cloning_flags: spec.cloning_flags,
            entries: spec.entries,
            references: references_of(spec.entries, record.references),
        },
    );
    lemma_filed(ready, id, changed);
    let stored = DocModel { objects: filed(ready.objects, id, changed), ..ready };
    assert(ready.object_place(dict) is Some);
    assert(stored.dictionary(dict) == ready.dictionary(dict));
    let old_entries = stored.dictionary(dict)->0.entries;
    let entries = without_handle(old_entries, id).push(
        DictEntryModel { name: spec.name, handle: id },
    );
    lemma_without_handle(old_entries, id);
    lemma_with_entries(stored, dict, entries);
    let after = with_entries(stored, dict, entries);
    assert(after.object_place(id) == stored.object_place(id));
    assert forall|i: int| 0 <= i < entries.len() - 1 implies (#[trigger] entries[i]).handle != id by {
        assert(entries[i] == without_handle(old_entries, id)[i]);
    }
}

proof fn lemma_owner_from(doc: DocModel, handle: Handle, from: int)
    requires
        doc.wf(),
        0 <= from <= doc.objects.len(),
    ensures
        owner_from(doc.objects, handle, from) is Some ==> doc.dictionary(
            owner_from(doc.objects, handle, from)->0,
        ) is Some,
    decreases doc.objects.len() - from,
{
    if from < doc.objects.len() {
        lemma_owner_from(doc, handle, from + 1);
        lemma_object_from(doc.objects, doc.objects[from].handle, 0);
        let p = doc.object_place(doc.objects[from].handle)->0;
        assert(p == from) by {
            if p != from {
                assert(doc.objects[p].handle != doc.objects[from].handle);
            }
        }
    }
}

} // verus!
