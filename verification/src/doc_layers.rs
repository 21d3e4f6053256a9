//! The layers of an open drawing.
use crate::doc_api::{
    lookup_failure, prepared_name, refusal, refused, unmodifiable, ApiError, ErrorModel, Reason,
    ReasonModel, Session,
};
use crate::document::{
    lemma_entity_from, restyled, DocModel, LayerInfo, LayerInfoModel, LayerStyle, StyleModel,
};
use crate::entity::{views, CommonModel, EntityModel, Handle};
use crate::tables::{
    ascii, distinct_keys, keyed, layer_contains, layer_get, layer_list, layer_relabel, layer_remove,
    layer_rename, lemma_row_from, normalize, relabelled, renamable, renamed, row_at, settled,
    NameRow,
};
use crate::text::{
    comes_before, order_is_total, order_is_transitive, owned, same, text_before, trim, trimmed,
};
use vstd::prelude::*;

verus! {

/// How a layer looks that is described so.
pub open spec fn described(info: LayerInfoModel) -> StyleModel {
    StyleModel {
        flags: info.flags,
        xref_dependent: false,
        color: info.color,
        color_name: None,
        book_name: None,
        line_type: info.line_type,
        line_weight: info.line_weight,
        plot_style: info.plot_style,
        is_plottable: info.is_plottable,
    }
}

/// The description of a layer with a name that looks so.
pub open spec fn description(name: Seq<char>, style: StyleModel) -> LayerInfoModel {
    LayerInfoModel {
        name,
        flags: style.flags,
        color: style.color,
        line_type: style.line_type,
        line_weight: style.line_weight,
        plot_style: style.plot_style,
        is_plottable: style.is_plottable,
    }
}

fn style_from(info: &LayerInfo) -> (r: LayerStyle)
    ensures
        r@ == described(info@),
{
    LayerStyle {
        flags: info.flags,
        xref_dependent: false,
        color: info.color,
        color_name: None,
        book_name: None,
        line_type: info.line_type.clone(),
        line_weight: info.line_weight,
        plot_style: info.plot_style.clone(),
        is_plottable: info.is_plottable,
    }
}

fn info_from(name: String, style: &LayerStyle) -> (r: LayerInfo)
    ensures
        r@ == description(name@, style@),
{
    LayerInfo {
        name,
        flags: style.flags,
        color: style.color,
        line_type: style.line_type.clone(),
        line_weight: style.line_weight,
        plot_style: style.plot_style.clone(),
        is_plottable: style.is_plottable,
    }
}

/// The description of the layer in a row.
pub open spec fn row_info(doc: DocModel, i: int) -> LayerInfoModel {
    description(doc.layers[i].name, doc.style_at(i))
}

/// The layer found by a name, white space around it aside.
pub open spec fn looked_up(doc: DocModel, name: Seq<char>) -> Result<LayerInfoModel, ErrorModel> {
    match lookup_failure(doc, name) {
        Some(reason) => Err(ErrorModel::Validation { op: "LookupLayer"@, reason }),
        None => Ok(row_info(doc, doc.layer_row(keyed(trimmed(name)))->0)),
    }
}

/// The contents of a layer or of what went wrong.
pub open spec fn layer_outcome(r: Result<LayerInfo, ApiError>) -> Result<
    LayerInfoModel,
    ErrorModel,
> {
    match r {
        Ok(info) => Ok(info@),
        Err(e) => Err(e@),
    }
}

/// A refusal of an operation for a reason.
pub open spec fn invalid(op: Seq<char>, reason: ReasonModel) -> ErrorModel {
    ErrorModel::Validation { op, reason }
}

/// What making a layer does. The layer is found by the name it shows, which is
/// the given one without white space around it.
pub open spec fn layer_created(doc: DocModel, info: LayerInfoModel) -> (
    DocModel,
    Option<ErrorModel>,
) {
    let shown = trimmed(info.name);
    let norm = keyed(shown);
    if norm.len() == 0 {
        (doc, Some(invalid("CreateLayer"@, ReasonModel::EmptyLayerName)))
    } else if doc.layer_row(norm) is Some {
        (doc, Some(invalid("CreateLayer"@, ReasonModel::LayerExists(norm))))
    } else {
        let handle = doc.next_handle;
        let next = DocModel { next_handle: (handle + 1) as Handle, ..doc };
        if doc.layer_row(shown) is Some {
            (next, Some(invalid("CreateLayer"@, ReasonModel::EntryExists(shown))))
        } else {
            (next.with_layer(shown, handle, described(info)), None)
        }
    }
}

/// The rows once the layer of one is called otherwise: `from` and `to` are names
/// prepared for comparison, `shown` is the name to show.
pub open spec fn rows_updated(
    rows: Seq<NameRow>,
    from: Seq<char>,
    to: Seq<char>,
    shown: Seq<char>,
) -> Seq<NameRow> {
    let moved = if from == to {
        rows
    } else {
        renamed(rows, row_at(rows, keyed(from))->0, to)
    };
    relabelled(moved, keyed(to), shown)
}

/// What changing a layer does: it may get another name, and it keeps its place
/// and its number. The names it had and has are reported, for what is drawn by
/// them.
pub open spec fn layer_updated(doc: DocModel, name: Seq<char>, info: LayerInfoModel) -> (
    DocModel,
    Result<(Seq<char>, Seq<char>), ErrorModel>,
) {
    let from = keyed(trimmed(name));
    let shown = trimmed(info.name);
    let to = keyed(shown);
    match doc.layer_row(from) {
        None => (doc, Err(invalid("UpdateLayer"@, ReasonModel::NoLayer(name)))),
        Some(i) => if to.len() == 0 {
            (doc, Err(invalid("UpdateLayer"@, ReasonModel::EmptyLayerName)))
        } else if from != to && !renamable(doc.layers, from, to) {
            (doc, Err(invalid("UpdateLayer"@, ReasonModel::EntryExists(to))))
        } else {
            (
                DocModel {
                    layers: rows_updated(doc.layers, from, to, shown),
                    looks: restyled(doc.looks, doc.layers[i].number, described(info)),
                    ..doc
                },
                Ok((doc.layers[i].name, shown)),
            )
        },
    }
}

/// Whether an entity is on the layer with a name prepared for comparison.
pub open spec fn layer_used(doc: DocModel, norm: Seq<char>) -> bool {
    exists|i: int|
        0 <= i < doc.entities.len() && keyed((#[trigger] doc.entities[i]).common.layer) == norm
}

/// What deleting a layer does. The layer `0`, the layer that is drawn on and
/// layers with entities stay.
pub open spec fn layer_deleted(doc: DocModel, name: Seq<char>) -> (DocModel, Option<ErrorModel>) {
    let norm = keyed(trimmed(name));
    if norm == "0"@ {
        (doc, Some(refused("DeleteLayer"@, "cannot delete layer 0"@)))
    } else {
        match doc.layer_row(norm) {
            None => (doc, Some(invalid("DeleteLayer"@, ReasonModel::NoLayer(name)))),
            Some(i) => if keyed(doc.current_layer) == norm {
                (doc, Some(refused("DeleteLayer"@, "cannot delete the current layer"@)))
            } else if layer_used(doc, norm) {
                (doc, Some(invalid("DeleteLayer"@, ReasonModel::LayerInUse(name))))
            } else {
                (DocModel { layers: doc.layers.remove(i), ..doc }, None)
            },
        }
    }
}

/// What putting an entity on another layer does.
pub open spec fn entity_relayered(doc: DocModel, id: Handle, layer: Seq<char>) -> (
    DocModel,
    Option<ErrorModel>,
) {
    match unmodifiable(doc, id) {
        Some(e) => (doc, Some(e)),
        None => match doc.layer_row(keyed(trimmed(layer))) {
            None => (doc, Some(invalid("SetEntityLayer"@, ReasonModel::NoLayer(layer)))),
            Some(row) => if doc.style_at(row).flags.locked {
                (doc, Some(ErrorModel::Unsupported(ReasonModel::LockedTarget { id, layer })))
            } else {
                let i = doc.place(id)->0;
                (
                    DocModel {
                        entities: doc.entities.update(
                            i,
                            EntityModel {
                                common: CommonModel {
                                    layer: doc.layers[row].name,
                                    ..doc.entities[i].common
                                },
                                ..doc.entities[i]
                            },
                        ),
                        ..doc
                    },
                    None,
                )
            },
        },
    }
}

/// A list in order with one more layer, behind those that it does not come
/// before.
pub open spec fn sorted_insert(list: Seq<LayerInfoModel>, x: LayerInfoModel) -> Seq<LayerInfoModel>
    decreases list.len(),
{
    if list.len() > 0 && text_before(x.name, list.last().name) {
        sorted_insert(list.drop_last(), x).push(list.last())
    } else {
        list.push(x)
    }
}

/// Layers in the order of their names; those with the same name keep their order.
pub open spec fn sorted(list: Seq<LayerInfoModel>) -> Seq<LayerInfoModel>
    decreases list.len(),
{
    if list.len() == 0 {
        Seq::empty()
    } else {
        sorted_insert(sorted(list.drop_last()), list.last())
    }
}

/// The layers of a drawing, in the order of the table.
pub open spec fn all_layers(doc: DocModel) -> Seq<LayerInfoModel> {
    Seq::new(doc.layers.len(), |i: int| row_info(doc, i))
}

proof fn lemma_sorted_insert(list: Seq<LayerInfoModel>, x: LayerInfoModel, p: int)
    requires
        0 <= p <= list.len(),
        forall|k: int| p <= k < list.len() ==> text_before(x.name, (#[trigger] list[k]).name),
        p > 0 ==> !text_before(x.name, list[p - 1].name),
    ensures
        sorted_insert(list, x) == list.insert(p, x),
    decreases list.len(),
{
    if p < list.len() {
        assert(text_before(x.name, list[list.len() - 1].name));
        let rest = list.drop_last();
        assert forall|k: int| p <= k < rest.len() implies text_before(
            x.name,
            (#[trigger] rest[k]).name,
        ) by {
            assert(rest[k] == list[k]);
        }
        lemma_sorted_insert(rest, x, p);
        assert(rest.insert(p, x).push(list.last()) =~= list.insert(p, x));
    } else {
        assert(list.push(x) =~= list.insert(p, x));
    }
}

fn insert_sorted(list: &mut Vec<LayerInfo>, x: LayerInfo)
    ensures
        views(final(list)@) == sorted_insert(views(old(list)@), x@),
{
    let ghost before = list@;
    let ghost xm = x@;
    let n: usize = list.len();
    let mut p: usize = n;
    while p > 0 && comes_before(x.name.as_str(), list[p - 1].name.as_str())
        invariant
            p <= n == list@.len(),
            list@ == before,
            forall|k: int| p <= k < n ==> text_before(x.name@, (#[trigger] before[k]).name@),
        decreases p,
    {
        p = p - 1;
    }
    proof {
        assert forall|k: int| p <= k < views(before).len() implies text_before(
            xm.name,
            (#[trigger] views(before)[k]).name,
        ) by {
            assert(views(before)[k] == before[k]@);
        }
        if p > 0 {
            assert(views(before)[p - 1] == before[p - 1]@);
        }
        lemma_sorted_insert(views(before), xm, p as int);
    }
    list.insert(p, x);
    proof {
        assert(views(list@) =~= views(before).insert(p as int, xm));
    }
}

impl Session {
    /// The layer found by a name.
    pub fn lookup_layer(&self, name: &str) -> (r: Result<LayerInfo, ApiError>)
        ensures
            layer_outcome(r) == looked_up(self@.doc, name@),
    {
        if let Some(reason) = self.missing_layer(name) {
            return Err(ApiError::Validation { op: "LookupLayer", reason });
        }
        let norm = prepared_name(name);
        match layer_get(&self.document.layers, norm.as_str()) {
            Some((number, shown)) => match self.document.looks_of(number) {
                Some(looks) => Ok(info_from(shown, &looks.style)),
                None => {
                    let plain = LayerStyle::plain();
                    Ok(info_from(shown, &plain))
                },
            },
            None => Err(
                ApiError::Validation { op: "LookupLayer", reason: Reason::NoLayer(owned(name)) },
            ),
        }
    }

    /// Makes a layer.
    pub fn create_layer(&mut self, info: &LayerInfo) -> (r: Result<(), ApiError>)
        requires
            old(self)@.doc.next_handle < u64::MAX,
        ensures
            ({
                let (doc, failure) = layer_created(old(self)@.doc, info@);
                final(self)@ == old(self)@.with_doc(doc) && refusal(r) == failure
            }),
            r is Ok && ascii(trimmed(info@.name)) ==> reads_back(final(self)@.doc, info@),
            r is Ok && ascii(trimmed(info@.name)) ==> given_out(final(self)@.doc, info@.name),
    {
        let norm = prepared_name(info.name.as_str());
        proof {
            if layer_created(self@.doc, info@).1 is None && settled(trimmed(info@.name)) {
                created_layer_reads_back(self@.doc, info@);
                layer_made_once(self@.doc, info@);
            }
        }
        if norm.as_str().is_empty() {
            return Err(
                ApiError::Validation { op: "CreateLayer", reason: Reason::EmptyLayerName },
            );
        }
        if layer_contains(&self.document.layers, norm.as_str()) {
            return Err(
                ApiError::Validation { op: "CreateLayer", reason: Reason::LayerExists(norm) },
            );
        }
        let handle: Handle = self.document.allocate_handle();
        let shown = trim(info.name.as_str());
        if !self.document.load_layer(shown.as_str(), handle, style_from(info)) {
            return Err(
                ApiError::Validation { op: "CreateLayer", reason: Reason::EntryExists(shown) },
            );
        }
        Ok(())
    }

    /// Changes a layer and, where the description has another name, its name.
    /// Returns the names it had and has.
    pub fn update_layer(&mut self, name: &str, info: &LayerInfo) -> (r: Result<
        (String, String),
        ApiError,
    >)
        ensures
            ({
                let (doc, result) = layer_updated(old(self)@.doc, name@, info@);
                &&& final(self)@ == old(self)@.with_doc(doc)
                &&& match r {
                    Ok((a, b)) => result == Ok::<(Seq<char>, Seq<char>), ErrorModel>((a@, b@)),
                    Err(e) => result == Err::<(Seq<char>, Seq<char>), ErrorModel>(e@),
                }
            }),
    {
        let from = prepared_name(name);
        let (number, had) = match layer_get(&self.document.layers, from.as_str()) {
            None => return Err(
                ApiError::Validation { op: "UpdateLayer", reason: Reason::NoLayer(owned(name)) },
            ),
            Some(row) => row,
        };
        let shown = trim(info.name.as_str());
        let to = normalize(shown.as_str());
        proof {
            assert(to@ =~= keyed(shown@));
        }
        if to.as_str().is_empty() {
            return Err(
                ApiError::Validation { op: "UpdateLayer", reason: Reason::EmptyLayerName },
            );
        }
        if !same(from.as_str(), to.as_str()) {
            if !layer_rename(&mut self.document.layers, from.as_str(), to.as_str()) {
                return Err(
                    ApiError::Validation { op: "UpdateLayer", reason: Reason::EntryExists(to) },
                );
            }
        }
        layer_relabel(&mut self.document.layers, to.as_str(), shown.as_str());
        self.document.restyle(number, style_from(info));
        Ok((had, shown))
    }

    /// Deletes a layer that nothing uses.
    pub fn delete_layer(&mut self, name: &str) -> (r: Result<(), ApiError>)
        ensures
            ({
                let (doc, failure) = layer_deleted(old(self)@.doc, name@);
                final(self)@ == old(self)@.with_doc(doc) && refusal(r) == failure
            }),
    {
        let norm = prepared_name(name);
        if same(norm.as_str(), "0") {
            return Err(
                ApiError::Validation {
                    op: "DeleteLayer",
                    reason: Reason::Note("cannot delete layer 0"),
                },
            );
        }
        if !layer_contains(&self.document.layers, norm.as_str()) {
            return Err(
                ApiError::Validation { op: "DeleteLayer", reason: Reason::NoLayer(owned(name)) },
            );
        }
        let current = normalize(self.document.current_layer.as_str());
        proof {
            assert(current@ =~= keyed(self@.doc.current_layer));
        }
        if same(current.as_str(), norm.as_str()) {
            return Err(
                ApiError::Validation {
                    op: "DeleteLayer",
                    reason: Reason::Note("cannot delete the current layer"),
                },
            );
        }
        let n: usize = self.document.entities.len();
        let mut i: usize = 0;
        let ghost start = self@;
        while i < n
            invariant
                i <= n == self.document.entities@.len(),
                self@ == start,
                start == old(self)@,
                norm@ == keyed(trimmed(name@)),
                norm@ != "0"@,
                start.doc.layer_row(norm@) is Some,
                keyed(start.doc.current_layer) != norm@,
                forall|k: int|
                    0 <= k < i ==> keyed((#[trigger] start.doc.entities[k]).common.layer) != norm@,
            decreases n - i,
        {
            let layer = normalize(self.document.entities[i].common.layer.as_str());
            proof {
                assert(start.doc.entities[i as int] == self.document.entities@[i as int]@);
                assert(layer@ =~= keyed(start.doc.entities[i as int].common.layer));
            }
            if same(layer.as_str(), norm.as_str()) {
                return Err(
                    ApiError::Validation {
                        op: "DeleteLayer",
                        reason: Reason::LayerInUse(owned(name)),
                    },
                );
            }
            i += 1;
        }
        layer_remove(&mut self.document.layers, norm.as_str());
        Ok(())
    }

    /// Puts an entity on another layer.
    pub fn set_entity_layer(&mut self, id: Handle, layer: &str) -> (r: Result<(), ApiError>)
        ensures
            ({
                let (doc, failure) = entity_relayered(old(self)@.doc, id, layer@);
                final(self)@ == old(self)@.with_doc(doc) && refusal(r) == failure
            }),
    {
        match self.can_modify(id) {
            Err(e) => return Err(e),
            Ok(_) => {},
        }
        let norm = prepared_name(layer);
        let (number, shown) = match layer_get(&self.document.layers, norm.as_str()) {
            None => return Err(
                ApiError::Validation {
                    op: "SetEntityLayer",
                    reason: Reason::NoLayer(owned(layer)),
                },
            ),
            Some(row) => row,
        };
        let locked = match self.document.looks_of(number) {
            Some(looks) => looks.style.flags.locked,
            None => false,
        };
        if locked {
            return Err(
                ApiError::Unsupported(Reason::LockedTarget { id, layer: owned(layer) }),
            );
        }
        let i: usize = match self.document.find(id) {
            None => return Err(ApiError::UnknownId(id)),
            Some(i) => i,
        };
        let ghost before = self@;
        proof {
            assert(self@.doc.entities[i as int] == self.document.entities@[i as int]@);
        }
        self.document.entities[i].common.layer = shown;
        proof {
            assert(self@.doc.entities =~= entity_relayered(before.doc, id, layer@).0.entities);
        }
        Ok(())
    }

    /// All layers in the order of their names.
    pub fn layers(&self) -> (r: Result<Vec<LayerInfo>, ApiError>)
        ensures
            r is Ok,
            views(r->Ok_0@) == sorted(all_layers(self@.doc)),
    {
        let rows = layer_list(&self.document.layers);
        let ghost all = all_layers(self@.doc);
        let n: usize = rows.len();
        let mut out: Vec<LayerInfo> = Vec::new();
        let mut i: usize = 0;
        proof {
            assert(all.take(0) =~= Seq::<LayerInfoModel>::empty());
            assert(views(out@) =~= Seq::<LayerInfoModel>::empty());
        }
        while i < n
            invariant
                i <= n == rows@.len(),
                all == all_layers(self@.doc),
                all.len() == n,
                forall|k: int|
                    0 <= k < n ==> (#[trigger] rows@[k]).0 == self@.doc.layers[k].number
                        && rows@[k].1@ == self@.doc.layers[k].name,
                views(out@) == sorted(all.take(i as int)),
            decreases n - i,
        {
            let number: u64 = rows[i].0;
            let name = rows[i].1.clone();
            let info = match self.document.looks_of(number) {
                Some(looks) => info_from(name, &looks.style),
                None => {
                    let plain = LayerStyle::plain();
                    info_from(name, &plain)
                },
            };
            proof {
                assert(all[i as int] == info@);
                assert(all.take(i + 1).drop_last() =~= all.take(i as int));
            }
            insert_sorted(&mut out, info);
            i += 1;
        }
        proof {
            assert(all.take(n as int) =~= all);
        }
        Ok(out)
    }
}

/// Whether layers stand in the order of their names.
pub open spec fn in_order(list: Seq<LayerInfoModel>) -> bool {
    forall|i: int, j: int|
        0 <= i < j < list.len() ==> !text_before(
            (#[trigger] list[j]).name,
            (#[trigger] list[i]).name,
        )
}

proof fn lemma_insert_in_order(list: Seq<LayerInfoModel>, x: LayerInfoModel)
    requires
        in_order(list),
    ensures
        in_order(sorted_insert(list, x)),
        sorted_insert(list, x).to_multiset() == list.to_multiset().insert(x),
        sorted_insert(list, x).len() == list.len() + 1,
        forall|k: int|
            0 <= k <= list.len() ==> (#[trigger] sorted_insert(list, x)[k]) == x || list.contains(
                sorted_insert(list, x)[k],
            ),
    decreases list.len(),
{
    broadcast use vstd::seq_lib::group_to_multiset_ensures;

    if list.len() > 0 && text_before(x.name, list.last().name) {
        let rest = list.drop_last();
        assert(in_order(rest)) by {
            assert forall|i: int, j: int| 0 <= i < j < rest.len() implies !text_before(
                (#[trigger] rest[j]).name,
                (#[trigger] rest[i]).name,
            ) by {
                assert(rest[j] == list[j] && rest[i] == list[i]);
            }
        }
        lemma_insert_in_order(rest, x);
        let t = sorted_insert(rest, x);
        let all = t.push(list.last());
        assert(list =~= rest.push(list.last()));
        assert(all.to_multiset() =~= list.to_multiset().insert(x));
        assert forall|i: int, j: int| 0 <= i < j < all.len() implies !text_before(
            (#[trigger] all[j]).name,
            (#[trigger] all[i]).name,
        ) by {
            if j < t.len() {
                assert(all[j] == t[j] && all[i] == t[i]);
            } else {
                assert(all[j] == list.last());
                assert(all[i] == t[i]);
                order_is_total(x.name, list.last().name);
                if t[i] != x {
                    let k = rest.index_of(t[i]);
                    assert(list[k] == t[i]);
                    assert(list[list.len() - 1] == list.last());
                }
            }
        }
        assert forall|k: int| 0 <= k <= list.len() implies (#[trigger] all[k]) == x
            || list.contains(all[k]) by {
            if k < t.len() {
                assert(all[k] == t[k]);
                if t[k] != x {
                    let m = rest.index_of(t[k]);
                    assert(list[m] == t[k]);
                }
            } else {
                assert(list[list.len() - 1] == all[k]);
            }
        }
    } else {
        let all = list.push(x);
        assert forall|i: int, j: int| 0 <= i < j < all.len() implies !text_before(
            (#[trigger] all[j]).name,
            (#[trigger] all[i]).name,
        ) by {
            if j < list.len() {
                assert(all[j] == list[j] && all[i] == list[i]);
            } else {
                let last = list[list.len() - 1];
                assert(!text_before(x.name, last.name));
                assert(all[i] == list[i]);
                if text_before(x.name, list[i].name) {
                    if i < list.len() - 1 {
                        assert(!text_before(last.name, list[i].name));
                        order_is_total(last.name, list[i].name);
                        if text_before(list[i].name, last.name) {
                            order_is_transitive(x.name, list[i].name, last.name);
                        }
                    }
                }
            }
        }
        assert forall|k: int| 0 <= k <= list.len() implies (#[trigger] all[k]) == x
            || list.contains(all[k]) by {
            if k < list.len() {
                assert(all[k] == list[k]);
            }
        }
    }
}

/// Listing the layers puts them in the order of their names and neither adds nor
/// loses one.
pub proof fn listing_orders(list: Seq<LayerInfoModel>)
    ensures
        in_order(sorted(list)),
        sorted(list).to_multiset() == list.to_multiset(),
        sorted(list).len() == list.len(),
    decreases list.len(),
{
    broadcast use vstd::seq_lib::group_to_multiset_ensures;

    if list.len() > 0 {
        listing_orders(list.drop_last());
        lemma_insert_in_order(sorted(list.drop_last()), list.last());
        assert(list =~= list.drop_last().push(list.last()));
    } else {
        assert(list =~= Seq::<LayerInfoModel>::empty());
    }
}

/// Whether a layer is found by the name in a description and reads back as it is
/// described there, under the name without white space around it.
pub open spec fn reads_back(doc: DocModel, info: LayerInfoModel) -> bool {
    looked_up(doc, info.name) == Ok::<LayerInfoModel, ErrorModel>(
        LayerInfoModel { name: trimmed(info.name), ..info },
    )
}

/// Whether a name is taken: no layer can be made by it, whatever the case of its
/// letters, and trying to changes nothing.
pub open spec fn given_out(doc: DocModel, name: Seq<char>) -> bool {
    forall|again: LayerInfoModel|
        keyed(trimmed(again.name)) == keyed(trimmed(name)) ==> #[trigger] layer_created(doc, again)
            == (
            doc,
            Some(invalid("CreateLayer"@, ReasonModel::LayerExists(keyed(trimmed(name))))),
        )
}

/// A layer that was made is found by its name and reads back as it was
/// described, under the name without white space around it. Names are left out
/// whose letters change again when they are prepared for comparison twice: no
/// ASCII name does, as [`Session::create_layer`] tells.
pub proof fn created_layer_reads_back(doc: DocModel, info: LayerInfoModel)
    requires
        layer_created(doc, info).1 is None,
        settled(trimmed(info.name)),
    ensures
        reads_back(layer_created(doc, info).0, info),
{
    let after = layer_created(doc, info).0;
    let key = keyed(trimmed(info.name));
    lemma_row_from(doc.layers, key, 0);
    lemma_row_from(after.layers, key, 0);
    let n = doc.layers.len() as int;
    assert(after.layers[n].key == key);
    assert forall|k: int| 0 <= k < n implies (#[trigger] after.layers[k]).key != key by {
        assert(after.layers[k] == doc.layers[k]);
    }
}

/// A name is not given to two layers: making a layer a second time is refused,
/// and so is making one whose name differs in the case of letters only.
pub proof fn layer_made_once(doc: DocModel, info: LayerInfoModel)
    requires
        layer_created(doc, info).1 is None,
        settled(trimmed(info.name)),
    ensures
        given_out(layer_created(doc, info).0, info.name),
{
    created_layer_reads_back(doc, info);
}

/// A layer that was deleted is not found any more.
pub proof fn deleted_layer_is_gone(doc: DocModel, name: Seq<char>)
    requires
        distinct_keys(doc.layers),
        layer_deleted(doc, name).1 is None,
    ensures
        lookup_failure(layer_deleted(doc, name).0, name) is Some,
{
    let norm = keyed(trimmed(name));
    let after = layer_deleted(doc, name).0;
    lemma_row_from(doc.layers, keyed(norm), 0);
    lemma_row_from(after.layers, keyed(norm), 0);
    let i = doc.layer_row(norm)->0;
    assert forall|k: int| 0 <= k < after.layers.len() implies (#[trigger] after.layers[k]).key
        != keyed(norm) by {
        if k < i {
            assert(after.layers[k] == doc.layers[k]);
        } else {
            assert(after.layers[k] == doc.layers[k + 1]);
        }
    }
}

/// Neither the layer `0`, nor the layer that is drawn on, nor a layer with an
/// entity on it is ever deleted.
pub proof fn layers_in_use_stay(doc: DocModel, name: Seq<char>)
    requires
        ({
            let norm = keyed(trimmed(name));
            norm == "0"@ || norm == keyed(doc.current_layer) || layer_used(doc, norm)
        }),
    ensures
        layer_deleted(doc, name).1 is Some,
        layer_deleted(doc, name).0 == doc,
{
}

/// A request on layers that is refused leaves the drawing as it was; only making
/// a layer may use up a handle.
pub proof fn refused_layer_request_keeps(
    doc: DocModel,
    name: Seq<char>,
    info: LayerInfoModel,
    id: Handle,
)
    ensures
        layer_updated(doc, name, info).1 is Err ==> layer_updated(doc, name, info).0 == doc,
        layer_deleted(doc, name).1 is Some ==> layer_deleted(doc, name).0 == doc,
        entity_relayered(doc, id, name).1 is Some ==> entity_relayered(doc, id, name).0 == doc,
        layer_created(doc, info).1 is Some ==> layer_created(doc, info).0 == (DocModel {
            next_handle: layer_created(doc, info).0.next_handle,
            ..doc
        }),
{
}

/// No two layers are ever found by the same name.
pub proof fn layer_names_stay_distinct(doc: DocModel, name: Seq<char>, info: LayerInfoModel)
    requires
        distinct_keys(doc.layers),
    ensures
        distinct_keys(layer_created(doc, info).0.layers),
        distinct_keys(layer_updated(doc, name, info).0.layers),
        distinct_keys(layer_deleted(doc, name).0.layers),
{
    let shown = trimmed(info.name);
    lemma_row_from(doc.layers, keyed(shown), 0);
    let from = keyed(trimmed(name));
    let to = keyed(shown);
    lemma_row_from(doc.layers, keyed(from), 0);
    lemma_row_from(doc.layers, keyed(to), 0);
    if layer_updated(doc, name, info).1 is Ok {
        let moved = if from == to {
            doc.layers
        } else {
            renamed(doc.layers, row_at(doc.layers, keyed(from))->0, to)
        };
        assert(distinct_keys(moved)) by {
            if from != to {
                let i = row_at(doc.layers, keyed(from))->0;
                assert forall|a: int, b: int|
                    0 <= a < moved.len() && 0 <= b < moved.len() && a
                        != b implies #[trigger] moved[a].key != #[trigger] moved[b].key by {
                    if a != i {
                        assert(moved[a] == doc.layers[a]);
                    }
                    if b != i {
                        assert(moved[b] == doc.layers[b]);
                    }
                    if keyed(from) == keyed(to) {
                        assert(moved[i].key == doc.layers[i].key);
                    }
                }
            }
        }
        lemma_row_from(moved, keyed(to), 0);
        let after = relabelled(moved, keyed(to), shown);
        assert forall|a: int, b: int|
            0 <= a < after.len() && 0 <= b < after.len() && a != b implies #[trigger] after[a].key
            != #[trigger] after[b].key by {
            assert(after[a].key == moved[a].key);
            assert(after[b].key == moved[b].key);
        }
    }
    if layer_deleted(doc, name).1 is None {
        let i = doc.layer_row(from)->0;
        let after = doc.layers.remove(i);
        assert forall|a: int, b: int|
            0 <= a < after.len() && 0 <= b < after.len() && a != b implies #[trigger] after[a].key
            != #[trigger] after[b].key by {
            let x = if a < i {
                a
            } else {
                a + 1
            };
            let y = if b < i {
                b
            } else {
                b + 1
            };
            assert(after[a] == doc.layers[x]);
            assert(after[b] == doc.layers[y]);
        }
    }
}

/// Each layer keeps looks of its own: making, changing or deleting one leaves how
/// the others look alone, whatever handles they have.
pub proof fn layers_keep_their_looks(doc: DocModel, name: Seq<char>, info: LayerInfoModel)
    requires
        doc.layers_wf(),
    ensures
        layer_created(doc, info).0.layers_wf(),
        layer_updated(doc, name, info).0.layers_wf(),
        layer_deleted(doc, name).0.layers_wf(),
        forall|k: int|
            0 <= k < doc.layers.len() ==> #[trigger] layer_created(doc, info).0.style_at(k)
                == doc.style_at(k),
        forall|k: int|
            0 <= k < doc.layers.len() && Some(k) != doc.layer_row(keyed(trimmed(name)))
                ==> #[trigger] layer_updated(doc, name, info).0.style_at(k) == doc.style_at(k),
        forall|k: int|
            0 <= k < layer_deleted(doc, name).0.layers.len() ==> #[trigger] layer_deleted(
                doc,
                name,
            ).0.style_at(k) == doc.style_at(
                if layer_deleted(doc, name).1 is None && k >= doc.layer_row(
                    keyed(trimmed(name)),
                )->0 {
                    k + 1
                } else {
                    k
                },
            ),
{
    layer_names_stay_distinct(doc, name, info);
    let from = keyed(trimmed(name));
    let to = keyed(trimmed(info.name));
    lemma_row_from(doc.layers, keyed(from), 0);
    let created = layer_created(doc, info).0;
    assert forall|k: int| 0 <= k < doc.layers.len() implies created.layers[k]
        == #[trigger] doc.layers[k] by {}
    let updated = layer_updated(doc, name, info).0;
    if layer_updated(doc, name, info).1 is Ok {
        let moved = if from == to {
            doc.layers
        } else {
            renamed(doc.layers, row_at(doc.layers, keyed(from))->0, to)
        };
        lemma_row_from(moved, keyed(to), 0);
        assert(updated.layers.len() == doc.layers.len());
        assert forall|k: int| 0 <= k < doc.layers.len() implies updated.layers[k].number
            == #[trigger] doc.layers[k].number by {
            assert(moved[k].number == doc.layers[k].number);
        }
    }
    let deleted = layer_deleted(doc, name).0;
    if layer_deleted(doc, name).1 is None {
        let i = doc.layer_row(from)->0;
        assert forall|k: int| 0 <= k < deleted.layers.len() implies (#[trigger] deleted.layers[k])
            == doc.layers[if k >= i {
            k + 1
        } else {
            k
        }] by {}
    }
}

/// A layer that was changed reads back as it was described, under its new name.
pub proof fn updated_layer_reads_back(doc: DocModel, name: Seq<char>, info: LayerInfoModel)
    requires
        doc.layers_wf(),
        layer_updated(doc, name, info).1 is Ok,
    ensures
        looked_up(layer_updated(doc, name, info).0, info.name) == Ok::<
            LayerInfoModel,
            ErrorModel,
        >(LayerInfoModel { name: trimmed(info.name), ..info }),
{
    let shown = trimmed(info.name);
    let from = keyed(trimmed(name));
    let to = keyed(shown);
    let after = layer_updated(doc, name, info).0;
    lemma_row_from(doc.layers, keyed(from), 0);
    lemma_row_from(doc.layers, keyed(to), 0);
    let i = doc.layer_row(from)->0;
    let moved = if from == to {
        doc.layers
    } else {
        renamed(doc.layers, i, to)
    };
    lemma_row_from(moved, keyed(to), 0);
    lemma_row_from(after.layers, keyed(to), 0);
    assert(moved[i].key == keyed(to));
    assert forall|k: int| 0 <= k < moved.len() && k != i implies moved[k]
        == #[trigger] doc.layers[k] by {}
    let j = row_at(moved, keyed(to))->0;
    assert(j == i) by {
        if j < i {
            assert(moved[j] == doc.layers[j]);
        }
    }
    let q = row_at(after.layers, keyed(to))->0;
    assert(after.layers[i].key == keyed(to));
    assert(q == i) by {
        if q < i {
            assert(after.layers[q] == moved[q]);
        }
    }
}

/// An entity that was put on a layer reads back the name that the layer shows.
pub proof fn relayered_entity_reads_back(doc: DocModel, id: Handle, layer: Seq<char>)
    requires
        entity_relayered(doc, id, layer).1 is None,
    ensures
        ({
            let after = entity_relayered(doc, id, layer).0;
            &&& after.place(id) == doc.place(id)
            &&& after.place(id) is Some
            &&& after.entities[after.place(id)->0].common.layer
                == doc.layers[doc.layer_row(keyed(trimmed(layer)))->0].name
        }),
{
    let after = entity_relayered(doc, id, layer).0;
    lemma_entity_from(doc.entities, id, 0);
    lemma_entity_from(after.entities, id, 0);
    let i = doc.place(id)->0;
    assert(after.entities[i].common.handle == id);
    let j = after.place(id)->0;
    if j < i {
        assert(after.entities[j] == doc.entities[j]);
    }
}

} // verus!
