//! The named tables of a drawing, kept by `acadrust`, and how names are
//! compared there.
use crate::entity::Handle;
use crate::text::upper_char;
use vstd::prelude::*;

verus! {

/// What `acadrust::tables::normalize_name` makes of one letter.
pub uninterp spec fn key_letter(c: char) -> char;

/// A name as the tables compare it: letter by letter.
pub open spec fn keyed(name: Seq<char>) -> Seq<char> {
    Seq::new(name.len(), |i: int| key_letter(name[i]))
}

/// What is known of a letter `u` that stands for `c` in a compared name: ASCII
/// letters are in upper case, and a letter outside ASCII stays outside it.
pub open spec fn key_rule(c: char, u: char) -> bool {
    if (c as int) < 128 {
        u == upper_char(c)
    } else {
        (u as int) >= 128
    }
}

/// Whether a name that was prepared for comparison is not changed by being
/// prepared again.
pub open spec fn settled(name: Seq<char>) -> bool {
    keyed(keyed(name)) == keyed(name)
}

/// Whether all letters of a name are ASCII letters.
pub open spec fn ascii(name: Seq<char>) -> bool {
    forall|i: int| 0 <= i < name.len() ==> (#[trigger] name[i] as int) < 128
}

/// An ASCII name does not change when it is prepared twice, where its letters and
/// those of the prepared name follow the rule.
pub proof fn ascii_names_settle(name: Seq<char>)
    requires
        ascii(name),
        forall|i: int| 0 <= i < name.len() ==> key_rule(name[i], #[trigger] keyed(name)[i]),
        forall|i: int|
            0 <= i < name.len() ==> key_rule(
                #[trigger] keyed(name)[i],
                key_letter(keyed(name)[i]),
            ),
    ensures
        settled(name),
{
    assert forall|i: int| 0 <= i < name.len() implies #[trigger] keyed(keyed(name))[i] == keyed(
        name,
    )[i] by {
        assert((name[i] as int) < 128);
        assert(keyed(name)[i] == upper_char(name[i]));
    }
    assert(keyed(keyed(name)) =~= keyed(name));
}

/// `acadrust::tables::normalize_name`: every letter is upper-cased by itself,
/// an ASCII letter to its ASCII capital and any other to a letter outside ASCII.
/// Which letter that is, the Unicode tables say. The letters of the result would
/// be upper-cased by the same rule.
#[verifier::external_body]
pub(crate) fn normalize(name: &str) -> (r: String)
    ensures
        r@ == Seq::new(name@.len(), |i: int| key_letter(name@[i])),
        forall|i: int| 0 <= i < name@.len() ==> key_rule(name@[i], #[trigger] r@[i]),
        forall|i: int|
            0 <= i < name@.len() ==> key_rule(#[trigger] r@[i], key_letter(r@[i])),
{
    acadrust::tables::normalize_name(name)
}

/// A row of a table: the key it is found by, the name it shows and the number
/// that stands in it for a handle.
#[verifier::ext_equal]
pub struct NameRow {
    pub key: Seq<char>,
    pub name: Seq<char>,
    pub number: int,
}

/// The first row with a key, from `from` on.
pub open spec fn row_from(rows: Seq<NameRow>, key: Seq<char>, from: int) -> Option<int>
    decreases rows.len() - from,
{
    if from < 0 || from >= rows.len() {
        None
    } else if rows[from].key == key {
        Some(from)
    } else {
        row_from(rows, key, from + 1)
    }
}

/// The first row with a key.
pub open spec fn row_at(rows: Seq<NameRow>, key: Seq<char>) -> Option<int> {
    row_from(rows, key, 0)
}

/// Whether no two rows have the same number.
pub open spec fn distinct_numbers(rows: Seq<NameRow>) -> bool {
    forall|i: int, j: int|
        0 <= i < rows.len() && 0 <= j < rows.len() && i != j ==> #[trigger] rows[i].number
            != #[trigger] rows[j].number
}

/// Whether no two rows have the same key.
pub open spec fn distinct_keys(rows: Seq<NameRow>) -> bool {
    forall|i: int, j: int|
        0 <= i < rows.len() && 0 <= j < rows.len() && i != j ==> #[trigger] rows[i].key
            != #[trigger] rows[j].key
}

pub proof fn lemma_row_from(rows: Seq<NameRow>, key: Seq<char>, from: int)
    requires
        0 <= from <= rows.len(),
    ensures
        match row_from(rows, key, from) {
            Some(i) => from <= i < rows.len() && rows[i].key == key && forall|k: int|
                from <= k < i ==> (#[trigger] rows[k]).key != key,
            None => forall|k: int| from <= k < rows.len() ==> (#[trigger] rows[k]).key != key,
        },
    decreases rows.len() - from,
{
    if from < rows.len() && rows[from].key != key {
        lemma_row_from(rows, key, from + 1);
    }
}

/// The layers of a drawing by name. What a layer looks like is kept beside the
/// table, under the number in the layer's row.
#[verifier::external_body]
pub struct LayerTable {
    table: acadrust::tables::Table<acadrust::tables::Layer>,
}

/// The rows of a layer table, in its order.
pub uninterp spec fn layer_rows(t: LayerTable) -> Seq<NameRow>;

/// A table without rows.
pub open spec fn no_rows() -> Seq<NameRow> {
    Seq::empty()
}

/// `acadrust::tables::Table::new`: a table without rows.
#[verifier::external_body]
pub(crate) fn layer_table() -> (r: LayerTable)
    ensures
        layer_rows(r) == no_rows(),
{
    LayerTable { table: acadrust::tables::Table::new() }
}

/// `acadrust::tables::Table::get`: the row found by a name, as its number and
/// the name it shows.
#[verifier::external_body]
pub(crate) fn layer_get(t: &LayerTable, name: &str) -> (r: Option<(u64, String)>)
    ensures
        match r {
            Some((h, n)) => row_at(layer_rows(*t), keyed(name@)) is Some && layer_rows(*t)[row_at(
                layer_rows(*t),
                keyed(name@),
            )->0] == (NameRow { key: keyed(name@), name: n@, number: h as int }),
            None => row_at(layer_rows(*t), keyed(name@)) is None,
        },
{
    t.table.get(name).map(|layer| (layer.handle.value(), layer.name.clone()))
}

/// `acadrust::tables::Table::contains`: whether a row is found by a name.
#[verifier::external_body]
pub(crate) fn layer_contains(t: &LayerTable, name: &str) -> (r: bool)
    ensures
        r == row_at(layer_rows(*t), keyed(name@)) is Some,
{
    t.table.contains(name)
}

/// `acadrust::tables::Table::add`: a row at the end, found by the name it shows,
/// unless one is found by that name already. Tells whether it was added.
#[verifier::external_body]
pub(crate) fn layer_add(t: &mut LayerTable, name: &str, number: u64) -> (r: bool)
    ensures
        r == row_at(layer_rows(*old(t)), keyed(name@)) is None,
        layer_rows(*final(t)) == (if row_at(layer_rows(*old(t)), keyed(name@)) is None {
            layer_rows(*old(t)).push(
                NameRow { key: keyed(name@), name: name@, number: number as int },
            )
        } else {
            layer_rows(*old(t))
        }),
{
    let mut layer = acadrust::tables::Layer::new(name);
    layer.handle = acadrust::Handle::new(number);
    t.table.add(layer).is_ok()
}

/// Whether a row can be renamed: it is there, and no other row is found by the
/// new name.
pub open spec fn renamable(rows: Seq<NameRow>, from: Seq<char>, to: Seq<char>) -> bool {
    row_at(rows, keyed(from)) is Some && (keyed(from) == keyed(to) || row_at(
        rows,
        keyed(to),
    ) is None)
}

/// `acadrust::tables::Table::rename`: a row under another name, in the same
/// place and with the same number, unless it is missing or the name is taken.
/// Tells whether it was renamed.
#[verifier::external_body]
pub(crate) fn layer_rename(t: &mut LayerTable, from: &str, to: &str) -> (r: bool)
    ensures
        r == renamable(layer_rows(*old(t)), from@, to@),
        layer_rows(*final(t)) == (if renamable(layer_rows(*old(t)), from@, to@) {
            renamed(layer_rows(*old(t)), row_at(layer_rows(*old(t)), keyed(from@))->0, to@)
        } else {
            layer_rows(*old(t))
        }),
{
    t.table.rename(from, to).is_ok()
}

/// Rows with the one at `i` under another name.
pub open spec fn renamed(rows: Seq<NameRow>, i: int, to: Seq<char>) -> Seq<NameRow> {
    rows.update(i, NameRow { key: keyed(to), name: to, number: rows[i].number })
}

/// Rows with the one found by a key showing another name.
pub open spec fn relabelled(rows: Seq<NameRow>, key: Seq<char>, name: Seq<char>) -> Seq<NameRow> {
    match row_at(rows, key) {
        Some(i) => rows.update(i, NameRow { name, ..rows[i] }),
        None => rows,
    }
}

/// `acadrust::tables::Table::get_mut`: the row found by a name is made to show
/// another. It is still found by the old one.
#[verifier::external_body]
pub(crate) fn layer_relabel(t: &mut LayerTable, at: &str, name: &str)
    ensures
        layer_rows(*final(t)) == relabelled(layer_rows(*old(t)), keyed(at@), name@),
{
    if let Some(layer) = t.table.get_mut(at) {
        layer.name = name.to_string();
    }
}

/// Rows without the one found by a key.
pub open spec fn dropped(rows: Seq<NameRow>, key: Seq<char>) -> Seq<NameRow> {
    match row_at(rows, key) {
        Some(i) => rows.remove(i),
        None => rows,
    }
}

/// `acadrust::tables::Table::remove`: the row found by a name goes, the others
/// keep their order.
#[verifier::external_body]
pub(crate) fn layer_remove(t: &mut LayerTable, name: &str)
    ensures
        layer_rows(*final(t)) == dropped(layer_rows(*old(t)), keyed(name@)),
{
    t.table.remove(name);
}

/// `acadrust::tables::Table::iter`: the number and the shown name of every row,
/// in order.
#[verifier::external_body]
pub(crate) fn layer_list(t: &LayerTable) -> (r: Vec<(u64, String)>)
    ensures
        r@.len() == layer_rows(*t).len(),
        forall|i: int|
            0 <= i < r@.len() ==> (#[trigger] r@[i]).0 == layer_rows(*t)[i].number && r@[i].1@
                == layer_rows(*t)[i].name,
{
    t.table.iter().map(|layer| (layer.handle.value(), layer.name.clone())).collect()
}

/// The blocks of a drawing by name.
#[verifier::external_body]
pub struct BlockTable {
    table: acadrust::tables::Table<acadrust::tables::BlockRecord>,
}

/// A block: the key it is found by and the handles of its entities.
#[verifier::ext_equal]
pub struct BlockRow {
    pub key: Seq<char>,
    pub entities: Seq<Handle>,
}

/// The blocks of a block table, in its order.
pub uninterp spec fn block_rows(t: BlockTable) -> Seq<BlockRow>;

/// The first block with a key, from `from` on.
pub open spec fn block_from(rows: Seq<BlockRow>, key: Seq<char>, from: int) -> Option<int>
    decreases rows.len() - from,
{
    if from < 0 || from >= rows.len() {
        None
    } else if rows[from].key == key {
        Some(from)
    } else {
        block_from(rows, key, from + 1)
    }
}

pub proof fn lemma_block_from(rows: Seq<BlockRow>, key: Seq<char>, from: int)
    requires
        0 <= from <= rows.len(),
    ensures
        match block_from(rows, key, from) {
            Some(i) => from <= i < rows.len() && rows[i].key == key && forall|k: int|
                from <= k < i ==> (#[trigger] rows[k]).key != key,
            None => forall|k: int| from <= k < rows.len() ==> (#[trigger] rows[k]).key != key,
        },
    decreases rows.len() - from,
{
    if from < rows.len() && rows[from].key != key {
        lemma_block_from(rows, key, from + 1);
    }
}

/// The handles in the block found by a name.
pub open spec fn block_contents(rows: Seq<BlockRow>, name: Seq<char>) -> Option<Seq<Handle>> {
    match block_from(rows, keyed(name), 0) {
        Some(i) => Some(rows[i].entities),
        None => None,
    }
}

/// A table without blocks.
pub open spec fn no_blocks() -> Seq<BlockRow> {
    Seq::empty()
}

/// `acadrust::tables::Table::new`: a table without blocks.
#[verifier::external_body]
pub(crate) fn block_table() -> (r: BlockTable)
    ensures
        block_rows(r) == no_blocks(),
{
    BlockTable { table: acadrust::tables::Table::new() }
}

/// `acadrust::tables::Table::get`: the entities of the block found by a name.
#[verifier::external_body]
pub(crate) fn block_get(t: &BlockTable, name: &str) -> (r: Option<Vec<Handle>>)
    ensures
        match r {
            Some(v) => block_contents(block_rows(*t), name@) == Some(v@),
            None => block_contents(block_rows(*t), name@) is None,
        },
{
    t.table.get(name).map(|block| block.entity_handles.iter().map(|h| h.value()).collect())
}

/// Blocks with one more handle at the end of the block found by a name.
pub open spec fn block_extended(rows: Seq<BlockRow>, name: Seq<char>, handle: Handle) -> Seq<
    BlockRow,
> {
    match block_from(rows, keyed(name), 0) {
        Some(i) => rows.update(
            i,
            BlockRow { key: rows[i].key, entities: rows[i].entities.push(handle) },
        ),
        None => rows,
    }
}

/// `acadrust::tables::Table::get_mut`: the block found by a name gets one more
/// entity, behind those it has.
#[verifier::external_body]
pub(crate) fn block_append(t: &mut BlockTable, name: &str, handle: Handle)
    ensures
        block_rows(*final(t)) == block_extended(block_rows(*old(t)), name@, handle),
{
    if let Some(block) = t.table.get_mut(name) {
        block.entity_handles.push(acadrust::Handle::new(handle));
    }
}

/// `acadrust::tables::Table::add`: a block at the end, unless one is found by
/// its name already. Tells whether it was added.
#[verifier::external_body]
pub(crate) fn block_add(t: &mut BlockTable, name: &str, entities: &Vec<Handle>) -> (r: bool)
    ensures
        r == block_contents(block_rows(*old(t)), name@) is None,
        block_rows(*final(t)) == (if block_contents(block_rows(*old(t)), name@) is None {
            block_rows(*old(t)).push(BlockRow { key: keyed(name@), entities: entities@ })
        } else {
            block_rows(*old(t))
        }),
{
    let mut block = acadrust::tables::BlockRecord::new(name);
    block.entity_handles = entities.iter().map(|h| acadrust::Handle::new(*h)).collect();
    t.table.add(block).is_ok()
}

} // verus!
