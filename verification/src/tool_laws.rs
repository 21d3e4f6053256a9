//! What copying nested entities and setting properties by layer do.
use crate::command::{NestedCopy, ResultModel};
use crate::entity::Handle;
use crate::ncopy::{
    copies_along, copies_at, entered, is_nearest, leaves, leaves_of, picked, planned, pointed,
    typed, NcopyState, NodeModel, Step,
};
use crate::setbylayer::State;
use crate::text::{ascii_upper, decimal, trimmed};
use crate::text_laws::decimals_read_back;
use crate::value::{Point3, Real};
use vstd::prelude::*;

verus! {

/// Whether all selected entities are there to be copied.
pub open spec fn all_there(nested: Map<Handle, usize>, selected: Seq<(Handle, usize)>) -> bool {
    forall|i: int|
        0 <= i < selected.len() ==> nested.contains_key((#[trigger] selected[i]).0)
            && selected[i].1 < nested[selected[i].0]
}

proof fn lemma_copies(
    nested: Map<Handle, usize>,
    selected: Seq<(Handle, usize)>,
    offset: Point3,
    k: int,
)
    requires
        all_there(nested, selected),
    ensures
        copies_at(nested, selected, offset).len() == selected.len(),
        0 <= k < selected.len() ==> copies_at(nested, selected, offset)[k] == (NestedCopy {
            handle: selected[k].0,
            index: selected[k].1,
            offset,
        }),
    decreases selected.len(),
{
    if selected.len() > 0 {
        let rest = selected.drop_last();
        assert forall|i: int| 0 <= i < rest.len() implies nested.contains_key(
            (#[trigger] rest[i]).0,
        ) && rest[i].1 < nested[rest[i].0] by {
            assert(rest[i] == selected[i]);
        }
        lemma_copies(nested, rest, offset, k);
        assert(selected.last() == selected[selected.len() - 1]);
    }
}

/// The second point copies every selected entity once, in the order of the
/// selection and moved by the same step, and ends the command unless more copies
/// are wanted. A point that is not finite copies nothing.
pub proof fn selection_is_copied(
    s: NcopyState,
    base: Point3,
    point: Point3,
    delta: Point3,
    offsets: Seq<Point3>,
    k: int,
)
    requires
        s.step == Step::Target(base),
        all_there(s.nested, s.selected),
        0 <= k < s.selected.len(),
        s.placements < usize::MAX,
    ensures
        ({
            let (t, r) = pointed(s, point, delta, offsets);
            &&& !point.finite() ==> t == s && r == ResultModel::NeedPoint
            &&& point.finite() ==> t == NcopyState {
                placements: (s.placements + 1) as usize,
                ..s
            }
            &&& point.finite() && !delta.finite() ==> r == ResultModel::NeedPoint
            &&& point.finite() && delta.finite() ==> {
                &&& r is CommitCopies
                &&& r->exit == !s.multiple
                &&& r->copies.len() == s.selected.len()
                &&& r->copies[k].handle == s.selected[k].0
                &&& r->copies[k].index == s.selected[k].1
                &&& r->copies[k].offset == delta
            }
        }),
{
    lemma_copies(s.nested, s.selected, delta, k);
}

proof fn lemma_along(
    nested: Map<Handle, usize>,
    selected: Seq<(Handle, usize)>,
    offsets: Seq<Point3>,
    j: int,
    k: int,
)
    requires
        all_there(nested, selected),
        forall|i: int| 0 <= i < offsets.len() ==> (#[trigger] offsets[i]).finite(),
        0 <= j < offsets.len(),
        0 <= k < selected.len(),
    ensures
        copies_along(nested, selected, offsets).len() == offsets.len() * selected.len(),
        0 <= j * selected.len() + k < offsets.len() * selected.len(),
        copies_along(nested, selected, offsets)[j * selected.len() + k] == (NestedCopy {
            handle: selected[k].0,
            index: selected[k].1,
            offset: offsets[j],
        }),
    decreases offsets.len(),
{
    let n = selected.len() as int;
    let m = offsets.len() as int;
    let rest = offsets.drop_last();
    let before = copies_along(nested, selected, rest);
    assert forall|i: int| 0 <= i < rest.len() implies (#[trigger] rest[i]).finite() by {
        assert(rest[i] == offsets[i]);
    }
    crate::ncopy::array_count(nested, selected, offsets);
    crate::ncopy::array_count(nested, selected, rest);
    assert(offsets.last() == offsets[m - 1]);
    lemma_copies(nested, selected, offsets.last(), k);
    assert(0 <= j * n + k < m * n && (j < m - 1 ==> j * n + k < (m - 1) * n) && (j == m - 1 ==> j
        * n + k == (m - 1) * n + k)) by (nonlinear_arith)
        requires
            0 <= j < m,
            0 <= k < n,
    ;
    if j < m - 1 {
        lemma_along(nested, selected, rest, j, k);
        assert(rest[j] == offsets[j]);
    }
}

/// An array copies the selection once for each of its offsets, one item after the
/// other, and ends the command.
pub proof fn arrays_copy_for_each_offset(
    s: NcopyState,
    point: Point3,
    delta: Point3,
    offsets: Seq<Point3>,
    j: int,
    k: int,
)
    requires
        s.step is ArrayTarget,
        all_there(s.nested, s.selected),
        forall|i: int| 0 <= i < offsets.len() ==> (#[trigger] offsets[i]).finite(),
        0 <= j < offsets.len(),
        0 <= k < s.selected.len(),
    ensures
        ({
            let (t, r) = pointed(s, point, delta, offsets);
            let n = s.selected.len();
            &&& t == s
            &&& !delta.finite() ==> r == ResultModel::NeedPoint
            &&& delta.finite() ==> {
                &&& r is CommitCopies
                &&& r->exit
                &&& r->copies.len() == offsets.len() * n
                &&& r->copies[j * n + k].handle == s.selected[k].0
                &&& r->copies[j * n + k].index == s.selected[k].1
                &&& r->copies[j * n + k].offset == offsets[j]
            }
        }),
{
    lemma_along(s.nested, s.selected, offsets, j, k);
}

/// An item of an array whose offset is not finite is passed over, and so is an
/// entity that is not there.
pub proof fn impossible_copies_are_passed_over(
    nested: Map<Handle, usize>,
    selected: Seq<(Handle, usize)>,
    offsets: Seq<Point3>,
    offset: Point3,
    gone: (Handle, usize),
)
    requires
        !(nested.contains_key(gone.0) && gone.1 < nested[gone.0]),
    ensures
        !offset.finite() ==> copies_along(nested, selected, offsets.push(offset))
            == copies_along(nested, selected, offsets),
        copies_at(nested, selected.push(gone), offset) == copies_at(nested, selected, offset),
{
    assert(offsets.push(offset).drop_last() =~= offsets);
    assert(selected.push(gone).drop_last() =~= selected);
}

/// Where the last item of an array is given, the step to it is divided by one less
/// than the items; where the second is given, it is the step.
pub proof fn arrays_are_planned(s: NcopyState, base: Point3, count: usize, fit: bool)
    requires
        s.step == Step::ArrayTarget(base, count, fit),
        2 <= count <= 32767,
    ensures
        planned(s) is Some,
        (planned(s)->0).base == base,
        (planned(s)->0).count == count,
        fit ==> (planned(s)->0).divisor + 1 == count,
        !fit ==> (planned(s)->0).divisor == 1,
{
}

/// A typed number from 2 to 32767 is the number of items of the array; the fit
/// gives the last item in place of the second.
pub proof fn arrays_are_counted(s: NcopyState, base: Point3, n: nat, up: Seq<char>)
    requires
        s.step == Step::ArrayCount(base),
        n <= usize::MAX,
    ensures
        2 <= n <= 32767 ==> typed(s, decimal(n), up) == (
            NcopyState { step: Step::ArrayTarget(base, n as usize, false), ..s },
            Some(ResultModel::NeedPoint),
        ),
        n < 2 || n > 32767 ==> typed(s, decimal(n), up) == (s, Some(ResultModel::NeedPoint)),
{
    decimals_read_back(n as int, 0, usize::MAX as int);
}

/// The options: an array from the second point, the fit of an array, more copies
/// and a displacement at the base point, and taking back or ending where more
/// copies are made.
pub proof fn copying_options(s: NcopyState, plain: Seq<char>, up: Seq<char>)
    requires
        !(s.step is ArrayCount),
    ensures
        ({
            let (t, r) = typed(s, plain, up);
            let go = Some(ResultModel::NeedPoint);
            &&& up == "A"@ || up == "ARRAY"@ ==> r == go && (s.step matches Step::Target(base)
                ==> t == NcopyState { step: Step::ArrayCount(base), ..s }) && (!(s.step is Target)
                ==> t == s)
            &&& up == "F"@ || up == "FIT"@ ==> r == go && (s.step matches Step::ArrayTarget(
                base,
                count,
                fit,
            ) ==> t == NcopyState { step: Step::ArrayTarget(base, count, true), ..s })
            &&& (up == "U"@ || up == "UNDO"@) && s.multiple && s.placements > 0 ==> r == Some(
                ResultModel::UndoDocument,
            ) && t == (NcopyState { placements: (s.placements - 1) as usize, ..s })
            &&& (up == "E"@ || up == "EXIT"@) && s.multiple ==> r == Some(ResultModel::Cancel)
                && t == s
            &&& (up == "M"@ || up == "MULTIPLE"@) && s.step == Step::Base ==> r == go && t == (
            NcopyState { multiple: true, ..s })
            &&& (up == "D"@ || up == "DISPLACEMENT"@) && s.step == Step::Base ==> r == go
                && t.step is Target && (t.step->Target_0).x.bits == 0 && (t.step->Target_0).y.bits
                == 0 && (t.step->Target_0).z.bits == 0 && t == (NcopyState { step: t.step, ..s })
        }),
{
    reveal_strlit("A");
    reveal_strlit("ARRAY");
    reveal_strlit("F");
    reveal_strlit("FIT");
    reveal_strlit("U");
    reveal_strlit("UNDO");
    reveal_strlit("E");
    reveal_strlit("EXIT");
    reveal_strlit("M");
    reveal_strlit("MULTIPLE");
    reveal_strlit("D");
    reveal_strlit("DISPLACEMENT");
    assert("A"@.len() == 1);
    assert("A"@[0] == 'A');
    assert("ARRAY"@.len() == 5);
    assert("F"@.len() == 1);
    assert("F"@[0] == 'F');
    assert("FIT"@.len() == 3);
    assert("U"@.len() == 1);
    assert("U"@[0] == 'U');
    assert("UNDO"@.len() == 4);
    assert("UNDO"@[0] == 'U');
    assert("E"@.len() == 1);
    assert("E"@[0] == 'E');
    assert("EXIT"@.len() == 4);
    assert("EXIT"@[0] == 'E');
    assert("M"@.len() == 1);
    assert("M"@[0] == 'M');
    assert("MULTIPLE"@.len() == 8);
    assert("D"@.len() == 1);
    assert("D"@[0] == 'D');
    assert("DISPLACEMENT"@.len() == 12);
}

/// The Enter key ends the selection, takes the origin for the base point, and at
/// the second point moves the copies by the first one; elsewhere it ends the
/// command.
pub proof fn enter_while_copying(s: NcopyState, k: int)
    requires
        all_there(s.nested, s.selected),
    ensures
        ({
            let (t, r) = entered(s);
            &&& s.step == Step::Select && s.selected.len() > 0 ==> t == (NcopyState {
                step: Step::Base,
                ..s
            }) && r == ResultModel::NeedPoint
            &&& s.step == Step::Select && s.selected.len() == 0 ==> t == s && r
                == ResultModel::Cancel
            &&& s.step == Step::Base ==> r == ResultModel::NeedPoint && t.step is Target && (
            t.step->Target_0).x.bits == 0 && (t.step->Target_0).y.bits == 0 && (
            t.step->Target_0).z.bits == 0
            &&& s.step is Target && s.multiple ==> t == s && r == ResultModel::Cancel
            &&& s.step is Target && !s.multiple && (s.step->Target_0).finite() ==> {
                &&& r is CommitCopies
                &&& r->exit
                &&& r->copies.len() == s.selected.len()
                &&& 0 <= k < s.selected.len() ==> r->copies[k] == (NestedCopy {
                    handle: s.selected[k].0,
                    index: s.selected[k].1,
                    offset: s.step->Target_0,
                })
            }
            &&& s.step is ArrayCount || s.step is ArrayTarget ==> t == s && r
                == ResultModel::Cancel
        }),
{
    if s.step is Target {
        lemma_copies(s.nested, s.selected, s.step->Target_0, k);
    }
}

/// The base point is where the step starts from.
pub proof fn base_point_is_held(
    s: NcopyState,
    point: Point3,
    delta: Point3,
    offsets: Seq<Point3>,
)
    requires
        s.step == Step::Base,
    ensures
        pointed(s, point, delta, offsets) == (
            NcopyState { step: Step::Target(point), ..s },
            ResultModel::NeedPoint,
        ),
{
}

/// A pick selects, of the entities in a block reference, the one nearest to it,
/// the first of several, and each once.
pub proof fn nearest_is_selected(
    s: NcopyState,
    handle: Handle,
    distances: Seq<Option<Real>>,
    i: int,
)
    requires
        0 <= i < distances.len() <= usize::MAX,
        distances[i] is Some,
        forall|k: int|
            0 <= k < distances.len() && (#[trigger] distances[k]) is Some ==> {
                &&& k < i ==> (distances[i]->0).total_rank() < (distances[k]->0).total_rank()
                &&& k >= i ==> (distances[i]->0).total_rank() <= (distances[k]->0).total_rank()
            },
    ensures
        ({
            let t = picked(s, handle, distances);
            let new = (handle, i as usize);
            &&& t == NcopyState { selected: t.selected, ..s }
            &&& s.nested.contains_key(handle) && !s.selected.contains(new) ==> {
                &&& t.selected.len() == s.selected.len() + 1
                &&& t.selected.last() == new
                &&& t.selected.take(s.selected.len() as int) == s.selected
            }
            &&& !s.nested.contains_key(handle) || s.selected.contains(new) ==> t == s
        }),
{
    assert(is_nearest(distances, i));
    let j = choose|j: int| is_nearest(distances, j);
    assert(is_nearest(distances, j));
    assert(distances[j] is Some);
    assert(j == i);
    let t = picked(s, handle, distances);
    assert(s.selected.push((handle, i as usize)).take(s.selected.len() as int) =~= s.selected);
}

/// An entity that refers to no block comes down to itself.
pub proof fn plain_entities_are_leaves(
    nodes: Seq<NodeModel>,
    at: usize,
    open: Seq<Seq<char>>,
    trail: Seq<usize>,
)
    requires
        at < nodes.len(),
        nodes[at as int].block is None,
    ensures
        leaves(nodes, at, open, trail) == seq![trail.push(at)],
{
}

proof fn lemma_flat(
    nodes: Seq<NodeModel>,
    parts: Seq<usize>,
    open: Seq<Seq<char>>,
    trail: Seq<usize>,
    k: int,
)
    requires
        forall|i: int|
            0 <= i < parts.len() ==> (#[trigger] parts[i]) < nodes.len()
                && nodes[parts[i] as int].block is None,
    ensures
        leaves_of(nodes, parts, open, trail).len() == parts.len(),
        0 <= k < parts.len() ==> leaves_of(nodes, parts, open, trail)[k] == trail.push(parts[k]),
    decreases parts.len(),
{
    if parts.len() > 0 {
        let rest = parts.drop_last();
        assert forall|i: int| 0 <= i < rest.len() implies (#[trigger] rest[i]) < nodes.len()
            && nodes[rest[i] as int].block is None by {
            assert(rest[i] == parts[i]);
        }
        lemma_flat(nodes, rest, open, trail, k);
        assert(parts.last() == parts[parts.len() - 1]);
        plain_entities_are_leaves(nodes, parts.last(), open, trail);
    }
}

/// A reference to a block of plain entities comes down to these, in their order,
/// each by way of the reference. A block inside itself, whatever the case of its
/// name, is passed over.
pub proof fn blocks_come_down_to_their_parts(
    nodes: Seq<NodeModel>,
    at: usize,
    open: Seq<Seq<char>>,
    trail: Seq<usize>,
    k: int,
)
    requires
        at < nodes.len(),
        nodes[at as int].block is Some,
    ensures
        ({
            let node = nodes[at as int];
            let name = ascii_upper(node.block->0);
            let flat = forall|i: int|
                0 <= i < node.parts.len() ==> (#[trigger] node.parts[i]) < nodes.len()
                    && nodes[node.parts[i] as int].block is None;
            &&& open.contains(name) ==> leaves(nodes, at, open, trail).len() == 0
            &&& !open.contains(name) && flat ==> {
                &&& leaves(nodes, at, open, trail).len() == node.parts.len()
                &&& 0 <= k < node.parts.len() ==> leaves(nodes, at, open, trail)[k] == trail.push(
                    at,
                ).push(node.parts[k])
            }
        }),
{
    let node = nodes[at as int];
    let name = ascii_upper(node.block->0);
    let flat = forall|i: int|
        0 <= i < node.parts.len() ==> (#[trigger] node.parts[i]) < nodes.len()
            && nodes[node.parts[i] as int].block is None;
    if flat {
        lemma_flat(nodes, node.parts, open.push(name), trail.push(at), k);
    }
}

/// The entities of several parts are those of the one and those of the other, in
/// order.
pub proof fn parts_follow_each_other(
    nodes: Seq<NodeModel>,
    parts: Seq<usize>,
    at: usize,
    open: Seq<Seq<char>>,
    trail: Seq<usize>,
)
    ensures
        leaves_of(nodes, Seq::empty(), open, trail).len() == 0,
        leaves_of(nodes, parts.push(at), open, trail) == leaves_of(nodes, parts, open, trail)
            + leaves(nodes, at, open, trail),
{
    assert(parts.push(at).drop_last() =~= parts);
}

/// The settings of a command come from the bits 32 and 64 of the setting, and it
/// asks for a selection where it has none.
pub proof fn setting_is_read(selected: Seq<Handle>, setting: u8)
    ensures
        ({
            let s = crate::setbylayer::started(selected, setting);
            &&& s.selected == selected
            &&& s.change_byblock == (setting & 32 != 0)
            &&& s.include_blocks == (setting & 64 != 0)
            &&& s.pending_mode == setting
            &&& selected.len() == 0 ==> s.step == crate::setbylayer::Step::Selection
            &&& selected.len() > 0 ==> s.step == crate::setbylayer::Step::ByBlock
        }),
{
}

/// Each property is switched by its own bit: the colour by 1, the line type by 2,
/// the line weight by 4, the material by 8 and the transparency by 128. The
/// setting itself stays until the end.
pub proof fn properties_are_switched(s: State, setting: u8, up: Seq<char>)
    requires
        s.step == crate::setbylayer::Step::Settings,
    ensures
        ({
            let (t, m, r) = crate::setbylayer::typed(s, setting, up);
            let p = s.pending_mode;
            &&& m == setting
            &&& r == Some(ResultModel::NeedPoint)
            &&& t == State { pending_mode: t.pending_mode, ..s }
            &&& up == "C"@ || up == "COLOR"@ ==> t.pending_mode == p ^ 1
            &&& up == "LT"@ || up == "LTYPE"@ ==> t.pending_mode == p ^ 2
            &&& up == "LW"@ || up == "LWEIGHT"@ ==> t.pending_mode == p ^ 4
            &&& up == "M"@ || up == "MATERIAL"@ ==> t.pending_mode == p ^ 8
            &&& up == "T"@ || up == "TRANSPARENCY"@ ==> t.pending_mode == p ^ 128
        }),
{
    reveal_strlit("C");
    reveal_strlit("COLOR");
    reveal_strlit("LT");
    reveal_strlit("LTYPE");
    reveal_strlit("LW");
    reveal_strlit("LWEIGHT");
    reveal_strlit("M");
    reveal_strlit("MATERIAL");
    reveal_strlit("T");
    reveal_strlit("TRANSPARENCY");
    assert("C"@.len() == 1);
    assert("C"@[0] == 'C');
    assert("COLOR"@.len() == 5);
    assert("COLOR"@[0] == 'C');
    assert("LT"@.len() == 2);
    assert("LT"@[1] == 'T');
    assert("LTYPE"@.len() == 5);
    assert("LTYPE"@[0] == 'L');
    assert("LW"@.len() == 2);
    assert("LW"@[1] == 'W');
    assert("LWEIGHT"@.len() == 7);
    assert("M"@.len() == 1);
    assert("M"@[0] == 'M');
    assert("MATERIAL"@.len() == 8);
    assert("T"@.len() == 1);
    assert("T"@[0] == 'T');
    assert("TRANSPARENCY"@.len() == 12);
}

/// At the first question, yes and no say whether what comes from the block comes
/// from the layer now, and the second question follows.
pub proof fn first_question_is_answered(s: State, setting: u8, up: Seq<char>)
    requires
        s.step == crate::setbylayer::Step::ByBlock,
    ensures
        ({
            let (t, m, r) = crate::setbylayer::typed(s, setting, up);
            let next = |yes: bool|
                State { change_byblock: yes, step: crate::setbylayer::Step::Blocks, ..s };
            &&& m == setting
            &&& r == Some(ResultModel::NeedPoint)
            &&& up == "Y"@ || up == "YES"@ ==> t == next(true)
            &&& up == "N"@ || up == "NO"@ ==> t == next(false)
            &&& up != "Y"@ && up != "YES"@ && up != "N"@ && up != "NO"@ ==> t == s
        }),
        crate::setbylayer::entered(s, setting) == (
            State { step: crate::setbylayer::Step::Blocks, ..s },
            setting,
            ResultModel::NeedPoint,
        ),
{
    reveal_strlit("Y");
    reveal_strlit("YES");
    reveal_strlit("N");
    reveal_strlit("NO");
    assert("Y"@.len() == 1);
    assert("Y"@[0] == 'Y');
    assert("YES"@.len() == 3);
    assert("N"@.len() == 1);
    assert("N"@[0] == 'N');
    assert("NO"@.len() == 2);
}

/// At the second question, yes and no say whether the contents of blocks are
/// changed too, and the change starts on the selection with both answers. The
/// setting keeps them in its bits 32 and 64, and the properties in the others.
pub proof fn second_question_starts_the_change(s: State, setting: u8, up: Seq<char>, yes: bool)
    requires
        s.step == crate::setbylayer::Step::Blocks,
        if yes {
            up == "Y"@ || up == "YES"@
        } else {
            up == "N"@ || up == "NO"@
        },
    ensures
        ({
            let (t, m, r) = crate::setbylayer::typed(s, setting, up);
            &&& t == s
            &&& (m & 32 != 0) == s.change_byblock
            &&& (m & 64 != 0) == yes
            &&& m & 159 == s.pending_mode & 159
            &&& r is Some
            &&& r->0 is Relaunch
            &&& r->0->Relaunch_1 == s.selected
            &&& s.change_byblock && yes ==> r->0->Relaunch_0 == "SETBYLAYER_APPLY 1 1"@
            &&& s.change_byblock && !yes ==> r->0->Relaunch_0 == "SETBYLAYER_APPLY 1 0"@
            &&& !s.change_byblock && yes ==> r->0->Relaunch_0 == "SETBYLAYER_APPLY 0 1"@
            &&& !s.change_byblock && !yes ==> r->0->Relaunch_0 == "SETBYLAYER_APPLY 0 0"@
        }),
        s.include_blocks == yes ==> {
            let (t, m, r) = crate::setbylayer::typed(s, setting, up);
            crate::setbylayer::entered(s, setting) == (t, m, r->0)
        },
{
    reveal_strlit("Y");
    reveal_strlit("YES");
    reveal_strlit("N");
    reveal_strlit("NO");
    assert("Y"@.len() == 1);
    assert("Y"@[0] == 'Y');
    assert("YES"@.len() == 3);
    assert("N"@.len() == 1);
    assert("N"@[0] == 'N');
    assert("NO"@.len() == 2);
    let p = s.pending_mode;
    let c: u8 = if s.change_byblock {
        32
    } else {
        0
    };
    let b: u8 = if yes {
        64
    } else {
        0
    };
    assert(((p & 159) | c | b) & 32 == c && ((p & 159) | c | b) & 64 == b && ((p & 159) | c | b)
        & 159 == p & 159) by (bit_vector)
        requires
            c == 0 || c == 32,
            b == 0 || b == 64,
    ;
    reveal_strlit("SETBYLAYER_APPLY 1 1");
    reveal_strlit("SETBYLAYER_APPLY 1 0");
    reveal_strlit("SETBYLAYER_APPLY 0 1");
    reveal_strlit("SETBYLAYER_APPLY 0 0");
    reveal_strlit("SETBYLAYER_APPLY ");
    reveal_strlit("1");
    reveal_strlit("0");
    reveal_strlit(" ");
    assert("SETBYLAYER_APPLY 1 1"@.len() == 20);
    assert("SETBYLAYER_APPLY 1 1"@[17] == '1');
    assert("SETBYLAYER_APPLY 1 1"@[19] == '1');
    assert("SETBYLAYER_APPLY 1 0"@.len() == 20);
    assert("SETBYLAYER_APPLY 1 0"@[17] == '1');
    assert("SETBYLAYER_APPLY 1 0"@[19] == '0');
    assert("SETBYLAYER_APPLY 0 1"@.len() == 20);
    assert("SETBYLAYER_APPLY 0 1"@[17] == '0');
    assert("SETBYLAYER_APPLY 0 1"@[19] == '1');
    assert("SETBYLAYER_APPLY 0 0"@.len() == 20);
    assert("SETBYLAYER_APPLY 0 0"@[17] == '0');
    assert("SETBYLAYER_APPLY 0 0"@[19] == '0');
    assert("SETBYLAYER_APPLY "@.len() == 17);
    assert("1"@.len() == 1);
    assert("1"@[0] == '1');
    assert("0"@.len() == 1);
    assert("0"@[0] == '0');
    assert(" "@.len() == 1);
    assert(" "@[0] == ' ');
    let front = "SETBYLAYER_APPLY "@;
    assert(front + "1"@ + " "@ + "1"@ =~= "SETBYLAYER_APPLY 1 1"@);
    assert(front + "1"@ + " "@ + "0"@ =~= "SETBYLAYER_APPLY 1 0"@);
    assert(front + "0"@ + " "@ + "1"@ =~= "SETBYLAYER_APPLY 0 1"@);
    assert(front + "0"@ + " "@ + "0"@ =~= "SETBYLAYER_APPLY 0 0"@);
}

/// The settings are reached from the selection and left by the Enter key; with a
/// selection the Enter key leads to the first question, without one it ends the
/// command.
pub proof fn selection_leads_on(s: State, setting: u8, up: Seq<char>)
    ensures
        s.step == crate::setbylayer::Step::Selection && (up == "S"@ || up == "SETTINGS"@)
            ==> crate::setbylayer::typed(s, setting, up) == (
            State { step: crate::setbylayer::Step::Settings, ..s },
            setting,
            Some(ResultModel::NeedPoint),
        ),
        s.step == crate::setbylayer::Step::Selection && up != "S"@ && up != "SETTINGS"@
            ==> crate::setbylayer::typed(s, setting, up) == (s, setting, None::<ResultModel>),
        s.step == crate::setbylayer::Step::Settings ==> crate::setbylayer::entered(s, setting)
            == (
            State { step: crate::setbylayer::Step::Selection, ..s },
            setting,
            ResultModel::NeedPoint,
        ),
        s.step == crate::setbylayer::Step::Selection && s.selected.len() > 0
            ==> crate::setbylayer::entered(s, setting) == (
            State { step: crate::setbylayer::Step::ByBlock, ..s },
            setting,
            ResultModel::NeedPoint,
        ),
        s.step == crate::setbylayer::Step::Selection && s.selected.len() == 0
            ==> crate::setbylayer::entered(s, setting) == (s, setting, ResultModel::Cancel),
{
}

/// A typed number up to 255 becomes the setting; anything else leaves it.
pub proof fn setting_is_typed(setting: u8, n: nat, text: Seq<char>)
    requires
        trimmed(text) == decimal(n),
    ensures
        n <= 255 ==> crate::setbylayer::mode_typed(setting, text) == (
            n as u8,
            ResultModel::Cancel,
        ),
        n > 255 ==> crate::setbylayer::mode_typed(setting, text) == (
            setting,
            ResultModel::NeedPoint,
        ),
{
    decimals_read_back(n as int, 0, n as int);
    if n <= 255 {
        decimals_read_back(n as int, 0, 255);
    }
}

/// Underscores before a word are passed over, and no others.
pub proof fn underscores_are_passed_over(word: Seq<char>)
    requires
        word.len() > 0,
        word[0] != '_',
    ensures
        crate::setbylayer::unmarked(word) == word,
        crate::setbylayer::unmarked(seq!['_'] + word) == word,
        crate::setbylayer::unmarked(seq!['_', '_'] + word) == word,
{
    assert((seq!['_'] + word).skip(1) =~= word);
    assert((seq!['_', '_'] + word).skip(1) =~= seq!['_'] + word);
    reveal_with_fuel(crate::setbylayer::unmarked, 4);
}

proof fn lemma_menu(tools: Seq<crate::draw_panel::Tool>, id: Seq<char>, from: int, i: int)
    requires
        0 <= from <= i < tools.len(),
        tools[i].command@ == id,
        tools[i].options@.len() > 0,
        forall|k: int|
            from <= k < i ==> (#[trigger] tools[k]).command@ != id || tools[k].options@.len() == 0,
    ensures
        crate::draw_panel::menu_from(tools, id, from) == Some(i),
    decreases tools.len() - from,
{
    if from < i {
        assert(tools[from].command@ != id || tools[from].options@.len() == 0);
        lemma_menu(tools, id, from + 1, i);
    }
}

/// The menu with a name is that of the first tool that has options and starts the
/// command of this name.
pub proof fn first_tool_opens_the_menu(
    tools: Seq<crate::draw_panel::Tool>,
    id: Seq<char>,
    i: int,
)
    requires
        0 <= i < tools.len(),
        tools[i].command@ == id,
        tools[i].options@.len() > 0,
        forall|k: int|
            0 <= k < i ==> (#[trigger] tools[k]).command@ != id || tools[k].options@.len() == 0,
    ensures
        crate::draw_panel::menu_of(tools, id) == Some(i),
        crate::draw_panel::owned_by(tools, id),
        crate::draw_panel::owned_by(tools, "draw_extension"@),
{
    lemma_menu(tools, id, 0, i);
}

proof fn lemma_no_menu(tools: Seq<crate::draw_panel::Tool>, id: Seq<char>, from: int)
    requires
        0 <= from <= tools.len(),
        forall|k: int|
            from <= k < tools.len() ==> (#[trigger] tools[k]).command@ != id
                || tools[k].options@.len() == 0,
    ensures
        crate::draw_panel::menu_from(tools, id, from) is None,
    decreases tools.len() - from,
{
    if from < tools.len() {
        assert(tools[from].command@ != id || tools[from].options@.len() == 0);
        lemma_no_menu(tools, id, from + 1);
    }
}

/// The title of the Draw panel is a button where there are tools. It shows as open
/// while the panel's own dropdown is, and while the menu of one of its tools is; no
/// other dropdown opens it, nor does none. Every other panel has a plain title.
pub proof fn titles_show_what_is_open(
    tools: Seq<crate::draw_panel::Tool>,
    title: Seq<char>,
    id: Seq<char>,
    i: int,
)
    requires
        tools.len() > 0,
    ensures
        title != "Draw"@ ==> crate::draw_panel::titled(tools, title, None) is Plain
            && crate::draw_panel::titled(tools, title, Some(id)) is Plain,
        crate::draw_panel::titled(Seq::empty(), title, Some(id)) is Plain,
        crate::draw_panel::titled(tools, "Draw"@, None) == (crate::draw_panel::Title::Toggle {
            expanded: false,
        }),
        crate::draw_panel::titled(tools, "Draw"@, Some("draw_extension"@)) == (
        crate::draw_panel::Title::Toggle { expanded: true }),
        0 <= i < tools.len() && tools[i].command@ == id && tools[i].options@.len() > 0
            ==> crate::draw_panel::titled(tools, "Draw"@, Some(id)) == (
        crate::draw_panel::Title::Toggle { expanded: true }),
        id != "draw_extension"@ && (forall|k: int|
            0 <= k < tools.len() ==> (#[trigger] tools[k]).command@ != id
                || tools[k].options@.len() == 0) ==> crate::draw_panel::titled(
            tools,
            "Draw"@,
            Some(id),
        ) == (crate::draw_panel::Title::Toggle { expanded: false }),
{
    if 0 <= i < tools.len() && tools[i].command@ == id && tools[i].options@.len() > 0 {
        if crate::draw_panel::menu_of(tools, id) is None {
            lemma_menu_is_found(tools, id, 0, i);
        }
    }
    if forall|k: int|
        0 <= k < tools.len() ==> (#[trigger] tools[k]).command@ != id || tools[k].options@.len()
            == 0 {
        lemma_no_menu(tools, id, 0);
    }
}

proof fn lemma_menu_is_found(
    tools: Seq<crate::draw_panel::Tool>,
    id: Seq<char>,
    from: int,
    i: int,
)
    requires
        0 <= from <= i < tools.len(),
        tools[i].command@ == id,
        tools[i].options@.len() > 0,
    ensures
        crate::draw_panel::menu_from(tools, id, from) is Some,
    decreases tools.len() - from,
{
    if from < i {
        lemma_menu_is_found(tools, id, from + 1, i);
    }
}

/// A dropdown holds the menu of the first tool of its name, and where no tool has a
/// menu of this name it holds the tools in rows: as many in a row as fit, where one
/// to seven do, one where none fits and seven where more do.
pub proof fn dropdowns_hold_menus_or_rows(
    tools: Seq<crate::draw_panel::Tool>,
    id: Seq<char>,
    fits: usize,
    i: usize,
)
    ensures
        i < tools.len() && tools[i as int].command@ == id && tools[i as int].options@.len() > 0
            && (forall|k: int|
            0 <= k < i ==> (#[trigger] tools[k]).command@ != id || tools[k].options@.len() == 0)
            ==> crate::draw_panel::overlaid(tools, id, fits) == crate::draw_panel::Contents::Menu(
            i,
        ),
        (forall|k: int|
            0 <= k < tools.len() ==> (#[trigger] tools[k]).command@ != id
                || tools[k].options@.len() == 0) ==> {
            &&& crate::draw_panel::overlaid(tools, id, fits) is Grid
            &&& 1 <= fits <= 7 ==> crate::draw_panel::overlaid(tools, id, fits)
                == crate::draw_panel::Contents::Grid(fits)
            &&& fits == 0 ==> crate::draw_panel::overlaid(tools, id, fits)
                == crate::draw_panel::Contents::Grid(1)
            &&& fits > 7 ==> crate::draw_panel::overlaid(tools, id, fits)
                == crate::draw_panel::Contents::Grid(7)
        },
{
    if i < tools.len() && tools[i as int].command@ == id && tools[i as int].options@.len() > 0 && (
    forall|k: int|
        0 <= k < i ==> (#[trigger] tools[k]).command@ != id || tools[k].options@.len() == 0) {
        lemma_menu(tools, id, 0, i as int);
    }
    if forall|k: int|
        0 <= k < tools.len() ==> (#[trigger] tools[k]).command@ != id || tools[k].options@.len()
            == 0 {
        lemma_no_menu(tools, id, 0);
    }
}

/// The rows of the grid follow each other without a gap: the first starts with the
/// first tool, each starts where the one before ends, none holds more tools than
/// there are columns, and one that a further row follows is full.
pub proof fn rows_take_all_tools_once(count: int, columns: int, row: int)
    requires
        count >= 0,
        columns > 0,
        row >= 0,
    ensures
        crate::draw_panel::row_start(count, columns, 0) == 0,
        ({
            let from = crate::draw_panel::row_start(count, columns, row);
            let to = crate::draw_panel::row_start(count, columns, row + 1);
            &&& 0 <= from <= to <= count
            &&& to - from <= columns
            &&& to < count ==> to - from == columns
            &&& from < count ==> from < to
        }),
        row >= count ==> crate::draw_panel::row_start(count, columns, row) == count,
{
    assert(0 * columns == 0) by (nonlinear_arith);
    assert((row + 1) * columns == row * columns + columns) by (nonlinear_arith);
    assert(row * columns >= row) by (nonlinear_arith)
        requires
            row >= 0,
            columns >= 1,
    ;
}

} // verus!
