//! Copying entities out of block references.
use crate::command::{answer, CmdOption, CmdResult, NestedCopy, ResultModel};
use crate::entity::{views, Handle};
use crate::handle_map::map_get;
use crate::text::{
    ascii_upper, either, is_either, keyword_of, owned, read_unsigned, same, texts,
    to_ascii_upper, to_upper, trim, trimmed, unsigned_value,
};
use crate::value::{origin, Point3, Real};
use rustc_hash::FxHashMap;
use vstd::prelude::*;

verus! {

/// An entity of a drawing or of one of its blocks: a reference to a block, with
/// the entities of that block by their numbers, or an entity that holds no
/// others.
pub struct Node {
    pub block: Option<String>,
    pub parts: Vec<usize>,
}

/// The contents of a [`Node`].
#[verifier::ext_equal]
pub struct NodeModel {
    pub block: Option<Seq<char>>,
    pub parts: Seq<usize>,
}

impl View for Node {
    type V = NodeModel;

    open spec fn view(&self) -> NodeModel {
        NodeModel {
            block: match self.block {
                Some(s) => Some(s@),
                None => None,
            },
            parts: self.parts@,
        }
    }
}

/// Whether an entity refers to a block that is not open yet.
pub open spec fn unopened(n: NodeModel, open: Seq<Seq<char>>) -> bool {
    match n.block {
        Some(name) => !open.contains(ascii_upper(name)),
        None => false,
    }
}

/// The number of references to blocks that are not open yet.
pub open spec fn unopened_count(nodes: Seq<NodeModel>, open: Seq<Seq<char>>) -> nat
    decreases nodes.len(),
{
    if nodes.len() == 0 {
        0
    } else {
        unopened_count(nodes.drop_last(), open) + (if unopened(nodes.last(), open) {
            1nat
        } else {
            0nat
        })
    }
}

proof fn lemma_open_less(nodes: Seq<NodeModel>, open: Seq<Seq<char>>, name: Seq<char>)
    ensures
        unopened_count(nodes, open.push(name)) <= unopened_count(nodes, open),
        forall|i: int|
            0 <= i < nodes.len() && unopened(#[trigger] nodes[i], open) && ascii_upper(
                nodes[i].block->0,
            ) == name ==> unopened_count(nodes, open.push(name)) < unopened_count(nodes, open),
    decreases nodes.len(),
{
    if nodes.len() > 0 {
        let rest = nodes.drop_last();
        lemma_open_less(rest, open, name);
        let last = nodes.last();
        let more = open.push(name);
        assert forall|t: Seq<char>| open.contains(t) implies more.contains(t) by {
            let k = open.index_of(t);
            assert(more[k] == t);
        }
        assert(more[open.len() as int] == name);
        assert(unopened(last, more) ==> unopened(last, open));
        assert forall|i: int|
            0 <= i < nodes.len() && unopened(#[trigger] nodes[i], open) && ascii_upper(
                nodes[i].block->0,
            ) == name implies unopened_count(nodes, more) < unopened_count(nodes, open) by {
            if i < rest.len() {
                assert(rest[i] == nodes[i]);
            } else {
                assert(!unopened(last, more));
            }
        }
    }
}

/// The entities that an entity comes down to once all references to blocks are
/// resolved, each as the trail of numbers that leads to it. A block that is
/// open already is passed over, so that a block that holds itself ends.
pub open spec fn leaves(
    nodes: Seq<NodeModel>,
    at: usize,
    open: Seq<Seq<char>>,
    trail: Seq<usize>,
) -> Seq<Seq<usize>>
    decreases unopened_count(nodes, open), 0int,
    via leaves_decreases
{
    if at >= nodes.len() {
        Seq::empty()
    } else {
        match nodes[at as int].block {
            None => seq![trail.push(at)],
            Some(name) => if open.contains(ascii_upper(name)) {
                Seq::empty()
            } else {
                leaves_of(
                    nodes,
                    nodes[at as int].parts,
                    open.push(ascii_upper(name)),
                    trail.push(at),
                )
            },
        }
    }
}

#[via_fn]
proof fn leaves_decreases(
    nodes: Seq<NodeModel>,
    at: usize,
    open: Seq<Seq<char>>,
    trail: Seq<usize>,
) {
    if at < nodes.len() {
        if let Some(name) = nodes[at as int].block {
            lemma_open_less(nodes, open, ascii_upper(name));
            assert(open.contains(ascii_upper(name)) || unopened(nodes[at as int], open));
        }
    }
}

/// The entities that several entities come down to, one after the other.
pub open spec fn leaves_of(
    nodes: Seq<NodeModel>,
    parts: Seq<usize>,
    open: Seq<Seq<char>>,
    trail: Seq<usize>,
) -> Seq<Seq<usize>>
    decreases unopened_count(nodes, open), parts.len() + 1,
{
    if parts.len() == 0 {
        Seq::empty()
    } else {
        leaves_of(nodes, parts.drop_last(), open, trail) + leaves(
            nodes,
            parts.last(),
            open,
            trail,
        )
    }
}

fn is_open(open: &Vec<String>, name: &str) -> (r: bool)
    ensures
        r == texts(open@).contains(name@),
{
    let n: usize = open.len();
    let mut i: usize = 0;
    while i < n
        invariant
            i <= n == open@.len(),
            forall|k: int| 0 <= k < i ==> #[trigger] open@[k]@ != name@,
        decreases n - i,
    {
        if same(open[i].as_str(), name) {
            proof {
                assert(texts(open@)[i as int] == name@);
            }
            return true;
        }
        i += 1;
    }
    proof {
        if texts(open@).contains(name@) {
            let k = texts(open@).index_of(name@);
            assert(open@[k]@ == name@);
        }
    }
    false
}

fn walk(
    nodes: &Vec<Node>,
    at: usize,
    open: &mut Vec<String>,
    trail: &mut Vec<usize>,
    out: &mut Vec<Vec<usize>>,
)
    ensures
        texts(final(open)@) == texts(old(open)@),
        final(trail)@ == old(trail)@,
        views(final(out)@) == views(old(out)@) + leaves(
            views(nodes@),
            at,
            texts(old(open)@),
            old(trail)@,
        ),
    decreases unopened_count(views(nodes@), texts(old(open)@)), 0int,
{
    let ghost all = views(nodes@);
    let ghost opened = texts(open@);
    let ghost way = trail@;
    let ghost found = views(out@);
    if at >= nodes.len() {
        proof {
            assert(found + Seq::<Seq<usize>>::empty() =~= found);
        }
        return;
    }
    proof {
        assert(all[at as int] == nodes@[at as int]@);
    }
    match &nodes[at].block {
        None => {
            let mut here = crate::entity::copy_of(trail);
            here.push(at);
            let ghost before = out@;
            out.push(here);
            proof {
                assert(views(out@) =~= views(before) + seq![way.push(at)]);
            }
        },
        Some(name) => {
            let up = to_ascii_upper(name.as_str());
            if is_open(open, up.as_str()) {
                proof {
                    assert(found + Seq::<Seq<usize>>::empty() =~= found);
                }
                return;
            }
            proof {
                lemma_open_less(all, opened, ascii_upper(name@));
                assert(unopened(all[at as int], opened));
            }
            let ghost upm = up@;
            let ghost held = open@;
            open.push(up);
            trail.push(at);
            proof {
                assert(texts(open@) =~= opened.push(upm));
            }
            let n: usize = nodes[at].parts.len();
            let ghost parts = nodes@[at as int].parts@;
            let mut i: usize = 0;
            proof {
                assert(parts.take(0) =~= Seq::<usize>::empty());
                assert(found + Seq::<Seq<usize>>::empty() =~= found);
            }
            while i < n
                invariant
                    i <= n == parts.len(),
                    all == views(nodes@),
                    at < nodes@.len(),
                    parts == nodes@[at as int].parts@,
                    texts(open@) == opened.push(upm),
                    trail@ == way.push(at),
                    unopened_count(all, opened.push(upm)) < unopened_count(all, opened),
                    opened == texts(old(open)@),
                    views(out@) == found + leaves_of(
                        all,
                        parts.take(i as int),
                        opened.push(upm),
                        way.push(at),
                    ),
                decreases n - i,
            {
                let part: usize = nodes[at].parts[i];
                proof {
                    assert(parts.take(i + 1).drop_last() =~= parts.take(i as int));
                }
                walk(nodes, part, open, trail, out);
                proof {
                    let a = leaves_of(all, parts.take(i as int), opened.push(upm), way.push(at));
                    let b = leaves(all, part, opened.push(upm), way.push(at));
                    assert((found + a) + b =~= found + (a + b));
                }
                i += 1;
            }
            proof {
                assert(parts.take(n as int) =~= parts);
            }
            let ghost full = open@;
            let _ = open.pop();
            let _ = trail.pop();
            proof {
                assert(texts(open@) =~= texts(full).drop_last());
                assert(opened.push(upm).drop_last() =~= opened);
                assert(way.push(at).drop_last() =~= way);
            }
        },
    }
}

/// Finds the entities inside an entity, through all references to blocks.
pub fn nested_leaves(nodes: &Vec<Node>, root: usize) -> (r: Vec<Vec<usize>>)
    ensures
        views(r@) == leaves(views(nodes@), root, Seq::empty(), Seq::empty()),
{
    let mut open: Vec<String> = Vec::new();
    let mut trail: Vec<usize> = Vec::new();
    let mut out: Vec<Vec<usize>> = Vec::new();
    proof {
        assert(texts(open@) =~= Seq::<Seq<char>>::empty());
        assert(trail@ =~= Seq::<usize>::empty());
        assert(views(out@) =~= Seq::<Seq<usize>>::empty());
    }
    walk(nodes, root, &mut open, &mut trail, &mut out);
    proof {
        let l = leaves(views(nodes@), root, Seq::empty(), Seq::empty());
        assert(Seq::<Seq<usize>>::empty() + l =~= l);
    }
    out
}

/// What the command is waiting for.
#[derive(Clone, Copy, Debug, PartialEq, Eq, Structural)]
pub enum Step {
    Select,
    Base,
    Target(Point3),
    ArrayCount(Point3),
    /// The base point, the number of items, and whether the last item is given
    /// rather than the second.
    ArrayTarget(Point3, usize, bool),
}

/// What the offsets of an array are computed from: the base point, the number of
/// items, and by what the step from the base point to the given point is
/// divided.
#[derive(Clone, Copy, Debug, PartialEq, Eq, Structural)]
pub struct ArrayPlan {
    pub base: Point3,
    pub count: usize,
    pub divisor: usize,
}

/// The command that copies entities out of block references.
pub struct NcopyCommand {
    /// How many entities each block reference comes down to.
    pub nested: FxHashMap<Handle, usize>,
    pub selected: Vec<(Handle, usize)>,
    pub step: Step,
    pub multiple: bool,
    pub placements: usize,
}

/// The contents of an [`NcopyCommand`].
#[verifier::ext_equal]
pub struct NcopyState {
    pub nested: Map<Handle, usize>,
    pub selected: Seq<(Handle, usize)>,
    pub step: Step,
    pub multiple: bool,
    pub placements: usize,
}

impl View for NcopyCommand {
    type V = NcopyState;

    open spec fn view(&self) -> NcopyState {
        NcopyState {
            nested: self.nested@,
            selected: self.selected@,
            step: self.step,
            multiple: self.multiple,
            placements: self.placements,
        }
    }
}

/// The copies of the selected entities, all moved by the same offset.
pub open spec fn copies_at(
    nested: Map<Handle, usize>,
    selected: Seq<(Handle, usize)>,
    offset: Point3,
) -> Seq<NestedCopy>
    decreases selected.len(),
{
    if selected.len() == 0 {
        Seq::empty()
    } else {
        let before = copies_at(nested, selected.drop_last(), offset);
        let (handle, index) = selected.last();
        if nested.contains_key(handle) && index < nested[handle] {
            before.push(NestedCopy { handle, index, offset })
        } else {
            before
        }
    }
}

/// The copies for a row of offsets; an offset that is not finite is passed
/// over.
pub open spec fn copies_along(
    nested: Map<Handle, usize>,
    selected: Seq<(Handle, usize)>,
    offsets: Seq<Point3>,
) -> Seq<NestedCopy>
    decreases offsets.len(),
{
    if offsets.len() == 0 {
        Seq::empty()
    } else {
        let before = copies_along(nested, selected, offsets.drop_last());
        if offsets.last().finite() {
            before + copies_at(nested, selected, offsets.last())
        } else {
            before
        }
    }
}

impl NcopyState {
    /// Whether an array that is being placed has from 2 to 32767 items.
    pub open spec fn wf(self) -> bool {
        match self.step {
            Step::ArrayTarget(base, count, fit) => 2 <= count <= 32767,
            _ => true,
        }
    }

    /// The state at another step.
    pub open spec fn at(self, step: Step) -> NcopyState {
        NcopyState { step, ..self }
    }

    /// The request to place the copies, moved by `delta`.
    pub open spec fn placing(self, delta: Point3) -> ResultModel {
        if delta.finite() {
            ResultModel::CommitCopies {
                copies: copies_at(self.nested, self.selected, delta),
                exit: !self.multiple,
            }
        } else {
            ResultModel::NeedPoint
        }
    }
}

/// Whether `i` is the place of the least distance among those that are known,
/// the first where there are several.
pub open spec fn is_nearest(distances: Seq<Option<Real>>, i: int) -> bool {
    &&& 0 <= i < distances.len()
    &&& distances[i] is Some
    &&& forall|k: int|
        0 <= k < distances.len() && (#[trigger] distances[k]) is Some ==> if k < i {
            (distances[i]->0).total_rank() < (distances[k]->0).total_rank()
        } else {
            (distances[i]->0).total_rank() <= (distances[k]->0).total_rank()
        }
}

/// Whether no distance is known.
pub open spec fn none_known(distances: Seq<Option<Real>>) -> bool {
    forall|k: int| 0 <= k < distances.len() ==> (#[trigger] distances[k]) is None
}

/// The place of the least distance among those that are known.
pub open spec fn nearest_of(distances: Seq<Option<Real>>) -> Option<usize> {
    if none_known(distances) {
        None
    } else {
        Some((choose|i: int| is_nearest(distances, i)) as usize)
    }
}

/// The place of the least distance among those that are known, the first where
/// there are several.
pub fn nearest(distances: &Vec<Option<Real>>) -> (r: Option<usize>)
    ensures
        r == nearest_of(distances@),
        match r {
            Some(i) => is_nearest(distances@, i as int),
            None => none_known(distances@),
        },
{
    let n: usize = distances.len();
    let mut best: Option<(usize, Real)> = None;
    let mut i: usize = 0;
    while i < n
        invariant
            i <= n == distances@.len(),
            match best {
                Some((b, v)) => b < i && distances@[b as int] == Some(v) && is_nearest(
                    distances@.take(i as int),
                    b as int,
                ),
                None => none_known(distances@.take(i as int)),
            },
        decreases n - i,
    {
        let ghost before = distances@.take(i as int);
        let ghost after = distances@.take(i + 1);
        proof {
            assert forall|k: int| 0 <= k < i implies #[trigger] after[k] == before[k] by {}
        }
        if let Some(v) = distances[i] {
            let better = match best {
                Some((_, w)) => v.total_less(&w),
                None => true,
            };
            if better {
                proof {
                    assert forall|k: int|
                        0 <= k < i && (#[trigger] after[k]) is Some implies v.total_rank() < (
                    after[k]->0).total_rank() by {
                        assert(before[k] == after[k]);
                    }
                }
                best = Some((i, v));
            }
        }
        i += 1;
    }
    proof {
        assert(distances@.take(n as int) =~= distances@);
    }
    match best {
        Some((b, _)) => {
            proof {
                let c = choose|i: int| is_nearest(distances@, i);
                assert(is_nearest(distances@, b as int));
                assert(is_nearest(distances@, c));
                if b < c {
                    assert(distances@[b as int] is Some);
                } else if c < b {
                    assert(distances@[c] is Some);
                }
                assert(b == c);
            }
            Some(b)
        },
        None => None,
    }
}

/// What picking a block reference does. `distances` tells how far its entities
/// are from the pick.
pub open spec fn picked(s: NcopyState, handle: Handle, distances: Seq<Option<Real>>) -> NcopyState {
    match nearest_of(distances) {
        Some(index) => if s.nested.contains_key(handle) && !s.selected.contains((handle, index)) {
            NcopyState { selected: s.selected.push((handle, index)), ..s }
        } else {
            s
        },
        None => s,
    }
}

/// What a given point does. `delta` is the step from the base point, and
/// `offsets` the offsets of all items of an array.
pub open spec fn pointed(s: NcopyState, point: Point3, delta: Point3, offsets: Seq<Point3>) -> (
    NcopyState,
    ResultModel,
) {
    match s.step {
        Step::Select => (s, ResultModel::NeedPoint),
        Step::Base => (s.at(Step::Target(point)), ResultModel::NeedPoint),
        Step::Target(base) => if point.finite() {
            (
                NcopyState { placements: (s.placements + 1) as usize, ..s },
                s.placing(delta),
            )
        } else {
            (s, ResultModel::NeedPoint)
        },
        Step::ArrayCount(base) => (s, ResultModel::NeedPoint),
        Step::ArrayTarget(base, count, fit) => if delta.finite() {
            (
                s,
                ResultModel::CommitCopies {
                    copies: copies_along(s.nested, s.selected, offsets),
                    exit: true,
                },
            )
        } else {
            (s, ResultModel::NeedPoint)
        },
    }
}

/// What the Enter key does.
pub open spec fn entered(s: NcopyState) -> (NcopyState, ResultModel) {
    match s.step {
        Step::Select => if s.selected.len() > 0 {
            (s.at(Step::Base), ResultModel::NeedPoint)
        } else {
            (s, ResultModel::Cancel)
        },
        Step::Base => (s.at(Step::Target(origin())), ResultModel::NeedPoint),
        Step::Target(base) => if s.multiple {
            (s, ResultModel::Cancel)
        } else {
            (s, s.placing(base))
        },
        _ => (s, ResultModel::Cancel),
    }
}

/// The number of items that a text asks for: from 2 to 32767.
pub open spec fn items_typed(plain: Seq<char>) -> Option<int> {
    match unsigned_value(plain, 10, usize::MAX as int) {
        Some(n) => if 2 <= n <= 32767 {
            Some(n)
        } else {
            None
        },
        None => None,
    }
}

/// What a typed text does. `plain` is the text without white space around it,
/// and `up` the same in upper case.
pub open spec fn typed(s: NcopyState, plain: Seq<char>, up: Seq<char>) -> (
    NcopyState,
    Option<ResultModel>,
) {
    let go = Some(ResultModel::NeedPoint);
    match s.step {
        Step::ArrayCount(base) => match items_typed(plain) {
            Some(n) => (s.at(Step::ArrayTarget(base, n as usize, false)), go),
            None => (s, go),
        },
        _ => if either(up, "A"@, "ARRAY"@) {
            match s.step {
                Step::Target(base) => (s.at(Step::ArrayCount(base)), go),
                _ => (s, go),
            }
        } else if either(up, "F"@, "FIT"@) {
            match s.step {
                Step::ArrayTarget(base, count, fit) => (
                    s.at(Step::ArrayTarget(base, count, true)),
                    go,
                ),
                _ => (s, go),
            }
        } else if either(up, "U"@, "UNDO"@) && s.multiple && s.placements > 0 {
            (
                NcopyState { placements: (s.placements - 1) as usize, ..s },
                Some(ResultModel::UndoDocument),
            )
        } else if either(up, "E"@, "EXIT"@) && s.multiple {
            (s, Some(ResultModel::Cancel))
        } else if either(up, "M"@, "MULTIPLE"@) && s.step == Step::Base {
            (NcopyState { multiple: true, ..s }, go)
        } else if either(up, "D"@, "DISPLACEMENT"@) && s.step == Step::Base {
            (s.at(Step::Target(origin())), go)
        } else {
            (s, None)
        },
    }
}

/// What the offsets of an array that is being placed are computed from. Where
/// the last item is given, the step to it is divided among the others.
pub open spec fn planned(s: NcopyState) -> Option<ArrayPlan> {
    match s.step {
        Step::ArrayTarget(base, count, fit) => Some(
            ArrayPlan {
                base,
                count,
                divisor: (if fit {
                    count - 1
                } else {
                    1
                }) as usize,
            },
        ),
        _ => None,
    }
}

/// The options that are offered.
pub open spec fn offered(s: NcopyState) -> Seq<CmdOption> {
    match s.step {
        Step::Base => seq![
            CmdOption::new("Displacement", "D"),
            CmdOption::new("Multiple", "M"),
        ],
        Step::Target(base) => if s.multiple && s.placements > 0 {
            seq![
                CmdOption::new("Array", "A"),
                CmdOption::new("Exit", "E"),
                CmdOption::new("Undo", "U"),
            ]
        } else {
            seq![CmdOption::new("Array", "A")]
        },
        Step::ArrayTarget(base, count, fit) => if fit {
            Seq::empty()
        } else {
            seq![CmdOption::new("Fit", "F")]
        },
        _ => Seq::empty(),
    }
}

/// What is asked.
pub open spec fn prompted(s: NcopyState) -> Seq<char> {
    match s.step {
        Step::Select => "Select nested objects:"@,
        Step::Base => "Specify base point or [Displacement/Multiple] <Displacement>:"@,
        Step::Target(base) =>
        "Specify second point or [Array] <use first point as displacement>:"@,
        Step::ArrayCount(base) => "Enter number of items to array:"@,
        Step::ArrayTarget(base, count, fit) => if fit {
            "Specify last point:"@
        } else {
            "Specify second point or [Fit]:"@
        },
    }
}

impl NcopyCommand {
    /// Starts the command. `nested` tells how many entities each block reference
    /// of the drawing comes down to.
    pub fn new(nested: FxHashMap<Handle, usize>) -> (r: NcopyCommand)
        ensures
            r@ == (NcopyState {
                nested: nested@,
                selected: Seq::empty(),
                step: Step::Select,
                multiple: false,
                placements: 0,
            }),
    {
        NcopyCommand {
            nested,
            selected: Vec::new(),
            step: Step::Select,
            multiple: false,
            placements: 0,
        }
    }

    fn copies(&self, offset: Point3, out: &mut Vec<NestedCopy>)
        ensures
            final(out)@ == old(out)@ + copies_at(self@.nested, self@.selected, offset),
    {
        let n: usize = self.selected.len();
        let mut i: usize = 0;
        let ghost before = out@;
        let ghost all = self.selected@;
        proof {
            assert(all.take(0) =~= Seq::<(Handle, usize)>::empty());
            assert(before + Seq::<NestedCopy>::empty() =~= before);
        }
        while i < n
            invariant
                i <= n == all.len(),
                all == self.selected@,
                out@ == before + copies_at(self@.nested, all.take(i as int), offset),
            decreases n - i,
        {
            proof {
                assert(all.take(i + 1).drop_last() =~= all.take(i as int));
            }
            let (handle, index) = self.selected[i];
            if let Some(count) = map_get(&self.nested, handle) {
                if index < *count {
                    let ghost so_far = out@;
                    out.push(NestedCopy { handle, index, offset });
                    proof {
                        let c = copies_at(self@.nested, all.take(i as int), offset);
                        assert(out@ =~= before + c.push(NestedCopy { handle, index, offset }));
                    }
                }
            }
            i += 1;
        }
        proof {
            assert(all.take(n as int) =~= all);
        }
    }

    fn place(&self, delta: Point3) -> (r: CmdResult)
        ensures
            r@ == self@.placing(delta),
    {
        if !delta.is_finite() {
            return CmdResult::NeedPoint;
        }
        let mut copies: Vec<NestedCopy> = Vec::new();
        self.copies(delta, &mut copies);
        proof {
            let c = copies_at(self@.nested, self@.selected, delta);
            assert(Seq::<NestedCopy>::empty() + c =~= c);
        }
        CmdResult::CommitCopies { copies, exit: !self.multiple }
    }

    /// Reads a picked block reference. `distances` tells, entity by entity, how
    /// far the entities inside it are from the pick.
    pub fn on_entity_pick(&mut self, handle: Handle, distances: &Vec<Option<Real>>) -> (r:
        CmdResult)
        ensures
            r@ == ResultModel::NeedPoint,
            final(self)@ == picked(old(self)@, handle, distances@),
    {
        if map_get(&self.nested, handle).is_some() {
            if let Some(index) = nearest(distances) {
                let n: usize = self.selected.len();
                let mut i: usize = 0;
                let mut known = false;
                while i < n
                    invariant
                        i <= n == self.selected@.len(),
                        known == exists|k: int|
                            0 <= k < i && #[trigger] self.selected@[k] == (handle, index),
                    decreases n - i,
                {
                    let (h, k) = self.selected[i];
                    if h == handle && k == index {
                        proof {
                            assert(self.selected@[i as int] == (handle, index));
                        }
                        known = true;
                    }
                    i += 1;
                }
                if !known {
                    self.selected.push((handle, index));
                }
            }
        }
        CmdResult::NeedPoint
    }

    /// The array that the next point completes, where one is being placed.
    pub fn array(&self) -> (r: Option<ArrayPlan>)
        requires
            self@.wf(),
        ensures
            r == planned(self@),
    {
        match self.step {
            Step::ArrayTarget(base, count, fit) => {
                let divisor: usize = if fit {
                    count - 1
                } else {
                    1
                };
                Some(ArrayPlan { base, count, divisor })
            },
            _ => None,
        }
    }

    /// Reads a point. `delta` is the step from the base point to it, for an
    /// array divided as [`NcopyCommand::array`] says. `offsets` holds the
    /// offsets of all items of an array: `delta` times 0, 1, 2 and so on.
    pub fn on_point(&mut self, point: Point3, delta: Point3, offsets: &Vec<Point3>) -> (r:
        CmdResult)
        requires
            old(self)@.step is Target ==> old(self)@.placements < usize::MAX,
            match old(self)@.step {
                Step::ArrayTarget(base, count, fit) => offsets@.len() == count,
                _ => true,
            },
        ensures
            (final(self)@, r@) == pointed(old(self)@, point, delta, offsets@),
    {
        match self.step {
            Step::Select | Step::ArrayCount(_) => CmdResult::NeedPoint,
            Step::Base => {
                self.step = Step::Target(point);
                CmdResult::NeedPoint
            },
            Step::Target(_) => {
                if !point.is_finite() {
                    return CmdResult::NeedPoint;
                }
                let r = self.place(delta);
                self.placements = self.placements + 1;
                r
            },
            Step::ArrayTarget(_, _, _) => {
                if !delta.is_finite() {
                    return CmdResult::NeedPoint;
                }
                let mut copies: Vec<NestedCopy> = Vec::new();
                let n: usize = offsets.len();
                let mut i: usize = 0;
                proof {
                    assert(offsets@.take(0) =~= Seq::<Point3>::empty());
                }
                while i < n
                    invariant
                        i <= n == offsets@.len(),
                        self@ == old(self)@,
                        copies@ == copies_along(
                            self@.nested,
                            self@.selected,
                            offsets@.take(i as int),
                        ),
                    decreases n - i,
                {
                    proof {
                        assert(offsets@.take(i + 1).drop_last() =~= offsets@.take(i as int));
                    }
                    if offsets[i].is_finite() {
                        self.copies(offsets[i], &mut copies);
                    }
                    i += 1;
                }
                proof {
                    assert(offsets@.take(n as int) =~= offsets@);
                }
                CmdResult::CommitCopies { copies, exit: true }
            },
        }
    }

    /// Reads the Enter key.
    pub fn on_enter(&mut self) -> (r: CmdResult)
        ensures
            (final(self)@, r@) == entered(old(self)@),
    {
        match self.step {
            Step::Select => {
                if self.selected.len() > 0 {
                    self.step = Step::Base;
                    CmdResult::NeedPoint
                } else {
                    CmdResult::Cancel
                }
            },
            Step::Base => {
                self.step = Step::Target(origin());
                CmdResult::NeedPoint
            },
            Step::Target(base) => {
                if self.multiple {
                    CmdResult::Cancel
                } else {
                    self.place(base)
                }
            },
            _ => CmdResult::Cancel,
        }
    }

    /// Reads a text without white space around it, and the same in upper case.
    pub fn on_words(&mut self, plain: &str, up: &str) -> (r: Option<CmdResult>)
        ensures
            (final(self)@, answer(r)) == typed(old(self)@, plain@, up@),
    {
        if let Step::ArrayCount(base) = self.step {
            if let Some(n) = read_unsigned(plain, 10, usize::MAX as u64) {
                if 2 <= n && n <= 32767 {
                    self.step = Step::ArrayTarget(base, n as usize, false);
                }
            }
            return Some(CmdResult::NeedPoint);
        }
        if is_either(up, "A", "ARRAY") {
            if let Step::Target(base) = self.step {
                self.step = Step::ArrayCount(base);
            }
            Some(CmdResult::NeedPoint)
        } else if is_either(up, "F", "FIT") {
            if let Step::ArrayTarget(base, count, _) = self.step {
                self.step = Step::ArrayTarget(base, count, true);
            }
            Some(CmdResult::NeedPoint)
        } else if is_either(up, "U", "UNDO") && self.multiple && self.placements > 0 {
            self.placements = self.placements - 1;
            Some(CmdResult::UndoDocument)
        } else if is_either(up, "E", "EXIT") && self.multiple {
            Some(CmdResult::Cancel)
        } else if is_either(up, "M", "MULTIPLE") && self.step == Step::Base {
            self.multiple = true;
            Some(CmdResult::NeedPoint)
        } else if is_either(up, "D", "DISPLACEMENT") && self.step == Step::Base {
            self.step = Step::Target(origin());
            Some(CmdResult::NeedPoint)
        } else {
            None
        }
    }

    /// Reads a typed text.
    pub fn on_text_input(&mut self, text: &str) -> (r: Option<CmdResult>)
        ensures
            (final(self)@, answer(r)) == typed(old(self)@, trimmed(text@), keyword_of(text@)),
    {
        let plain = trim(text);
        let up = to_upper(plain.as_str());
        self.on_words(plain.as_str(), up.as_str())
    }

    /// The command's name.
    pub fn name(&self) -> (r: &'static str)
        ensures
            r@ == "NCOPY"@,
    {
        "NCOPY"
    }

    /// What the command asks.
    pub fn prompt(&self) -> (r: String)
        ensures
            r@ == prompted(self@),
    {
        match self.step {
            Step::Select => owned("Select nested objects:"),
            Step::Base => owned("Specify base point or [Displacement/Multiple] <Displacement>:"),
            Step::Target(_) => owned(
                "Specify second point or [Array] <use first point as displacement>:",
            ),
            Step::ArrayCount(_) => owned("Enter number of items to array:"),
            Step::ArrayTarget(_, _, fit) => {
                if fit {
                    owned("Specify last point:")
                } else {
                    owned("Specify second point or [Fit]:")
                }
            },
        }
    }

    /// The options to offer.
    pub fn options(&self) -> (r: Vec<CmdOption>)
        ensures
            r@ == offered(self@),
    {
        match self.step {
            Step::Base => vec![
                CmdOption::new("Displacement", "D"),
                CmdOption::new("Multiple", "M"),
            ],
            Step::Target(_) => {
                if self.multiple && self.placements > 0 {
                    vec![
                        CmdOption::new("Array", "A"),
                        CmdOption::new("Exit", "E"),
                        CmdOption::new("Undo", "U"),
                    ]
                } else {
                    vec![CmdOption::new("Array", "A")]
                }
            },
            Step::ArrayTarget(_, _, fit) => {
                if fit {
                    Vec::new()
                } else {
                    vec![CmdOption::new("Fit", "F")]
                }
            },
            _ => Vec::new(),
        }
    }

    /// Whether copies keep the style of what they copy.
    pub fn preserve_commit_style(&self) -> (r: bool)
        ensures
            r,
    {
        true
    }

    /// Whether copies keep the layer of what they copy.
    pub fn preserve_commit_layer(&self) -> (r: bool)
        ensures
            r,
    {
        true
    }

    /// Whether an entity is to be picked.
    pub fn needs_entity_pick(&self) -> (r: bool)
        ensures
            r == (self@.step == Step::Select),
    {
        self.step == Step::Select
    }

    /// Whether keywords are read where a point is asked for.
    pub fn point_step_accepts_keywords(&self) -> (r: bool)
        ensures
            r == (self@.step is Base || self@.step is Target || self@.step is ArrayTarget),
    {
        match self.step {
            Step::Base | Step::Target(_) | Step::ArrayTarget(_, _, _) => true,
            _ => false,
        }
    }

    /// Whether the command reads typed text.
    pub fn wants_text_input(&self) -> (r: bool)
        ensures
            r == (self@.step != Step::Select),
    {
        self.step != Step::Select
    }
}

/// Whatever is done, an array has from 2 to 32767 items.
pub proof fn arrays_stay_in_range(
    s: NcopyState,
    plain: Seq<char>,
    up: Seq<char>,
    point: Point3,
    delta: Point3,
    offsets: Seq<Point3>,
)
    requires
        s.wf(),
    ensures
        typed(s, plain, up).0.wf(),
        entered(s).0.wf(),
        pointed(s, point, delta, offsets).0.wf(),
{
}

/// No entity is selected twice, whatever is picked.
pub proof fn picks_once(s: NcopyState, handle: Handle, distances: Seq<Option<Real>>)
    requires
        s.selected.no_duplicates(),
    ensures
        picked(s, handle, distances).selected.no_duplicates(),
{
}

/// An array makes every copy once for each item whose offset is finite.
pub proof fn array_count(
    nested: Map<Handle, usize>,
    selected: Seq<(Handle, usize)>,
    offsets: Seq<Point3>,
)
    requires
        forall|i: int| 0 <= i < offsets.len() ==> (#[trigger] offsets[i]).finite(),
        forall|i: int|
            0 <= i < selected.len() ==> nested.contains_key((#[trigger] selected[i]).0)
                && selected[i].1 < nested[selected[i].0],
    ensures
        copies_along(nested, selected, offsets).len() == offsets.len() * selected.len(),
    decreases offsets.len(),
{
    if offsets.len() > 0 {
        let rest = offsets.drop_last();
        assert forall|i: int| 0 <= i < rest.len() implies (#[trigger] rest[i]).finite() by {
            assert(rest[i] == offsets[i]);
        }
        array_count(nested, selected, rest);
        lemma_copies_len(nested, selected, offsets.last());
        assert(offsets.last() == offsets[offsets.len() - 1]);
        assert(rest.len() * selected.len() + selected.len() == offsets.len() * selected.len())
            by (nonlinear_arith)
            requires
                rest.len() + 1 == offsets.len(),
        ;
    }
}

proof fn lemma_copies_len(
    nested: Map<Handle, usize>,
    selected: Seq<(Handle, usize)>,
    offset: Point3,
)
    requires
        forall|i: int|
            0 <= i < selected.len() ==> nested.contains_key((#[trigger] selected[i]).0)
                && selected[i].1 < nested[selected[i].0],
    ensures
        copies_at(nested, selected, offset).len() == selected.len(),
    decreases selected.len(),
{
    if selected.len() > 0 {
        let rest = selected.drop_last();
        assert forall|i: int| 0 <= i < rest.len() implies nested.contains_key(
            (#[trigger] rest[i]).0,
        ) && rest[i].1 < nested[rest[i].0] by {
            assert(rest[i] == selected[i]);
        }
        lemma_copies_len(nested, rest, offset);
        assert(selected.last() == selected[selected.len() - 1]);
    }
}

} // verus!
