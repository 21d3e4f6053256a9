//! Editing a spline: closing, reversing, moving and weighting its vertices.
use crate::command::{
    answer, phrase_model, plain_phrase, CmdOption, CmdResult, Phrase, PhraseModel, Replacement,
    ReplacementModel, ResultModel, ToolDef,
};
use crate::entity::{
    views, Entity, EntityModel, Handle, NO_HANDLE, Shape, ShapeModel, Spline, SplineEntity,
    SplineEntityModel, SplineFlags, SplineForm, SplineModel,
};
use crate::text::{
    decimal, decimal_text, either, is_either, join3, keyword, keyword_of, number, owned,
    points_for_commas, read_unsigned, same, signed_decimal, signed_number, unsigned_value,
};
use crate::value::{one, zero, Point3, Real};
use vstd::prelude::*;

verus! {

/// The ribbon tool of this command.
pub fn tool() -> (r: ToolDef)
    ensures
        r == (ToolDef {
            id: "SPLINEDIT",
            label: "Spline Edit",
            icon: "spline.svg",
            command: "SPLINEDIT",
        }),
{
    ToolDef {
        id: "SPLINEDIT",
        label: "Spline Edit",
        icon: "spline.svg",
        command: "SPLINEDIT",
    }
}

/// The knots that `acadrust::entities::Spline::generate_clamped_knots` makes.
pub uninterp spec fn clamped_knots(degree: usize, n: usize) -> Seq<Real>;

/// The degree that knots for `n` control points are made with: at least one,
/// and below `n`.
pub open spec fn knot_degree(degree: usize, n: usize) -> int {
    if degree < 1 {
        1
    } else if degree > n - 1 {
        n - 1
    } else {
        degree as int
    }
}

/// `acadrust::entities::Spline::generate_clamped_knots`: the knots of a curve
/// that starts on its first control point and ends on its last. Fewer than two
/// points have none; else there are as many as points, and one more than the
/// degree besides. They begin with zeros and end with ones, one more than the
/// degree of each. The values between, and curves of more points than an `i32`
/// counts, are left to the name.
#[verifier::external_body]
fn generate_clamped_knots(degree: usize, n: usize) -> (r: Vec<Real>)
    requires
        n <= usize::MAX / 32,
    ensures
        r@ == clamped_knots(degree, n),
        n < 2 ==> r@.len() == 0,
        n >= 2 && n <= i32::MAX ==> r@.len() == n + knot_degree(degree, n) + 1,
        n >= 2 && n <= i32::MAX ==> forall|i: int|
            0 <= i <= knot_degree(degree, n) ==> #[trigger] r@[i] == zero(),
        n >= 2 && n <= i32::MAX ==> forall|i: int|
            n <= i < r@.len() ==> #[trigger] r@[i] == one(),
{
    let knots = acadrust::entities::Spline::generate_clamped_knots(degree, n);
    knots.into_iter().map(|k| Real { bits: k.to_bits() }).collect()
}

/// What the command is waiting for.
#[derive(Clone, Copy, Debug, PartialEq, Eq, Structural)]
pub enum Step {
    SelectSpline,
    Options,
    Refine,
    Add,
    Delete,
    Elevate,
    Move { index: usize, refine: bool },
    Weight { index: usize },
    SelectVertex { weight: bool, refine: bool },
}

/// A spline that was replaced, and the handle that it had.
#[derive(Debug)]
pub struct Past {
    pub handle: Handle,
    pub spline: SplineEntity,
}

/// The contents of a [`Past`].
#[verifier::ext_equal]
pub struct PastModel {
    pub handle: Handle,
    pub spline: SplineEntityModel,
}

impl View for Past {
    type V = PastModel;

    open spec fn view(&self) -> PastModel {
        PastModel { handle: self.handle, spline: self.spline@ }
    }
}

/// The command that edits a spline.
pub struct SplineditCommand {
    pub step: Step,
    pub handle: Handle,
    pub spline: Option<SplineEntity>,
    pub pending: Option<SplineEntity>,
    pub history: Vec<Past>,
}

/// The contents of a [`SplineditCommand`].
#[verifier::ext_equal]
pub struct SplineditState {
    pub step: Step,
    pub handle: Handle,
    pub spline: Option<SplineEntityModel>,
    pub pending: Option<SplineEntityModel>,
    pub history: Seq<PastModel>,
}

/// The contents of a spline, where there is one.
pub open spec fn model_of(s: Option<SplineEntity>) -> Option<SplineEntityModel> {
    match s {
        Some(s) => Some(s@),
        None => None,
    }
}

impl View for SplineditCommand {
    type V = SplineditState;

    open spec fn view(&self) -> SplineditState {
        SplineditState {
            step: self.step,
            handle: self.handle,
            spline: model_of(self.spline),
            pending: model_of(self.pending),
            history: views(self.history@),
        }
    }
}

impl SplineditState {
    /// The number of control points.
    pub open spec fn count(self) -> nat {
        match self.spline {
            Some(s) => s.spline.control_points.len(),
            None => 0,
        }
    }

    /// Whether the vertex that is being edited is one of the spline's.
    pub open spec fn index_fits(self) -> bool {
        match self.step {
            Step::Move { index, refine } => self.count() == 0 && index == 0 || index
                < self.count(),
            Step::Weight { index } => self.count() == 0 && index == 0 || index < self.count(),
            _ => true,
        }
    }

    /// Whether the spline and its knots can be held.
    pub open spec fn fits(self) -> bool {
        self.count() < usize::MAX / 32
    }

    /// The state at another step.
    pub open spec fn at(self, step: Step) -> SplineditState {
        SplineditState { step, ..self }
    }

    /// The request to put a spline in place of the edited one.
    pub open spec fn replacing(self, new: SplineEntityModel) -> (
        SplineditState,
        Option<ResultModel>,
    ) {
        (
            SplineditState { pending: Some(new), ..self },
            Some(
                ResultModel::ReplaceContinue(
                    ReplacementModel { handle: self.handle, entity: new.entity() },
                ),
            ),
        )
    }
}

/// The degree of a spline as an unsigned number. A negative degree counts as
/// one beyond all others.
pub open spec fn unsigned_degree(degree: i32) -> usize {
    if degree < 0 {
        usize::MAX
    } else {
        degree as usize
    }
}

/// A spline with other control points and the knots that go with them.
pub open spec fn rebuilt(s: SplineModel, points: Seq<Point3>) -> SplineModel {
    SplineModel {
        control_points: points,
        knots: clamped_knots(unsigned_degree(s.form.degree), points.len() as usize),
        fit_points: Seq::empty(),
        ..s
    }
}

/// What else an operation on a spline needs: whether its ends, where they differ,
/// lie near enough to meet, and the spline run the other way.
pub struct SplineFacts {
    pub ends_near: bool,
    pub reversed: Option<Spline>,
}

/// Whether the ends of a spline meet: in the very same point, or near enough,
/// which `near` tells of ends that differ. Points that are not finite never meet.
pub open spec fn meeting(s: SplineModel, near: bool) -> bool {
    &&& s.control_points.len() >= 2
    &&& if s.control_points[0] == s.control_points.last() {
        s.control_points[0].finite()
    } else {
        near
    }
}

/// A spline after an operation by name. Closing adds the first control point
/// again at the end; opening takes a last point away that meets the first.
pub open spec fn operated(
    s: SplineModel,
    op: Seq<char>,
    ends_near: bool,
    reversed: Option<SplineModel>,
) -> SplineModel {
    if op == "__SPLINEDIT_CLOSE__"@ {
        if s.control_points.len() >= 2 {
            rebuilt(s, s.control_points.push(s.control_points[0]))
        } else {
            s
        }
    } else if op == "__SPLINEDIT_OPEN__"@ {
        if meeting(s, ends_near) {
            rebuilt(s, s.control_points.drop_last())
        } else {
            s
        }
    } else if op == "__SPLINEDIT_REVERSE__"@ {
        match reversed {
            Some(r) => r,
            None => s,
        }
    } else {
        s
    }
}

/// The contents of a reversed spline, where there is one.
pub open spec fn reversed_of(f: SplineFacts) -> Option<SplineModel> {
    match f.reversed {
        Some(r) => Some(r@),
        None => None,
    }
}

fn degree_of(spline: &Spline) -> (r: usize)
    ensures
        r == unsigned_degree(spline@.form.degree),
{
    if spline.form.degree < 0 {
        usize::MAX
    } else {
        spline.form.degree as usize
    }
}

fn ends_of(spline: &Spline, near: bool) -> (r: bool)
    ensures
        r == meeting(spline@, near),
{
    let n: usize = spline.control_points.len();
    if n < 2 {
        return false;
    }
    let first = spline.control_points[0];
    let last = spline.control_points[n - 1];
    if first == last {
        first.is_finite()
    } else {
        near
    }
}

/// Closes, opens or reverses a spline.
pub fn apply_to_spline(spline: &mut Spline, op: &str, facts: &SplineFacts)
    requires
        old(spline)@.control_points.len() < usize::MAX / 32,
    ensures
        final(spline)@ == operated(old(spline)@, op@, facts.ends_near, reversed_of(*facts)),
{
    if same(op, "__SPLINEDIT_CLOSE__") {
        if spline.control_points.len() >= 2 {
            let first = spline.control_points[0];
            spline.control_points.push(first);
            spline.knots = generate_clamped_knots(degree_of(spline), spline.control_points.len());
            spline.fit_points = Vec::new();
        }
    } else if same(op, "__SPLINEDIT_OPEN__") {
        if ends_of(spline, facts.ends_near) {
            let _ = spline.control_points.pop();
            spline.knots = generate_clamped_knots(degree_of(spline), spline.control_points.len());
            spline.fit_points = Vec::new();
        }
    } else if same(op, "__SPLINEDIT_REVERSE__") {
        if let Some(r) = &facts.reversed {
            *spline = r.duplicate();
        }
    }
}

/// The place of the first entity with a handle, or the length of the list.
pub open spec fn place_of(list: Seq<EntityModel>, handle: Handle) -> int
    decreases list.len(),
{
    if list.len() == 0 || list[0].common.handle == handle {
        0
    } else {
        1 + place_of(list.drop_first(), handle)
    }
}

/// The entities of a drawing after an operation on the spline with a handle.
pub open spec fn operated_in(
    list: Seq<EntityModel>,
    handle: Handle,
    op: Seq<char>,
    ends_near: bool,
    reversed: Option<SplineModel>,
) -> Seq<EntityModel> {
    let i = place_of(list, handle);
    if i < list.len() {
        match list[i].shape {
            ShapeModel::Spline(s) => list.update(
                i,
                EntityModel {
                    shape: ShapeModel::Spline(operated(s, op, ends_near, reversed)),
                    ..list[i]
                },
            ),
            _ => list,
        }
    } else {
        list
    }
}

/// Whether no spline of a drawing is too long for its knots to be held.
pub open spec fn splines_fit(list: Seq<EntityModel>) -> bool {
    forall|i: int|
        0 <= i < list.len() ==> (match (#[trigger] list[i]).shape {
            ShapeModel::Spline(s) => s.control_points.len() < usize::MAX / 32,
            _ => true,
        })
}

/// Closes, opens or reverses a spline of a drawing.
pub fn apply_spline_op(doc: &mut Vec<Entity>, handle: Handle, op: &str, facts: &SplineFacts)
    requires
        splines_fit(views(old(doc)@)),
    ensures
        views(final(doc)@) == operated_in(
            views(old(doc)@),
            handle,
            op@,
            facts.ends_near,
            reversed_of(*facts),
        ),
{
    let n: usize = doc.len();
    let mut i: usize = 0;
    let ghost all = views(doc@);
    proof {
        assert(all.skip(0) =~= all);
    }
    while i < n
        invariant
            i <= n == doc@.len(),
            all == views(doc@),
            splines_fit(all),
            *doc == *old(doc),
            place_of(all, handle) == i + place_of(all.skip(i as int), handle),
        decreases n - i,
    {
        proof {
            assert(all.skip(i as int).drop_first() =~= all.skip(i + 1));
            assert(all[i as int] == doc@[i as int]@);
        }
        if doc[i].common.handle == handle {
            match &mut doc[i].shape {
                Shape::Spline(s) => {
                    apply_to_spline(s, op, facts);
                },
                _ => {},
            }
            proof {
                assert(views(doc@) =~= operated_in(
                    all,
                    handle,
                    op@,
                    facts.ends_near,
                    reversed_of(*facts),
                ));
            }
            return;
        }
        i += 1;
    }
}

/// `w` made `n` long: cut short, or filled up with ones.
pub open spec fn resized(w: Seq<Real>, n: nat) -> Seq<Real> {
    Seq::new(
        n,
        |i: int|
            if i < w.len() {
                w[i]
            } else {
                one()
            },
    )
}

/// A spline with the weight of one vertex set. It is rational from now on, and
/// its fit points no longer count.
pub open spec fn weighted(s: SplineModel, index: int, weight: Real) -> SplineModel {
    SplineModel {
        weights: resized(s.weights, s.control_points.len()).update(index, weight),
        fit_points: Seq::empty(),
        form: SplineForm { flags: SplineFlags { rational: true, ..s.form.flags }, ..s.form },
        ..s
    }
}

/// A spline with one vertex moved. Its fit points no longer count.
pub open spec fn moved(s: SplineModel, index: int, to: Point3) -> SplineModel {
    SplineModel {
        control_points: s.control_points.update(index, to),
        fit_points: Seq::empty(),
        ..s
    }
}

/// What a typed text stands for outside the command.
pub struct Reading {
    /// The number that the text holds.
    pub number: Option<Real>,
    /// The spline with its degree raised to [`SplineditCommand::asked_degree`]
    /// of the text, where that can be done. An empty text stands for
    /// [`SplineditCommand::offered_order`].
    pub elevated: Option<SplineEntity>,
    pub facts: SplineFacts,
}

/// The operation that an option asks for.
pub open spec fn op_named(up: Seq<char>) -> Seq<char> {
    if either(up, "C"@, "CLOSE"@) {
        "__SPLINEDIT_CLOSE__"@
    } else if either(up, "O"@, "OPEN"@) {
        "__SPLINEDIT_OPEN__"@
    } else {
        "__SPLINEDIT_REVERSE__"@
    }
}

/// Whether a word asks for an operation on the whole spline.
pub open spec fn names_op(up: Seq<char>) -> bool {
    either(up, "C"@, "CLOSE"@) || either(up, "O"@, "OPEN"@) || either(up, "E"@, "REVERSE"@) || up
        == "REV"@
}

/// A typed option.
pub open spec fn typed_option(s: SplineditState, up: Seq<char>, read: Reading) -> (
    SplineditState,
    Option<ResultModel>,
) {
    if either(up, "R"@, "REFINE"@) {
        (s.at(Step::Refine), Some(ResultModel::NeedPoint))
    } else if either(up, "M"@, "MOVE"@) {
        (s.at(Step::Move { index: 0, refine: false }), Some(ResultModel::NeedPoint))
    } else if either(up, "X"@, "EXIT"@) {
        (s, Some(ResultModel::Cancel))
    } else if either(up, "U"@, "UNDO"@) {
        if s.history.len() > 0 {
            (
                SplineditState {
                    handle: s.history.last().handle,
                    spline: Some(s.history.last().spline),
                    history: s.history.drop_last(),
                    ..s
                },
                Some(ResultModel::UndoDocument),
            )
        } else {
            (s, Some(ResultModel::NeedPoint))
        }
    } else if names_op(up) {
        match s.spline {
            Some(old) => s.replacing(
                SplineEntityModel {
                    spline: operated(
                        old.spline,
                        op_named(up),
                        read.facts.ends_near,
                        reversed_of(read.facts),
                    ),
                    ..old
                },
            ),
            None => (s, None),
        }
    } else {
        (s, Some(ResultModel::NeedPoint))
    }
}

/// The step that a typed word leads to from the refinements.
pub open spec fn refine_step(up: Seq<char>) -> Step {
    if either(up, "A"@, "ADD"@) {
        Step::Add
    } else if either(up, "D"@, "DELETE"@) {
        Step::Delete
    } else if either(up, "E"@, "ELEVATE"@) {
        Step::Elevate
    } else if either(up, "M"@, "MOVE"@) {
        Step::Move { index: 0, refine: true }
    } else if either(up, "W"@, "WEIGHT"@) {
        Step::Weight { index: 0 }
    } else if either(up, "X"@, "EXIT"@) {
        Step::Options
    } else {
        Step::Refine
    }
}

/// The degree that a word asks for: a number up to 26.
pub open spec fn degree_asked(up: Seq<char>) -> Option<int> {
    match unsigned_value(up, 10, usize::MAX as int) {
        Some(n) => if n <= 26 {
            Some(n)
        } else {
            None
        },
        None => None,
    }
}

/// A typed degree.
pub open spec fn typed_degree(s: SplineditState, up: Seq<char>, elevated: Option<
    SplineEntityModel,
>) -> (SplineditState, Option<ResultModel>) {
    match elevated {
        Some(new) => if degree_asked(up) is Some {
            s.at(Step::Refine).replacing(new)
        } else {
            (s, Some(ResultModel::NeedPoint))
        },
        None => (s, Some(ResultModel::NeedPoint)),
    }
}

/// The vertex after one, around the end.
pub open spec fn next_around(index: int, count: int) -> int {
    (index + 1) % count
}

/// The vertex before one, around the end.
pub open spec fn back_around(index: int, count: int) -> int {
    (index + count - 1) % count
}

/// The same kind of edit at another vertex.
pub open spec fn step_at(step: Step, to: usize) -> Step {
    match step {
        Step::Move { index, refine } => Step::Move { index: to, refine },
        _ => Step::Weight { index: to },
    }
}

/// A typed word at a vertex.
pub open spec fn typed_vertex(
    s: SplineditState,
    index: usize,
    up: Seq<char>,
    number: Option<Real>,
) -> (SplineditState, Option<ResultModel>) {
    let count = s.count() as int;
    let stay = (s, Some(ResultModel::NeedPoint));
    if count == 0 {
        stay
    } else if either(up, "N"@, "NEXT"@) {
        (
            s.at(step_at(s.step, next_around(index as int, count) as usize)),
            Some(ResultModel::NeedPoint),
        )
    } else if either(up, "P"@, "PREVIOUS"@) {
        (
            s.at(step_at(s.step, back_around(index as int, count) as usize)),
            Some(ResultModel::NeedPoint),
        )
    } else if either(up, "S"@, "SELECT"@) {
        (
            s.at(
                match s.step {
                    Step::Move { index, refine } => Step::SelectVertex { weight: false, refine },
                    _ => Step::SelectVertex { weight: true, refine: true },
                },
            ),
            Some(ResultModel::NeedPoint),
        )
    } else if either(up, "X"@, "EXIT"@) {
        (
            s.at(
                match s.step {
                    Step::Move { index, refine } => if refine {
                        Step::Refine
                    } else {
                        Step::Options
                    },
                    _ => Step::Refine,
                },
            ),
            Some(ResultModel::NeedPoint),
        )
    } else {
        match (s.step, s.spline, number) {
            (Step::Weight { index }, Some(old), Some(w)) => if w.positive() {
                s.replacing(
                    SplineEntityModel { spline: weighted(old.spline, index as int, w), ..old },
                )
            } else {
                stay
            },
            _ => stay,
        }
    }
}

/// What a typed word does, as long as it is not empty.
pub open spec fn typed_word(s: SplineditState, up: Seq<char>, read: Reading) -> (
    SplineditState,
    Option<ResultModel>,
) {
    match s.step {
        Step::Options => typed_option(s, up, read),
        Step::Refine => (s.at(refine_step(up)), Some(ResultModel::NeedPoint)),
        Step::Elevate => typed_degree(s, up, model_of(read.elevated)),
        Step::Move { index, refine } => typed_vertex(s, index, up, read.number),
        Step::Weight { index } => typed_vertex(s, index, up, read.number),
        _ => (s, Some(ResultModel::NeedPoint)),
    }
}

/// The order that is offered when the degree is to be raised.
pub open spec fn order_offered(s: SplineditState) -> int {
    match s.spline {
        Some(s) => s.spline.form.degree + 1,
        None => 4,
    }
}

/// What the Enter key does. `elevated` is the spline with its degree raised to
/// the order that is offered.
pub open spec fn entered(s: SplineditState, elevated: Option<SplineEntityModel>) -> (
    SplineditState,
    Option<ResultModel>,
) {
    match s.step {
        Step::SelectSpline => (s, Some(ResultModel::Cancel)),
        Step::Options => (s, Some(ResultModel::Cancel)),
        Step::Refine => (s.at(Step::Options), Some(ResultModel::NeedPoint)),
        Step::Add => (s.at(Step::Refine), Some(ResultModel::NeedPoint)),
        Step::Delete => (s.at(Step::Refine), Some(ResultModel::NeedPoint)),
        Step::SelectVertex { weight, refine } => (
            s.at(Step::Refine),
            Some(ResultModel::NeedPoint),
        ),
        Step::Elevate => match elevated {
            Some(new) => if 0 < order_offered(s) <= 26 {
                s.at(Step::Refine).replacing(new)
            } else {
                (s, Some(ResultModel::NeedPoint))
            },
            None => (s, Some(ResultModel::NeedPoint)),
        },
        Step::Move { index, refine } => typed_vertex(s, index, "N"@, None),
        Step::Weight { index } => typed_vertex(s, index, "N"@, None),
    }
}

/// What a typed text does.
pub open spec fn typed(s: SplineditState, up: Seq<char>, read: Reading) -> (
    SplineditState,
    Option<ResultModel>,
) {
    if up.len() == 0 {
        entered(s, model_of(read.elevated))
    } else {
        typed_word(s, up, read)
    }
}

/// Whether `i` is the place of the least distance, the first where there are
/// several.
pub open spec fn is_nearest(distances: Seq<Real>, i: int) -> bool {
    &&& 0 <= i < distances.len()
    &&& forall|k: int|
        0 <= k < i ==> distances[i].total_rank() < (#[trigger] distances[k]).total_rank()
    &&& forall|k: int|
        i <= k < distances.len() ==> distances[i].total_rank() <= (
        #[trigger] distances[k]).total_rank()
}

/// The place of the least of some distances, the first where there are several.
pub open spec fn nearest_of(distances: Seq<Real>) -> Option<usize> {
    if distances.len() > 0 {
        Some((choose|i: int| is_nearest(distances, i)) as usize)
    } else {
        None
    }
}

/// The place of the least of some distances, the first where there are several.
pub fn nearest(distances: &Vec<Real>) -> (r: Option<usize>)
    ensures
        r == nearest_of(distances@),
        match r {
            Some(i) => is_nearest(distances@, i as int),
            None => distances@.len() == 0,
        },
{
    let n: usize = distances.len();
    if n == 0 {
        return None;
    }
    let mut best: usize = 0;
    let mut i: usize = 1;
    while i < n
        invariant
            best < i <= n == distances@.len(),
            is_nearest(distances@.take(i as int), best as int),
        decreases n - i,
    {
        let ghost before = distances@.take(i as int);
        let ghost after = distances@.take(i + 1);
        proof {
            assert forall|k: int| 0 <= k < i implies #[trigger] after[k] == before[k] by {}
        }
        if distances[i].total_less(&distances[best]) {
            proof {
                assert forall|k: int| 0 <= k < i implies after[i as int].total_rank() < (
                #[trigger] after[k]).total_rank() by {
                    assert(before[best as int].total_rank() <= before[k].total_rank());
                }
            }
            best = i;
        }
        i += 1;
    }
    proof {
        assert(distances@.take(n as int) =~= distances@);
        nearest_is_one(distances@, best as int, choose|i: int| is_nearest(distances@, i));
    }
    Some(best)
}

/// There is only one nearest place.
pub proof fn nearest_is_one(distances: Seq<Real>, i: int, j: int)
    requires
        is_nearest(distances, i),
        is_nearest(distances, j),
    ensures
        i == j,
{
    if i < j {
        assert(distances[j].total_rank() < distances[i].total_rank());
    }
    if j < i {
        assert(distances[i].total_rank() < distances[j].total_rank());
    }
}

/// What was computed for a given point.
pub struct PointReading {
    /// The distances of the control points from the point.
    pub distances: Vec<Real>,
    /// The spline with a control point less, at the nearest one.
    pub reduced: Option<Reduced>,
    /// The spline with a knot more, where the point falls on it.
    pub refined: Option<SplineEntity>,
}

/// A curve after one of its control points was taken out.
pub struct Reduced {
    pub degree: i32,
    pub control_points: Vec<Point3>,
    pub weights: Vec<Real>,
    pub knots: Vec<Real>,
    pub planar: bool,
}

/// A spline with the curve of another.
pub open spec fn with_curve(s: SplineModel, c: Reduced) -> SplineModel {
    SplineModel {
        control_points: c.control_points@,
        weights: c.weights@,
        knots: c.knots@,
        fit_points: Seq::empty(),
        form: SplineForm {
            degree: c.degree,
            flags: SplineFlags { planar: c.planar, ..s.form.flags },
            ..s.form
        },
    }
}

/// The step at a vertex that was pointed at.
pub open spec fn vertex_step(weight: bool, refine: bool, index: usize) -> Step {
    if weight {
        Step::Weight { index }
    } else {
        Step::Move { index, refine }
    }
}

/// What a given point does, `nearest` being the control point nearest to it.
pub open spec fn pointed(
    s: SplineditState,
    point: Point3,
    nearest: Option<usize>,
    read: PointReading,
) -> (SplineditState, Option<ResultModel>) {
    let stay = (s, Some(ResultModel::NeedPoint));
    if !point.finite() {
        stay
    } else {
        match s.step {
            Step::SelectVertex { weight, refine } => match (s.spline, nearest) {
                (Some(old), Some(index)) => (
                    s.at(vertex_step(weight, refine, index)),
                    Some(ResultModel::NeedPoint),
                ),
                _ => stay,
            },
            Step::Delete => match (s.spline, nearest, read.reduced) {
                (Some(old), Some(index), Some(c)) => s.replacing(
                    SplineEntityModel { spline: with_curve(old.spline, c), ..old },
                ),
                _ => stay,
            },
            Step::Add => match (s.spline, read.refined) {
                (Some(old), Some(new)) => s.replacing(new@),
                _ => stay,
            },
            Step::Move { index, refine } => match s.spline {
                Some(old) => if index < old.spline.control_points.len() {
                    s.replacing(
                        SplineEntityModel { spline: moved(old.spline, index as int, point), ..old },
                    )
                } else {
                    stay
                },
                None => stay,
            },
            _ => stay,
        }
    }
}

/// The state after an entity was replaced by others: the edited spline takes
/// the handle of the first of them.
pub open spec fn replaced(s: SplineditState, old: Handle, new: Seq<Handle>) -> SplineditState {
    if old == s.handle && new.len() > 0 && s.pending is Some {
        SplineditState {
            handle: new[0],
            spline: s.pending,
            pending: None,
            history: match s.spline {
                Some(previous) => s.history.push(PastModel { handle: old, spline: previous }),
                None => s.history,
            },
            ..s
        }
    } else if old == s.handle {
        SplineditState { pending: None, ..s }
    } else {
        s
    }
}

/// The command with an entity handed to it: it holds the entity where that is a
/// spline, and nothing otherwise.
pub open spec fn injected(s: SplineditState, entity: EntityModel) -> SplineditState {
    SplineditState {
        spline: match entity.shape {
            ShapeModel::Spline(curve) => Some(
                SplineEntityModel { common: entity.common, spline: curve },
            ),
            _ => None,
        },
        ..s
    }
}

/// The command after a pick: the options are next where a spline was hit.
pub open spec fn spline_picked(s: SplineditState, handle: Handle) -> SplineditState {
    if handle == NO_HANDLE || s.spline is None {
        s
    } else {
        SplineditState { handle, step: Step::Options, ..s }
    }
}

impl SplineditCommand {
    /// Starts the command.
    pub fn new() -> (r: SplineditCommand)
        ensures
            r@ == (SplineditState {
                step: Step::SelectSpline,
                handle: NO_HANDLE,
                spline: None,
                pending: None,
                history: Seq::empty(),
            }),
    {
        let r = SplineditCommand {
            step: Step::SelectSpline,
            handle: NO_HANDLE,
            spline: None,
            pending: None,
            history: Vec::new(),
        };
        proof {
            assert(views(r.history@) =~= Seq::<PastModel>::empty());
        }
        r
    }

    fn replace(&mut self, spline: SplineEntity) -> (r: CmdResult)
        ensures
            (final(self)@, Some(r@)) == old(self)@.replacing(spline@),
    {
        self.pending = Some(spline.duplicate());
        CmdResult::ReplaceContinue(
            Replacement { handle: self.handle, entity: spline.into_entity() },
        )
    }

    fn count(&self) -> (r: usize)
        ensures
            r == self@.count(),
    {
        match &self.spline {
            Some(s) => s.spline.control_points.len(),
            None => 0,
        }
    }

    /// Whether the vertex that is being edited is one of the spline's.
    pub fn index_in_range(&self) -> (r: bool)
        ensures
            r == self@.index_fits(),
    {
        let count: usize = self.count();
        match self.step {
            Step::Move { index, .. } => count == 0 && index == 0 || index < count,
            Step::Weight { index } => count == 0 && index == 0 || index < count,
            _ => true,
        }
    }

    fn text_option(&mut self, up: &str, read: &Reading) -> (r: Option<CmdResult>)
        requires
            old(self)@.fits(),
            old(self)@.step == Step::Options,
        ensures
            (final(self)@, answer(r)) == typed_option(old(self)@, up@, *read),
            final(self)@.index_fits(),
    {
        if is_either(up, "R", "REFINE") {
            self.step = Step::Refine;
        } else if is_either(up, "M", "MOVE") {
            self.step = Step::Move { index: 0, refine: false };
        } else if is_either(up, "X", "EXIT") {
            return Some(CmdResult::Cancel);
        } else if is_either(up, "U", "UNDO") {
            let ghost before = self.history@;
            if let Some(past) = self.history.pop() {
                proof {
                    assert(views(self.history@) =~= views(before).drop_last());
                    assert(views(before).last() == past@);
                }
                self.handle = past.handle;
                self.spline = Some(past.spline);
                return Some(CmdResult::UndoDocument);
            }
        } else if is_either(up, "C", "CLOSE") || is_either(up, "O", "OPEN") || is_either(
            up,
            "E",
            "REVERSE",
        ) || same(up, "REV") {
            let mut spline = match &self.spline {
                Some(s) => s.duplicate(),
                None => {
                    return None;
                },
            };
            let op = if is_either(up, "C", "CLOSE") {
                "__SPLINEDIT_CLOSE__"
            } else if is_either(up, "O", "OPEN") {
                "__SPLINEDIT_OPEN__"
            } else {
                "__SPLINEDIT_REVERSE__"
            };
            apply_to_spline(&mut spline.spline, op, &read.facts);
            return Some(self.replace(spline));
        }
        Some(CmdResult::NeedPoint)
    }

    /// The degree that a typed text asks for, where it asks for one that a
    /// spline can have.
    pub fn asked_degree(text: &str) -> (r: Option<usize>)
        ensures
            match r {
                Some(n) => degree_asked(keyword_of(text@)) == Some(n as int),
                None => degree_asked(keyword_of(text@)) is None,
            },
    {
        let up = keyword(text);
        SplineditCommand::degree_in(up.as_str())
    }

    fn degree_in(up: &str) -> (r: Option<usize>)
        ensures
            match r {
                Some(n) => degree_asked(up@) == Some(n as int),
                None => degree_asked(up@) is None,
            },
    {
        match read_unsigned(up, 10, usize::MAX as u64) {
            Some(n) => {
                if n <= 26 {
                    Some(n as usize)
                } else {
                    None
                }
            },
            None => None,
        }
    }

    fn text_vertex(&mut self, index: usize, up: &str, number: Option<Real>) -> (r: Option<
        CmdResult,
    >)
        requires
            old(self)@.index_fits(),
            old(self)@.fits(),
            old(self)@.step matches Step::Move { index: i, refine } && i == index
                || old(self)@.step == (Step::Weight { index }),
        ensures
            (final(self)@, answer(r)) == typed_vertex(old(self)@, index, up@, number),
            final(self)@.index_fits(),
    {
        let count: usize = self.count();
        if count == 0 {
            return Some(CmdResult::NeedPoint);
        }
        if is_either(up, "N", "NEXT") {
            let to: usize = (index + 1) % count;
            self.step = match self.step {
                Step::Move { refine, .. } => Step::Move { index: to, refine },
                _ => Step::Weight { index: to },
            };
        } else if is_either(up, "P", "PREVIOUS") {
            let to: usize = (index + count - 1) % count;
            self.step = match self.step {
                Step::Move { refine, .. } => Step::Move { index: to, refine },
                _ => Step::Weight { index: to },
            };
        } else if is_either(up, "S", "SELECT") {
            self.step = match self.step {
                Step::Move { refine, .. } => Step::SelectVertex { weight: false, refine },
                _ => Step::SelectVertex { weight: true, refine: true },
            };
        } else if is_either(up, "X", "EXIT") {
            self.step = match self.step {
                Step::Move { refine, .. } => {
                    if refine {
                        Step::Refine
                    } else {
                        Step::Options
                    }
                },
                _ => Step::Refine,
            };
        } else if let Step::Weight { index } = self.step {
            if let Some(w) = number {
                if w.is_positive() {
                    if let Some(old_spline) = &self.spline {
                        let mut new = old_spline.duplicate();
                        set_weight(&mut new.spline, index, w);
                        return Some(self.replace(new));
                    }
                }
            }
        }
        Some(CmdResult::NeedPoint)
    }

    /// Reads a keyword, in upper case and without white space around it.
    pub fn on_keyword(&mut self, up: &str, read: &Reading) -> (r: Option<CmdResult>)
        requires
            old(self)@.index_fits(),
            old(self)@.fits(),
        ensures
            (final(self)@, answer(r)) == typed(old(self)@, up@, *read),
            final(self)@.index_fits(),
    {
        if up.is_empty() {
            let elevated = match &read.elevated {
                Some(s) => Some(s.duplicate()),
                None => None,
            };
            return Some(self.on_enter(elevated));
        }
        match self.step {
            Step::Options => self.text_option(up, read),
            Step::Refine => {
                self.step = if is_either(up, "A", "ADD") {
                    Step::Add
                } else if is_either(up, "D", "DELETE") {
                    Step::Delete
                } else if is_either(up, "E", "ELEVATE") {
                    Step::Elevate
                } else if is_either(up, "M", "MOVE") {
                    Step::Move { index: 0, refine: true }
                } else if is_either(up, "W", "WEIGHT") {
                    Step::Weight { index: 0 }
                } else if is_either(up, "X", "EXIT") {
                    Step::Options
                } else {
                    Step::Refine
                };
                Some(CmdResult::NeedPoint)
            },
            Step::Elevate => {
                if let Some(new) = &read.elevated {
                    if SplineditCommand::degree_in(up).is_some() {
                        self.step = Step::Refine;
                        return Some(self.replace(new.duplicate()));
                    }
                }
                Some(CmdResult::NeedPoint)
            },
            Step::Move { index, .. } => self.text_vertex(index, up, read.number),
            Step::Weight { index } => self.text_vertex(index, up, read.number),
            _ => Some(CmdResult::NeedPoint),
        }
    }

    /// The text to read a weight from.
    pub fn number_text(text: &str) -> (r: String)
        ensures
            r@ == points_for_commas(keyword_of(text@)),
    {
        let up = keyword(text);
        decimal_text(up.as_str())
    }

    /// Reads a typed text. `read` holds the number of [`Self::number_text`] of
    /// the text, the spline raised to [`Self::asked_degree`] of it, and what
    /// opening and reversing the spline need.
    pub fn on_text_input(&mut self, text: &str, read: &Reading) -> (r: Option<CmdResult>)
        requires
            old(self)@.index_fits(),
            old(self)@.fits(),
        ensures
            (final(self)@, answer(r)) == typed(old(self)@, keyword_of(text@), *read),
            final(self)@.index_fits(),
    {
        let up = keyword(text);
        self.on_keyword(up.as_str(), read)
    }

    /// The order that is offered when the degree is to be raised.
    pub fn offered_order(&self) -> (r: i64)
        ensures
            r == order_offered(self@),
    {
        match &self.spline {
            Some(s) => s.spline.form.degree as i64 + 1,
            None => 4,
        }
    }

    /// Reads the Enter key. `elevated` is the spline with its degree raised to
    /// [`Self::offered_order`].
    pub fn on_enter(&mut self, elevated: Option<SplineEntity>) -> (r: CmdResult)
        requires
            old(self)@.index_fits(),
            old(self)@.fits(),
        ensures
            (final(self)@, Some(r@)) == entered(old(self)@, model_of(elevated)),
            final(self)@.index_fits(),
    {
        match self.step {
            Step::SelectSpline | Step::Options => CmdResult::Cancel,
            Step::Refine => {
                self.step = Step::Options;
                CmdResult::NeedPoint
            },
            Step::Add | Step::Delete | Step::SelectVertex { .. } => {
                self.step = Step::Refine;
                CmdResult::NeedPoint
            },
            Step::Elevate => {
                let order: i64 = self.offered_order();
                if let Some(new) = elevated {
                    if 0 < order && order <= 26 {
                        self.step = Step::Refine;
                        return self.replace(new);
                    }
                }
                CmdResult::NeedPoint
            },
            Step::Move { index, .. } => match self.text_vertex(index, "N", None) {
                Some(r) => r,
                None => CmdResult::NeedPoint,
            },
            Step::Weight { index } => match self.text_vertex(index, "N", None) {
                Some(r) => r,
                None => CmdResult::NeedPoint,
            },
        }
    }

    /// Reads a point, with what was computed for it.
    pub fn on_point(&mut self, point: Point3, read: PointReading) -> (r: CmdResult)
        requires
            read.distances@.len() == old(self)@.count(),
            old(self)@.index_fits(),
        ensures
            (final(self)@, Some(r@)) == pointed(
                old(self)@,
                point,
                nearest_of(read.distances@),
                read,
            ),
            final(self)@.index_fits(),
    {
        if !point.is_finite() {
            return CmdResult::NeedPoint;
        }
        let close = nearest(&read.distances);
        let source = match &self.spline {
            Some(s) => s,
            None => {
                return CmdResult::NeedPoint;
            },
        };
        match self.step {
            Step::SelectVertex { weight, refine } => {
                if let Some(index) = close {
                    self.step = if weight {
                        Step::Weight { index }
                    } else {
                        Step::Move { index, refine }
                    };
                }
                CmdResult::NeedPoint
            },
            Step::Delete => {
                if close.is_none() {
                    return CmdResult::NeedPoint;
                }
                match read.reduced {
                    Some(c) => {
                        let mut new = source.duplicate();
                        new.spline.form.degree = c.degree;
                        new.spline.form.flags.planar = c.planar;
                        new.spline.control_points = c.control_points;
                        new.spline.weights = c.weights;
                        new.spline.knots = c.knots;
                        new.spline.fit_points = Vec::new();
                        self.replace(new)
                    },
                    None => CmdResult::NeedPoint,
                }
            },
            Step::Add => match read.refined {
                Some(new) => self.replace(new),
                None => CmdResult::NeedPoint,
            },
            Step::Move { index, .. } => {
                if index >= source.spline.control_points.len() {
                    return CmdResult::NeedPoint;
                }
                let mut new = source.duplicate();
                new.spline.control_points.set(index, point);
                new.spline.fit_points = Vec::new();
                self.replace(new)
            },
            _ => CmdResult::NeedPoint,
        }
    }

    /// Takes in the entity that is about to be picked.
    pub fn inject_picked_entity(&mut self, entity: Entity)
        ensures
            final(self)@ == injected(old(self)@, entity@),
    {
        self.spline = match entity.shape {
            Shape::Spline(spline) => Some(SplineEntity { common: entity.common, spline }),
            _ => None,
        };
    }

    /// Reads a picked entity.
    pub fn on_entity_pick(&mut self, handle: Handle) -> (r: CmdResult)
        ensures
            r@ == ResultModel::NeedPoint,
            final(self)@ == spline_picked(old(self)@, handle),
    {
        if handle != NO_HANDLE && self.spline.is_some() {
            self.handle = handle;
            self.step = Step::Options;
        }
        CmdResult::NeedPoint
    }

    /// Learns that an entity was replaced by others.
    pub fn on_entity_replaced(&mut self, old_handle: Handle, new_handles: &Vec<Handle>)
        ensures
            final(self)@ == replaced(old(self)@, old_handle, new_handles@),
    {
        if old_handle != self.handle {
            return;
        }
        let pending = self.pending.take();
        if new_handles.len() == 0 {
            return;
        }
        if let Some(replacement) = pending {
            let ghost before = self.history@;
            match self.spline.take() {
                Some(previous) => {
                    let past = Past { handle: old_handle, spline: previous };
                    let ghost pm = past@;
                    self.history.push(past);
                    proof {
                        assert(views(self.history@) =~= views(before).push(pm));
                    }
                },
                None => {},
            }
            self.spline = Some(replacement);
            self.handle = new_handles[0];
        }
    }

    /// The command's name.
    pub fn name(&self) -> (r: &'static str)
        ensures
            r@ == "SPLINEDIT"@,
    {
        "SPLINEDIT"
    }

    /// Whether an entity is to be picked.
    pub fn needs_entity_pick(&self) -> (r: bool)
        ensures
            r == (self@.step == Step::SelectSpline),
    {
        self.step == Step::SelectSpline
    }

    /// Whether picked entities are to be taken in before they are picked.
    pub fn inject_before_entity_pick(&self) -> (r: bool)
        ensures
            r,
    {
        true
    }

    /// Whether the command reads typed text rather than points or picks.
    pub fn wants_text_input(&self) -> (r: bool)
        ensures
            r == (self@.step is Options || self@.step is Refine || self@.step is Elevate
                || self@.step is Weight),
    {
        match self.step {
            Step::Options | Step::Refine | Step::Elevate | Step::Weight { .. } => true,
            _ => false,
        }
    }

    /// The options to offer.
    pub fn options(&self) -> (r: Vec<CmdOption>)
        ensures
            r@ == offered(self@),
    {
        match self.step {
            Step::Options => vec![
                CmdOption::new("Close", "C"),
                CmdOption::new("Open", "O"),
                CmdOption::new("Move vertex", "M"),
                CmdOption::new("Refine", "R"),
                CmdOption::new("Reverse", "E"),
                CmdOption::new("Undo", "U"),
                CmdOption::new("Exit", "X"),
            ],
            Step::Refine => vec![
                CmdOption::new("Add", "A"),
                CmdOption::new("Delete", "D"),
                CmdOption::new("Elevate order", "E"),
                CmdOption::new("Move", "M"),
                CmdOption::new("Weight", "W"),
                CmdOption::new("Exit", "X"),
            ],
            Step::Move { .. } | Step::Weight { .. } => vec![
                CmdOption::new("Next", "N"),
                CmdOption::new("Previous", "P"),
                CmdOption::new("Select point", "S"),
                CmdOption::new("Exit", "X"),
            ],
            _ => Vec::new(),
        }
    }

    /// What the command asks, where it asks in the language of the user.
    pub fn phrase(&self) -> (r: Option<Phrase>)
        ensures
            phrase_model(r) == phrased(self@),
    {
        match self.step {
            Step::SelectSpline => Some(Phrase::plain("SPLINEDIT  Select spline:")),
            Step::Options => Some(
                Phrase::plain("SPLINEDIT  [Close/Open/Move vertex/Refine/rEverse/Undo/eXit] <eXit>:"),
            ),
            Step::Refine => Some(
                Phrase::plain("SPLINEDIT  [Add/Delete/Elevate order/Move/Weight/eXit] <eXit>:"),
            ),
            Step::Add => Some(Phrase::plain("SPLINEDIT  Specify a point on the spline <exit>:")),
            Step::Delete => Some(Phrase::plain("SPLINEDIT  Specify control vertex to delete:")),
            Step::SelectVertex { .. } => Some(Phrase::plain("SPLINEDIT  Specify control vertex:")),
            Step::Elevate | Step::Move { .. } | Step::Weight { .. } => None,
        }
    }

    /// What the command asks. `said` is [`Self::phrase`] in the language of the
    /// user.
    pub fn prompt(&self, said: &str) -> (r: String)
        requires
            self@.index_fits(),
            self@.fits(),
        ensures
            r@ == prompted(self@, said@),
    {
        match self.step {
            Step::Elevate => {
                let n = signed_number(self.offered_order());
                join3("SPLINEDIT  Enter new order <", n.as_str(), ">:")
            },
            Step::Move { index, .. } => {
                let n = number((index + 1) as u64);
                join3(
                    "SPLINEDIT  Vertex ",
                    n.as_str(),
                    ": specify new location or [Next/Previous/Select point/eXit] <Next>:",
                )
            },
            Step::Weight { index } => {
                let n = number((index + 1) as u64);
                join3(
                    "SPLINEDIT  Vertex ",
                    n.as_str(),
                    ": enter new weight or [Next/Previous/Select point/eXit] <Next>:",
                )
            },
            _ => owned(said),
        }
    }
}

/// The weights of a spline, one for each control point: ones where it has none.
pub open spec fn weights_in_full(spline: SplineModel) -> Seq<Real> {
    if spline.weights.len() == 0 {
        Seq::new(spline.control_points.len(), |i: int| one())
    } else {
        spline.weights
    }
}

/// The weights of a spline, one for each control point: ones where it has none.
pub fn full_weights(spline: &Spline) -> (r: Vec<Real>)
    ensures
        r@ == weights_in_full(spline@),
{
    if spline.weights.len() > 0 {
        return crate::entity::copy_of(&spline.weights);
    }
    let r = resize(&spline.weights, spline.control_points.len());
    proof {
        assert(r@ =~= Seq::new(spline@.control_points.len(), |i: int| one()));
    }
    r
}

fn resize(w: &Vec<Real>, n: usize) -> (r: Vec<Real>)
    ensures
        r@ == resized(w@, n as nat),
{
    let mut out: Vec<Real> = Vec::new();
    let mut i: usize = 0;
    let ghost all = resized(w@, n as nat);
    while i < n
        invariant
            i <= n,
            all == resized(w@, n as nat),
            out@ == all.take(i as int),
        decreases n - i,
    {
        out.push(
            if i < w.len() {
                w[i]
            } else {
                one()
            },
        );
        proof {
            assert(all.take(i + 1) =~= all.take(i as int).push(all[i as int]));
        }
        i += 1;
    }
    proof {
        assert(all.take(n as int) =~= all);
    }
    out
}

fn set_weight(spline: &mut Spline, index: usize, weight: Real)
    requires
        index < old(spline)@.control_points.len(),
    ensures
        final(spline)@ == weighted(old(spline)@, index as int, weight),
{
    spline.weights = resize(&spline.weights, spline.control_points.len());
    spline.weights.set(index, weight);
    spline.form.flags.rational = true;
    spline.fit_points = Vec::new();
}

/// The options that are offered.
pub open spec fn offered(s: SplineditState) -> Seq<CmdOption> {
    match s.step {
        Step::Options => seq![
            CmdOption::new("Close", "C"),
            CmdOption::new("Open", "O"),
            CmdOption::new("Move vertex", "M"),
            CmdOption::new("Refine", "R"),
            CmdOption::new("Reverse", "E"),
            CmdOption::new("Undo", "U"),
            CmdOption::new("Exit", "X"),
        ],
        Step::Refine => seq![
            CmdOption::new("Add", "A"),
            CmdOption::new("Delete", "D"),
            CmdOption::new("Elevate order", "E"),
            CmdOption::new("Move", "M"),
            CmdOption::new("Weight", "W"),
            CmdOption::new("Exit", "X"),
        ],
        Step::Move { index, refine } => vertex_options(),
        Step::Weight { index } => vertex_options(),
        _ => Seq::empty(),
    }
}

/// The options that are offered at a vertex.
pub open spec fn vertex_options() -> Seq<CmdOption> {
    seq![
        CmdOption::new("Next", "N"),
        CmdOption::new("Previous", "P"),
        CmdOption::new("Select point", "S"),
        CmdOption::new("Exit", "X"),
    ]
}

/// What is asked, where that is asked in the language of the user.
pub open spec fn phrased(s: SplineditState) -> Option<PhraseModel> {
    match s.step {
        Step::SelectSpline => Some(plain_phrase("SPLINEDIT  Select spline:"@)),
        Step::Options => Some(
            plain_phrase("SPLINEDIT  [Close/Open/Move vertex/Refine/rEverse/Undo/eXit] <eXit>:"@),
        ),
        Step::Refine => Some(
            plain_phrase("SPLINEDIT  [Add/Delete/Elevate order/Move/Weight/eXit] <eXit>:"@),
        ),
        Step::Add => Some(plain_phrase("SPLINEDIT  Specify a point on the spline <exit>:"@)),
        Step::Delete => Some(plain_phrase("SPLINEDIT  Specify control vertex to delete:"@)),
        Step::SelectVertex { weight, refine } => Some(
            plain_phrase("SPLINEDIT  Specify control vertex:"@),
        ),
        _ => None,
    }
}

/// What is asked, `said` being the phrase of the prompt in the language of the
/// user.
pub open spec fn prompted(s: SplineditState, said: Seq<char>) -> Seq<char> {
    match s.step {
        Step::Elevate => "SPLINEDIT  Enter new order <"@ + signed_decimal(order_offered(s))
            + ">:"@,
        Step::Move { index, refine } => "SPLINEDIT  Vertex "@ + decimal((index + 1) as nat)
            + ": specify new location or [Next/Previous/Select point/eXit] <Next>:"@,
        Step::Weight { index } => "SPLINEDIT  Vertex "@ + decimal((index + 1) as nat)
            + ": enter new weight or [Next/Previous/Select point/eXit] <Next>:"@,
        _ => said,
    }
}

/// Opening a spline that was just closed brings its control points, form and
/// weights back, on clamped knots and without fit points, whatever is said of how
/// near the ends are. A spline that starts in a point that is not finite is left
/// out: its ends do not meet.
pub proof fn open_undoes_close(s: SplineModel, near: bool, nearer: bool)
    requires
        s.control_points.len() >= 2,
        s.control_points[0].finite(),
    ensures
        ({
            let closed = operated(s, "__SPLINEDIT_CLOSE__"@, near, None);
            let opened = operated(closed, "__SPLINEDIT_OPEN__"@, nearer, None);
            &&& closed.control_points == s.control_points.push(s.control_points[0])
            &&& closed.fit_points.len() == 0
            &&& opened.control_points == s.control_points
            &&& opened.form == s.form
            &&& opened.weights == s.weights
            &&& opened.knots == clamped_knots(
                unsigned_degree(s.form.degree),
                s.control_points.len() as usize,
            )
            &&& opened.fit_points.len() == 0
        }),
{
    reveal_strlit("__SPLINEDIT_CLOSE__");
    reveal_strlit("__SPLINEDIT_OPEN__");
    assert("__SPLINEDIT_CLOSE__"@.len() != "__SPLINEDIT_OPEN__"@.len());
    let p = s.control_points;
    assert(p.push(p[0]).drop_last() =~= p);
}

/// Opening leaves a spline alone whose ends differ and are not near.
pub proof fn open_leaves_open_splines_alone(s: SplineModel, reversed: Option<SplineModel>)
    requires
        s.control_points.len() >= 2 ==> s.control_points[0] != s.control_points.last(),
    ensures
        operated(s, "__SPLINEDIT_OPEN__"@, false, reversed) == s,
{
    reveal_strlit("__SPLINEDIT_CLOSE__");
    reveal_strlit("__SPLINEDIT_OPEN__");
    assert("__SPLINEDIT_CLOSE__"@.len() != "__SPLINEDIT_OPEN__"@.len());
}

/// A step to the next vertex and one back lead around to the same vertex, from
/// either side.
pub proof fn around_and_back(index: int, count: int)
    requires
        0 <= index < count,
    ensures
        0 <= next_around(index, count) < count,
        0 <= back_around(index, count) < count,
        back_around(next_around(index, count), count) == index,
        next_around(back_around(index, count), count) == index,
{
    if index + 1 < count {
        assert((index + 1) % count == index + 1) by (nonlinear_arith)
            requires
                0 <= index + 1 < count,
        ;
        assert((index + count) % count == index) by (nonlinear_arith)
            requires
                0 <= index < count,
        ;
    } else {
        assert(count % count == 0) by (nonlinear_arith)
            requires
                count > 0,
        ;
        assert((count - 1) % count == count - 1) by (nonlinear_arith)
            requires
                count > 0,
        ;
    }
    if index > 0 {
        assert((index + count - 1) % count == index - 1) by (nonlinear_arith)
            requires
                0 < index < count,
        ;
        assert(index % count == index) by (nonlinear_arith)
            requires
                0 <= index < count,
        ;
    } else {
        assert((count - 1) % count == count - 1) by (nonlinear_arith)
            requires
                count > 0,
        ;
        assert(count % count == 0) by (nonlinear_arith)
            requires
                count > 0,
        ;
    }
}

/// Taking back an edit brings back the spline and the handle from before it.
pub proof fn undo_restores_spline(s: SplineditState, new: SplineEntityModel, made: Handle)
    requires
        s.step == Step::Options,
        s.spline is Some,
    ensures
        ({
            let asked = s.replacing(new).0;
            let done = replaced(asked, s.handle, seq![made]);
            let undone = forall|read: Reading|
                (#[trigger] typed_option(done, "UNDO"@, read)).0 == (SplineditState {
                    pending: None,
                    ..s
                });
            &&& done.spline == Some(new)
            &&& done.handle == made
            &&& undone
        }),
{
    reveal_strlit("UNDO");
    reveal_strlit("R");
    reveal_strlit("REFINE");
    reveal_strlit("M");
    reveal_strlit("MOVE");
    reveal_strlit("X");
    reveal_strlit("EXIT");
    assert("UNDO"@[0] == 'U');
    assert("MOVE"@[0] == 'M' && "EXIT"@[0] == 'E');
    let done = replaced(s.replacing(new).0, s.handle, seq![made]);
    assert(done.history.drop_last() =~= s.history);
}

} // verus!
