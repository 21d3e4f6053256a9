//! Putting points or blocks along a curve, at equal parts or at a given length.
use crate::command::{
    answer, marker_model, world_plane, CmdOption, CmdResult, CurveMarker, DynField, MarkerModel,
    ResultModel, WorkingPlane,
};
use crate::entity::{
    fresh_model, views, Common, Entity, EntityModel, Handle, Insert, InsertModel, InsertPlace,
    NO_HANDLE, Shape, ShapeModel,
};
use crate::text::{
    ascii_upper, decimal_text, either, equal_but_case, is_either, join, owned,
    points_for_commas, read_unsigned, same_but_case, texts, to_ascii_upper, trim, trimmed,
    unsigned_value,
};
use crate::value::{origin, Point3, Real};
use vstd::prelude::*;

verus! {

/// What the command is waiting for.
#[derive(Clone, Copy, Debug, PartialEq, Eq, Structural)]
pub enum Step {
    Pick,
    Amount,
    BlockName,
    Align,
}

/// The command that puts markers along a curve: at steps of a given length
/// where `MEASURE` is set, else at equal parts.
pub struct MarkerCommand<const MEASURE: bool> {
    pub target: Option<Handle>,
    pub pick_point: Point3,
    pub step: Step,
    pub blocks: Vec<String>,
    pub block: Option<String>,
    pub align: bool,
    pub plane: WorkingPlane,
    pub valid_pick: bool,
    pub value_origin: Option<Point3>,
}

/// The contents of a [`MarkerCommand`].
#[verifier::ext_equal]
pub struct MarkerState {
    pub target: Option<Handle>,
    pub pick_point: Point3,
    pub step: Step,
    pub blocks: Seq<Seq<char>>,
    pub block: Option<Seq<char>>,
    pub align: bool,
    pub plane: WorkingPlane,
    pub valid_pick: bool,
    pub value_origin: Option<Point3>,
}

impl<const MEASURE: bool> View for MarkerCommand<MEASURE> {
    type V = MarkerState;

    open spec fn view(&self) -> MarkerState {
        MarkerState {
            target: self.target,
            pick_point: self.pick_point,
            step: self.step,
            blocks: texts(self.blocks@),
            block: match self.block {
                Some(b) => Some(b@),
                None => None,
            },
            align: self.align,
            plane: self.plane,
            valid_pick: self.valid_pick,
            value_origin: self.value_origin,
        }
    }
}

/// The command that puts markers at equal parts of a curve.
pub type DivideCommand = MarkerCommand<false>;

/// The command that puts markers at steps of a given length.
pub type MeasureCommand = MarkerCommand<true>;

/// The first name of a list that differs from `name` in nothing but case.
pub open spec fn found_name(list: Seq<Seq<char>>, name: Seq<char>) -> Option<Seq<char>>
    decreases list.len(),
{
    if list.len() == 0 {
        None
    } else if same_but_case(list[0], name) {
        Some(list[0])
    } else {
        found_name(list.drop_first(), name)
    }
}

impl MarkerState {
    /// The block to put along the curve, where one was chosen.
    pub open spec fn marker(self) -> Option<MarkerModel> {
        match self.block {
            Some(block) => Some(MarkerModel { block, align: self.align, plane: self.plane }),
            None => None,
        }
    }
}

/// The number of parts that a text asks for: from 2 to 32767.
pub open spec fn parts_typed(plain: Seq<char>) -> Option<int> {
    match unsigned_value(plain, 10, usize::MAX as int) {
        Some(n) => if 2 <= n <= 32767 {
            Some(n)
        } else {
            None
        },
        None => None,
    }
}

/// An amount given as a text, or as the length that it holds.
pub open spec fn typed_amount(
    measure: bool,
    s: MarkerState,
    plain: Seq<char>,
    number: Option<Real>,
) -> (MarkerState, Option<ResultModel>) {
    if s.block is None && s.value_origin is None && either(
        ascii_upper(plain),
        "B"@,
        "BLOCK"@,
    ) {
        (MarkerState { step: Step::BlockName, ..s }, Some(ResultModel::NeedPoint))
    } else if measure {
        match (number, s.target) {
            (Some(v), Some(handle)) => if v.positive() {
                (
                    s,
                    Some(
                        ResultModel::MeasureEntity {
                            handle,
                            segment_length: v,
                            pick_point: s.pick_point,
                            marker: s.marker(),
                        },
                    ),
                )
            } else {
                (s, None)
            },
            _ => (s, None),
        }
    } else {
        match (parts_typed(plain), s.target) {
            (Some(n), Some(handle)) => (
                s,
                Some(ResultModel::DivideEntity { handle, n: n as usize, marker: s.marker() }),
            ),
            _ => (s, None),
        }
    }
}

/// What a typed text does, without white space around it.
pub open spec fn typed(
    measure: bool,
    s: MarkerState,
    plain: Seq<char>,
    number: Option<Real>,
) -> (MarkerState, Option<ResultModel>) {
    match s.step {
        Step::BlockName => match found_name(s.blocks, plain) {
            Some(name) => (
                MarkerState { block: Some(name), step: Step::Align, ..s },
                Some(ResultModel::NeedPoint),
            ),
            None => (s, None),
        },
        Step::Align => {
            let kw = ascii_upper(plain);
            if either(kw, "Y"@, "YES"@) {
                (
                    MarkerState { align: true, step: Step::Amount, ..s },
                    Some(ResultModel::NeedPoint),
                )
            } else if either(kw, "N"@, "NO"@) {
                (
                    MarkerState { align: false, step: Step::Amount, ..s },
                    Some(ResultModel::NeedPoint),
                )
            } else {
                (s, None)
            }
        },
        Step::Amount => typed_amount(measure, s, plain, number),
        Step::Pick => (s, None),
    }
}

/// The length between the first point and the cursor, where it can be taken:
/// finite and greater than zero. `distance` is their distance.
pub open spec fn live_value(
    measure: bool,
    s: MarkerState,
    cursor: Point3,
    distance: Real,
) -> Option<Real> {
    if measure && s.step == Step::Amount && cursor.finite() && s.value_origin is Some
        && distance.positive() {
        Some(distance)
    } else {
        None
    }
}

/// What a given point does. The first one is where a length starts, the second
/// where it ends; `distance` is their distance.
pub open spec fn pointed(measure: bool, s: MarkerState, point: Point3, distance: Real) -> (
    MarkerState,
    ResultModel,
) {
    if measure && s.step == Step::Amount && point.finite() {
        if s.value_origin is None {
            (MarkerState { value_origin: Some(point), ..s }, ResultModel::NeedPoint)
        } else {
            match (live_value(measure, s, point, distance), s.target) {
                (Some(v), Some(handle)) => (
                    s,
                    ResultModel::MeasureEntity {
                        handle,
                        segment_length: v,
                        pick_point: s.pick_point,
                        marker: s.marker(),
                    },
                ),
                _ => (s, ResultModel::NeedPoint),
            }
        }
    } else {
        (s, ResultModel::NeedPoint)
    }
}

/// What the Enter key does: it aligns the block, and ends the command elsewhere.
pub open spec fn entered(s: MarkerState) -> (MarkerState, ResultModel) {
    if s.step == Step::Align {
        (MarkerState { align: true, step: Step::Amount, ..s }, ResultModel::NeedPoint)
    } else {
        (s, ResultModel::Cancel)
    }
}

/// What picking an entity does, where it is a curve that can be marked.
pub open spec fn picked(s: MarkerState, handle: Handle, point: Point3) -> MarkerState {
    if handle == NO_HANDLE || !s.valid_pick {
        s
    } else {
        MarkerState { target: Some(handle), pick_point: point, step: Step::Amount, ..s }
    }
}

/// What is asked, without the command's name.
pub open spec fn question(measure: bool, s: MarkerState) -> Seq<char> {
    match s.step {
        Step::Pick => if measure {
            "Select object to measure:"@
        } else {
            "Select object to divide:"@
        },
        Step::BlockName => "Enter name of block to insert:"@,
        Step::Align => "Align block with object? [Yes/No] <Yes>:"@,
        Step::Amount => if measure {
            if s.block is None {
                "Specify length of segment or [Block]:"@
            } else {
                "Specify length of segment:"@
            }
        } else {
            if s.block is None {
                "Enter number of segments or [Block]:"@
            } else {
                "Enter number of segments:"@
            }
        },
    }
}

/// What is asked.
pub open spec fn prompted(measure: bool, s: MarkerState) -> Seq<char> {
    if s.value_origin is Some {
        "MEASURE  Specify second point:"@
    } else {
        (if measure {
            "MEASURE  "@
        } else {
            "DIVIDE  "@
        }) + question(measure, s)
    }
}

/// The options that are offered.
pub open spec fn offered(s: MarkerState) -> Seq<CmdOption> {
    if s.value_origin is Some {
        Seq::empty()
    } else if s.step == Step::Amount && s.block is None {
        seq![CmdOption::new("Block", "B")]
    } else if s.step == Step::Align {
        seq![CmdOption::new("Yes", "Y"), CmdOption::new("No", "N")]
    } else {
        Seq::empty()
    }
}

/// The kind of value asked for beside the cursor: a distance or a number of parts
/// while the amount is, a point otherwise.
pub open spec fn field_of(s: MarkerState, measure: bool) -> DynField {
    if s.step != Step::Amount {
        DynField::Point
    } else if measure {
        DynField::Distance
    } else {
        DynField::Scalar
    }
}

impl<const MEASURE: bool> MarkerCommand<MEASURE> {
    /// Starts the command.
    pub fn new() -> (r: Self)
        ensures
            r@ == (MarkerState {
                target: None,
                pick_point: origin(),
                step: Step::Pick,
                blocks: Seq::empty(),
                block: None,
                align: true,
                plane: world_plane(),
                valid_pick: false,
                value_origin: None,
            }),
    {
        let r = MarkerCommand {
            target: None,
            pick_point: origin(),
            step: Step::Pick,
            blocks: Vec::new(),
            block: None,
            align: true,
            plane: world_plane(),
            valid_pick: false,
            value_origin: None,
        };
        proof {
            assert(texts(r.blocks@) =~= Seq::<Seq<char>>::empty());
        }
        r
    }

    /// Takes in the names of the blocks of the drawing.
    pub fn with_blocks(self, blocks: Vec<String>) -> (r: Self)
        ensures
            r@ == (MarkerState { blocks: texts(blocks@), ..self@ }),
    {
        let mut this = self;
        this.blocks = blocks;
        this
    }

    fn marker(&self) -> (r: Option<CurveMarker>)
        ensures
            marker_model(r) == self@.marker(),
    {
        match &self.block {
            Some(b) => Some(
                CurveMarker { block: b.clone(), align: self.align, plane: self.plane },
            ),
            None => None,
        }
    }

    fn find_block(&self, name: &str) -> (r: Option<String>)
        ensures
            match r {
                Some(t) => found_name(self@.blocks, name@) == Some(t@),
                None => found_name(self@.blocks, name@) is None,
            },
    {
        let n: usize = self.blocks.len();
        let mut i: usize = 0;
        let ghost all = texts(self.blocks@);
        proof {
            assert(all.skip(0) =~= all);
        }
        while i < n
            invariant
                i <= n == self.blocks@.len(),
                all == texts(self.blocks@),
                found_name(all, name@) == found_name(all.skip(i as int), name@),
            decreases n - i,
        {
            proof {
                assert(all.skip(i as int)[0] == self.blocks@[i as int]@);
                assert(all.skip(i as int).drop_first() =~= all.skip(i + 1));
            }
            if equal_but_case(self.blocks[i].as_str(), name) {
                return Some(self.blocks[i].clone());
            }
            i += 1;
        }
        None
    }

    fn measure_by(&self, length: Real) -> (r: Option<CmdResult>)
        ensures
            answer(r) == (match self@.target {
                Some(handle) => Some(
                    ResultModel::MeasureEntity {
                        handle,
                        segment_length: length,
                        pick_point: self@.pick_point,
                        marker: self@.marker(),
                    },
                ),
                None => None,
            }),
    {
        match self.target {
            Some(handle) => Some(
                CmdResult::MeasureEntity {
                    handle,
                    segment_length: length,
                    pick_point: self.pick_point,
                    marker: self.marker(),
                },
            ),
            None => None,
        }
    }

    /// The text to read a length from.
    pub fn number_text(text: &str) -> (r: String)
        ensures
            r@ == points_for_commas(trimmed(text@)),
    {
        let plain = trim(text);
        decimal_text(plain.as_str())
    }

    /// Reads a typed text. `number` is the number of [`Self::number_text`] of
    /// the text.
    pub fn on_text_input(&mut self, text: &str, number: Option<Real>) -> (r: Option<CmdResult>)
        ensures
            (final(self)@, answer(r)) == typed(MEASURE, old(self)@, trimmed(text@), number),
    {
        let plain = trim(text);
        match self.step {
            Step::BlockName => {
                match self.find_block(plain.as_str()) {
                    Some(name) => {
                        self.block = Some(name);
                    },
                    None => {
                        return None;
                    },
                }
                self.step = Step::Align;
            },
            Step::Align => {
                let kw = to_ascii_upper(plain.as_str());
                if is_either(kw.as_str(), "Y", "YES") {
                    self.align = true;
                } else if is_either(kw.as_str(), "N", "NO") {
                    self.align = false;
                } else {
                    return None;
                }
                self.step = Step::Amount;
            },
            Step::Amount => {
                let kw = to_ascii_upper(plain.as_str());
                if self.block.is_none() && self.value_origin.is_none() && is_either(
                    kw.as_str(),
                    "B",
                    "BLOCK",
                ) {
                    self.step = Step::BlockName;
                } else if MEASURE {
                    return match number {
                        Some(v) => {
                            if v.is_positive() {
                                self.measure_by(v)
                            } else {
                                None
                            }
                        },
                        None => None,
                    };
                } else {
                    return match (
                        read_unsigned(plain.as_str(), 10, usize::MAX as u64),
                        self.target,
                    ) {
                        (Some(n), Some(handle)) => {
                            if 2 <= n && n <= 32767 {
                                Some(
                                    CmdResult::DivideEntity {
                                        handle,
                                        n: n as usize,
                                        marker: self.marker(),
                                    },
                                )
                            } else {
                                None
                            }
                        },
                        _ => None,
                    };
                }
            },
            Step::Pick => {
                return None;
            },
        }
        Some(CmdResult::NeedPoint)
    }

    /// The length that the cursor shows. `distance` is the distance from the
    /// first point to the cursor.
    pub fn dyn_live_value(&self, cursor: Point3, distance: Real) -> (r: Option<Real>)
        ensures
            r == live_value(MEASURE, self@, cursor, distance),
    {
        if MEASURE && self.step == Step::Amount && cursor.is_finite()
            && self.value_origin.is_some() && distance.is_positive() {
            Some(distance)
        } else {
            None
        }
    }

    /// Reads a point. `distance` is the distance from the first point to it.
    pub fn on_point(&mut self, point: Point3, distance: Real) -> (r: CmdResult)
        ensures
            (final(self)@, r@) == pointed(MEASURE, old(self)@, point, distance),
    {
        if MEASURE && self.step == Step::Amount && point.is_finite() {
            if self.value_origin.is_none() {
                self.value_origin = Some(point);
            } else if let Some(v) = self.dyn_live_value(point, distance) {
                return match self.measure_by(v) {
                    Some(r) => r,
                    None => CmdResult::NeedPoint,
                };
            }
        }
        CmdResult::NeedPoint
    }

    /// Reads the Enter key.
    pub fn on_enter(&mut self) -> (r: CmdResult)
        ensures
            (final(self)@, r@) == entered(old(self)@),
    {
        if self.step == Step::Align {
            self.align = true;
            self.step = Step::Amount;
            CmdResult::NeedPoint
        } else {
            CmdResult::Cancel
        }
    }

    /// Takes in whether the entity that is about to be picked has a length.
    pub fn inject_picked_entity(&mut self, measurable: bool)
        ensures
            final(self)@ == (MarkerState { valid_pick: measurable, ..old(self)@ }),
    {
        self.valid_pick = measurable;
    }

    /// Reads a picked entity.
    pub fn on_entity_pick(&mut self, handle: Handle, point: Point3) -> (r: CmdResult)
        ensures
            r@ == ResultModel::NeedPoint,
            final(self)@ == picked(old(self)@, handle, point),
    {
        if handle != NO_HANDLE && self.valid_pick {
            self.target = Some(handle);
            self.pick_point = point;
            self.step = Step::Amount;
        }
        CmdResult::NeedPoint
    }

    /// Takes in the plane that is drawn in.
    pub fn set_working_plane(&mut self, plane: WorkingPlane)
        ensures
            final(self)@ == (MarkerState { plane, ..old(self)@ }),
    {
        self.plane = plane;
    }

    /// The command's name.
    pub fn name(&self) -> (r: &'static str)
        ensures
            r@ == (if MEASURE {
                "MEASURE"@
            } else {
                "DIVIDE"@
            }),
    {
        if MEASURE {
            "MEASURE"
        } else {
            "DIVIDE"
        }
    }

    /// What the command asks.
    pub fn prompt(&self) -> (r: String)
        ensures
            r@ == prompted(MEASURE, self@),
    {
        if self.value_origin.is_some() {
            return owned("MEASURE  Specify second point:");
        }
        let text = match self.step {
            Step::Pick => {
                if MEASURE {
                    "Select object to measure:"
                } else {
                    "Select object to divide:"
                }
            },
            Step::BlockName => "Enter name of block to insert:",
            Step::Align => "Align block with object? [Yes/No] <Yes>:",
            Step::Amount => {
                if MEASURE {
                    if self.block.is_none() {
                        "Specify length of segment or [Block]:"
                    } else {
                        "Specify length of segment:"
                    }
                } else if self.block.is_none() {
                    "Enter number of segments or [Block]:"
                } else {
                    "Enter number of segments:"
                }
            },
        };
        if MEASURE {
            join("MEASURE  ", text)
        } else {
            join("DIVIDE  ", text)
        }
    }

    /// The options to offer.
    pub fn options(&self) -> (r: Vec<CmdOption>)
        ensures
            r@ == offered(self@),
    {
        if self.value_origin.is_some() {
            return Vec::new();
        }
        if self.step == Step::Amount && self.block.is_none() {
            return vec![CmdOption::new("Block", "B")];
        }
        if self.step == Step::Align {
            return vec![CmdOption::new("Yes", "Y"), CmdOption::new("No", "N")];
        }
        Vec::new()
    }

    /// Whether an entity is to be picked.
    pub fn needs_entity_pick(&self) -> (r: bool)
        ensures
            r == (self@.step == Step::Pick),
    {
        self.step == Step::Pick
    }

    /// Whether picked entities are to be taken in before they are picked.
    pub fn inject_before_entity_pick(&self) -> (r: bool)
        ensures
            r,
    {
        true
    }

    /// Whether the command reads typed text.
    pub fn wants_text_input(&self) -> (r: bool)
        ensures
            r == (self@.step != Step::Pick),
    {
        self.step != Step::Pick
    }

    /// The kind of value that the dynamic field asks for.
    pub fn dyn_field(&self) -> (r: DynField)
        ensures
            r == field_of(self@, MEASURE),
    {
        if self.step == Step::Amount && MEASURE {
            DynField::Distance
        } else if self.step == Step::Amount {
            DynField::Scalar
        } else {
            DynField::Point
        }
    }

    /// Whether a value of the dynamic field is read as a typed text.
    pub fn dyn_commit_as_text(&self) -> (r: bool)
        ensures
            r == (self@.step == Step::Amount),
    {
        self.step == Step::Amount
    }
}

/// Where a marker comes to lie: the point of the curve, and how a block is
/// placed there.
#[derive(Clone, Copy, Debug, PartialEq, Eq, Structural)]
pub struct Spot {
    pub point: Point3,
    pub place: InsertPlace,
}

/// The marker at a spot: a point, or a reference to the block.
pub open spec fn marked(spot: Spot, marker: Option<MarkerModel>) -> EntityModel {
    EntityModel {
        common: fresh_model(),
        shape: match marker {
            Some(m) => ShapeModel::Insert(
                InsertModel { block_name: m.block, place: spot.place, attributes: Seq::empty() },
            ),
            None => ShapeModel::Point(spot.point),
        },
    }
}

/// The markers at some spots.
pub open spec fn all_marked(spots: Seq<Spot>, marker: Option<MarkerModel>) -> Seq<EntityModel> {
    Seq::new(spots.len(), |i: int| marked(spots[i], marker))
}

fn make_marker(spot: &Spot, marker: &Option<CurveMarker>) -> (r: Entity)
    ensures
        r@ == marked(*spot, marker_model(*marker)),
{
    let shape = match marker {
        Some(m) => {
            let attributes: Vec<crate::entity::Attribute> = Vec::new();
            proof {
                assert(views(attributes@) =~= Seq::<crate::entity::AttributeModel>::empty());
            }
            Shape::Insert(Insert { block_name: m.block.clone(), place: spot.place, attributes })
        },
        None => Shape::Point(spot.point),
    };
    Entity { common: Common::fresh(), shape }
}

fn make_markers(spots: &Vec<Spot>, marker: &Option<CurveMarker>) -> (r: Vec<Entity>)
    ensures
        r@.len() == spots@.len(),
        views(r@) == all_marked(spots@, marker_model(*marker)),
{
    let n: usize = spots.len();
    let mut out: Vec<Entity> = Vec::new();
    let mut i: usize = 0;
    while i < n
        invariant
            i <= n == spots@.len(),
            out@.len() == i,
            forall|k: int|
                0 <= k < i ==> #[trigger] out@[k]@ == marked(spots@[k], marker_model(*marker)),
        decreases n - i,
    {
        out.push(make_marker(&spots[i], marker));
        i += 1;
    }
    proof {
        assert(views(out@) =~= all_marked(spots@, marker_model(*marker)));
    }
    out
}

/// The number of markers that divide a curve into `n` parts: one fewer than the
/// parts, on an open curve and on a closed one. Only 2 to 32767 parts can be
/// made.
pub open spec fn division_count(n: int) -> int {
    if 2 <= n <= 32767 {
        n - 1
    } else {
        0
    }
}

/// The number of markers that divide a curve into `n` parts.
pub fn divisions(n: usize) -> (r: usize)
    ensures
        r == division_count(n as int),
{
    if 2 <= n && n <= 32767 {
        n - 1
    } else {
        0
    }
}

/// The markers that divide a curve, one at each spot; none where it has no length.
pub open spec fn division_marks(
    measurable: bool,
    spots: Seq<Spot>,
    marker: Option<MarkerModel>,
) -> Seq<EntityModel> {
    if measurable {
        all_marked(spots, marker)
    } else {
        Seq::empty()
    }
}

/// The markers set along a curve, one at each spot; none where it has no length or
/// the distance between them is not above zero.
pub open spec fn measure_marks(
    segment_length: Real,
    spots: Option<Seq<Spot>>,
    marker: Option<MarkerModel>,
) -> Seq<EntityModel> {
    match spots {
        Some(list) => if segment_length.positive() {
            all_marked(list, marker)
        } else {
            Seq::empty()
        },
        None => Seq::empty(),
    }
}

/// The markers that divide an entity into `n` parts. `measurable` tells whether
/// the entity is a curve that has a length, and `spots` where the markers of
/// such a curve lie: as many as [`divisions`] counts, the one at index `k` after
/// `k + 1` of the `n` equal parts.
pub fn divide_entity(
    measurable: bool,
    n: usize,
    spots: &Vec<Spot>,
    marker: &Option<CurveMarker>,
) -> (r: Vec<Entity>)
    requires
        measurable ==> spots@.len() == division_count(n as int),
    ensures
        views(r@) == division_marks(measurable, spots@, marker_model(*marker)),
        r@.len() == (if measurable {
            division_count(n as int)
        } else {
            0
        }),
{
    if !measurable {
        let r: Vec<Entity> = Vec::new();
        proof {
            assert(views(r@) =~= Seq::<EntityModel>::empty());
        }
        return r;
    }
    make_markers(spots, marker)
}

/// Whether markers are laid from the end of a curve: where it is open and its
/// end is nearer to the pick.
pub fn measures_backward(closed: bool, to_start: Real, to_end: Real) -> (r: bool)
    ensures
        r == (!closed && to_end.below(to_start)),
{
    !closed && to_end.less(&to_start)
}

/// The markers at steps of a given length along a curve. `spots` tells where
/// they lie, for a curve that has a length.
pub fn measure_entity(
    segment_length: Real,
    spots: &Option<Vec<Spot>>,
    marker: &Option<CurveMarker>,
) -> (r: Vec<Entity>)
    ensures
        views(r@) == measure_marks(
            segment_length,
            match *spots {
                Some(v) => Some(v@),
                None => None,
            },
            marker_model(*marker),
        ),
{
    let empty: Vec<Entity> = Vec::new();
    proof {
        assert(views(empty@) =~= Seq::<EntityModel>::empty());
    }
    if !segment_length.is_positive() {
        return empty;
    }
    match spots {
        Some(v) => make_markers(v, marker),
        None => empty,
    }
}

/// A block is asked for only by a name that the drawing has.
pub proof fn found_name_is_listed(list: Seq<Seq<char>>, name: Seq<char>)
    ensures
        found_name(list, name) matches Some(t) ==> list.contains(t) && same_but_case(t, name),
        found_name(list, name) is None ==> forall|i: int|
            0 <= i < list.len() ==> !same_but_case(#[trigger] list[i], name),
    decreases list.len(),
{
    if list.len() > 0 && !same_but_case(list[0], name) {
        let rest = list.drop_first();
        found_name_is_listed(rest, name);
        if let Some(t) = found_name(list, name) {
            let k = rest.index_of(t);
            assert(list[k + 1] == t);
        }
        assert forall|i: int| found_name(list, name) is None && 0 <= i < list.len() implies
            !same_but_case(#[trigger] list[i], name) by {
            if i > 0 {
                assert(list[i] == rest[i - 1]);
            }
        }
    }
}

} // verus!
