//! Lengthening and shortening curves at one of their ends.
use crate::command::{
    answer, phrase_model, plain_phrase, CmdOption, CmdResult, DynField, Phrase, PhraseModel,
    Replacement, ReplacementModel, ResultModel,
};
use crate::entity::{
    copy_of, Arc, CommonModel, Ellipse, Entity, EntityModel, Handle, Line, LwModel, LwPolyline,
    LwVertex, NO_HANDLE, Shape, ShapeModel, SplineEntity,
};
use crate::text::{
    after_word, cut_word, decimal_text, either, first_word, is_either, join, join3, keyword,
    keyword_of, owned, points_for_commas, same, to_upper, uppercase,
};
use crate::value::{full_turn, one, zero, Point2, Point3, Real};
use vstd::prelude::*;

verus! {

/// How the length of a curve is to change. Angles are in radians.
#[derive(Clone, Copy, Debug, PartialEq, Eq, Structural)]
pub enum LenMode {
    Delta(Real),
    Total(Real),
    Percent(Real),
    DeltaAngle(Real),
    TotalAngle(Real),
    /// Up to a given point.
    Dynamic(Point3),
}

/// The kind of value that is typed in.
#[derive(Clone, Copy, Debug, PartialEq, Eq, Structural)]
pub enum ValueMode {
    Delta,
    Total,
    Percent,
    DeltaAngle,
    TotalAngle,
    Dynamic,
}

/// The values that the command offers: those that were given last. Angles are
/// in degrees.
#[derive(Clone, Copy, Debug, PartialEq, Eq, Structural)]
pub struct LengthenDefaults {
    pub mode: ValueMode,
    pub delta: Real,
    pub total: Real,
    pub percent: Real,
    pub delta_angle: Real,
    pub total_angle: Real,
}

/// The values that are offered before any were given: a total length of one, a
/// hundred percent, and an angle of one radian.
#[verifier::allow_in_spec]
pub fn first_defaults() -> LengthenDefaults
    returns
        (LengthenDefaults {
            mode: ValueMode::Total,
            delta: zero(),
            total: one(),
            percent: Real { bits: 0x4059_0000_0000_0000 },
            delta_angle: zero(),
            total_angle: Real { bits: 0x404C_A5DC_1A63_C1F8 },
        }),
{
    LengthenDefaults {
        mode: ValueMode::Total,
        delta: zero(),
        total: one(),
        percent: Real { bits: 0x4059_0000_0000_0000 },
        delta_angle: zero(),
        total_angle: Real { bits: 0x404C_A5DC_1A63_C1F8 },
    }
}

impl LengthenDefaults {
    /// The value that is offered.
    pub open spec fn value(self, mode: ValueMode) -> Real {
        match mode {
            ValueMode::Delta => self.delta,
            ValueMode::Total => self.total,
            ValueMode::Percent => self.percent,
            ValueMode::DeltaAngle => self.delta_angle,
            ValueMode::TotalAngle => self.total_angle,
            ValueMode::Dynamic => zero(),
        }
    }

    /// The values with one of them given anew.
    pub open spec fn with_value(self, mode: ValueMode, v: Real) -> LengthenDefaults {
        match mode {
            ValueMode::Delta => LengthenDefaults { delta: v, ..self },
            ValueMode::Total => LengthenDefaults { total: v, ..self },
            ValueMode::Percent => LengthenDefaults { percent: v, ..self },
            ValueMode::DeltaAngle => LengthenDefaults { delta_angle: v, ..self },
            ValueMode::TotalAngle => LengthenDefaults { total_angle: v, ..self },
            ValueMode::Dynamic => self,
        }
    }

    /// The value that is offered.
    pub fn offered(&self, mode: ValueMode) -> (r: Real)
        ensures
            r == self.value(mode),
    {
        match mode {
            ValueMode::Delta => self.delta,
            ValueMode::Total => self.total,
            ValueMode::Percent => self.percent,
            ValueMode::DeltaAngle => self.delta_angle,
            ValueMode::TotalAngle => self.total_angle,
            ValueMode::Dynamic => zero(),
        }
    }

    fn keep(&mut self, mode: ValueMode, v: Real)
        ensures
            *final(self) == old(self).with_value(mode, v),
    {
        match mode {
            ValueMode::Delta => self.delta = v,
            ValueMode::Total => self.total = v,
            ValueMode::Percent => self.percent = v,
            ValueMode::DeltaAngle => self.delta_angle = v,
            ValueMode::TotalAngle => self.total_angle = v,
            ValueMode::Dynamic => {},
        }
    }
}

/// What the command is waiting for.
#[derive(Clone, Copy, Debug, PartialEq, Eq, Structural)]
pub enum LenState {
    ChooseMode,
    Value(ValueMode),
    Apply(LenMode),
    DynamicPick,
    DynamicPoint { handle: Handle, pick: Point3 },
}

/// The command that lengthens and shortens curves.
pub struct LengthenCommand {
    pub state: LenState,
    /// The entity that is about to be picked.
    pub picked: Option<Entity>,
    /// The entity whose end is being dragged.
    pub held: Option<Entity>,
    /// The length of the entity that was picked for measuring.
    pub measurement: Option<Real>,
    pub edits: usize,
}

/// The contents of a [`LengthenCommand`].
#[verifier::ext_equal]
pub struct LengthenState {
    pub state: LenState,
    pub picked: Option<EntityModel>,
    pub held: Option<EntityModel>,
    pub measurement: Option<Real>,
    pub edits: usize,
}

/// The contents of an entity, where there is one.
pub open spec fn entity_model(e: Option<Entity>) -> Option<EntityModel> {
    match e {
        Some(e) => Some(e@),
        None => None,
    }
}

impl View for LengthenCommand {
    type V = LengthenState;

    open spec fn view(&self) -> LengthenState {
        LengthenState {
            state: self.state,
            picked: entity_model(self.picked),
            held: entity_model(self.held),
            measurement: self.measurement,
            edits: self.edits,
        }
    }
}

/// A number that was typed in, and the same in radians where it is an angle in
/// degrees.
#[derive(Clone, Copy, Debug, PartialEq, Eq, Structural)]
pub struct Typed {
    pub value: Real,
    pub radians: Real,
}

impl LengthenState {
    /// The command in another state.
    pub open spec fn to(self, state: LenState) -> LengthenState {
        LengthenState { state, ..self }
    }
}

/// The state that a kind of value leads to.
pub open spec fn asking(mode: ValueMode) -> LenState {
    if mode == ValueMode::Dynamic {
        LenState::DynamicPick
    } else {
        LenState::Value(mode)
    }
}

/// The kind of value that a word names.
pub open spec fn mode_named(word: Seq<char>) -> Option<ValueMode> {
    if either(word, "D"@, "DE"@) || word == "DELTA"@ {
        Some(ValueMode::Delta)
    } else if either(word, "T"@, "TO"@) || word == "TOTAL"@ {
        Some(ValueMode::Total)
    } else if either(word, "P"@, "PERCENT"@) {
        Some(ValueMode::Percent)
    } else if either(word, "DY"@, "DYNAMIC"@) {
        Some(ValueMode::Dynamic)
    } else {
        None
    }
}

/// Whether a number can be taken for a kind of value: finite, greater than zero
/// unless it is a difference, and as a whole angle less than a full turn.
pub open spec fn value_fits(mode: ValueMode, v: Real) -> bool {
    &&& v.finite()
    &&& mode == ValueMode::Delta || mode == ValueMode::DeltaAngle || v.positive()
    &&& mode == ValueMode::TotalAngle ==> v.below(full_turn())
}

/// The change that a value of a kind asks for.
pub open spec fn mode_for(mode: ValueMode, n: Typed) -> Option<LenMode> {
    match mode {
        ValueMode::Delta => Some(LenMode::Delta(n.value)),
        ValueMode::Total => Some(LenMode::Total(n.value)),
        ValueMode::Percent => Some(LenMode::Percent(n.value)),
        ValueMode::DeltaAngle => Some(LenMode::DeltaAngle(n.radians)),
        ValueMode::TotalAngle => Some(LenMode::TotalAngle(n.radians)),
        ValueMode::Dynamic => None,
    }
}

/// A number given for a kind of value.
pub open spec fn valued(
    s: LengthenState,
    d: LengthenDefaults,
    mode: ValueMode,
    number: Option<Typed>,
) -> (LengthenState, LengthenDefaults) {
    match number {
        Some(n) => if value_fits(mode, n.value) {
            match mode_for(mode, n) {
                Some(m) => (s.to(LenState::Apply(m)), d.with_value(mode, n.value)),
                None => (s, d),
            }
        } else {
            (s, d)
        },
        None => (s, d),
    }
}

/// What a typed word does once a kind of value was chosen, or curves are being
/// picked.
pub open spec fn typed_word(
    s: LengthenState,
    d: LengthenDefaults,
    up: Seq<char>,
    number: Option<Typed>,
) -> (LengthenState, LengthenDefaults, ResultModel) {
    match s.state {
        LenState::Apply(_) => typed_undo(s, d, up),
        LenState::DynamicPick => typed_undo(s, d, up),
        LenState::Value(mode) => if either(up, "A"@, "ANGLE"@) {
            let t = match mode {
                ValueMode::Delta => s.to(LenState::Value(ValueMode::DeltaAngle)),
                ValueMode::Total => s.to(LenState::Value(ValueMode::TotalAngle)),
                _ => s,
            };
            (t, d, ResultModel::NeedPoint)
        } else {
            let (t, e) = valued(s, d, mode, number);
            (t, e, ResultModel::NeedPoint)
        },
        _ => (s, d, ResultModel::NeedPoint),
    }
}

/// A typed word while curves are being picked.
pub open spec fn typed_undo(s: LengthenState, d: LengthenDefaults, up: Seq<char>) -> (
    LengthenState,
    LengthenDefaults,
    ResultModel,
) {
    if either(up, "U"@, "UNDO"@) && s.edits > 0 {
        (
            LengthenState { edits: (s.edits - 1) as usize, ..s },
            d,
            ResultModel::UndoDocument,
        )
    } else {
        (s, d, ResultModel::NeedPoint)
    }
}

/// What the Enter key does. `radians` is the value that is offered, in radians
/// where it is an angle.
pub open spec fn entered(s: LengthenState, d: LengthenDefaults, radians: Real) -> (
    LengthenState,
    LengthenDefaults,
    ResultModel,
) {
    match s.state {
        LenState::ChooseMode => (s.to(asking(d.mode)), d, ResultModel::NeedPoint),
        LenState::Value(mode) => {
            let (t, e) = valued(s, d, mode, Some(Typed { value: d.value(mode), radians }));
            (t, e, ResultModel::NeedPoint)
        },
        _ => (s, d, ResultModel::Cancel),
    }
}

/// A typed choice of a kind of value, and the value itself where it follows.
pub open spec fn typed_choice(
    s: LengthenState,
    d: LengthenDefaults,
    up: Seq<char>,
    number: Option<Typed>,
) -> (LengthenState, LengthenDefaults, ResultModel) {
    match mode_named(first_word(up)) {
        Some(mode) => {
            let t = s.to(asking(mode));
            let e = LengthenDefaults { mode, ..d };
            let second = first_word(after_word(up));
            if second.len() > 0 {
                typed_word(t, e, uppercase(second), number)
            } else {
                (t, e, ResultModel::NeedPoint)
            }
        },
        None => (s, d, ResultModel::NeedPoint),
    }
}

/// What a typed text does, in upper case and without white space around it.
/// `number` is the number of [`number_of`] of it; without a text, that is the
/// value that is offered.
pub open spec fn typed(
    s: LengthenState,
    d: LengthenDefaults,
    up: Seq<char>,
    number: Option<Typed>,
    radians: Real,
) -> (LengthenState, LengthenDefaults, Option<ResultModel>) {
    match s.state {
        LenState::DynamicPoint { handle, pick } => (s, d, None),
        LenState::ChooseMode => if up.len() == 0 {
            let (t, e, r) = entered(s, d, radians);
            (t, e, Some(r))
        } else {
            let (t, e, r) = typed_choice(s, d, up, number);
            (t, e, Some(r))
        },
        _ => if up.len() == 0 {
            let (t, e, r) = entered(s, d, radians);
            (t, e, Some(r))
        } else {
            let (t, e, r) = typed_word(s, d, up, number);
            (t, e, Some(r))
        },
    }
}

/// The text that holds the number of a typed text.
pub open spec fn number_of(s: LengthenState, up: Seq<char>) -> Seq<char> {
    match s.state {
        LenState::ChooseMode => points_for_commas(uppercase(first_word(after_word(up)))),
        _ => points_for_commas(up),
    }
}

/// Whether the end of an entity can be dragged.
pub open spec fn draggable(e: EntityModel) -> bool {
    e.shape is Line || e.shape is Arc
}

/// What picking an entity does. `length` is the length of the entity that was
/// taken in, and `lengthened` the entity after the change.
pub open spec fn picked(
    s: LengthenState,
    handle: Handle,
    point: Point3,
    length: Option<Real>,
    lengthened: Option<EntityModel>,
) -> (LengthenState, ResultModel) {
    if handle == NO_HANDLE || s.picked is None {
        (s, ResultModel::NeedPoint)
    } else {
        let t = LengthenState { picked: None, ..s };
        match s.state {
            LenState::ChooseMode => (
                LengthenState {
                    measurement: match length {
                        Some(v) => if v.finite() {
                            Some(v)
                        } else {
                            None
                        },
                        None => None,
                    },
                    ..t
                },
                ResultModel::NeedPoint,
            ),
            LenState::Apply(_) => match lengthened {
                Some(entity) => (
                    t,
                    ResultModel::ReplaceContinue(ReplacementModel { handle, entity }),
                ),
                None => (t, ResultModel::NeedPoint),
            },
            LenState::DynamicPick => if draggable(s.picked->0) {
                (
                    LengthenState {
                        state: LenState::DynamicPoint { handle, pick: point },
                        held: s.picked,
                        ..t
                    },
                    ResultModel::NeedPoint,
                )
            } else {
                (t, ResultModel::NeedPoint)
            },
            _ => (t, ResultModel::NeedPoint),
        }
    }
}

/// What a given point does. `lengthened` is the held entity with its end
/// dragged there.
pub open spec fn pointed(s: LengthenState, lengthened: Option<EntityModel>) -> (
    LengthenState,
    ResultModel,
) {
    match (s.state, lengthened) {
        (LenState::DynamicPoint { handle, pick }, Some(entity)) => (
            LengthenState { state: LenState::DynamicPick, held: None, ..s },
            ResultModel::ReplaceContinue(ReplacementModel { handle, entity }),
        ),
        _ => (s, ResultModel::NeedPoint),
    }
}

/// The entity that is to be changed, how its length changes, and the point whose
/// nearer end does: a picked entity as was chosen, or the held one with its end
/// dragged to the point.
pub open spec fn change_of(s: LengthenState, point: Point3) -> Option<
    (EntityModel, LenMode, Point3),
> {
    match s.state {
        LenState::Apply(mode) => match s.picked {
            Some(e) => Some((e, mode, point)),
            None => None,
        },
        LenState::DynamicPoint { handle, pick } => match s.held {
            Some(e) => Some((e, LenMode::Dynamic(point), pick)),
            None => None,
        },
        _ => None,
    }
}

fn to_mode(word: &str) -> (r: Option<ValueMode>)
    ensures
        r == mode_named(word@),
{
    if is_either(word, "D", "DE") || same(word, "DELTA") {
        Some(ValueMode::Delta)
    } else if is_either(word, "T", "TO") || same(word, "TOTAL") {
        Some(ValueMode::Total)
    } else if is_either(word, "P", "PERCENT") {
        Some(ValueMode::Percent)
    } else if is_either(word, "DY", "DYNAMIC") {
        Some(ValueMode::Dynamic)
    } else {
        None
    }
}

fn fits_mode(mode: ValueMode, v: Real) -> (r: bool)
    ensures
        r == value_fits(mode, v),
{
    if !v.is_finite() {
        return false;
    }
    if mode != ValueMode::Delta && mode != ValueMode::DeltaAngle && !v.is_positive() {
        return false;
    }
    mode != ValueMode::TotalAngle || v.less(&full_turn())
}

fn asking_for(mode: ValueMode) -> (r: LenState)
    ensures
        r == asking(mode),
{
    if mode == ValueMode::Dynamic {
        LenState::DynamicPick
    } else {
        LenState::Value(mode)
    }
}

/// The kind of value asked for beside the cursor.
pub open spec fn field_of(s: LengthenState) -> DynField {
    match s.state {
        LenState::Value(ValueMode::DeltaAngle) => DynField::Angle,
        LenState::Value(ValueMode::TotalAngle) => DynField::Angle,
        LenState::Value(_) => DynField::Scalar,
        _ => DynField::Point,
    }
}

impl LengthenCommand {
    /// Starts the command.
    pub fn new() -> (r: LengthenCommand)
        ensures
            r@ == (LengthenState {
                state: LenState::ChooseMode,
                picked: None,
                held: None,
                measurement: None,
                edits: 0,
            }),
    {
        LengthenCommand {
            state: LenState::ChooseMode,
            picked: None,
            held: None,
            measurement: None,
            edits: 0,
        }
    }

    fn give(&mut self, defaults: &mut LengthenDefaults, mode: ValueMode, number: Option<Typed>)
        ensures
            (final(self)@, *final(defaults)) == valued(old(self)@, *old(defaults), mode, number),
    {
        if let Some(n) = number {
            if fits_mode(mode, n.value) {
                let change = match mode {
                    ValueMode::Delta => LenMode::Delta(n.value),
                    ValueMode::Total => LenMode::Total(n.value),
                    ValueMode::Percent => LenMode::Percent(n.value),
                    ValueMode::DeltaAngle => LenMode::DeltaAngle(n.radians),
                    ValueMode::TotalAngle => LenMode::TotalAngle(n.radians),
                    ValueMode::Dynamic => {
                        return;
                    },
                };
                defaults.keep(mode, n.value);
                self.state = LenState::Apply(change);
            }
        }
    }

    fn text_undo(&mut self, defaults: &LengthenDefaults, up: &str) -> (r: CmdResult)
        ensures
            (final(self)@, *defaults, r@) == typed_undo(old(self)@, *defaults, up@),
    {
        if is_either(up, "U", "UNDO") && self.edits > 0 {
            self.edits = self.edits - 1;
            CmdResult::UndoDocument
        } else {
            CmdResult::NeedPoint
        }
    }

    fn text_word(&mut self, defaults: &mut LengthenDefaults, up: &str, number: Option<Typed>) -> (r:
        CmdResult)
        ensures
            (final(self)@, *final(defaults), r@) == typed_word(
                old(self)@,
                *old(defaults),
                up@,
                number,
            ),
    {
        match self.state {
            LenState::Apply(_) | LenState::DynamicPick => self.text_undo(defaults, up),
            LenState::Value(mode) => {
                if is_either(up, "A", "ANGLE") {
                    match mode {
                        ValueMode::Delta => {
                            self.state = LenState::Value(ValueMode::DeltaAngle);
                        },
                        ValueMode::Total => {
                            self.state = LenState::Value(ValueMode::TotalAngle);
                        },
                        _ => {},
                    }
                } else {
                    self.give(defaults, mode, number);
                }
                CmdResult::NeedPoint
            },
            _ => CmdResult::NeedPoint,
        }
    }

    /// Reads a text in upper case and without white space around it.
    pub fn on_keyword(
        &mut self,
        defaults: &mut LengthenDefaults,
        up: &str,
        number: Option<Typed>,
        radians: Real,
    ) -> (r: Option<CmdResult>)
        ensures
            (final(self)@, *final(defaults), answer(r)) == typed(
                old(self)@,
                *old(defaults),
                up@,
                number,
                radians,
            ),
    {
        if let LenState::DynamicPoint { .. } = self.state {
            return None;
        }
        if up.is_empty() {
            return Some(self.on_enter(defaults, radians));
        }
        if let LenState::ChooseMode = self.state {
            let (first, rest) = cut_word(up);
            let mode = match to_mode(first.as_str()) {
                Some(mode) => mode,
                None => {
                    return Some(CmdResult::NeedPoint);
                },
            };
            defaults.mode = mode;
            self.state = asking_for(mode);
            let (second, _) = cut_word(rest.as_str());
            if !second.as_str().is_empty() {
                let word = to_upper(second.as_str());
                return Some(self.text_word(defaults, word.as_str(), number));
            }
            return Some(CmdResult::NeedPoint);
        }
        Some(self.text_word(defaults, up, number))
    }

    /// The part of a typed text to read a number from.
    pub fn number_text(&self, text: &str) -> (r: String)
        ensures
            r@ == number_of(self@, keyword_of(text@)),
    {
        let up = keyword(text);
        if let LenState::ChooseMode = self.state {
            let (_, rest) = cut_word(up.as_str());
            let (second, _) = cut_word(rest.as_str());
            let word = to_upper(second.as_str());
            return decimal_text(word.as_str());
        }
        decimal_text(up.as_str())
    }

    /// Reads a typed text. `number` is the number of [`Self::number_text`] of
    /// the text, and `radians` the offered value in radians.
    pub fn on_text_input(
        &mut self,
        defaults: &mut LengthenDefaults,
        text: &str,
        number: Option<Typed>,
        radians: Real,
    ) -> (r: Option<CmdResult>)
        ensures
            (final(self)@, *final(defaults), answer(r)) == typed(
                old(self)@,
                *old(defaults),
                keyword_of(text@),
                number,
                radians,
            ),
    {
        let up = keyword(text);
        self.on_keyword(defaults, up.as_str(), number, radians)
    }

    /// Reads the Enter key. `radians` is the offered value in radians.
    pub fn on_enter(&mut self, defaults: &mut LengthenDefaults, radians: Real) -> (r: CmdResult)
        ensures
            (final(self)@, *final(defaults), r@) == entered(old(self)@, *old(defaults), radians),
    {
        match self.state {
            LenState::ChooseMode => {
                self.state = asking_for(defaults.mode);
                CmdResult::NeedPoint
            },
            LenState::Value(mode) => {
                let value = defaults.offered(mode);
                self.give(defaults, mode, Some(Typed { value, radians }));
                CmdResult::NeedPoint
            },
            _ => CmdResult::Cancel,
        }
    }

    /// Takes in the entity that is about to be picked.
    pub fn inject_picked_entity(&mut self, entity: Entity)
        ensures
            final(self)@ == (LengthenState { picked: Some(entity@), ..old(self)@ }),
    {
        self.picked = Some(entity);
    }

    /// The entity to change, how its length changes and the point whose nearer
    /// end does, once an entity is picked or a point is given at `point`.
    pub fn change(&self, point: Point3) -> (r: Option<(&Entity, LenMode, Point3)>)
        ensures
            match r {
                Some((entity, mode, near)) => change_of(self@, point) == Some((entity@, mode, near)),
                None => change_of(self@, point) is None,
            },
    {
        match self.state {
            LenState::Apply(mode) => match &self.picked {
                Some(entity) => Some((entity, mode, point)),
                None => None,
            },
            LenState::DynamicPoint { pick, .. } => match &self.held {
                Some(entity) => Some((entity, LenMode::Dynamic(point), pick)),
                None => None,
            },
            _ => None,
        }
    }

    /// Reads a picked entity. `length` is the length of the entity that was
    /// taken in, and `measures` is what the geometry kernel found for
    /// [`Self::change`].
    pub fn on_entity_pick(
        &mut self,
        handle: Handle,
        point: Point3,
        length: Option<Real>,
        measures: &Measures,
    ) -> (r: CmdResult)
        ensures
            (final(self)@, r@) == picked(
                old(self)@,
                handle,
                point,
                length,
                match (old(self)@.picked, old(self)@.state) {
                    (Some(e), LenState::Apply(m)) => lengthened(e, m, *measures),
                    _ => None,
                },
            ),
    {
        if handle == NO_HANDLE {
            return CmdResult::NeedPoint;
        }
        let entity = match self.picked.take() {
            Some(e) => e,
            None => {
                return CmdResult::NeedPoint;
            },
        };
        match self.state {
            LenState::ChooseMode => {
                self.measurement = match length {
                    Some(v) => {
                        if v.is_finite() {
                            Some(v)
                        } else {
                            None
                        }
                    },
                    None => None,
                };
                CmdResult::NeedPoint
            },
            LenState::Apply(mode) => match lengthen_entity(&entity, &mode, measures) {
                Some(entity) => CmdResult::ReplaceContinue(Replacement { handle, entity }),
                None => CmdResult::NeedPoint,
            },
            LenState::DynamicPick => {
                let drags = match &entity.shape {
                    Shape::Line(_) => true,
                    Shape::Arc(_) => true,
                    _ => false,
                };
                if drags {
                    self.state = LenState::DynamicPoint { handle, pick: point };
                    self.held = Some(entity);
                }
                CmdResult::NeedPoint
            },
            _ => CmdResult::NeedPoint,
        }
    }

    /// Reads a point. `measures` is what the geometry kernel found for
    /// [`Self::change`].
    pub fn on_point(&mut self, point: Point3, measures: &Measures) -> (r: CmdResult)
        ensures
            (final(self)@, r@) == pointed(
                old(self)@,
                match old(self)@.held {
                    Some(e) => lengthened(e, LenMode::Dynamic(point), *measures),
                    None => None,
                },
            ),
    {
        if let LenState::DynamicPoint { handle, .. } = self.state {
            let changed = match &self.held {
                Some(entity) => lengthen_entity(entity, &LenMode::Dynamic(point), measures),
                None => None,
            };
            if let Some(entity) = changed {
                self.state = LenState::DynamicPick;
                self.held = None;
                return CmdResult::ReplaceContinue(Replacement { handle, entity });
            }
        }
        CmdResult::NeedPoint
    }

    /// Learns that an entity was replaced.
    pub fn on_entity_replaced(&mut self)
        requires
            old(self)@.edits < usize::MAX,
        ensures
            final(self)@ == (LengthenState { edits: (old(self)@.edits + 1) as usize, ..old(self)@ }),
    {
        self.edits = self.edits + 1;
    }

    /// The command's name.
    pub fn name(&self) -> (r: &'static str)
        ensures
            r@ == "LENGTHEN"@,
    {
        "LENGTHEN"
    }

    /// Whether an entity is to be picked.
    pub fn needs_entity_pick(&self) -> (r: bool)
        ensures
            r == (self@.state is ChooseMode || self@.state is Apply || self@.state is DynamicPick),
    {
        match self.state {
            LenState::ChooseMode | LenState::Apply(_) | LenState::DynamicPick => true,
            _ => false,
        }
    }

    /// Whether picked entities are to be taken in before they are picked.
    pub fn inject_before_entity_pick(&self) -> (r: bool)
        ensures
            r,
    {
        true
    }

    /// Whether the command reads typed text.
    pub fn wants_text_input(&self) -> (r: bool)
        ensures
            r,
    {
        true
    }

    /// Whether a value of the dynamic field is read as a typed text.
    pub fn dyn_commit_as_text(&self) -> (r: bool)
        ensures
            r == (self@.state is Value),
    {
        match self.state {
            LenState::Value(_) => true,
            _ => false,
        }
    }

    /// Whether the dynamic field gives angles a sign by itself.
    pub fn dyn_auto_sign_angle(&self) -> (r: bool)
        ensures
            !r,
    {
        false
    }

    /// The kind of value that the dynamic field asks for.
    pub fn dyn_field(&self) -> (r: DynField)
        ensures
            r == field_of(self@),
    {
        match self.state {
            LenState::Value(ValueMode::DeltaAngle) | LenState::Value(ValueMode::TotalAngle) => {
                DynField::Angle
            },
            LenState::Value(_) => DynField::Scalar,
            _ => DynField::Point,
        }
    }

    /// The options to offer.
    pub fn options(&self) -> (r: Vec<CmdOption>)
        ensures
            r@ == offered_options(self@.state),
    {
        match self.state {
            LenState::ChooseMode => vec![
                CmdOption::new("Delta", "DE"),
                CmdOption::new("Percent", "P"),
                CmdOption::new("Total", "TO"),
                CmdOption::new("Dynamic", "DY"),
            ],
            LenState::Value(ValueMode::Delta) | LenState::Value(ValueMode::Total) => vec![
                CmdOption::new("Angle", "A"),
            ],
            LenState::Apply(_) | LenState::DynamicPick => vec![CmdOption::new("Undo", "U")],
            _ => Vec::new(),
        }
    }

    /// What the command asks, where it asks in the language of the user.
    pub fn phrase(&self) -> (r: Option<Phrase>)
        ensures
            phrase_model(r) == phrased(self@.state),
    {
        match self.state {
            LenState::ChooseMode => Some(
                Phrase::plain(
                    "LENGTHEN  Select an object to measure or [Delta/Percent/Total/Dynamic]:",
                ),
            ),
            LenState::Apply(_) | LenState::DynamicPick | LenState::Value(ValueMode::Dynamic) => {
                Some(Phrase::plain("LENGTHEN  Select an object to change or [Undo]:"))
            },
            _ => None,
        }
    }

    /// What the command asks. `shown` is the text of the value that is offered,
    /// or of the length that was measured, and `said` is [`Self::phrase`] in the
    /// language of the user.
    pub fn prompt(&self, shown: &str, said: &str) -> (r: String)
        ensures
            r@ == prompted(self@, shown@, said@),
    {
        match self.state {
            LenState::ChooseMode => {
                if self.measurement.is_some() {
                    let a = join3("Length: ", shown, "  ");
                    join(a.as_str(), said)
                } else {
                    owned(said)
                }
            },
            LenState::Value(ValueMode::Delta) => join3(
                "LENGTHEN  Enter delta length <",
                shown,
                ">:",
            ),
            LenState::Value(ValueMode::Total) => join3(
                "LENGTHEN  Enter total length <",
                shown,
                ">:",
            ),
            LenState::Value(ValueMode::Percent) => join3(
                "LENGTHEN  Enter percentage length <",
                shown,
                ">:",
            ),
            LenState::Value(ValueMode::DeltaAngle) => join3(
                "LENGTHEN  Enter delta angle <",
                shown,
                ">:",
            ),
            LenState::Value(ValueMode::TotalAngle) => join3(
                "LENGTHEN  Enter total angle <",
                shown,
                ">:",
            ),
            LenState::DynamicPoint { .. } => owned("LENGTHEN  Specify new end point:"),
            LenState::Apply(_) | LenState::DynamicPick | LenState::Value(ValueMode::Dynamic) => {
                owned(said)
            },
        }
    }
}

/// The options that are offered.
pub open spec fn offered_options(state: LenState) -> Seq<CmdOption> {
    match state {
        LenState::ChooseMode => seq![
            CmdOption::new("Delta", "DE"),
            CmdOption::new("Percent", "P"),
            CmdOption::new("Total", "TO"),
            CmdOption::new("Dynamic", "DY"),
        ],
        LenState::Value(ValueMode::Delta) => seq![CmdOption::new("Angle", "A")],
        LenState::Value(ValueMode::Total) => seq![CmdOption::new("Angle", "A")],
        LenState::Apply(_) => seq![CmdOption::new("Undo", "U")],
        LenState::DynamicPick => seq![CmdOption::new("Undo", "U")],
        _ => Seq::empty(),
    }
}

/// What is asked, where that is asked in the language of the user.
pub open spec fn phrased(state: LenState) -> Option<PhraseModel> {
    match state {
        LenState::ChooseMode => Some(
            plain_phrase(
                "LENGTHEN  Select an object to measure or [Delta/Percent/Total/Dynamic]:"@,
            ),
        ),
        LenState::Apply(_) => Some(plain_phrase("LENGTHEN  Select an object to change or [Undo]:"@)),
        LenState::DynamicPick => Some(
            plain_phrase("LENGTHEN  Select an object to change or [Undo]:"@),
        ),
        LenState::Value(ValueMode::Dynamic) => Some(
            plain_phrase("LENGTHEN  Select an object to change or [Undo]:"@),
        ),
        _ => None,
    }
}

/// What is asked, `said` being the phrase of the prompt in the language of the
/// user.
pub open spec fn prompted(s: LengthenState, shown: Seq<char>, said: Seq<char>) -> Seq<char> {
    match s.state {
        LenState::ChooseMode => (if s.measurement is Some {
            "Length: "@ + shown + "  "@
        } else {
            Seq::empty()
        }) + said,
        LenState::Value(ValueMode::Delta) => "LENGTHEN  Enter delta length <"@ + shown + ">:"@,
        LenState::Value(ValueMode::Total) => "LENGTHEN  Enter total length <"@ + shown + ">:"@,
        LenState::Value(ValueMode::Percent) => "LENGTHEN  Enter percentage length <"@ + shown
            + ">:"@,
        LenState::Value(ValueMode::DeltaAngle) => "LENGTHEN  Enter delta angle <"@ + shown
            + ">:"@,
        LenState::Value(ValueMode::TotalAngle) => "LENGTHEN  Enter total angle <"@ + shown
            + ">:"@,
        LenState::DynamicPoint { handle, pick } => "LENGTHEN  Specify new end point:"@,
        _ => said,
    }
}

/// The lengths below which a curve has no length to change.
pub const TINY: u64 = 0x3DDB_7CDF_D9D7_BDBB;

/// The radius below which an ellipse has no axis.
pub const TINY_AXIS: u64 = 0x3E11_2E0B_E826_D695;

/// The span of knots below which a spline has no course.
pub const TINY_SPAN: u64 = 0x3D71_9799_812D_EA11;

/// Whether a change gives a new length, and not an angle or a point.
pub open spec fn gives_length(mode: LenMode) -> bool {
    mode is Delta || mode is Total || mode is Percent
}

/// Whether a curve of the length `current` can be given the length `new`.
pub open spec fn length_fits(mode: LenMode, current: Real, new: Real) -> bool {
    &&& gives_length(mode)
    &&& !current.below(Real { bits: TINY })
    &&& !new.below(Real { bits: TINY })
}

/// Which end of a curve changes: the end, unless the start is nearer.
pub open spec fn changes_end(to_start: Real, to_end: Real) -> bool {
    to_start.reaches(to_end)
}

/// Which end of a curve changes, given the distances of both from the pick.
pub fn end_changes(to_start: Real, to_end: Real) -> (r: bool)
    ensures
        r == changes_end(to_start, to_end),
{
    to_start.at_least(&to_end)
}

fn length_ok(mode: &LenMode, current: Real, new: Real) -> (r: bool)
    ensures
        r == length_fits(*mode, current, new),
{
    let gives = match mode {
        LenMode::Delta(_) | LenMode::Total(_) | LenMode::Percent(_) => true,
        _ => false,
    };
    gives && !current.less(&Real { bits: TINY }) && !new.less(&Real { bits: TINY })
}

/// What the geometry kernel found for a change of a curve's length.
pub struct Measures {
    /// The ends of a line after the change.
    pub line: Option<(Point3, Point3)>,
    /// The angles of an arc after the change.
    pub arc: Option<(Real, Real)>,
    /// The major radius of an ellipse, or how far the ends of a spline's knots
    /// are apart.
    pub extent: Real,
    /// The length of the curve, or of the last segment of a polyline.
    pub current: Real,
    /// The length after the change.
    pub new: Real,
    /// The distances of the ends from the pick.
    pub to_start: Real,
    pub to_end: Real,
    /// The parameter of an ellipse at its changed end.
    pub parameter: Real,
    /// The vertices of a polyline in the horizontal plane, and where its
    /// changed end comes to lie.
    pub flat: Option<LwPolyline>,
    pub moved: Point2,
    /// A spline cut in two, each part with its properties.
    pub halves: Option<(SplineEntity, SplineEntity)>,
}

/// The entity after a change of its length, without a handle. Of a spline one
/// part is kept as it was cut.
pub open spec fn lengthened(e: EntityModel, mode: LenMode, m: Measures) -> Option<EntityModel> {
    let common = CommonModel { handle: NO_HANDLE, ..e.common };
    match e.shape {
        ShapeModel::Line(l) => match m.line {
            Some((start, end)) => Some(
                EntityModel { common, shape: ShapeModel::Line(Line { start, end, ..l }) },
            ),
            None => None,
        },
        ShapeModel::Arc(a) => match m.arc {
            Some((start_angle, end_angle)) => Some(
                EntityModel {
                    common,
                    shape: ShapeModel::Arc(Arc { start_angle, end_angle, ..a }),
                },
            ),
            None => None,
        },
        ShapeModel::Ellipse(l) => if m.extent.below(Real { bits: TINY_AXIS }) || !length_fits(
            mode,
            m.current,
            m.new,
        ) {
            None
        } else {
            let shape = if changes_end(m.to_start, m.to_end) {
                Ellipse { end: m.parameter, ..l }
            } else {
                Ellipse { start: m.parameter, ..l }
            };
            Some(EntityModel { common, shape: ShapeModel::Ellipse(shape) })
        },
        ShapeModel::Spline(s) => if m.extent.below(Real { bits: TINY_SPAN }) || !length_fits(
            mode,
            m.current,
            m.new,
        ) || m.new.reaches(m.current) {
            None
        } else {
            match m.halves {
                Some((left, right)) => Some(
                    if changes_end(m.to_start, m.to_end) {
                        left@.entity()
                    } else {
                        right@.entity()
                    },
                ),
                None => None,
            }
        },
        ShapeModel::LwPolyline(_) => match m.flat {
            Some(p) => if p@.vertices.len() < 2 || !length_fits(mode, m.current, m.new) {
                None
            } else {
                let i = if changes_end(m.to_start, m.to_end) {
                    p@.vertices.len() - 1
                } else {
                    0
                };
                let v = p@.vertices;
                Some(
                    EntityModel {
                        common,
                        shape: ShapeModel::LwPolyline(
                            LwModel {
                                vertices: v.update(i, LwVertex { location: m.moved, ..v[i] }),
                                form: p@.form,
                            },
                        ),
                    },
                )
            },
            None => None,
        },
        _ => None,
    }
}

/// Changes the length of a curve at the end nearer to the pick, given what the
/// geometry kernel found for it.
pub fn lengthen_entity(entity: &Entity, mode: &LenMode, measures: &Measures) -> (r: Option<Entity>)
    ensures
        match r {
            Some(e) => lengthened(entity@, *mode, *measures) == Some(e@),
            None => lengthened(entity@, *mode, *measures) is None,
        },
{
    let shape = match &entity.shape {
        Shape::Line(l) => match measures.line {
            Some((start, end)) => Shape::Line(
                Line { start, end, thickness: l.thickness, normal: l.normal },
            ),
            None => {
                return None;
            },
        },
        Shape::Arc(a) => match measures.arc {
            Some((start_angle, end_angle)) => {
                let mut b = *a;
                b.start_angle = start_angle;
                b.end_angle = end_angle;
                Shape::Arc(b)
            },
            None => {
                return None;
            },
        },
        Shape::Ellipse(l) => {
            if measures.extent.less(&Real { bits: TINY_AXIS }) || !length_ok(
                mode,
                measures.current,
                measures.new,
            ) {
                return None;
            }
            let mut q = *l;
            if end_changes(measures.to_start, measures.to_end) {
                q.end = measures.parameter;
            } else {
                q.start = measures.parameter;
            }
            Shape::Ellipse(q)
        },
        Shape::Spline(_) => {
            if measures.extent.less(&Real { bits: TINY_SPAN }) || !length_ok(
                mode,
                measures.current,
                measures.new,
            ) || measures.new.at_least(&measures.current) {
                return None;
            }
            return match &measures.halves {
                Some((left, right)) => {
                    let part = if end_changes(measures.to_start, measures.to_end) {
                        left.duplicate()
                    } else {
                        right.duplicate()
                    };
                    Some(part.into_entity())
                },
                None => None,
            };
        },
        Shape::LwPolyline(_) => match &measures.flat {
            Some(p) => {
                let n: usize = p.vertices.len();
                if n < 2 || !length_ok(mode, measures.current, measures.new) {
                    return None;
                }
                let i: usize = if end_changes(measures.to_start, measures.to_end) {
                    n - 1
                } else {
                    0
                };
                let mut vertices = copy_of(&p.vertices);
                let v = vertices[i];
                vertices.set(i, LwVertex { location: measures.moved, ..v });
                Shape::LwPolyline(LwPolyline { vertices, form: p.form })
            },
            None => {
                return None;
            },
        },
        _ => {
            return None;
        },
    };
    Some(Entity { common: entity.common.with_handle(NO_HANDLE), shape })
}

/// A change of length keeps the family of an entity, and unless that is a
/// spline, all of its properties but the handle.
pub proof fn lengthening_keeps(e: EntityModel, mode: LenMode, m: Measures)
    ensures
        lengthened(e, mode, m) matches Some(r) ==> {
            &&& !(e.shape is Spline) ==> r.common == (CommonModel {
                handle: NO_HANDLE,
                ..e.common
            })
            &&& (r.shape is Line) == (e.shape is Line)
            &&& (r.shape is Arc) == (e.shape is Arc)
            &&& (r.shape is Ellipse) == (e.shape is Ellipse)
            &&& (r.shape is Spline) == (e.shape is Spline)
            &&& (r.shape is LwPolyline) == (e.shape is LwPolyline)
        },
{
}

/// A spline is never made longer.
pub proof fn splines_only_shorten(e: EntityModel, mode: LenMode, m: Measures)
    requires
        e.shape is Spline,
        m.new.reaches(m.current),
    ensures
        lengthened(e, mode, m) is None,
{
}

/// A value that was taken is the one that is offered the next time.
pub proof fn value_is_offered_again(
    s: LengthenState,
    d: LengthenDefaults,
    mode: ValueMode,
    n: Typed,
)
    requires
        value_fits(mode, n.value),
        mode != ValueMode::Dynamic,
    ensures
        valued(s, d, mode, Some(n)).1.value(mode) == n.value,
        valued(s, d, mode, Some(n)).0.state is Apply,
{
}

} // verus!
