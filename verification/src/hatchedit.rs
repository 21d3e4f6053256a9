//! Editing a hatch: its pattern, appearance, order and boundary.
use crate::command::{
    answer, phrase_model, plain_phrase, CmdOption, CmdResult, Phrase, PhraseModel, ResultModel, Slot,
    SlotModel,
};
use crate::entity::{
    copy_of, Color, Entity, EntityModel, Handle, HatchStyle, NO_HANDLE, Shape, ShapeModel, Transparency,
};
use crate::text::{
    after_prefix, ascii_upper, begins, decimal_text, either, equal_but_case, filled, is_either,
    join3, keyword_of, owned, points_for_commas, read_signed, read_unsigned, same,
    same_but_case, signed_value, split, split_filled, split_on, texts, to_ascii_upper, to_upper,
    trim, trimmed, unsigned_value,
};
use crate::value::{one, zero, Real};
use vstd::prelude::*;

verus! {

/// A boundary loop found for a hatch. Equal loops have the same `id`; `owners`
/// counts the entities that the loop runs along.
#[derive(Clone, Copy, Debug, PartialEq, Eq, Structural)]
pub struct FoundPath {
    pub id: u64,
    pub owners: usize,
}

/// A transparency to give to a hatch.
#[derive(Clone, Copy, Debug, PartialEq, Eq, Structural)]
pub enum Clarity {
    Exactly(Transparency),
    /// So many hundredths of full transparency.
    Percent(u8),
}

/// An edit of a hatch.
#[derive(Debug)]
pub enum HatchEditOperation {
    /// Set the pattern, and what else is given.
    Update {
        origin: Option<(Real, Real)>,
        disassociate: bool,
        style: Option<HatchStyle>,
        annotative: Option<bool>,
    },
    /// Set the properties that are given.
    Appearance {
        color: Option<Color>,
        layer: Option<String>,
        transparency: Option<Clarity>,
    },
    DrawOrderFront,
    DrawOrderBack,
    DrawOrderBoundary { above: bool },
    RecreateBoundary { associate: bool, region: bool },
    /// Make a hatch of each loop.
    Separate,
    BeginAssociate,
    AddBoundaries(Vec<Handle>),
    RemoveBoundaries(Vec<Handle>),
    AssociatePaths(Vec<FoundPath>),
}

/// The contents of a [`HatchEditOperation`].
pub enum HatchEditModel {
    Update {
        origin: Option<(Real, Real)>,
        disassociate: bool,
        style: Option<HatchStyle>,
        annotative: Option<bool>,
    },
    Appearance {
        color: Option<Color>,
        layer: Option<Seq<char>>,
        transparency: Option<Clarity>,
    },
    DrawOrderFront,
    DrawOrderBack,
    DrawOrderBoundary { above: bool },
    RecreateBoundary { associate: bool, region: bool },
    Separate,
    BeginAssociate,
    AddBoundaries(Seq<Handle>),
    RemoveBoundaries(Seq<Handle>),
    AssociatePaths(Seq<FoundPath>),
}

impl View for HatchEditOperation {
    type V = HatchEditModel;

    open spec fn view(&self) -> HatchEditModel {
        match self {
            HatchEditOperation::Update { origin, disassociate, style, annotative } =>
            HatchEditModel::Update {
                origin: *origin,
                disassociate: *disassociate,
                style: *style,
                annotative: *annotative,
            },
            HatchEditOperation::Appearance { color, layer, transparency } =>
            HatchEditModel::Appearance {
                color: *color,
                layer: match layer {
                    Some(s) => Some(s@),
                    None => None,
                },
                transparency: *transparency,
            },
            HatchEditOperation::DrawOrderFront => HatchEditModel::DrawOrderFront,
            HatchEditOperation::DrawOrderBack => HatchEditModel::DrawOrderBack,
            HatchEditOperation::DrawOrderBoundary { above } =>
            HatchEditModel::DrawOrderBoundary { above: *above },
            HatchEditOperation::RecreateBoundary { associate, region } =>
            HatchEditModel::RecreateBoundary { associate: *associate, region: *region },
            HatchEditOperation::Separate => HatchEditModel::Separate,
            HatchEditOperation::BeginAssociate => HatchEditModel::BeginAssociate,
            HatchEditOperation::AddBoundaries(v) => HatchEditModel::AddBoundaries(v@),
            HatchEditOperation::RemoveBoundaries(v) => HatchEditModel::RemoveBoundaries(v@),
            HatchEditOperation::AssociatePaths(v) => HatchEditModel::AssociatePaths(v@),
        }
    }
}

/// The value that the command is asking for.
#[derive(Clone, Copy, Debug, PartialEq, Eq, Structural)]
pub enum Input {
    Style,
    Annotative,
    AssociatePoint,
    AssociateSelect,
    Color,
    Truecolor,
    Layer,
    Transparency,
    DrawOrder,
    BoundaryType,
    BoundaryAssociate,
    Pattern,
    Scale,
    Angle,
}

/// The hatch that is being edited and the pattern it will get.
#[derive(Debug)]
pub struct Editing {
    pub handle: Handle,
    pub name: String,
    pub scale: Real,
    pub angle: Real,
}

/// The contents of an [`Editing`].
#[verifier::ext_equal]
pub struct EditingModel {
    pub handle: Handle,
    pub name: Seq<char>,
    pub scale: Real,
    pub angle: Real,
}

impl View for Editing {
    type V = EditingModel;

    open spec fn view(&self) -> EditingModel {
        EditingModel {
            handle: self.handle,
            name: self.name@,
            scale: self.scale,
            angle: self.angle,
        }
    }
}

/// What a hatch looked like when the command started.
#[derive(Debug)]
pub struct Appearance {
    pub color: Color,
    pub layer: String,
    pub transparency: Transparency,
}

/// The contents of an [`Appearance`].
#[verifier::ext_equal]
pub struct AppearanceModel {
    pub color: Color,
    pub layer: Seq<char>,
    pub transparency: Transparency,
}

impl View for Appearance {
    type V = AppearanceModel;

    open spec fn view(&self) -> AppearanceModel {
        AppearanceModel {
            color: self.color,
            layer: self.layer@,
            transparency: self.transparency,
        }
    }
}

/// The command that edits a hatch.
pub struct HatcheditCommand {
    pub editing: Option<Editing>,
    pub origin: Option<(Real, Real)>,
    pub disassociate: bool,
    pub style: Option<HatchStyle>,
    pub annotative: Option<bool>,
    pub annotative_current: bool,
    pub style_current: HatchStyle,
    pub input: Option<Input>,
    pub boundary_selection: Vec<Handle>,
    pub source_appearance: Option<Appearance>,
    pub current_color: Color,
    pub current_transparency: Transparency,
    pub boundary_region: bool,
    pub association_sources: Option<Vec<Handle>>,
    pub association_paths: Vec<FoundPath>,
    pub association_missed: bool,
}

/// The contents of a [`HatcheditCommand`].
#[verifier::ext_equal]
pub struct HatchState {
    pub editing: Option<EditingModel>,
    pub origin: Option<(Real, Real)>,
    pub disassociate: bool,
    pub style: Option<HatchStyle>,
    pub annotative: Option<bool>,
    pub annotative_current: bool,
    pub style_current: HatchStyle,
    pub input: Option<Input>,
    pub boundary_selection: Seq<Handle>,
    pub source_appearance: Option<AppearanceModel>,
    pub current_color: Color,
    pub current_transparency: Transparency,
    pub boundary_region: bool,
    pub association_sources: Option<Seq<Handle>>,
    pub association_paths: Seq<FoundPath>,
    pub association_missed: bool,
}

impl View for HatcheditCommand {
    type V = HatchState;

    open spec fn view(&self) -> HatchState {
        HatchState {
            editing: match self.editing {
                Some(e) => Some(e@),
                None => None,
            },
            origin: self.origin,
            disassociate: self.disassociate,
            style: self.style,
            annotative: self.annotative,
            annotative_current: self.annotative_current,
            style_current: self.style_current,
            input: self.input,
            boundary_selection: self.boundary_selection@,
            source_appearance: match self.source_appearance {
                Some(a) => Some(a@),
                None => None,
            },
            current_color: self.current_color,
            current_transparency: self.current_transparency,
            boundary_region: self.boundary_region,
            association_sources: match self.association_sources {
                Some(v) => Some(v@),
                None => None,
            },
            association_paths: self.association_paths@,
            association_missed: self.association_missed,
        }
    }
}

/// What a typed text stands for outside the command: whether it names a known
/// pattern, and the numbers that its parts hold.
pub struct Reading {
    pub known_pattern: bool,
    pub numbers: Vec<Option<Real>>,
}

/// The contents of a [`Reading`].
#[verifier::ext_equal]
pub struct ReadingModel {
    pub known_pattern: bool,
    pub numbers: Seq<Option<Real>>,
}

impl View for Reading {
    type V = ReadingModel;

    open spec fn view(&self) -> ReadingModel {
        ReadingModel { known_pattern: self.known_pattern, numbers: self.numbers@ }
    }
}

impl ReadingModel {
    /// The number of the first part.
    pub open spec fn number(self) -> Option<Real> {
        if self.numbers.len() > 0 {
            self.numbers[0]
        } else {
            None
        }
    }
}

impl HatchState {
    /// An edit of the hatch, where there is one.
    pub open spec fn apply(self, operation: HatchEditModel) -> Option<ResultModel> {
        match self.editing {
            Some(e) => Some(
                ResultModel::HatcheditApply {
                    handle: e.handle,
                    name: e.name,
                    scale: e.scale,
                    angle: e.angle,
                    operation,
                },
            ),
            None => None,
        }
    }

    /// The edit that sets the pattern and what else was chosen.
    pub open spec fn update(self) -> HatchEditModel {
        HatchEditModel::Update {
            origin: self.origin,
            disassociate: self.disassociate,
            style: self.style,
            annotative: self.annotative,
        }
    }

    /// The state asking for another value.
    pub open spec fn asking(self, input: Input) -> HatchState {
        HatchState { input: Some(input), ..self }
    }

    /// The state with another pattern name.
    pub open spec fn named(self, name: Seq<char>) -> HatchState {
        match self.editing {
            Some(e) => HatchState { editing: Some(EditingModel { name, ..e }), ..self },
            None => self,
        }
    }

    /// The state with another pattern scale.
    pub open spec fn scaled(self, scale: Real) -> HatchState {
        match self.editing {
            Some(e) => HatchState { editing: Some(EditingModel { scale, ..e }), ..self },
            None => self,
        }
    }

    /// The state with another pattern angle.
    pub open spec fn turned(self, angle: Real) -> HatchState {
        match self.editing {
            Some(e) => HatchState { editing: Some(EditingModel { angle, ..e }), ..self },
            None => self,
        }
    }

    /// The state with the annotative property the other way round.
    pub open spec fn toggled(self) -> HatchState {
        HatchState {
            annotative: Some(
                !(match self.annotative {
                    Some(b) => b,
                    None => self.annotative_current,
                }),
            ),
            ..self
        }
    }
}

/// The state of a command that edits a hatch.
pub open spec fn started(editing: Option<EditingModel>, annotative: bool) -> HatchState {
    HatchState {
        editing,
        origin: None,
        disassociate: false,
        style: None,
        annotative: None,
        annotative_current: annotative,
        style_current: HatchStyle::Normal,
        input: None,
        boundary_selection: Seq::empty(),
        source_appearance: None,
        current_color: Color::ByLayer,
        current_transparency: Transparency::ByLayer,
        boundary_region: false,
        association_sources: None,
        association_paths: Seq::empty(),
        association_missed: false,
    }
}

/// The edit that sets the colour.
pub open spec fn recolor(color: Color) -> HatchEditModel {
    HatchEditModel::Appearance { color: Some(color), layer: None, transparency: None }
}

/// The colour that an index stands for.
pub open spec fn indexed(n: int) -> Color {
    if n == 0 {
        Color::ByBlock
    } else if n == 256 {
        Color::ByLayer
    } else {
        Color::Index(n as u8)
    }
}

/// The colour that a word names: the current one by a full stop, a named one,
/// or one by its number from 0 to 256.
pub open spec fn color_named(s: HatchState, kw: Seq<char>) -> Option<Color> {
    if kw == "."@ {
        Some(s.current_color)
    } else if kw == "BYLAYER"@ {
        Some(Color::ByLayer)
    } else if kw == "BYBLOCK"@ {
        Some(Color::ByBlock)
    } else if kw == "RED"@ {
        Some(Color::Index(1))
    } else if kw == "YELLOW"@ {
        Some(Color::Index(2))
    } else if kw == "GREEN"@ {
        Some(Color::Index(3))
    } else if kw == "CYAN"@ {
        Some(Color::Index(4))
    } else if kw == "BLUE"@ {
        Some(Color::Index(5))
    } else if kw == "MAGENTA"@ {
        Some(Color::Index(6))
    } else if kw == "WHITE"@ {
        Some(Color::Index(7))
    } else {
        match signed_value(kw, -32768, 32767) {
            Some(n) => if 0 <= n <= 256 {
                Some(indexed(n))
            } else {
                None
            },
            None => None,
        }
    }
}

/// A part of a colour: a number up to 255 with white space around it.
pub open spec fn channel(part: Seq<char>) -> Option<int> {
    unsigned_value(trimmed(part), 10, 255)
}

/// The colour that three numbers between commas make.
pub open spec fn rgb_of(kw: Seq<char>) -> Option<Color> {
    let parts = split_on(kw, ","@);
    if parts.len() == 3 && channel(parts[0]) is Some && channel(parts[1]) is Some && channel(
        parts[2],
    ) is Some {
        Some(
            Color::Rgb {
                r: channel(parts[0])->0 as u8,
                g: channel(parts[1])->0 as u8,
                b: channel(parts[2])->0 as u8,
            },
        )
    } else {
        None
    }
}

/// The transparency that a word names: the current one by a full stop, an
/// inherited one, or a percentage up to 90.
pub open spec fn clarity_named(s: HatchState, kw: Seq<char>) -> Option<Clarity> {
    if kw == "."@ {
        Some(Clarity::Exactly(s.current_transparency))
    } else if kw == "BYLAYER"@ {
        Some(Clarity::Exactly(Transparency::ByLayer))
    } else if kw == "BYBLOCK"@ {
        Some(Clarity::Exactly(Transparency::ByBlock))
    } else {
        match unsigned_value(kw, 10, 255) {
            Some(n) => if n <= 90 {
                Some(Clarity::Percent(n as u8))
            } else {
                None
            },
            None => None,
        }
    }
}

/// The style that a word names.
pub open spec fn style_named(kw: Seq<char>) -> Option<HatchStyle> {
    if either(kw, "I"@, "IGNORE"@) {
        Some(HatchStyle::Ignore)
    } else if either(kw, "O"@, "OUTER"@) {
        Some(HatchStyle::Outer)
    } else if either(kw, "N"@, "NORMAL"@) {
        Some(HatchStyle::Normal)
    } else {
        None
    }
}

/// The truth that a word names.
pub open spec fn truth_named(kw: Seq<char>) -> Option<bool> {
    if either(kw, "Y"@, "YES"@) {
        Some(true)
    } else if either(kw, "N"@, "NO"@) {
        Some(false)
    } else {
        None
    }
}

/// What an answer is where it may be missing.
pub open spec fn or_need_point(r: Option<ResultModel>) -> Option<ResultModel> {
    match r {
        Some(r) => Some(r),
        None => Some(ResultModel::NeedPoint),
    }
}

/// A typed word at the question for a colour.
pub open spec fn typed_color(s: HatchState, kw: Seq<char>) -> (HatchState, Option<ResultModel>) {
    if either(kw, "T"@, "TRUECOLOR"@) {
        (s.asking(Input::Truecolor), Some(ResultModel::NeedPoint))
    } else {
        match color_named(s, kw) {
            Some(c) => (s, or_need_point(s.apply(recolor(c)))),
            None => (s, Some(ResultModel::NeedPoint)),
        }
    }
}

/// A typed word at the question for the order of drawing.
pub open spec fn typed_order(s: HatchState, kw: Seq<char>) -> Option<ResultModel> {
    if either(kw, "F"@, "FRONT"@) {
        s.apply(HatchEditModel::DrawOrderFront)
    } else if either(kw, "H"@, "BEHIND"@) {
        s.apply(HatchEditModel::DrawOrderBoundary { above: false })
    } else if kw == "D"@ {
        s.apply(HatchEditModel::DrawOrderBoundary { above: true })
    } else if either(kw, "B"@, "BACK"@) {
        s.apply(HatchEditModel::DrawOrderBack)
    } else if either(kw, "N"@, "NOT"@) {
        Some(ResultModel::Cancel)
    } else {
        Some(ResultModel::NeedPoint)
    }
}

/// A typed pattern name.
pub open spec fn typed_pattern(s: HatchState, kw: Seq<char>, known: bool) -> (
    HatchState,
    Option<ResultModel>,
) {
    if !known {
        (s, Some(ResultModel::NeedPoint))
    } else if kw == "SOLID"@ {
        (s.named(kw), s.named(kw).apply(s.update()))
    } else {
        (s.named(kw).asking(Input::Scale), Some(ResultModel::NeedPoint))
    }
}

/// A typed pattern scale.
pub open spec fn typed_scale(s: HatchState, number: Option<Real>) -> (
    HatchState,
    Option<ResultModel>,
) {
    match number {
        Some(v) => if v.positive() {
            (s.scaled(v).asking(Input::Angle), Some(ResultModel::NeedPoint))
        } else {
            (s, Some(ResultModel::NeedPoint))
        },
        None => (s, Some(ResultModel::NeedPoint)),
    }
}

/// A typed pattern angle.
pub open spec fn typed_angle(s: HatchState, number: Option<Real>) -> (
    HatchState,
    Option<ResultModel>,
) {
    match number {
        Some(v) => if v.finite() {
            (s.turned(v), s.turned(v).apply(s.update()))
        } else {
            (s, Some(ResultModel::NeedPoint))
        },
        None => (s, Some(ResultModel::NeedPoint)),
    }
}

/// A typed text while a value is asked for. `plain` is the text without white
/// space around it.
pub open spec fn typed_value(s: HatchState, input: Input, plain: Seq<char>, read: ReadingModel) -> (
    HatchState,
    Option<ResultModel>,
) {
    let kw = ascii_upper(plain);
    let stay = (s, Some(ResultModel::NeedPoint));
    match input {
        Input::Style => match style_named(kw) {
            Some(style) => {
                let t = HatchState { style: Some(style), ..s };
                (t, t.apply(t.update()))
            },
            None => stay,
        },
        Input::Annotative => match truth_named(kw) {
            Some(b) => {
                let t = HatchState { annotative: Some(b), ..s };
                (t, t.apply(t.update()))
            },
            None => stay,
        },
        Input::AssociatePoint => if either(kw, "S"@, "SELECT"@) || kw == "SELECT OBJECTS"@ {
            (s.asking(Input::AssociateSelect), Some(ResultModel::NeedPoint))
        } else {
            stay
        },
        Input::AssociateSelect => stay,
        Input::Color => typed_color(s, kw),
        Input::Truecolor => match rgb_of(kw) {
            Some(c) => (s, s.apply(recolor(c))),
            None => stay,
        },
        Input::Layer => if plain.len() > 0 {
            (
                s,
                s.apply(
                    HatchEditModel::Appearance {
                        color: None,
                        layer: Some(plain),
                        transparency: None,
                    },
                ),
            )
        } else {
            stay
        },
        Input::Transparency => match clarity_named(s, kw) {
            Some(c) => (
                s,
                s.apply(
                    HatchEditModel::Appearance {
                        color: None,
                        layer: None,
                        transparency: Some(c),
                    },
                ),
            ),
            None => stay,
        },
        Input::DrawOrder => (s, typed_order(s, kw)),
        Input::BoundaryType => if either(kw, "P"@, "POLYLINE"@) {
            (
                HatchState { boundary_region: false, ..s }.asking(Input::BoundaryAssociate),
                Some(ResultModel::NeedPoint),
            )
        } else if either(kw, "R"@, "REGION"@) {
            (
                HatchState { boundary_region: true, ..s }.asking(Input::BoundaryAssociate),
                Some(ResultModel::NeedPoint),
            )
        } else {
            stay
        },
        Input::BoundaryAssociate => match truth_named(kw) {
            Some(b) => (
                s,
                s.apply(
                    HatchEditModel::RecreateBoundary { associate: b, region: s.boundary_region },
                ),
            ),
            None => stay,
        },
        Input::Pattern => typed_pattern(s, kw, read.known_pattern),
        Input::Scale => typed_scale(s, read.number()),
        Input::Angle => typed_angle(s, read.number()),
    }
}

/// The value that an option asks for.
pub open spec fn option_input(kw: Seq<char>) -> Option<Input> {
    if either(kw, "S"@, "STYLE"@) {
        Some(Input::Style)
    } else if either(kw, "P"@, "PROPERTIES"@) {
        Some(Input::Pattern)
    } else if either(kw, "CO"@, "COLOR"@) {
        Some(Input::Color)
    } else if either(kw, "LA"@, "LAYER"@) {
        Some(Input::Layer)
    } else if either(kw, "AN"@, "ANNOTATIVE"@) {
        Some(Input::Annotative)
    } else if either(kw, "T"@, "TRANSPARENCY"@) {
        Some(Input::Transparency)
    } else if either(kw, "DR"@, "DRAW"@) || kw == "DRAW ORDER"@ {
        Some(Input::DrawOrder)
    } else if either(kw, "B"@, "BOUNDARY"@) || either(kw, "R"@, "RECREATE"@) {
        Some(Input::BoundaryType)
    } else {
        None
    }
}

/// A text without the marks `0X` at its front.
pub open spec fn without_marks(s: Seq<char>) -> Seq<char>
    decreases s.len(),
{
    if s.len() >= 2 && s[0] == '0' && s[1] == 'X' {
        without_marks(s.skip(2))
    } else {
        s
    }
}

/// The handle that a hexadecimal number names.
pub open spec fn handle_of(part: Seq<char>) -> Option<int> {
    unsigned_value(without_marks(part), 16, u64::MAX as int)
}

/// The handles among some words; the others are passed over.
pub open spec fn handles_of(parts: Seq<Seq<char>>) -> Seq<Handle>
    decreases parts.len(),
{
    if parts.len() == 0 {
        Seq::empty()
    } else {
        let before = handles_of(parts.drop_last());
        match handle_of(parts.last()) {
            Some(n) => before.push(n as Handle),
            None => before,
        }
    }
}

/// The words of a list: what stands between commas, semicolons and blanks.
pub open spec fn words(s: Seq<char>) -> Seq<Seq<char>> {
    filled(split_on(s, ",; "@))
}

/// The numbers that were read, without what was no number.
pub open spec fn read_numbers(numbers: Seq<Option<Real>>) -> Seq<Real>
    decreases numbers.len(),
{
    if numbers.len() == 0 {
        Seq::empty()
    } else {
        let before = read_numbers(numbers.drop_last());
        match numbers.last() {
            Some(v) => before.push(v),
            None => before,
        }
    }
}

/// What follows the first character.
pub open spec fn rest_of(s: Seq<char>) -> Seq<char> {
    s.skip(1)
}

/// A typed text in the short form, a letter and a value, in upper case.
pub open spec fn typed_short(s: HatchState, up: Seq<char>, read: ReadingModel) -> (
    HatchState,
    Option<ResultModel>,
) {
    let stay = (s, Some(ResultModel::NeedPoint));
    if up.len() == 0 {
        (s, s.apply(s.update()))
    } else if up == "ANNOTATIVE"@ {
        (s.toggled(), Some(ResultModel::NeedPoint))
    } else if up == "SEPARATE"@ {
        (s, s.apply(HatchEditModel::Separate))
    } else if begins(up, "P"@) {
        let name = trimmed(rest_of(up));
        if name.len() > 0 {
            (s.named(name), Some(ResultModel::NeedPoint))
        } else {
            stay
        }
    } else if begins(up, "S"@) {
        match read.number() {
            Some(v) => if zero().below(v) {
                (s.scaled(v), Some(ResultModel::NeedPoint))
            } else {
                stay
            },
            None => stay,
        }
    } else if begins(up, "A"@) {
        match read.number() {
            Some(v) => (s.turned(v), Some(ResultModel::NeedPoint)),
            None => stay,
        }
    } else if begins(up, "O"@) {
        let values = read_numbers(read.numbers);
        if values.len() >= 2 {
            (
                HatchState { origin: Some((values[0], values[1])), ..s },
                Some(ResultModel::NeedPoint),
            )
        } else {
            stay
        }
    } else if either(up, "D"@, "DISASSOCIATE"@) {
        (HatchState { disassociate: true, ..s }, Some(ResultModel::NeedPoint))
    } else if begins(up, "Y"@) {
        match style_named(trimmed(rest_of(up))) {
            Some(style) => (
                HatchState { style: Some(style), ..s },
                Some(ResultModel::NeedPoint),
            ),
            None => stay,
        }
    } else if up == "N"@ {
        (s.toggled(), Some(ResultModel::NeedPoint))
    } else if either(up, "R"@, "RECREATE"@) {
        (s.asking(Input::BoundaryType), Some(ResultModel::NeedPoint))
    } else if up == "E"@ {
        (s, s.apply(HatchEditModel::Separate))
    } else if either(up, "F"@, "FRONT"@) {
        (s, s.apply(HatchEditModel::DrawOrderFront))
    } else if either(up, "B"@, "BACK"@) {
        (s, s.apply(HatchEditModel::DrawOrderBack))
    } else if begins(up, "+"@) {
        (s, s.apply(HatchEditModel::AddBoundaries(handles_of(words(rest_of(up))))))
    } else if begins(up, "-"@) {
        (s, s.apply(HatchEditModel::RemoveBoundaries(handles_of(words(rest_of(up))))))
    } else {
        stay
    }
}

/// What a typed text does. `plain` is the text without white space around it,
/// and `up` the same in upper case.
pub open spec fn typed(s: HatchState, plain: Seq<char>, up: Seq<char>, read: ReadingModel) -> (
    HatchState,
    Option<ResultModel>,
) {
    let kw = ascii_upper(plain);
    match s.input {
        Some(input) => typed_value(s, input, plain, read),
        None => match option_input(kw) {
            Some(input) => (s.asking(input), Some(ResultModel::NeedPoint)),
            None => if either(kw, "H"@, "HATCHES"@) || kw == "SEPARATE"@ {
                (s, s.apply(HatchEditModel::Separate))
            } else if either(kw, "AS"@, "ASSOCIATE"@) {
                (s, s.apply(HatchEditModel::BeginAssociate))
            } else if either(kw, "DI"@, "DISASSOCIATE"@) {
                let t = HatchState { disassociate: true, ..s };
                (t, t.apply(t.update()))
            } else if s.editing is None {
                (s, None)
            } else {
                typed_short(s, up, read)
            },
        },
    }
}

/// The texts to read numbers from, in the order in which they are looked at.
pub open spec fn number_parts(s: HatchState, plain: Seq<char>, up: Seq<char>) -> Seq<Seq<char>> {
    match s.input {
        Some(Input::Scale) => seq![ascii_upper(plain)],
        Some(Input::Angle) => seq![ascii_upper(plain)],
        Some(_) => Seq::empty(),
        None => if begins(up, "S"@) || begins(up, "A"@) {
            seq![points_for_commas(trimmed(rest_of(up)))]
        } else if begins(up, "O"@) {
            words(trimmed(rest_of(up)))
        } else {
            Seq::empty()
        },
    }
}

/// What the Enter key does.
pub open spec fn entered(s: HatchState) -> (HatchState, ResultModel) {
    match s.input {
        None => (s, or_cancel(s.apply(s.update()))),
        Some(Input::Style) => {
            let t = HatchState { style: Some(s.style_current), ..s };
            (t, or_cancel(t.apply(t.update())))
        },
        Some(Input::Annotative) => {
            let t = HatchState { annotative: Some(s.annotative_current), ..s };
            (t, or_cancel(t.apply(t.update())))
        },
        Some(Input::Pattern) => if s.editing is Some && same_but_case(
            (s.editing->0).name,
            "SOLID"@,
        ) {
            (s, or_cancel(s.apply(s.update())))
        } else {
            (s.asking(Input::Scale), ResultModel::NeedPoint)
        },
        Some(Input::Scale) => (s.asking(Input::Angle), ResultModel::NeedPoint),
        Some(Input::Angle) => (s, or_cancel(s.apply(s.update()))),
        Some(Input::BoundaryType) => (
            HatchState { boundary_region: false, ..s }.asking(Input::BoundaryAssociate),
            ResultModel::NeedPoint,
        ),
        Some(Input::BoundaryAssociate) => (
            s,
            or_cancel(
                s.apply(
                    HatchEditModel::RecreateBoundary {
                        associate: false,
                        region: s.boundary_region,
                    },
                ),
            ),
        ),
        Some(Input::AssociateSelect) => (
            s.asking(Input::AssociatePoint),
            ResultModel::NeedPoint,
        ),
        Some(Input::AssociatePoint) => if s.association_paths.len() == 0 {
            (s, ResultModel::Cancel)
        } else {
            (s, or_cancel(s.apply(HatchEditModel::AssociatePaths(s.association_paths))))
        },
        Some(_) => (s, ResultModel::Cancel),
    }
}

/// An answer, or the end of the command where there is none.
pub open spec fn or_cancel(r: Option<ResultModel>) -> ResultModel {
    match r {
        Some(r) => r,
        None => ResultModel::Cancel,
    }
}

/// `list` with the loops of `new` that it does not have yet.
pub open spec fn with_new(list: Seq<FoundPath>, new: Seq<FoundPath>) -> Seq<FoundPath>
    decreases new.len(),
{
    if new.len() == 0 {
        list
    } else {
        let before = with_new(list, new.drop_last());
        if before.contains(new.last()) {
            before
        } else {
            before.push(new.last())
        }
    }
}

/// Whether boundary loops were found for all of some rings, and each runs along
/// an entity.
pub open spec fn all_found(rings: int, paths: Seq<FoundPath>) -> bool {
    &&& paths.len() > 0
    &&& paths.len() == rings
    &&& forall|i: int| 0 <= i < paths.len() ==> (#[trigger] paths[i]).owners > 0
}

/// The state after boundary loops were looked for.
pub open spec fn with_rings(s: HatchState, rings: int, paths: Seq<FoundPath>) -> HatchState {
    if all_found(rings, paths) {
        HatchState {
            association_missed: false,
            association_paths: with_new(s.association_paths, paths),
            ..s
        }
    } else {
        HatchState { association_missed: true, ..s }
    }
}

/// The state of a command that starts at the search for a boundary.
pub open spec fn associating(editing: EditingModel, sources: Seq<Handle>) -> HatchState {
    HatchState {
        input: Some(Input::AssociatePoint),
        association_sources: Some(sources),
        ..started(Some(editing), false)
    }
}

/// The state once it is known what the hatch looks like, and the current colour
/// and transparency of the drawing.
pub open spec fn appearing(
    s: HatchState,
    entity: Option<EntityModel>,
    current_color: Color,
    current_transparency: Transparency,
) -> HatchState {
    HatchState {
        style_current: match entity {
            Some(e) => match e.shape {
                ShapeModel::Hatch(h) => h.style,
                _ => s.style_current,
            },
            None => s.style_current,
        },
        source_appearance: match entity {
            Some(e) => Some(
                AppearanceModel {
                    color: e.common.color,
                    layer: e.common.layer,
                    transparency: e.common.transparency,
                },
            ),
            None => None,
        },
        current_color,
        current_transparency,
        ..s
    }
}

/// The entities of a selection that a boundary can run along.
pub open spec fn candidates(s: HatchState, handles: Seq<Handle>) -> Seq<Handle> {
    match s.association_sources {
        Some(sources) => sources.filter(|h: Handle| handles.contains(h)),
        None => Seq::empty(),
    }
}

/// What a selection does, `rings` and `paths` being what was found around it.
pub open spec fn selected(
    s: HatchState,
    handles: Seq<Handle>,
    rings: int,
    paths: Seq<FoundPath>,
) -> HatchState {
    let t = HatchState { boundary_selection: handles, ..s };
    (if t.association_sources is Some {
        with_rings(t, rings, paths)
    } else {
        t
    }).asking(Input::AssociatePoint)
}

/// What a given point does, `found` being the rings and loops around it.
pub open spec fn spotted(s: HatchState, found: Option<(int, Seq<FoundPath>)>) -> HatchState {
    if s.input == Some(Input::AssociatePoint) && s.association_sources is Some {
        match found {
            Some((rings, paths)) => with_rings(s, rings, paths),
            None => HatchState { association_missed: true, ..s },
        }
    } else {
        s
    }
}

/// What picking a hatch does.
pub open spec fn picked(s: HatchState, handle: Handle) -> HatchState {
    if handle == NO_HANDLE {
        s
    } else {
        HatchState {
            editing: Some(EditingModel { handle, name: ""@, scale: one(), angle: zero() }),
            ..s
        }
    }
}

/// The texts of the values that a prompt can show.
pub struct Shown {
    pub color: String,
    pub percent: String,
    pub scale: String,
    pub angle: String,
}

/// The contents of a [`Shown`].
#[verifier::ext_equal]
pub struct ShownModel {
    pub color: Seq<char>,
    pub percent: Seq<char>,
    pub scale: Seq<char>,
    pub angle: Seq<char>,
}

impl View for Shown {
    type V = ShownModel;

    open spec fn view(&self) -> ShownModel {
        ShownModel {
            color: self.color@,
            percent: self.percent@,
            scale: self.scale@,
            angle: self.angle@,
        }
    }
}

/// What is asked for a value.
pub open spec fn value_prompted(s: HatchState, input: Input, shown: ShownModel) -> Seq<char> {
    match input {
        Input::Style => "Enter hatching style [Ignore/Outer/Normal] <"@ + (
        match s.style_current {
            HatchStyle::Normal => "Normal"@,
            HatchStyle::Outer => "Outer"@,
            HatchStyle::Ignore => "Ignore"@,
        }) + ">:"@,
        Input::Color => if s.source_appearance is Some {
            "New color [Truecolor/. (for use current)] <"@ + shown.color + ">:"@
        } else {
            "New color [Truecolor] <ByLayer>:"@
        },
        Input::Layer => match s.source_appearance {
            Some(a) => "Specify layer or [. (for use current)] <"@ + a.layer + ">:"@,
            None => "Specify layer or [. (for use current)]:"@,
        },
        Input::Transparency => match s.source_appearance {
            Some(a) => "Specify transparency (0-90) or ByLayer/ByBlock <"@ + (
            match a.transparency {
                Transparency::ByLayer => "ByLayer"@,
                Transparency::ByBlock => "ByBlock"@,
                Transparency::Explicit(n) => shown.percent,
            }) + ">:"@,
            None => "Specify transparency value (0-90) or ByLayer/ByBlock:"@,
        },
        Input::Pattern => match s.editing {
            Some(e) => "Enter a pattern name or [Solid] <"@ + e.name + ">:"@,
            None => "Enter a pattern name or [Solid]:"@,
        },
        Input::Scale => if s.editing is Some {
            "Specify a scale for the pattern <"@ + shown.scale + ">:"@
        } else {
            "Specify a scale for the pattern:"@
        },
        Input::Angle => if s.editing is Some {
            "Specify an angle for the pattern <"@ + shown.angle + ">:"@
        } else {
            "Specify an angle for the pattern:"@
        },
        Input::Annotative => if s.annotative_current {
            "Make hatch annotative [Yes/No] <Y>:"@
        } else {
            "Make hatch annotative [Yes/No] <N>:"@
        },
        Input::Truecolor => "Specify RGB color (red,green,blue):"@,
        Input::DrawOrder =>
        "Enter draw order [do Not change/send to Back/bring to Front/send beHind boundary/bring in front of bounDary] <do Not change>:"@,
        Input::BoundaryType => "Enter type of boundary object [Region/Polyline] <Polyline>:"@,
        Input::BoundaryAssociate => "Reassociate hatch with new boundary? [Yes/No] <No>:"@,
        Input::AssociateSelect => "Select boundary objects:"@,
        Input::AssociatePoint => if s.association_missed {
            "No closed boundary found. Specify internal point or [Select objects]:"@
        } else {
            "Specify internal point or [Select objects]:"@
        },
    }
}

/// What is asked, where that is asked in the language of the user.
pub open spec fn phrased(s: HatchState, shown: ShownModel) -> Option<PhraseModel> {
    match s.input {
        Some(_) => None,
        None => match s.editing {
            None => Some(plain_phrase("HATCHEDIT  Select hatch:"@)),
            Some(e) => Some(
                PhraseModel {
                    text:
                        "HATCHEDIT  Pattern:%{name}  Scale:%{scale}  Angle:%{angle}  [Style/Properties/COlor/LAyer/Transparency/DRaw order/ASsociate/DIsassociate/ANnotative/recreate Boundary/separate Hatches] <Apply>:"@,
                    values: seq![
                        SlotModel { name: "name"@, value: e.name },
                        SlotModel { name: "scale"@, value: shown.scale },
                        SlotModel { name: "angle"@, value: shown.angle },
                    ],
                },
            ),
        },
    }
}

/// What is asked, `said` being the phrase of the prompt in the language of the
/// user.
pub open spec fn prompted(s: HatchState, shown: ShownModel, said: Seq<char>) -> Seq<char> {
    match s.input {
        Some(input) => value_prompted(s, input, shown),
        None => said,
    }
}

/// The options that are offered.
pub open spec fn offered(s: HatchState) -> Seq<CmdOption> {
    match s.input {
        Some(Input::AssociatePoint) => seq![CmdOption::new("Select objects", "S")],
        Some(Input::Style) => seq![
            CmdOption::new("Ignore", "I"),
            CmdOption::new("Outer", "O"),
            CmdOption::new("Normal", "N"),
        ],
        Some(Input::DrawOrder) => seq![
            CmdOption::new("Do not change", "N"),
            CmdOption::new("Send to back", "B"),
            CmdOption::new("Bring to front", "F"),
            CmdOption::new("Behind boundary", "H"),
            CmdOption::new("In front of boundary", "D"),
        ],
        Some(Input::Annotative) => seq![CmdOption::new("Yes", "Y"), CmdOption::new("No", "N")],
        Some(Input::BoundaryAssociate) => seq![
            CmdOption::new("Yes", "Y"),
            CmdOption::new("No", "N"),
        ],
        Some(Input::BoundaryType) => seq![
            CmdOption::new("Region", "R"),
            CmdOption::new("Polyline", "P"),
        ],
        Some(Input::Color) => seq![CmdOption::new("Truecolor", "T")],
        Some(Input::Pattern) => seq![CmdOption::new("Solid", "SOLID")],
        Some(_) => Seq::empty(),
        None => if s.editing is None {
            Seq::empty()
        } else {
            seq![
                CmdOption::new("Style", "S"),
                CmdOption::new("Properties", "P"),
                CmdOption::new("Color", "CO"),
                CmdOption::new("Layer", "LA"),
                CmdOption::new("Transparency", "T"),
                CmdOption::new("Draw order", "DR"),
                CmdOption::new("Associate", "AS"),
                CmdOption::new("Disassociate", "DI"),
                CmdOption::new("Annotative", "AN"),
                CmdOption::new("Recreate boundary", "B"),
                CmdOption::new("Separate hatches", "H"),
                CmdOption::enter("Apply"),
            ]
        },
    }
}

/// The Enter key at the options applies the pattern, the scale and the angle
/// that the hatch was given there.
pub proof fn enter_applies_changes(s: HatchState, name: Seq<char>, scale: Real, angle: Real)
    requires
        s.input is None,
        s.editing is Some,
    ensures
        entered(s.named(name).scaled(scale).turned(angle)).1 == (ResultModel::HatcheditApply {
            handle: (s.editing->0).handle,
            name,
            scale,
            angle,
            operation: s.update(),
        }),
{
}

/// Without a hatch no text asks for an edit of one.
pub proof fn no_edit_without_hatch(
    s: HatchState,
    plain: Seq<char>,
    up: Seq<char>,
    read: ReadingModel,
)
    requires
        s.editing is None,
    ensures
        typed(s, plain, up, read).0.editing is None,
        typed(s, plain, up, read).1 matches Some(r) ==> !(r is HatcheditApply),
        !(entered(s).1 is HatcheditApply),
{
}

/// No text changes which hatch is edited.
pub proof fn text_keeps_hatch(s: HatchState, plain: Seq<char>, up: Seq<char>, read: ReadingModel)
    ensures
        s.editing is Some ==> {
            let t = typed(s, plain, up, read).0;
            t.editing is Some && (t.editing->0).handle == (s.editing->0).handle
        },
{
}

/// Two turns of the annotative property bring it back.
pub proof fn toggles_cancel(s: HatchState)
    requires
        s.annotative is Some,
    ensures
        s.toggled().toggled() == s,
{
}

/// A loop found again is not taken twice.
pub proof fn paths_once(list: Seq<FoundPath>, new: Seq<FoundPath>)
    requires
        list.no_duplicates(),
    ensures
        with_new(list, new).no_duplicates(),
        with_new(list, new).len() >= list.len(),
        with_new(list, new).take(list.len() as int) == list,
    decreases new.len(),
{
    if new.len() > 0 {
        paths_once(list, new.drop_last());
        let before = with_new(list, new.drop_last());
        assert(with_new(list, new).take(list.len() as int) =~= list);
    } else {
        assert(list.take(list.len() as int) =~= list);
    }
}

fn to_style(kw: &str) -> (r: Option<HatchStyle>)
    ensures
        r == style_named(kw@),
{
    if is_either(kw, "I", "IGNORE") {
        Some(HatchStyle::Ignore)
    } else if is_either(kw, "O", "OUTER") {
        Some(HatchStyle::Outer)
    } else if is_either(kw, "N", "NORMAL") {
        Some(HatchStyle::Normal)
    } else {
        None
    }
}

fn to_truth(kw: &str) -> (r: Option<bool>)
    ensures
        r == truth_named(kw@),
{
    if is_either(kw, "Y", "YES") {
        Some(true)
    } else if is_either(kw, "N", "NO") {
        Some(false)
    } else {
        None
    }
}

fn to_channel(part: &str) -> (r: Option<u8>)
    ensures
        match r {
            Some(n) => channel(part@) == Some(n as int),
            None => channel(part@) is None,
        },
{
    let t = trim(part);
    match read_unsigned(t.as_str(), 10, 255) {
        Some(n) => Some(n as u8),
        None => None,
    }
}

fn to_rgb(kw: &str) -> (r: Option<Color>)
    ensures
        r == rgb_of(kw@),
{
    let parts = split(kw, ",");
    if parts.len() != 3 {
        return None;
    }
    let ghost all = split_on(kw@, ","@);
    proof {
        assert(texts(parts@) == all);
        assert(all[0] == parts@[0]@ && all[1] == parts@[1]@ && all[2] == parts@[2]@);
    }
    match (
        to_channel(parts[0].as_str()),
        to_channel(parts[1].as_str()),
        to_channel(parts[2].as_str()),
    ) {
        (Some(r), Some(g), Some(b)) => Some(Color::Rgb { r, g, b }),
        _ => None,
    }
}

fn drop_marks(s: &str) -> (r: String)
    ensures
        r@ == without_marks(s@),
    decreases s@.len(),
{
    proof {
        reveal_strlit("0X");
        assert(s@.len() >= 2 && s@[0] == '0' && s@[1] == 'X' ==> s@.take(2) =~= "0X"@);
    }
    match after_prefix(s, "0X") {
        Some(rest) => {
            proof {
                assert(s@.take(2)[0] == '0' && s@.take(2)[1] == 'X');
            }
            drop_marks(rest.as_str())
        },
        None => owned(s),
    }
}

fn to_handles(source: &str) -> (r: Vec<Handle>)
    ensures
        r@ == handles_of(words(source@)),
{
    let parts = split_filled(source, ",; ");
    let ghost all = words(source@);
    let n: usize = parts.len();
    let mut out: Vec<Handle> = Vec::new();
    let mut i: usize = 0;
    proof {
        assert(all.take(0) =~= Seq::<Seq<char>>::empty());
    }
    while i < n
        invariant
            i <= n == parts@.len(),
            texts(parts@) == all,
            out@ == handles_of(all.take(i as int)),
        decreases n - i,
    {
        proof {
            assert(all.take(i + 1).drop_last() =~= all.take(i as int));
            assert(all.take(i + 1).last() == parts@[i as int]@);
        }
        let t = drop_marks(parts[i].as_str());
        if let Some(h) = read_unsigned(t.as_str(), 16, 0xFFFF_FFFF_FFFF_FFFF) {
            out.push(h);
        }
        i += 1;
    }
    proof {
        assert(all.take(n as int) =~= all);
    }
    out
}

fn found_numbers(numbers: &Vec<Option<Real>>) -> (r: Vec<Real>)
    ensures
        r@ == read_numbers(numbers@),
{
    let n: usize = numbers.len();
    let mut out: Vec<Real> = Vec::new();
    let mut i: usize = 0;
    proof {
        assert(numbers@.take(0) =~= Seq::<Option<Real>>::empty());
    }
    while i < n
        invariant
            i <= n == numbers@.len(),
            out@ == read_numbers(numbers@.take(i as int)),
        decreases n - i,
    {
        proof {
            assert(numbers@.take(i + 1).drop_last() =~= numbers@.take(i as int));
        }
        if let Some(v) = numbers[i] {
            out.push(v);
        }
        i += 1;
    }
    proof {
        assert(numbers@.take(n as int) =~= numbers@);
    }
    out
}

fn has_path(list: &Vec<FoundPath>, p: FoundPath) -> (r: bool)
    ensures
        r == list@.contains(p),
{
    let n: usize = list.len();
    let mut i: usize = 0;
    while i < n
        invariant
            i <= n == list@.len(),
            forall|k: int| 0 <= k < i ==> list@[k] != p,
        decreases n - i,
    {
        if list[i] == p {
            return true;
        }
        i += 1;
    }
    false
}

impl Reading {
    fn number(&self) -> (r: Option<Real>)
        ensures
            r == self@.number(),
    {
        if self.numbers.len() > 0 {
            self.numbers[0]
        } else {
            None
        }
    }
}

impl HatcheditCommand {
    fn start(editing: Option<Editing>, annotative: bool) -> (r: HatcheditCommand)
        ensures
            r@ == started(
                match editing {
                    Some(e) => Some(e@),
                    None => None,
                },
                annotative,
            ),
    {
        HatcheditCommand {
            editing,
            origin: None,
            disassociate: false,
            style: None,
            annotative: None,
            annotative_current: annotative,
            style_current: HatchStyle::Normal,
            input: None,
            boundary_selection: Vec::new(),
            source_appearance: None,
            current_color: Color::ByLayer,
            current_transparency: Transparency::ByLayer,
            boundary_region: false,
            association_sources: None,
            association_paths: Vec::new(),
            association_missed: false,
        }
    }

    /// Starts the command without a hatch.
    pub fn new() -> (r: HatcheditCommand)
        ensures
            r@ == started(None, false),
    {
        HatcheditCommand::start(None, false)
    }

    /// Starts the command on a hatch.
    pub fn with_handle(
        handle: Handle,
        name: String,
        scale: Real,
        angle: Real,
        annotative: bool,
    ) -> (r: HatcheditCommand)
        ensures
            r@ == started(
                Some(EditingModel { handle, name: name@, scale, angle }),
                annotative,
            ),
    {
        HatcheditCommand::start(Some(Editing { handle, name, scale, angle }), annotative)
    }

    /// Starts the command at the search for a boundary to associate the hatch
    /// with. `sources` are the entities that a boundary can run along.
    pub fn for_association(
        handle: Handle,
        name: String,
        scale: Real,
        angle: Real,
        sources: Vec<Handle>,
    ) -> (r: HatcheditCommand)
        ensures
            r@ == associating(EditingModel { handle, name: name@, scale, angle }, sources@),
    {
        let mut command = HatcheditCommand::with_handle(handle, name, scale, angle, false);
        command.input = Some(Input::AssociatePoint);
        command.association_sources = Some(sources);
        command
    }

    /// Takes in what the hatch looks like, and the current colour and
    /// transparency of the drawing.
    pub fn with_appearance(
        self,
        entity: Option<&Entity>,
        current_color: Color,
        current_transparency: Transparency,
    ) -> (r: HatcheditCommand)
        ensures
            r@ == appearing(
                self@,
                match entity {
                    Some(e) => Some(e@),
                    None => None,
                },
                current_color,
                current_transparency,
            ),
    {
        let mut this = self;
        match entity {
            Some(e) => {
                if let Shape::Hatch(h) = &e.shape {
                    this.style_current = h.style;
                }
                this.source_appearance = Some(
                    Appearance {
                        color: e.common.color,
                        layer: e.common.layer.clone(),
                        transparency: e.common.transparency,
                    },
                );
            },
            None => {
                this.source_appearance = None;
            },
        }
        this.current_color = current_color;
        this.current_transparency = current_transparency;
        this
    }

    fn apply_result(&self, operation: HatchEditOperation) -> (r: Option<CmdResult>)
        ensures
            answer(r) == self@.apply(operation@),
    {
        match &self.editing {
            Some(e) => Some(
                CmdResult::HatcheditApply {
                    handle: e.handle,
                    name: e.name.clone(),
                    scale: e.scale,
                    angle: e.angle,
                    operation,
                },
            ),
            None => None,
        }
    }

    fn update_operation(&self) -> (r: HatchEditOperation)
        ensures
            r@ == self@.update(),
    {
        HatchEditOperation::Update {
            origin: self.origin,
            disassociate: self.disassociate,
            style: self.style,
            annotative: self.annotative,
        }
    }

    fn apply_update(&self) -> (r: Option<CmdResult>)
        ensures
            answer(r) == self@.apply(self@.update()),
    {
        let operation = self.update_operation();
        self.apply_result(operation)
    }

    fn apply_color(&self, color: Color) -> (r: Option<CmdResult>)
        ensures
            answer(r) == self@.apply(recolor(color)),
    {
        self.apply_result(
            HatchEditOperation::Appearance {
                color: Some(color),
                layer: None,
                transparency: None,
            },
        )
    }

    fn set_name(&mut self, name: String)
        ensures
            final(self)@ == old(self)@.named(name@),
    {
        if let Some(e) = self.editing.take() {
            self.editing = Some(Editing { handle: e.handle, name, scale: e.scale, angle: e.angle });
        }
    }

    fn set_scale(&mut self, scale: Real)
        ensures
            final(self)@ == old(self)@.scaled(scale),
    {
        if let Some(e) = self.editing.take() {
            self.editing = Some(Editing { handle: e.handle, name: e.name, scale, angle: e.angle });
        }
    }

    fn set_angle(&mut self, angle: Real)
        ensures
            final(self)@ == old(self)@.turned(angle),
    {
        if let Some(e) = self.editing.take() {
            self.editing = Some(Editing { handle: e.handle, name: e.name, scale: e.scale, angle });
        }
    }

    fn toggle_annotative(&mut self)
        ensures
            final(self)@ == old(self)@.toggled(),
    {
        let was = match self.annotative {
            Some(b) => b,
            None => self.annotative_current,
        };
        self.annotative = Some(!was);
    }

    fn to_color(&self, kw: &str) -> (r: Option<Color>)
        ensures
            r == color_named(self@, kw@),
    {
        if same(kw, ".") {
            Some(self.current_color)
        } else if same(kw, "BYLAYER") {
            Some(Color::ByLayer)
        } else if same(kw, "BYBLOCK") {
            Some(Color::ByBlock)
        } else if same(kw, "RED") {
            Some(Color::Index(1))
        } else if same(kw, "YELLOW") {
            Some(Color::Index(2))
        } else if same(kw, "GREEN") {
            Some(Color::Index(3))
        } else if same(kw, "CYAN") {
            Some(Color::Index(4))
        } else if same(kw, "BLUE") {
            Some(Color::Index(5))
        } else if same(kw, "MAGENTA") {
            Some(Color::Index(6))
        } else if same(kw, "WHITE") {
            Some(Color::Index(7))
        } else {
            match read_signed(kw, -32768, 32767) {
                Some(n) => {
                    if n == 0 {
                        Some(Color::ByBlock)
                    } else if n == 256 {
                        Some(Color::ByLayer)
                    } else if 0 < n && n < 256 {
                        Some(Color::Index(n as u8))
                    } else {
                        None
                    }
                },
                None => None,
            }
        }
    }

    fn to_clarity(&self, kw: &str) -> (r: Option<Clarity>)
        ensures
            r == clarity_named(self@, kw@),
    {
        if same(kw, ".") {
            Some(Clarity::Exactly(self.current_transparency))
        } else if same(kw, "BYLAYER") {
            Some(Clarity::Exactly(Transparency::ByLayer))
        } else if same(kw, "BYBLOCK") {
            Some(Clarity::Exactly(Transparency::ByBlock))
        } else {
            match read_unsigned(kw, 10, 255) {
                Some(n) => {
                    if n <= 90 {
                        Some(Clarity::Percent(n as u8))
                    } else {
                        None
                    }
                },
                None => None,
            }
        }
    }

    fn text_color(&mut self, kw: &str) -> (r: Option<CmdResult>)
        ensures
            (final(self)@, answer(r)) == typed_color(old(self)@, kw@),
    {
        if is_either(kw, "T", "TRUECOLOR") {
            self.input = Some(Input::Truecolor);
            return Some(CmdResult::NeedPoint);
        }
        match self.to_color(kw) {
            Some(c) => match self.apply_color(c) {
                Some(r) => Some(r),
                None => Some(CmdResult::NeedPoint),
            },
            None => Some(CmdResult::NeedPoint),
        }
    }

    fn text_order(&self, kw: &str) -> (r: Option<CmdResult>)
        ensures
            answer(r) == typed_order(self@, kw@),
    {
        if is_either(kw, "F", "FRONT") {
            self.apply_result(HatchEditOperation::DrawOrderFront)
        } else if is_either(kw, "H", "BEHIND") {
            self.apply_result(HatchEditOperation::DrawOrderBoundary { above: false })
        } else if same(kw, "D") {
            self.apply_result(HatchEditOperation::DrawOrderBoundary { above: true })
        } else if is_either(kw, "B", "BACK") {
            self.apply_result(HatchEditOperation::DrawOrderBack)
        } else if is_either(kw, "N", "NOT") {
            Some(CmdResult::Cancel)
        } else {
            Some(CmdResult::NeedPoint)
        }
    }

    fn text_pattern(&mut self, kw: String, known: bool) -> (r: Option<CmdResult>)
        ensures
            (final(self)@, answer(r)) == typed_pattern(old(self)@, kw@, known),
    {
        if !known {
            return Some(CmdResult::NeedPoint);
        }
        let solid = same(kw.as_str(), "SOLID");
        self.set_name(kw);
        if solid {
            return self.apply_update();
        }
        self.input = Some(Input::Scale);
        Some(CmdResult::NeedPoint)
    }

    fn text_scale(&mut self, number: Option<Real>) -> (r: Option<CmdResult>)
        ensures
            (final(self)@, answer(r)) == typed_scale(old(self)@, number),
    {
        if let Some(v) = number {
            if v.is_positive() {
                self.set_scale(v);
                self.input = Some(Input::Angle);
            }
        }
        Some(CmdResult::NeedPoint)
    }

    fn text_angle(&mut self, number: Option<Real>) -> (r: Option<CmdResult>)
        ensures
            (final(self)@, answer(r)) == typed_angle(old(self)@, number),
    {
        if let Some(v) = number {
            if v.is_finite() {
                self.set_angle(v);
                return self.apply_update();
            }
        }
        Some(CmdResult::NeedPoint)
    }

    fn text_value(&mut self, input: Input, plain: &str, read: &Reading) -> (r: Option<CmdResult>)
        ensures
            (final(self)@, answer(r)) == typed_value(old(self)@, input, plain@, read@),
    {
        let kw = to_ascii_upper(plain);
        match input {
            Input::Style => {
                if let Some(style) = to_style(kw.as_str()) {
                    self.style = Some(style);
                    return self.apply_update();
                }
            },
            Input::Annotative => {
                if let Some(b) = to_truth(kw.as_str()) {
                    self.annotative = Some(b);
                    return self.apply_update();
                }
            },
            Input::AssociatePoint => {
                if is_either(kw.as_str(), "S", "SELECT") || same(kw.as_str(), "SELECT OBJECTS") {
                    self.input = Some(Input::AssociateSelect);
                }
            },
            Input::AssociateSelect => {},
            Input::Color => {
                return self.text_color(kw.as_str());
            },
            Input::Truecolor => {
                if let Some(c) = to_rgb(kw.as_str()) {
                    return self.apply_color(c);
                }
            },
            Input::Layer => {
                if !plain.is_empty() {
                    return self.apply_result(
                        HatchEditOperation::Appearance {
                            color: None,
                            layer: Some(owned(plain)),
                            transparency: None,
                        },
                    );
                }
            },
            Input::Transparency => {
                if let Some(c) = self.to_clarity(kw.as_str()) {
                    return self.apply_result(
                        HatchEditOperation::Appearance {
                            color: None,
                            layer: None,
                            transparency: Some(c),
                        },
                    );
                }
            },
            Input::DrawOrder => {
                return self.text_order(kw.as_str());
            },
            Input::BoundaryType => {
                if is_either(kw.as_str(), "P", "POLYLINE") {
                    self.boundary_region = false;
                    self.input = Some(Input::BoundaryAssociate);
                } else if is_either(kw.as_str(), "R", "REGION") {
                    self.boundary_region = true;
                    self.input = Some(Input::BoundaryAssociate);
                }
            },
            Input::BoundaryAssociate => {
                if let Some(b) = to_truth(kw.as_str()) {
                    return self.apply_result(
                        HatchEditOperation::RecreateBoundary {
                            associate: b,
                            region: self.boundary_region,
                        },
                    );
                }
            },
            Input::Pattern => {
                return self.text_pattern(kw, read.known_pattern);
            },
            Input::Scale => {
                return self.text_scale(read.number());
            },
            Input::Angle => {
                return self.text_angle(read.number());
            },
        }
        Some(CmdResult::NeedPoint)
    }

    fn to_input(kw: &str) -> (r: Option<Input>)
        ensures
            r == option_input(kw@),
    {
        if is_either(kw, "S", "STYLE") {
            Some(Input::Style)
        } else if is_either(kw, "P", "PROPERTIES") {
            Some(Input::Pattern)
        } else if is_either(kw, "CO", "COLOR") {
            Some(Input::Color)
        } else if is_either(kw, "LA", "LAYER") {
            Some(Input::Layer)
        } else if is_either(kw, "AN", "ANNOTATIVE") {
            Some(Input::Annotative)
        } else if is_either(kw, "T", "TRANSPARENCY") {
            Some(Input::Transparency)
        } else if is_either(kw, "DR", "DRAW") || same(kw, "DRAW ORDER") {
            Some(Input::DrawOrder)
        } else if is_either(kw, "B", "BOUNDARY") || is_either(kw, "R", "RECREATE") {
            Some(Input::BoundaryType)
        } else {
            None
        }
    }

    fn text_short(&mut self, up: &str, read: &Reading) -> (r: Option<CmdResult>)
        ensures
            (final(self)@, answer(r)) == typed_short(old(self)@, up@, read@),
    {
        proof {
            reveal_strlit("P");
            reveal_strlit("S");
            reveal_strlit("A");
            reveal_strlit("O");
            reveal_strlit("Y");
            reveal_strlit("+");
            reveal_strlit("-");
        }
        if up.is_empty() {
            return self.apply_update();
        }
        if same(up, "ANNOTATIVE") {
            self.toggle_annotative();
            return Some(CmdResult::NeedPoint);
        }
        if same(up, "SEPARATE") {
            return self.apply_result(HatchEditOperation::Separate);
        }
        if let Some(rest) = after_prefix(up, "P") {
            let name = trim(rest.as_str());
            if !name.as_str().is_empty() {
                self.set_name(name);
            }
            return Some(CmdResult::NeedPoint);
        }
        if after_prefix(up, "S").is_some() {
            if let Some(v) = read.number() {
                if zero().less(&v) {
                    self.set_scale(v);
                }
            }
            return Some(CmdResult::NeedPoint);
        }
        if after_prefix(up, "A").is_some() {
            if let Some(v) = read.number() {
                self.set_angle(v);
            }
            return Some(CmdResult::NeedPoint);
        }
        if after_prefix(up, "O").is_some() {
            let values = found_numbers(&read.numbers);
            if values.len() >= 2 {
                self.origin = Some((values[0], values[1]));
            }
            return Some(CmdResult::NeedPoint);
        }
        if is_either(up, "D", "DISASSOCIATE") {
            self.disassociate = true;
            return Some(CmdResult::NeedPoint);
        }
        if let Some(rest) = after_prefix(up, "Y") {
            let t = trim(rest.as_str());
            if let Some(style) = to_style(t.as_str()) {
                self.style = Some(style);
            }
            return Some(CmdResult::NeedPoint);
        }
        if same(up, "N") {
            self.toggle_annotative();
            return Some(CmdResult::NeedPoint);
        }
        if is_either(up, "R", "RECREATE") {
            self.input = Some(Input::BoundaryType);
            return Some(CmdResult::NeedPoint);
        }
        if same(up, "E") {
            return self.apply_result(HatchEditOperation::Separate);
        }
        if is_either(up, "F", "FRONT") {
            return self.apply_result(HatchEditOperation::DrawOrderFront);
        }
        if is_either(up, "B", "BACK") {
            return self.apply_result(HatchEditOperation::DrawOrderBack);
        }
        if let Some(rest) = after_prefix(up, "+") {
            let list = to_handles(rest.as_str());
            return self.apply_result(HatchEditOperation::AddBoundaries(list));
        }
        if let Some(rest) = after_prefix(up, "-") {
            let list = to_handles(rest.as_str());
            return self.apply_result(HatchEditOperation::RemoveBoundaries(list));
        }
        Some(CmdResult::NeedPoint)
    }

    /// Reads a text without white space around it, and the same in upper case.
    pub fn on_words(&mut self, plain: &str, up: &str, read: &Reading) -> (r: Option<CmdResult>)
        ensures
            (final(self)@, answer(r)) == typed(old(self)@, plain@, up@, read@),
    {
        if let Some(input) = self.input {
            return self.text_value(input, plain, read);
        }
        let kw = to_ascii_upper(plain);
        if let Some(input) = HatcheditCommand::to_input(kw.as_str()) {
            self.input = Some(input);
            return Some(CmdResult::NeedPoint);
        }
        if is_either(kw.as_str(), "H", "HATCHES") || same(kw.as_str(), "SEPARATE") {
            return self.apply_result(HatchEditOperation::Separate);
        }
        if is_either(kw.as_str(), "AS", "ASSOCIATE") {
            return self.apply_result(HatchEditOperation::BeginAssociate);
        }
        if is_either(kw.as_str(), "DI", "DISASSOCIATE") {
            self.disassociate = true;
            return self.apply_update();
        }
        if self.editing.is_none() {
            return None;
        }
        self.text_short(up, read)
    }

    /// Reads a typed text. `read` holds the numbers of
    /// [`Self::number_texts`] of the text, and whether [`Self::pattern_text`]
    /// names a known pattern.
    pub fn on_text_input(&mut self, text: &str, read: &Reading) -> (r: Option<CmdResult>)
        ensures
            (final(self)@, answer(r)) == typed(
                old(self)@,
                trimmed(text@),
                keyword_of(text@),
                read@,
            ),
    {
        let plain = trim(text);
        let up = to_upper(plain.as_str());
        self.on_words(plain.as_str(), up.as_str(), read)
    }

    /// The pattern name that a typed text stands for.
    pub fn pattern_text(text: &str) -> (r: String)
        ensures
            r@ == ascii_upper(trimmed(text@)),
    {
        let plain = trim(text);
        to_ascii_upper(plain.as_str())
    }

    /// The parts of a typed text to read numbers from.
    pub fn number_texts(&self, text: &str) -> (r: Vec<String>)
        ensures
            texts(r@) == number_parts(self@, trimmed(text@), keyword_of(text@)),
    {
        proof {
            reveal_strlit("S");
            reveal_strlit("A");
            reveal_strlit("O");
        }
        let plain = trim(text);
        let up = to_upper(plain.as_str());
        let mut out: Vec<String> = Vec::new();
        if let Some(input) = self.input {
            if input == Input::Scale || input == Input::Angle {
                out.push(to_ascii_upper(plain.as_str()));
            }
            proof {
                assert(texts(out@) =~= number_parts(self@, plain@, up@));
            }
            return out;
        }
        if let Some(rest) = after_prefix(up.as_str(), "S") {
            let t = trim(rest.as_str());
            out.push(decimal_text(t.as_str()));
        } else if let Some(rest) = after_prefix(up.as_str(), "A") {
            let t = trim(rest.as_str());
            out.push(decimal_text(t.as_str()));
        } else if let Some(rest) = after_prefix(up.as_str(), "O") {
            let t = trim(rest.as_str());
            return split_filled(t.as_str(), ",; ");
        }
        proof {
            assert(texts(out@) =~= number_parts(self@, plain@, up@));
        }
        out
    }

    fn or_end(r: Option<CmdResult>) -> (q: CmdResult)
        ensures
            q@ == or_cancel(answer(r)),
    {
        match r {
            Some(r) => r,
            None => CmdResult::Cancel,
        }
    }

    /// Reads the Enter key.
    pub fn on_enter(&mut self) -> (r: CmdResult)
        ensures
            (final(self)@, r@) == entered(old(self)@),
    {
        let input = match self.input {
            Some(input) => input,
            None => {
                return HatcheditCommand::or_end(self.apply_update());
            },
        };
        match input {
            Input::Style => {
                self.style = Some(self.style_current);
                HatcheditCommand::or_end(self.apply_update())
            },
            Input::Annotative => {
                self.annotative = Some(self.annotative_current);
                HatcheditCommand::or_end(self.apply_update())
            },
            Input::Pattern => {
                let solid = match &self.editing {
                    Some(e) => equal_but_case(e.name.as_str(), "SOLID"),
                    None => false,
                };
                if solid {
                    HatcheditCommand::or_end(self.apply_update())
                } else {
                    self.input = Some(Input::Scale);
                    CmdResult::NeedPoint
                }
            },
            Input::Scale => {
                self.input = Some(Input::Angle);
                CmdResult::NeedPoint
            },
            Input::Angle => HatcheditCommand::or_end(self.apply_update()),
            Input::BoundaryType => {
                self.boundary_region = false;
                self.input = Some(Input::BoundaryAssociate);
                CmdResult::NeedPoint
            },
            Input::BoundaryAssociate => {
                let region = self.boundary_region;
                HatcheditCommand::or_end(
                    self.apply_result(
                        HatchEditOperation::RecreateBoundary { associate: false, region },
                    ),
                )
            },
            Input::AssociateSelect => {
                self.input = Some(Input::AssociatePoint);
                CmdResult::NeedPoint
            },
            Input::AssociatePoint => {
                if self.association_paths.len() == 0 {
                    CmdResult::Cancel
                } else {
                    let paths = copy_of(&self.association_paths);
                    HatcheditCommand::or_end(
                        self.apply_result(HatchEditOperation::AssociatePaths(paths)),
                    )
                }
            },
            Input::Color | Input::Truecolor | Input::Layer | Input::Transparency
            | Input::DrawOrder => CmdResult::Cancel,
        }
    }

    /// Reads the Escape key.
    pub fn on_escape(&mut self) -> (r: CmdResult)
        ensures
            r@ == ResultModel::Cancel,
            final(self)@ == old(self)@,
    {
        CmdResult::Cancel
    }

    fn add_association_rings(&mut self, rings: usize, paths: &Vec<FoundPath>)
        ensures
            final(self)@ == with_rings(old(self)@, rings as int, paths@),
    {
        let n: usize = paths.len();
        let mut missed = n == 0 || n != rings;
        let mut i: usize = 0;
        while i < n
            invariant
                i <= n == paths@.len(),
                missed == (n == 0 || n != rings || exists|k: int|
                    0 <= k < i && (#[trigger] paths@[k]).owners == 0),
            decreases n - i,
        {
            if paths[i].owners == 0 {
                proof {
                    assert(paths@[i as int].owners == 0);
                }
                missed = true;
            }
            i += 1;
        }
        self.association_missed = missed;
        if !missed {
            let ghost before = self@;
            let mut i: usize = 0;
            proof {
                assert(paths@.take(0) =~= Seq::<FoundPath>::empty());
                assert(all_found(rings as int, paths@));
            }
            while i < n
                invariant
                    i <= n == paths@.len(),
                    self@ == (HatchState {
                        association_paths: with_new(
                            before.association_paths,
                            paths@.take(i as int),
                        ),
                        ..before
                    }),
                decreases n - i,
            {
                proof {
                    assert(paths@.take(i + 1).drop_last() =~= paths@.take(i as int));
                }
                if !has_path(&self.association_paths, paths[i]) {
                    self.association_paths.push(paths[i]);
                }
                i += 1;
            }
            proof {
                assert(paths@.take(n as int) =~= paths@);
            }
        } else {
            proof {
                assert(!all_found(rings as int, paths@));
            }
        }
    }

    /// The entities of a selection that a boundary can run along.
    pub fn association_candidates(&self, handles: &Vec<Handle>) -> (r: Vec<Handle>)
        ensures
            r@ == candidates(self@, handles@),
    {
        let mut out: Vec<Handle> = Vec::new();
        if let Some(sources) = &self.association_sources {
            let n: usize = sources.len();
            let mut i: usize = 0;
            let ghost p = |h: Handle| handles@.contains(h);
            proof {
                reveal(Seq::filter);
            }
            while i < n
                invariant
                    i <= n == sources@.len(),
                    p == (|h: Handle| handles@.contains(h)),
                    out@ == sources@.take(i as int).filter(p),
                decreases n - i,
            {
                proof {
                    reveal(Seq::filter);
                    assert(sources@.take(i + 1).drop_last() =~= sources@.take(i as int));
                }
                let h: Handle = sources[i];
                let mut found = false;
                let mut k: usize = 0;
                while k < handles.len()
                    invariant
                        k <= handles@.len(),
                        found == exists|j: int| 0 <= j < k && handles@[j] == h,
                    decreases handles@.len() - k,
                {
                    if handles[k] == h {
                        found = true;
                    }
                    k += 1;
                }
                if found {
                    out.push(h);
                }
                i += 1;
            }
            proof {
                assert(sources@.take(n as int) =~= sources@);
            }
        }
        out
    }

    /// Reads a selection. `rings` and `paths` are what was found around
    /// [`Self::association_candidates`] of it: the number of closed rings, and
    /// the boundary loops along them.
    pub fn on_selection_complete(
        &mut self,
        handles: &Vec<Handle>,
        rings: usize,
        paths: &Vec<FoundPath>,
    ) -> (r: CmdResult)
        ensures
            r@ == ResultModel::NeedPoint,
            final(self)@ == selected(old(self)@, handles@, rings as int, paths@),
    {
        self.boundary_selection = copy_of(handles);
        if self.association_sources.is_some() {
            self.add_association_rings(rings, paths);
        }
        self.input = Some(Input::AssociatePoint);
        CmdResult::NeedPoint
    }

    /// Reads a point. `found` is what was found around it: the number of
    /// closed rings, and the boundary loops along them.
    pub fn on_point(&mut self, found: Option<(usize, Vec<FoundPath>)>) -> (r: CmdResult)
        ensures
            r@ == ResultModel::NeedPoint,
            final(self)@ == spotted(
                old(self)@,
                match found {
                    Some((rings, paths)) => Some((rings as int, paths@)),
                    None => None,
                },
            ),
    {
        let here = match self.input {
            Some(input) => input == Input::AssociatePoint,
            None => false,
        };
        if here && self.association_sources.is_some() {
            match found {
                Some((rings, paths)) => {
                    self.add_association_rings(rings, &paths);
                },
                None => {
                    self.association_missed = true;
                },
            }
        }
        CmdResult::NeedPoint
    }

    /// Reads a picked entity.
    pub fn on_entity_pick(&mut self, handle: Handle) -> (r: CmdResult)
        ensures
            r@ == ResultModel::NeedPoint,
            final(self)@ == picked(old(self)@, handle),
    {
        if handle != NO_HANDLE {
            self.editing = Some(Editing { handle, name: owned(""), scale: one(), angle: zero() });
        }
        CmdResult::NeedPoint
    }

    /// The command's name.
    pub fn name(&self) -> (r: &'static str)
        ensures
            r@ == "HATCHEDIT"@,
    {
        "HATCHEDIT"
    }

    /// Whether an entity is to be picked.
    pub fn needs_entity_pick(&self) -> (r: bool)
        ensures
            r == (self@.editing is None),
    {
        self.editing.is_none()
    }

    /// Whether a selection is being gathered.
    pub fn is_selection_gathering(&self) -> (r: bool)
        ensures
            r == (self@.input == Some(Input::AssociateSelect)),
    {
        match self.input {
            Some(input) => input == Input::AssociateSelect,
            None => false,
        }
    }

    /// Whether the command reads typed text.
    pub fn wants_text_input(&self) -> (r: bool)
        ensures
            r == (self@.editing is Some && self@.input != Some(Input::AssociateSelect)),
    {
        self.editing.is_some() && !self.is_selection_gathering()
    }

    /// The options to offer.
    pub fn options(&self) -> (r: Vec<CmdOption>)
        ensures
            r@ == offered(self@),
    {
        match self.input {
            Some(Input::AssociatePoint) => vec![CmdOption::new("Select objects", "S")],
            Some(Input::Style) => vec![
                CmdOption::new("Ignore", "I"),
                CmdOption::new("Outer", "O"),
                CmdOption::new("Normal", "N"),
            ],
            Some(Input::DrawOrder) => vec![
                CmdOption::new("Do not change", "N"),
                CmdOption::new("Send to back", "B"),
                CmdOption::new("Bring to front", "F"),
                CmdOption::new("Behind boundary", "H"),
                CmdOption::new("In front of boundary", "D"),
            ],
            Some(Input::Annotative) | Some(Input::BoundaryAssociate) => vec![
                CmdOption::new("Yes", "Y"),
                CmdOption::new("No", "N"),
            ],
            Some(Input::BoundaryType) => vec![
                CmdOption::new("Region", "R"),
                CmdOption::new("Polyline", "P"),
            ],
            Some(Input::Color) => vec![CmdOption::new("Truecolor", "T")],
            Some(Input::Pattern) => vec![CmdOption::new("Solid", "SOLID")],
            Some(_) => Vec::new(),
            None => {
                if self.editing.is_none() {
                    return Vec::new();
                }
                vec![
                    CmdOption::new("Style", "S"),
                    CmdOption::new("Properties", "P"),
                    CmdOption::new("Color", "CO"),
                    CmdOption::new("Layer", "LA"),
                    CmdOption::new("Transparency", "T"),
                    CmdOption::new("Draw order", "DR"),
                    CmdOption::new("Associate", "AS"),
                    CmdOption::new("Disassociate", "DI"),
                    CmdOption::new("Annotative", "AN"),
                    CmdOption::new("Recreate boundary", "B"),
                    CmdOption::new("Separate hatches", "H"),
                    CmdOption::enter("Apply"),
                ]
            },
        }
    }

    /// What the command asks, where it asks in the language of the user. `shown`
    /// holds the texts of the values that a prompt can show.
    pub fn phrase(&self, shown: &Shown) -> (r: Option<Phrase>)
        ensures
            phrase_model(r) == phrased(self@, shown@),
    {
        if self.input.is_some() {
            return None;
        }
        match &self.editing {
            None => Some(Phrase::plain("HATCHEDIT  Select hatch:")),
            Some(e) => {
                let r = Phrase {
                    text:
                        "HATCHEDIT  Pattern:%{name}  Scale:%{scale}  Angle:%{angle}  [Style/Properties/COlor/LAyer/Transparency/DRaw order/ASsociate/DIsassociate/ANnotative/recreate Boundary/separate Hatches] <Apply>:",
                    values: vec![
                        Slot { name: "name", value: e.name.clone() },
                        Slot { name: "scale", value: shown.scale.clone() },
                        Slot { name: "angle", value: shown.angle.clone() },
                    ],
                };
                proof {
                    assert(r@.values =~= seq![
                        SlotModel { name: "name"@, value: e.name@ },
                        SlotModel { name: "scale"@, value: shown.scale@ },
                        SlotModel { name: "angle"@, value: shown.angle@ },
                    ]);
                }
                Some(r)
            },
        }
    }

    /// What the command asks. `shown` holds the texts of the values that a
    /// prompt can show, and `said` is [`Self::phrase`] in the language of the
    /// user.
    pub fn prompt(&self, shown: &Shown, said: &str) -> (r: String)
        ensures
            r@ == prompted(self@, shown@, said@),
    {
        match self.input {
            Some(input) => self.value_prompt(input, shown),
            None => owned(said),
        }
    }

    fn value_prompt(&self, input: Input, shown: &Shown) -> (r: String)
        ensures
            r@ == value_prompted(self@, input, shown@),
    {
        match input {
            Input::Style => join3(
                "Enter hatching style [Ignore/Outer/Normal] <",
                match self.style_current {
                    HatchStyle::Normal => "Normal",
                    HatchStyle::Outer => "Outer",
                    HatchStyle::Ignore => "Ignore",
                },
                ">:",
            ),
            Input::Color => {
                if self.source_appearance.is_some() {
                    join3(
                        "New color [Truecolor/. (for use current)] <",
                        shown.color.as_str(),
                        ">:",
                    )
                } else {
                    owned("New color [Truecolor] <ByLayer>:")
                }
            },
            Input::Layer => match &self.source_appearance {
                Some(a) => join3(
                    "Specify layer or [. (for use current)] <",
                    a.layer.as_str(),
                    ">:",
                ),
                None => owned("Specify layer or [. (for use current)]:"),
            },
            Input::Transparency => match &self.source_appearance {
                Some(a) => join3(
                    "Specify transparency (0-90) or ByLayer/ByBlock <",
                    match a.transparency {
                        Transparency::ByLayer => "ByLayer",
                        Transparency::ByBlock => "ByBlock",
                        Transparency::Explicit(_) => shown.percent.as_str(),
                    },
                    ">:",
                ),
                None => owned("Specify transparency value (0-90) or ByLayer/ByBlock:"),
            },
            Input::Pattern => match &self.editing {
                Some(e) => join3(
                    "Enter a pattern name or [Solid] <",
                    e.name.as_str(),
                    ">:",
                ),
                None => owned("Enter a pattern name or [Solid]:"),
            },
            Input::Scale => {
                if self.editing.is_some() {
                    join3("Specify a scale for the pattern <", shown.scale.as_str(), ">:")
                } else {
                    owned("Specify a scale for the pattern:")
                }
            },
            Input::Angle => {
                if self.editing.is_some() {
                    join3("Specify an angle for the pattern <", shown.angle.as_str(), ">:")
                } else {
                    owned("Specify an angle for the pattern:")
                }
            },
            Input::Annotative => owned(
                if self.annotative_current {
                    "Make hatch annotative [Yes/No] <Y>:"
                } else {
                    "Make hatch annotative [Yes/No] <N>:"
                },
            ),
            Input::Truecolor => owned("Specify RGB color (red,green,blue):"),
            Input::DrawOrder => owned(
                "Enter draw order [do Not change/send to Back/bring to Front/send beHind boundary/bring in front of bounDary] <do Not change>:",
            ),
            Input::BoundaryType => owned(
                "Enter type of boundary object [Region/Polyline] <Polyline>:",
            ),
            Input::BoundaryAssociate => owned(
                "Reassociate hatch with new boundary? [Yes/No] <No>:",
            ),
            Input::AssociateSelect => owned("Select boundary objects:"),
            Input::AssociatePoint => owned(
                if self.association_missed {
                    "No closed boundary found. Specify internal point or [Select objects]:"
                } else {
                    "Specify internal point or [Select objects]:"
                },
            ),
        }
    }
}

} // verus!
