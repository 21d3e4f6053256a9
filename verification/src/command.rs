//! What the interactive commands have in common: the options they offer and
//! the results they hand to the program that runs them.
use crate::entity::{Entity, EntityModel, Handle};
use crate::hatchedit::{HatchEditModel, HatchEditOperation};
use crate::pedit::{OpModel, PeditOp};
use crate::text::owned;
use crate::value::{one, origin, zero, Point3, Real};
use vstd::prelude::*;

verus! {

/// A value in a phrase, and the name that stands for it there.
#[derive(Debug)]
pub struct Slot {
    pub name: &'static str,
    pub value: String,
}

/// The contents of a [`Slot`].
#[verifier::ext_equal]
pub struct SlotModel {
    pub name: Seq<char>,
    pub value: Seq<char>,
}

impl View for Slot {
    type V = SlotModel;

    open spec fn view(&self) -> SlotModel {
        SlotModel { name: self.name@, value: self.value@ }
    }
}

/// A text that the program shows in the language of its user: the text under
/// which it is looked up, and the values that take the place of the names in
/// it. The name `n` stands in the text as `%{n}`.
#[derive(Debug)]
pub struct Phrase {
    pub text: &'static str,
    pub values: Vec<Slot>,
}

/// The contents of a [`Phrase`].
#[verifier::ext_equal]
pub struct PhraseModel {
    pub text: Seq<char>,
    pub values: Seq<SlotModel>,
}

impl View for Phrase {
    type V = PhraseModel;

    open spec fn view(&self) -> PhraseModel {
        PhraseModel { text: self.text@, values: self.values@.map_values(|v: Slot| v@) }
    }
}

/// The contents of a phrase that may be missing.
pub open spec fn phrase_model(p: Option<Phrase>) -> Option<PhraseModel> {
    match p {
        Some(p) => Some(p@),
        None => None,
    }
}

/// A phrase without values.
pub open spec fn plain_phrase(text: Seq<char>) -> PhraseModel {
    PhraseModel { text, values: Seq::empty() }
}

/// A phrase with one value.
pub open spec fn phrase_with(text: Seq<char>, name: Seq<char>, value: Seq<char>) -> PhraseModel {
    PhraseModel { text, values: seq![SlotModel { name, value }] }
}

impl Phrase {
    /// A phrase without values.
    pub fn plain(text: &'static str) -> (r: Phrase)
        ensures
            r@ == plain_phrase(text@),
    {
        let r = Phrase { text, values: Vec::new() };
        proof {
            assert(r@.values =~= Seq::empty());
        }
        r
    }

    /// A phrase with one value.
    pub fn with(text: &'static str, name: &'static str, value: String) -> (r: Phrase)
        ensures
            r@ == phrase_with(text@, name@, value@),
    {
        let r = Phrase { text, values: vec![Slot { name, value }] };
        proof {
            assert(r@.values =~= seq![SlotModel { name: name@, value: value@ }]);
        }
        r
    }
}

/// An option that a command offers: its label and the keyword that picks it.
/// The option without a keyword is picked by the Enter key. The label is shown
/// as it stands, or in the language of the user where it is translated.
#[derive(Clone, Copy, Debug, PartialEq, Eq)]
pub struct CmdOption {
    pub label: &'static str,
    pub keyword: &'static str,
    pub translated: bool,
}

impl CmdOption {
    /// An option picked by a keyword.
    #[verifier::allow_in_spec]
    pub fn new(label: &'static str, keyword: &'static str) -> CmdOption
        returns
            (CmdOption { label, keyword, translated: false }),
    {
        CmdOption { label, keyword, translated: false }
    }

    /// An option picked by the Enter key.
    #[verifier::allow_in_spec]
    pub fn enter(label: &'static str) -> CmdOption
        returns
            (CmdOption { label, keyword: "", translated: false }),
    {
        CmdOption { label, keyword: "", translated: false }
    }

    /// An option picked by a keyword, with a label in the language of the user.
    #[verifier::allow_in_spec]
    pub fn said(label: &'static str, keyword: &'static str) -> CmdOption
        returns
            (CmdOption { label, keyword, translated: true }),
    {
        CmdOption { label, keyword, translated: true }
    }

    /// An option picked by the Enter key, with a label in the language of the
    /// user.
    #[verifier::allow_in_spec]
    pub fn said_enter(label: &'static str) -> CmdOption
        returns
            (CmdOption { label, keyword: "", translated: true }),
    {
        CmdOption { label, keyword: "", translated: true }
    }

    /// The label to show. `said` is the label in the language of the user.
    pub fn shown(&self, said: &str) -> (r: String)
        ensures
            r@ == (if self.translated {
                said@
            } else {
                self.label@
            }),
    {
        if self.translated {
            owned(said)
        } else {
            owned(self.label)
        }
    }
}

/// A ribbon tool that starts a command.
#[derive(Clone, Copy, Debug, PartialEq, Eq)]
pub struct ToolDef {
    pub id: &'static str,
    pub label: &'static str,
    /// The file name of the icon.
    pub icon: &'static str,
    /// The command to start.
    pub command: &'static str,
}

/// The kind of value that the dynamic input field asks for.
#[derive(Clone, Copy, Debug, PartialEq, Eq, Structural)]
pub enum DynField {
    Point,
    Distance,
    Scalar,
    Angle,
}

/// A plane to draw in: where it lies and its three directions.
#[derive(Clone, Copy, Debug, PartialEq, Eq, Structural)]
pub struct WorkingPlane {
    pub origin: Point3,
    pub x_axis: Point3,
    pub y_axis: Point3,
    pub z_axis: Point3,
}

/// The horizontal plane through the origin.
#[verifier::allow_in_spec]
pub fn world_plane() -> WorkingPlane
    returns
        (WorkingPlane {
            origin: origin(),
            x_axis: Point3 { x: one(), y: zero(), z: zero() },
            y_axis: Point3 { x: zero(), y: one(), z: zero() },
            z_axis: Point3 { x: zero(), y: zero(), z: one() },
        }),
{
    WorkingPlane {
        origin: origin(),
        x_axis: Point3 { x: one(), y: zero(), z: zero() },
        y_axis: Point3 { x: zero(), y: one(), z: zero() },
        z_axis: Point3 { x: zero(), y: zero(), z: one() },
    }
}

/// A block to put along a curve in place of points.
#[derive(Debug)]
pub struct CurveMarker {
    pub block: String,
    pub align: bool,
    pub plane: WorkingPlane,
}

/// The contents of a [`CurveMarker`].
#[verifier::ext_equal]
pub struct MarkerModel {
    pub block: Seq<char>,
    pub align: bool,
    pub plane: WorkingPlane,
}

impl View for CurveMarker {
    type V = MarkerModel;

    open spec fn view(&self) -> MarkerModel {
        MarkerModel { block: self.block@, align: self.align, plane: self.plane }
    }
}

/// A copy of the entity at `index` inside the block reference `handle`, moved
/// by `offset`.
#[derive(Clone, Copy, Debug, PartialEq, Eq, Structural)]
pub struct NestedCopy {
    pub handle: Handle,
    pub index: usize,
    pub offset: Point3,
}

/// An entity that takes the place of another.
#[derive(Debug)]
pub struct Replacement {
    pub handle: Handle,
    pub entity: Entity,
}

/// The contents of a [`Replacement`].
#[verifier::ext_equal]
pub struct ReplacementModel {
    pub handle: Handle,
    pub entity: EntityModel,
}

impl View for Replacement {
    type V = ReplacementModel;

    open spec fn view(&self) -> ReplacementModel {
        ReplacementModel { handle: self.handle, entity: self.entity@ }
    }
}

/// What a command asks the program to do next.
#[derive(Debug)]
pub enum CmdResult {
    /// Go on asking.
    NeedPoint,
    /// End the command.
    Cancel,
    /// Take back the last change of the drawing and go on.
    UndoDocument,
    /// Edit a polyline or a mesh and go on.
    PeditOp { handle: Handle, op: PeditOp },
    /// Merge entities into one and end.
    JoinEntities(Vec<Handle>),
    /// Edit a hatch and end.
    HatcheditApply {
        handle: Handle,
        name: String,
        scale: Real,
        angle: Real,
        operation: HatchEditOperation,
    },
    /// Add an entity and end.
    CommitAndExit(Entity),
    /// Replace entities and end.
    ReplaceMany(Vec<Replacement>),
    /// Replace an entity and go on.
    ReplaceContinue(Replacement),
    /// Put markers at equal steps along an entity and end.
    DivideEntity { handle: Handle, n: usize, marker: Option<CurveMarker> },
    /// Put markers at steps of a given length along an entity and end.
    MeasureEntity {
        handle: Handle,
        segment_length: Real,
        pick_point: Point3,
        marker: Option<CurveMarker>,
    },
    /// Add moved copies of nested entities, and end where `exit` is set.
    CommitCopies { copies: Vec<NestedCopy>, exit: bool },
    /// Start another command line on a selection.
    Relaunch(String, Vec<Handle>),
}

/// The contents of a [`CmdResult`].
pub enum ResultModel {
    NeedPoint,
    Cancel,
    UndoDocument,
    PeditOp { handle: Handle, op: OpModel },
    JoinEntities(Seq<Handle>),
    HatcheditApply {
        handle: Handle,
        name: Seq<char>,
        scale: Real,
        angle: Real,
        operation: HatchEditModel,
    },
    CommitAndExit(EntityModel),
    ReplaceMany(Seq<ReplacementModel>),
    ReplaceContinue(ReplacementModel),
    DivideEntity { handle: Handle, n: usize, marker: Option<MarkerModel> },
    MeasureEntity {
        handle: Handle,
        segment_length: Real,
        pick_point: Point3,
        marker: Option<MarkerModel>,
    },
    CommitCopies { copies: Seq<NestedCopy>, exit: bool },
    Relaunch(Seq<char>, Seq<Handle>),
}

impl View for CmdResult {
    type V = ResultModel;

    open spec fn view(&self) -> ResultModel {
        match self {
            CmdResult::NeedPoint => ResultModel::NeedPoint,
            CmdResult::Cancel => ResultModel::Cancel,
            CmdResult::UndoDocument => ResultModel::UndoDocument,
            CmdResult::PeditOp { handle, op } => ResultModel::PeditOp { handle: *handle, op: op@ },
            CmdResult::JoinEntities(list) => ResultModel::JoinEntities(list@),
            CmdResult::HatcheditApply { handle, name, scale, angle, operation } =>
            ResultModel::HatcheditApply {
                handle: *handle,
                name: name@,
                scale: *scale,
                angle: *angle,
                operation: operation@,
            },
            CmdResult::CommitAndExit(e) => ResultModel::CommitAndExit(e@),
            CmdResult::ReplaceMany(list) => ResultModel::ReplaceMany(crate::entity::views(list@)),
            CmdResult::ReplaceContinue(r) => ResultModel::ReplaceContinue(r@),
            CmdResult::DivideEntity { handle, n, marker } => ResultModel::DivideEntity {
                handle: *handle,
                n: *n,
                marker: marker_model(*marker),
            },
            CmdResult::MeasureEntity { handle, segment_length, pick_point, marker } =>
            ResultModel::MeasureEntity {
                handle: *handle,
                segment_length: *segment_length,
                pick_point: *pick_point,
                marker: marker_model(*marker),
            },
            CmdResult::CommitCopies { copies, exit } => ResultModel::CommitCopies {
                copies: copies@,
                exit: *exit,
            },
            CmdResult::Relaunch(line, list) => ResultModel::Relaunch(line@, list@),
        }
    }
}

/// The contents of a marker, where there is one.
pub open spec fn marker_model(m: Option<CurveMarker>) -> Option<MarkerModel> {
    match m {
        Some(m) => Some(m@),
        None => None,
    }
}

/// The contents of an answer to a typed text. No answer means that the text
/// was not understood.
pub open spec fn answer(r: Option<CmdResult>) -> Option<ResultModel> {
    match r {
        Some(r) => Some(r@),
        None => None,
    }
}

} // verus!
