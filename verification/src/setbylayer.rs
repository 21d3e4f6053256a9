//! Setting the properties of entities to those of their layers.
use crate::command::{answer, CmdOption, CmdResult, ResultModel};
use crate::entity::{copy_of, Handle};
use crate::text::{
    chars_of, decimal, either, is_either, join, join3, number, owned, read_unsigned, text_of,
    to_upper, trim, trimmed, unsigned_value, uppercase,
};
use crate::value::Point3;
use vstd::prelude::*;

verus! {

/// The bits of the mode: which properties are changed, and the two answers that
/// are remembered.
pub const COLOR: u8 = 1;

pub const LINETYPE: u8 = 2;

pub const LINEWEIGHT: u8 = 4;

pub const MATERIAL: u8 = 8;

pub const BY_BLOCK: u8 = 32;

pub const BLOCKS: u8 = 64;

pub const TRANSPARENCY: u8 = 128;

/// The setting that the commands share: a set of bits.
#[derive(Clone, Copy, Debug, PartialEq, Eq, Structural)]
pub struct ModeSetting {
    pub value: u8,
}

/// The setting that a session begins with: everything is on.
#[verifier::allow_in_spec]
pub fn first_mode() -> ModeSetting
    returns
        (ModeSetting { value: 255 }),
{
    ModeSetting { value: 255 }
}

/// Reads the setting.
pub fn mode(setting: &ModeSetting) -> (r: u8)
    ensures
        r == setting.value,
{
    setting.value
}

/// Changes the setting.
pub fn set_mode(setting: &mut ModeSetting, value: u8)
    ensures
        final(setting).value == value,
{
    setting.value = value;
}

/// What the command is waiting for.
#[derive(Clone, Copy, Debug, PartialEq, Eq, Structural)]
pub enum Step {
    Selection,
    Settings,
    ByBlock,
    Blocks,
}

/// The command that sets properties to those of the layers.
#[derive(Debug)]
pub struct SetByLayerCommand {
    pub selected: Vec<Handle>,
    pub step: Step,
    pub change_byblock: bool,
    pub include_blocks: bool,
    pub pending_mode: u8,
}

/// The contents of a [`SetByLayerCommand`].
#[verifier::ext_equal]
pub struct State {
    pub selected: Seq<Handle>,
    pub step: Step,
    pub change_byblock: bool,
    pub include_blocks: bool,
    pub pending_mode: u8,
}

impl View for SetByLayerCommand {
    type V = State;

    open spec fn view(&self) -> State {
        State {
            selected: self.selected@,
            step: self.step,
            change_byblock: self.change_byblock,
            include_blocks: self.include_blocks,
            pending_mode: self.pending_mode,
        }
    }
}

/// The command as it starts on a selection.
pub open spec fn started(selected: Seq<Handle>, setting: u8) -> State {
    State {
        selected,
        step: if selected.len() == 0 {
            Step::Selection
        } else {
            Step::ByBlock
        },
        change_byblock: setting & BY_BLOCK != 0,
        include_blocks: setting & BLOCKS != 0,
        pending_mode: setting,
    }
}

/// The setting once both questions are answered.
pub open spec fn settled(pending: u8, change_byblock: bool, include_blocks: bool) -> u8 {
    (pending & 159) | (if change_byblock {
        BY_BLOCK
    } else {
        0
    }) | (if include_blocks {
        BLOCKS
    } else {
        0
    })
}

/// A yes as 1 and a no as 0.
pub open spec fn digit(yes: bool) -> Seq<char> {
    if yes {
        "1"@
    } else {
        "0"@
    }
}

/// What a yes or a no does to the command and to the setting.
pub open spec fn answered(s: State, setting: u8, yes: bool) -> (State, u8, ResultModel) {
    match s.step {
        Step::ByBlock => (
            State { change_byblock: yes, step: Step::Blocks, ..s },
            setting,
            ResultModel::NeedPoint,
        ),
        Step::Blocks => (
            s,
            settled(s.pending_mode, s.change_byblock, yes),
            ResultModel::Relaunch(
                "SETBYLAYER_APPLY "@ + digit(s.change_byblock) + " "@ + digit(yes),
                s.selected,
            ),
        ),
        _ => (s, setting, ResultModel::NeedPoint),
    }
}

/// What the Enter key does.
pub open spec fn entered(s: State, setting: u8) -> (State, u8, ResultModel) {
    match s.step {
        Step::Settings => (
            State { step: Step::Selection, ..s },
            setting,
            ResultModel::NeedPoint,
        ),
        Step::Selection => if s.selected.len() == 0 {
            (s, setting, ResultModel::Cancel)
        } else {
            (State { step: Step::ByBlock, ..s }, setting, ResultModel::NeedPoint)
        },
        Step::ByBlock => answered(s, setting, s.change_byblock),
        Step::Blocks => answered(s, setting, s.include_blocks),
    }
}

/// The bit that a property's name stands for.
pub open spec fn named_bit(up: Seq<char>) -> Option<u8> {
    if either(up, "C"@, "COLOR"@) {
        Some(COLOR)
    } else if either(up, "LT"@, "LTYPE"@) {
        Some(LINETYPE)
    } else if either(up, "LW"@, "LWEIGHT"@) {
        Some(LINEWEIGHT)
    } else if either(up, "T"@, "TRANSPARENCY"@) {
        Some(TRANSPARENCY)
    } else if either(up, "M"@, "MATERIAL"@) {
        Some(MATERIAL)
    } else {
        None
    }
}

/// What a keyword does.
pub open spec fn typed(s: State, setting: u8, up: Seq<char>) -> (State, u8, Option<ResultModel>) {
    let go = Some(ResultModel::NeedPoint);
    match s.step {
        Step::Selection => if either(up, "S"@, "SETTINGS"@) {
            (State { step: Step::Settings, ..s }, setting, go)
        } else {
            (s, setting, None)
        },
        Step::Settings => match named_bit(up) {
            Some(bit) => (State { pending_mode: s.pending_mode ^ bit, ..s }, setting, go),
            None => (s, setting, go),
        },
        _ => if either(up, "Y"@, "YES"@) {
            let (t, m, r) = answered(s, setting, true);
            (t, m, Some(r))
        } else if either(up, "N"@, "NO"@) {
            let (t, m, r) = answered(s, setting, false);
            (t, m, Some(r))
        } else {
            (s, setting, go)
        },
    }
}

/// A text without the underscores it begins with.
pub open spec fn unmarked(s: Seq<char>) -> Seq<char>
    decreases s.len(),
{
    if s.len() > 0 && s[0] == '_' {
        unmarked(s.skip(1))
    } else {
        s
    }
}

fn unmark(s: &str) -> (r: String)
    ensures
        r@ == unmarked(s@),
{
    let v = chars_of(s);
    let n: usize = v.len();
    let mut i: usize = 0;
    proof {
        assert(v@.skip(0) =~= v@);
    }
    while i < n && v[i] == '_'
        invariant
            i <= n == v@.len(),
            unmarked(v@.skip(i as int)) == unmarked(v@),
        decreases n - i,
    {
        proof {
            assert(v@.skip(i as int).skip(1) =~= v@.skip(i + 1));
        }
        i += 1;
    }
    proof {
        assert(v@.skip(i as int) =~= v@.subrange(i as int, n as int));
    }
    text_of(&v, i, n)
}

/// The properties that are on, by their labels, with a space between them.
pub open spec fn active(pending: u8) -> Seq<char> {
    let one = if pending & COLOR != 0 {
        seq!["Color"@]
    } else {
        Seq::empty()
    };
    let two = if pending & LINETYPE != 0 {
        one.push("Linetype"@)
    } else {
        one
    };
    let three = if pending & LINEWEIGHT != 0 {
        two.push("Lineweight"@)
    } else {
        two
    };
    let four = if pending & TRANSPARENCY != 0 {
        three.push("Transparency"@)
    } else {
        three
    };
    let five = if pending & MATERIAL != 0 {
        four.push("Material"@)
    } else {
        four
    };
    spaced(five)
}

/// Words with a space between each two.
pub open spec fn spaced(words: Seq<Seq<char>>) -> Seq<char>
    decreases words.len(),
{
    if words.len() == 0 {
        Seq::empty()
    } else if words.len() == 1 {
        words[0]
    } else {
        spaced(words.drop_last()) + " "@ + words.last()
    }
}

fn add_word(line: String, first: bool, word: &str, Ghost(words): Ghost<Seq<Seq<char>>>) -> (r: String)
    requires
        line@ == spaced(words),
        first == (words.len() == 0),
    ensures
        r@ == spaced(words.push(word@)),
{
    proof {
        assert(words.push(word@).drop_last() =~= words);
    }
    if first {
        owned(word)
    } else {
        join3(line.as_str(), " ", word)
    }
}

fn active_labels(pending: u8) -> (r: String)
    ensures
        r@ == active(pending),
{
    let ghost mut words: Seq<Seq<char>> = Seq::empty();
    let mut line: String = owned("");
    let mut first = true;
    proof {
        reveal_strlit("");
        assert(line@ =~= spaced(words));
    }
    if pending & COLOR != 0 {
        line = add_word(line, first, "Color", Ghost(words));
        proof {
            words = words.push("Color"@);
            assert(words =~= seq!["Color"@]);
        }
        first = false;
    }
    if pending & LINETYPE != 0 {
        line = add_word(line, first, "Linetype", Ghost(words));
        proof {
            words = words.push("Linetype"@);
        }
        first = false;
    }
    if pending & LINEWEIGHT != 0 {
        line = add_word(line, first, "Lineweight", Ghost(words));
        proof {
            words = words.push("Lineweight"@);
        }
        first = false;
    }
    if pending & TRANSPARENCY != 0 {
        line = add_word(line, first, "Transparency", Ghost(words));
        proof {
            words = words.push("Transparency"@);
        }
        first = false;
    }
    if pending & MATERIAL != 0 {
        line = add_word(line, first, "Material", Ghost(words));
        proof {
            words = words.push("Material"@);
        }
    }
    line
}

/// The word for a yes or a no.
pub open spec fn word(yes: bool) -> Seq<char> {
    if yes {
        "Yes"@
    } else {
        "No"@
    }
}

/// What is asked.
pub open spec fn prompted(s: State) -> Seq<char> {
    match s.step {
        Step::Selection => "Select objects or [Settings]:"@,
        Step::Settings => "Current active settings: "@ + active(s.pending_mode)
            + "\nEnter a property to toggle [Color/LType/LWeight/Transparency/Material]:"@,
        Step::ByBlock => "Change ByBlock to ByLayer? [Yes/No] <"@ + word(s.change_byblock) + ">:"@,
        Step::Blocks => "Include blocks? [Yes/No] <"@ + word(s.include_blocks) + ">:"@,
    }
}

/// The options that are offered.
pub open spec fn offered(s: State) -> Seq<CmdOption> {
    match s.step {
        Step::Selection => seq![CmdOption::new("Settings", "S")],
        Step::Settings => seq![
            CmdOption::new("Color", "C"),
            CmdOption::new("LType", "LT"),
            CmdOption::new("LWeight", "LW"),
            CmdOption::new("Transparency", "T"),
            CmdOption::new("Material", "M"),
        ],
        _ => seq![CmdOption::new("Yes", "Y"), CmdOption::new("No", "N")],
    }
}

impl SetByLayerCommand {
    /// Starts the command on a selection.
    pub fn new(selected: Vec<Handle>, setting: &ModeSetting) -> (r: SetByLayerCommand)
        ensures
            r@ == started(selected@, setting.value),
    {
        let step = if selected.len() == 0 {
            Step::Selection
        } else {
            Step::ByBlock
        };
        let pending_mode: u8 = mode(setting);
        SetByLayerCommand {
            selected,
            step,
            change_byblock: pending_mode & BY_BLOCK != 0,
            include_blocks: pending_mode & BLOCKS != 0,
            pending_mode,
        }
    }

    fn reply(&mut self, setting: &mut ModeSetting, yes: bool) -> (r: CmdResult)
        ensures
            (final(self)@, final(setting).value, r@) == answered(old(self)@, old(setting).value, yes),
    {
        match self.step {
            Step::ByBlock => {
                self.change_byblock = yes;
                self.step = Step::Blocks;
                CmdResult::NeedPoint
            },
            Step::Blocks => {
                let byblock: u8 = if self.change_byblock {
                    BY_BLOCK
                } else {
                    0
                };
                let blocks: u8 = if yes {
                    BLOCKS
                } else {
                    0
                };
                set_mode(setting, (self.pending_mode & 159) | byblock | blocks);
                let head = join3(
                    "SETBYLAYER_APPLY ",
                    if self.change_byblock {
                        "1"
                    } else {
                        "0"
                    },
                    " ",
                );
                let line = join(
                    head.as_str(),
                    if yes {
                        "1"
                    } else {
                        "0"
                    },
                );
                CmdResult::Relaunch(line, copy_of(&self.selected))
            },
            _ => CmdResult::NeedPoint,
        }
    }

    /// Reads the gathered selection.
    pub fn on_selection_complete(&mut self, handles: Vec<Handle>) -> (r: CmdResult)
        ensures
            r@ == ResultModel::NeedPoint,
            final(self)@ == (State { selected: handles@, ..old(self)@ }),
    {
        self.selected = handles;
        CmdResult::NeedPoint
    }

    /// Reads the Enter key.
    pub fn on_enter(&mut self, setting: &mut ModeSetting) -> (r: CmdResult)
        ensures
            (final(self)@, final(setting).value, r@) == entered(old(self)@, old(setting).value),
    {
        match self.step {
            Step::Settings => {
                self.step = Step::Selection;
                CmdResult::NeedPoint
            },
            Step::Selection => {
                if self.selected.len() == 0 {
                    CmdResult::Cancel
                } else {
                    self.step = Step::ByBlock;
                    CmdResult::NeedPoint
                }
            },
            Step::ByBlock => {
                let yes = self.change_byblock;
                self.reply(setting, yes)
            },
            Step::Blocks => {
                let yes = self.include_blocks;
                self.reply(setting, yes)
            },
        }
    }

    /// Reads a keyword in upper case.
    pub fn on_words(&mut self, setting: &mut ModeSetting, up: &str) -> (r: Option<CmdResult>)
        ensures
            (final(self)@, final(setting).value, answer(r)) == typed(
                old(self)@,
                old(setting).value,
                up@,
            ),
    {
        match self.step {
            Step::Selection => {
                if is_either(up, "S", "SETTINGS") {
                    self.step = Step::Settings;
                    Some(CmdResult::NeedPoint)
                } else {
                    None
                }
            },
            Step::Settings => {
                let bit: u8 = if is_either(up, "C", "COLOR") {
                    COLOR
                } else if is_either(up, "LT", "LTYPE") {
                    LINETYPE
                } else if is_either(up, "LW", "LWEIGHT") {
                    LINEWEIGHT
                } else if is_either(up, "T", "TRANSPARENCY") {
                    TRANSPARENCY
                } else if is_either(up, "M", "MATERIAL") {
                    MATERIAL
                } else {
                    return Some(CmdResult::NeedPoint);
                };
                self.pending_mode = self.pending_mode ^ bit;
                Some(CmdResult::NeedPoint)
            },
            _ => {
                if is_either(up, "Y", "YES") {
                    Some(self.reply(setting, true))
                } else if is_either(up, "N", "NO") {
                    Some(self.reply(setting, false))
                } else {
                    Some(CmdResult::NeedPoint)
                }
            },
        }
    }

    /// Reads a typed text. White space around it and underscores before it do
    /// not count.
    pub fn on_text_input(&mut self, setting: &mut ModeSetting, text: &str) -> (r: Option<CmdResult>)
        ensures
            (final(self)@, final(setting).value, answer(r)) == typed(
                old(self)@,
                old(setting).value,
                uppercase(unmarked(trimmed(text@))),
            ),
    {
        let plain = trim(text);
        let bare = unmark(plain.as_str());
        let up = to_upper(bare.as_str());
        self.on_words(setting, up.as_str())
    }

    /// Reads a point: none is asked for.
    pub fn on_point(&mut self, point: Point3) -> (r: CmdResult)
        ensures
            r@ == ResultModel::NeedPoint,
            final(self)@ == old(self)@,
    {
        CmdResult::NeedPoint
    }

    /// The command's name.
    pub fn name(&self) -> (r: &'static str)
        ensures
            r@ == "SETBYLAYER"@,
    {
        "SETBYLAYER"
    }

    /// What the command asks.
    pub fn prompt(&self) -> (r: String)
        ensures
            r@ == prompted(self@),
    {
        match self.step {
            Step::Selection => owned("Select objects or [Settings]:"),
            Step::Settings => {
                let labels = active_labels(self.pending_mode);
                join3(
                    "Current active settings: ",
                    labels.as_str(),
                    "\nEnter a property to toggle [Color/LType/LWeight/Transparency/Material]:",
                )
            },
            Step::ByBlock => join3(
                "Change ByBlock to ByLayer? [Yes/No] <",
                if self.change_byblock {
                    "Yes"
                } else {
                    "No"
                },
                ">:",
            ),
            Step::Blocks => join3(
                "Include blocks? [Yes/No] <",
                if self.include_blocks {
                    "Yes"
                } else {
                    "No"
                },
                ">:",
            ),
        }
    }

    /// The options to offer.
    pub fn options(&self) -> (r: Vec<CmdOption>)
        ensures
            r@ == offered(self@),
    {
        match self.step {
            Step::Selection => vec![CmdOption::new("Settings", "S")],
            Step::Settings => vec![
                CmdOption::new("Color", "C"),
                CmdOption::new("LType", "LT"),
                CmdOption::new("LWeight", "LW"),
                CmdOption::new("Transparency", "T"),
                CmdOption::new("Material", "M"),
            ],
            _ => vec![CmdOption::new("Yes", "Y"), CmdOption::new("No", "N")],
        }
    }

    /// Whether a selection is being gathered.
    pub fn is_selection_gathering(&self) -> (r: bool)
        ensures
            r == (self@.step == Step::Selection),
    {
        self.step == Step::Selection
    }

    /// Whether the command reads typed text.
    pub fn wants_text_input(&self) -> (r: bool)
        ensures
            r,
    {
        true
    }
}

/// The command that changes the setting itself.
#[derive(Clone, Copy, Debug, PartialEq, Eq)]
pub struct ModeCommand;

/// What a typed value does to the setting.
pub open spec fn mode_typed(setting: u8, text: Seq<char>) -> (u8, ResultModel) {
    match unsigned_value(trimmed(text), 10, 255) {
        Some(n) => (n as u8, ResultModel::Cancel),
        None => (setting, ResultModel::NeedPoint),
    }
}

impl ModeCommand {
    /// The command's name.
    pub fn name(&self) -> (r: &'static str)
        ensures
            r@ == "SETBYLAYERMODE"@,
    {
        "SETBYLAYERMODE"
    }

    /// What the command asks.
    pub fn prompt(&self, setting: &ModeSetting) -> (r: String)
        ensures
            r@ == "Enter new value for SETBYLAYERMODE <"@ + decimal(setting.value as nat) + ">:"@,
    {
        let n = number(mode(setting) as u64);
        join3("Enter new value for SETBYLAYERMODE <", n.as_str(), ">:")
    }

    /// Whether the command reads typed text.
    pub fn wants_text_input(&self) -> (r: bool)
        ensures
            r,
    {
        true
    }

    /// Reads a point: none is asked for.
    pub fn on_point(&self, point: Point3) -> (r: CmdResult)
        ensures
            r@ == ResultModel::NeedPoint,
    {
        CmdResult::NeedPoint
    }

    /// Reads the Enter key.
    pub fn on_enter(&self) -> (r: CmdResult)
        ensures
            r@ == ResultModel::Cancel,
    {
        CmdResult::Cancel
    }

    /// Reads a typed value: a number that fits the setting is stored, anything
    /// else is asked for again.
    pub fn on_text_input(&self, setting: &mut ModeSetting, text: &str) -> (r: Option<CmdResult>)
        ensures
            ({
                let (value, result) = mode_typed(old(setting).value, text@);
                final(setting).value == value && answer(r) == Some(result)
            }),
    {
        let plain = trim(text);
        match read_unsigned(plain.as_str(), 10, 255) {
            Some(n) => {
                set_mode(setting, n as u8);
                Some(CmdResult::Cancel)
            },
            None => Some(CmdResult::NeedPoint),
        }
    }
}

/// Naming a property twice leaves the settings as they were.
pub proof fn toggling_twice_restores(s: State, setting: u8, up: Seq<char>)
    requires
        s.step == Step::Settings,
    ensures
        ({
            let (once, m, r) = typed(s, setting, up);
            let (twice, n, q) = typed(once, m, up);
            twice == s && n == setting
        }),
{
    let p = s.pending_mode;
    if let Some(b) = named_bit(up) {
        assert((p ^ b) ^ b == p) by (bit_vector);
    }
}

/// The two answers are read back from the setting they are stored in: a command
/// started later offers them again.
pub proof fn answers_are_offered_again(
    pending: u8,
    change_byblock: bool,
    include_blocks: bool,
    selected: Seq<Handle>,
)
    ensures
        ({
            let s = started(selected, settled(pending, change_byblock, include_blocks));
            s.change_byblock == change_byblock && s.include_blocks == include_blocks
        }),
{
    let p = pending;
    let c: u8 = if change_byblock {
        32
    } else {
        0
    };
    let b: u8 = if include_blocks {
        64
    } else {
        0
    };
    assert(((p & 159) | c | b) & 32 == c && ((p & 159) | c | b) & 64 == b) by (bit_vector)
        requires
            c == 0 || c == 32,
            b == 0 || b == 64,
    ;
}

/// Answering the two questions changes no other bit of the settings.
pub proof fn answers_keep_properties(pending: u8, change_byblock: bool, include_blocks: bool)
    ensures
        settled(pending, change_byblock, include_blocks) & 159 == pending & 159,
{
    let p = pending;
    let c: u8 = if change_byblock {
        32
    } else {
        0
    };
    let b: u8 = if include_blocks {
        64
    } else {
        0
    };
    assert(((p & 159) | c | b) & 159 == p & 159) by (bit_vector)
        requires
            c == 0 || c == 32,
            b == 0 || b == 64,
    ;
}

/// The setting changes only when the last question is answered.
pub proof fn setting_waits_for_the_end(s: State, setting: u8, up: Seq<char>)
    requires
        s.step != Step::Blocks,
    ensures
        typed(s, setting, up).1 == setting,
        entered(s, setting).1 == setting,
{
}

} // verus!
