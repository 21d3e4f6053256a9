//! The additional drawing tools behind the title of the Draw panel.
use crate::text::{join3, same};
use vstd::prelude::*;

verus! {

/// The name of the panel that holds all tools.
#[verifier::allow_in_spec]
pub fn panel_id() -> &'static str
    returns
        "draw_extension",
{
    "draw_extension"
}

/// A command in the menu of a tool, and its label.
#[derive(Clone, Copy, Debug, PartialEq, Eq)]
pub struct Choice {
    pub command: &'static str,
    pub label: &'static str,
}

/// A tool of a panel.
#[derive(Debug)]
pub struct Tool {
    pub command: &'static str,
    pub label: &'static str,
    /// The file name of the icon.
    pub icon: &'static str,
    pub options: Vec<Choice>,
}

/// The contents of a [`Tool`].
#[verifier::ext_equal]
pub struct ToolModel {
    pub command: Seq<char>,
    pub label: Seq<char>,
    pub icon: Seq<char>,
    pub options: Seq<Choice>,
}

impl View for Tool {
    type V = ToolModel;

    open spec fn view(&self) -> ToolModel {
        ToolModel {
            command: self.command@,
            label: self.label@,
            icon: self.icon@,
            options: self.options@,
        }
    }
}

/// Puts single and multiple points.
pub fn multipoint() -> (r: Tool)
    ensures
        r@ == (ToolModel {
            command: "MULTIPOINT"@,
            label: "Multiple Points"@,
            icon: "multipoint.svg"@,
            options: seq![
                Choice { command: "POINT", label: "Single Point" },
                Choice { command: "MULTIPOINT", label: "Multiple Points" },
                Choice { command: "DDPTYPE", label: "Point Style" },
            ],
        }),
{
    Tool {
        command: "MULTIPOINT",
        label: "Multiple Points",
        icon: "multipoint.svg",
        options: vec![
            Choice { command: "POINT", label: "Single Point" },
            Choice { command: "MULTIPOINT", label: "Multiple Points" },
            Choice { command: "DDPTYPE", label: "Point Style" },
        ],
    }
}

/// Draws revision clouds.
pub fn revcloud() -> (r: Tool)
    ensures
        r@ == (ToolModel {
            command: "REVCLOUD"@,
            label: "Revision Cloud"@,
            icon: "revcloud.svg"@,
            options: seq![
                Choice { command: "REVCLOUD_RECTANGULAR", label: "Rectangular" },
                Choice { command: "REVCLOUD_POLYGONAL", label: "Polygonal" },
                Choice { command: "REVCLOUD_FREEHAND", label: "Freehand" },
            ],
        }),
{
    Tool {
        command: "REVCLOUD",
        label: "Revision Cloud",
        icon: "revcloud.svg",
        options: vec![
            Choice { command: "REVCLOUD_RECTANGULAR", label: "Rectangular" },
            Choice { command: "REVCLOUD_POLYGONAL", label: "Polygonal" },
            Choice { command: "REVCLOUD_FREEHAND", label: "Freehand" },
        ],
    }
}

/// Changes which entities are drawn over others. It belongs to the Modify panel.
pub fn draworder() -> (r: Tool)
    ensures
        r@ == (ToolModel {
            command: "DRAWORDER_FRONT"@,
            label: "Draw Order"@,
            icon: "modify_draworder.svg"@,
            options: seq![
                Choice { command: "DRAWORDER_FRONT", label: "Bring to Front" },
                Choice { command: "DRAWORDER_BACK", label: "Send to Back" },
                Choice { command: "DRAWORDER_ABOVE", label: "Bring Above Objects" },
                Choice { command: "DRAWORDER_UNDER", label: "Send Under Objects" },
            ],
        }),
{
    Tool {
        command: "DRAWORDER_FRONT",
        label: "Draw Order",
        icon: "modify_draworder.svg",
        options: vec![
            Choice { command: "DRAWORDER_FRONT", label: "Bring to Front" },
            Choice { command: "DRAWORDER_BACK", label: "Send to Back" },
            Choice { command: "DRAWORDER_ABOVE", label: "Bring Above Objects" },
            Choice { command: "DRAWORDER_UNDER", label: "Send Under Objects" },
        ],
    }
}

/// Whether a tool has a menu of its own under the name `id`.
pub open spec fn opens(tool: Tool, id: Seq<char>) -> bool {
    tool.command@ == id && tool.options@.len() > 0
}

/// The first tool whose menu has the name `id`, counted from `from`.
pub open spec fn menu_from(tools: Seq<Tool>, id: Seq<char>, from: int) -> Option<int>
    decreases tools.len() - from,
{
    if from < 0 || from >= tools.len() {
        None
    } else if opens(tools[from], id) {
        Some(from)
    } else {
        menu_from(tools, id, from + 1)
    }
}

/// The first tool whose menu has the name `id`.
pub open spec fn menu_of(tools: Seq<Tool>, id: Seq<char>) -> Option<int> {
    menu_from(tools, id, 0)
}

fn find_menu(tools: &Vec<Tool>, id: &str) -> (r: Option<usize>)
    ensures
        match r {
            Some(i) => menu_of(tools@, id@) == Some(i as int) && i < tools@.len() && opens(
                tools@[i as int],
                id@,
            ),
            None => menu_of(tools@, id@) is None,
        },
{
    let n: usize = tools.len();
    let mut i: usize = 0;
    while i < n
        invariant
            i <= n == tools@.len(),
            menu_of(tools@, id@) == menu_from(tools@, id@, i as int),
        decreases n - i,
    {
        if same(tools[i].command, id) && tools[i].options.len() > 0 {
            return Some(i);
        }
        i += 1;
    }
    None
}

/// Whether the dropdown `id` belongs to the Draw panel: it is the panel itself
/// or the menu of one of its tools.
pub open spec fn owned_by(tools: Seq<Tool>, id: Seq<char>) -> bool {
    id == panel_id()@ || menu_of(tools, id) is Some
}

/// Whether the dropdown `id` belongs to the panel with these tools.
pub fn owns_dropdown(tools: &Vec<Tool>, id: &str) -> (r: bool)
    ensures
        r == owned_by(tools@, id@),
        r == (id@ == panel_id()@ || exists|i: int|
            0 <= i < tools@.len() && #[trigger] opens(tools@[i], id@)),
{
    proof {
        lemma_menu(tools@, id@, 0);
    }
    same(id, panel_id()) || find_menu(tools, id).is_some()
}

proof fn lemma_menu(tools: Seq<Tool>, id: Seq<char>, from: int)
    requires
        0 <= from <= tools.len(),
    ensures
        menu_from(tools, id, from) is Some == exists|i: int|
            from <= i < tools.len() && #[trigger] opens(tools[i], id),
    decreases tools.len() - from,
{
    if from < tools.len() {
        lemma_menu(tools, id, from + 1);
        if opens(tools[from], id) {
            assert(opens(tools[from], id));
        }
    }
}

/// How the title of a panel is shown.
#[derive(Clone, Copy, Debug, PartialEq, Eq, Structural)]
pub enum Title {
    /// Text alone.
    Plain,
    /// A button that opens and closes the tools, with an arrow up where they are
    /// open and down where they are not.
    Toggle { expanded: bool },
}

/// How the title of a panel is to be shown while the dropdown `open` is open: a
/// button on the Draw panel where it has tools, text on the others.
pub open spec fn titled(tools: Seq<Tool>, title: Seq<char>, open: Option<Seq<char>>) -> Title {
    if title != "Draw"@ || tools.len() == 0 {
        Title::Plain
    } else {
        Title::Toggle {
            expanded: match open {
                Some(id) => owned_by(tools, id),
                None => false,
            },
        }
    }
}

/// How the title of a panel is to be shown while the dropdown `open` is open.
pub fn group_title(tools: &Vec<Tool>, title: &str, open: &Option<String>) -> (r: Title)
    ensures
        r == titled(
            tools@,
            title@,
            match open {
                Some(id) => Some(id@),
                None => None,
            },
        ),
{
    if !same(title, "Draw") || tools.len() == 0 {
        return Title::Plain;
    }
    let expanded = match open {
        Some(id) => owns_dropdown(tools, id.as_str()),
        None => false,
    };
    Title::Toggle { expanded }
}

/// How a tool is shown.
#[derive(Debug)]
pub struct ToolButton {
    /// The command to start.
    pub command: &'static str,
    /// The text shown while the pointer rests on the button.
    pub tip: String,
    /// Whether an arrow that opens the tool's menu stands beside it.
    pub arrow: bool,
    /// Whether the tool is the one in use.
    pub active: bool,
}

/// Shows a tool. `label` and `caption` are the tool's label and the word
/// "Command:" in the language of the user.
pub fn tool_button(tool: &Tool, label: &str, caption: &str, in_use: &Option<String>) -> (r: ToolButton)
    ensures
        r.command@ == tool.command@,
        r.tip@ == label@ + "\n"@ + caption@ + " "@ + tool.command@,
        r.arrow == (tool.options@.len() > 0),
        r.active == (match in_use {
            Some(name) => name@ == tool.command@,
            None => false,
        }),
{
    let head = join3(label, "\n", caption);
    let tip = join3(head.as_str(), " ", tool.command);
    let active = match in_use {
        Some(name) => same(name.as_str(), tool.command),
        None => false,
    };
    ToolButton { command: tool.command, tip, arrow: tool.options.len() > 0, active }
}

/// What an open dropdown holds.
#[derive(Clone, Copy, Debug, PartialEq, Eq, Structural)]
pub enum Contents {
    /// The menu of the tool at a place of the table.
    Menu(usize),
    /// All tools, in rows of so many.
    Grid(usize),
}

/// What the dropdown `id` holds: the menu of the tool with this name, or all tools
/// in rows of `fits`, though of one at least and of seven at most.
pub open spec fn overlaid(tools: Seq<Tool>, id: Seq<char>, fits: usize) -> Contents {
    match menu_of(tools, id) {
        Some(i) => Contents::Menu(i as usize),
        None => Contents::Grid(
            if fits < 1 {
                1
            } else if fits > 7 {
                7
            } else {
                fits
            },
        ),
    }
}

/// What the dropdown `id` holds. `fits` is the number of tools that fit beside
/// each other; there are at least one and at most seven in a row.
pub fn overlay(tools: &Vec<Tool>, id: &str, fits: usize) -> (r: Contents)
    ensures
        r == overlaid(tools@, id@, fits),
{
    match find_menu(tools, id) {
        Some(i) => Contents::Menu(i),
        None => {
            let columns: usize = if fits < 1 {
                1
            } else if fits > 7 {
                7
            } else {
                fits
            };
            Contents::Grid(columns)
        },
    }
}

/// Where a row of the grid starts: after the full rows before it, and at the end
/// where the tools do not reach so far.
pub open spec fn row_start(count: int, columns: int, row: int) -> int {
    if row * columns < count {
        row * columns
    } else {
        count
    }
}

/// The places of the table that row `row` of a grid shows: from the first up to,
/// but without, the second.
pub fn grid_row(count: usize, columns: usize, row: usize) -> (r: (usize, usize))
    requires
        columns > 0,
    ensures
        r.0 == row_start(count as int, columns as int, row as int),
        r.1 == row_start(count as int, columns as int, row + 1),
{
    let from: usize = match row.checked_mul(columns) {
        Some(k) => if k < count {
            k
        } else {
            count
        },
        None => count,
    };
    let to: usize = if count - from > columns {
        from + columns
    } else {
        count
    };
    assert((row + 1) * columns == row * columns + columns) by (nonlinear_arith);
    (from, to)
}

/// The number of rows of a grid.
pub fn grid_rows(count: usize, columns: usize) -> (r: usize)
    requires
        columns > 0,
    ensures
        r * columns >= count,
        count > 0 ==> (r - 1) * columns < count,
        count == 0 ==> r == 0,
{
    if count == 0 {
        return 0;
    }
    let full: usize = (count - 1) / columns;
    proof {
        let c = columns as int;
        let m = (count - 1) as int;
        let q = full as int;
        assert(q == m / c);
        vstd::arithmetic::div_mod::lemma_fundamental_div_mod(m, c);
        assert(0 <= m % c < c) by (nonlinear_arith)
            requires
                c > 0,
        ;
        assert(c * q == q * c) by (nonlinear_arith);
        assert((q + 1) * c == q * c + c) by (nonlinear_arith);
        assert(q <= m) by (nonlinear_arith)
            requires
                c >= 1,
                q * c <= m,
                q >= 0,
        ;
    }
    full + 1
}

} // verus!
