use cad_commands::command::CmdResult;
use cad_commands::draw_panel::{
    draworder, grid_row, grid_rows, group_title, multipoint, overlay, owns_dropdown, panel_id,
    revcloud, tool_button, Choice, Contents, Title, Tool,
};
use cad_commands::ncopy::{nearest, nested_leaves, ArrayPlan, NcopyCommand, Node, Step};
use cad_commands::setbylayer::{
    first_mode, mode, set_mode, ModeCommand, ModeSetting, SetByLayerCommand, COLOR, TRANSPARENCY,
};
use cad_commands::text;
use cad_commands::value::{Point3, Real};
use rustc_hash::FxHashMap;

fn r(x: f64) -> Real {
    Real { bits: x.to_bits() }
}

fn p3(x: f64, y: f64, z: f64) -> Point3 {
    Point3 { x: r(x), y: r(y), z: r(z) }
}

// ── Copies out of blocks ───────────────────────────────────────────────────

fn block(name: &str, parts: &[usize]) -> Node {
    Node { block: Some(name.to_string()), parts: parts.to_vec() }
}

fn leaf() -> Node {
    Node { block: None, parts: vec![] }
}

#[test]
fn leaves_are_found_through_blocks() {
    // 0 is a reference to A, which holds 1, 2 (to B) and 1 again; B holds 3 and
    // a reference back to A. A leaf is given by the way to it.
    let nodes = vec![block("A", &[1, 2, 1]), leaf(), block("b", &[3, 4]), leaf(), block("a", &[1])];
    assert_eq!(nested_leaves(&nodes, 0), vec![vec![0, 1], vec![0, 2, 3], vec![0, 1]]);
    assert_eq!(nested_leaves(&nodes, 1), vec![vec![1]]);
}

fn ncopy() -> NcopyCommand {
    let mut nested: FxHashMap<u64, usize> = FxHashMap::default();
    nested.insert(7, 3);
    nested.insert(8, 1);
    NcopyCommand::new(nested)
}

#[test]
fn nested_entities_are_picked_once() {
    let mut c = ncopy();
    assert_eq!(c.name(), "NCOPY");
    assert!(c.needs_entity_pick() && !c.wants_text_input());
    assert!(matches!(c.on_enter(), CmdResult::Cancel));
    c.on_entity_pick(9, &vec![]);
    c.on_entity_pick(7, &vec![None, None, None]);
    assert!(c.selected.is_empty());
    c.on_entity_pick(7, &vec![None, Some(r(2.0)), Some(r(1.0))]);
    c.on_entity_pick(7, &vec![Some(r(9.0)), Some(r(2.0)), Some(r(1.0))]);
    c.on_entity_pick(8, &vec![Some(r(0.0))]);
    assert_eq!(c.selected, vec![(7, 2), (8, 0)]);
    assert_eq!(nearest(&vec![Some(r(1.0)), Some(r(1.0))]), Some(0));
    assert_eq!(nearest(&vec![]), None);
}

fn picked() -> NcopyCommand {
    let mut c = ncopy();
    c.on_entity_pick(8, &vec![Some(r(0.0))]);
    c.on_enter();
    c
}

#[test]
fn copies_are_placed_once_or_often() {
    let none = vec![];
    let mut c = picked();
    assert_eq!(c.step, Step::Base);
    assert_eq!(c.prompt(), "Specify base point or [Displacement/Multiple] <Displacement>:");
    c.on_point(p3(1.0, 0.0, 0.0), p3(0.0, 0.0, 0.0), &none);
    assert_eq!(c.step, Step::Target(p3(1.0, 0.0, 0.0)));
    match c.on_point(p3(4.0, 0.0, 0.0), p3(3.0, 0.0, 0.0), &none) {
        CmdResult::CommitCopies { copies, exit: true } => {
            assert_eq!(copies.len(), 1);
            assert_eq!((copies[0].handle, copies[0].index), (8, 0));
            assert_eq!(copies[0].offset, p3(3.0, 0.0, 0.0));
        }
        other => panic!("{other:?}"),
    }
    match c.on_enter() {
        CmdResult::CommitCopies { copies, exit: true } => {
            assert_eq!(copies[0].offset, p3(1.0, 0.0, 0.0))
        }
        other => panic!("{other:?}"),
    }
    let mut c = picked();
    assert!(matches!(c.on_text_input("m"), Some(CmdResult::NeedPoint)));
    assert!(c.multiple && c.step == Step::Base);
    c.on_enter();
    assert_eq!(c.step, Step::Target(p3(0.0, 0.0, 0.0)));
    assert!(c.on_text_input("U").is_none());
    assert!(matches!(
        c.on_point(p3(f64::NAN, 0.0, 0.0), p3(f64::NAN, 0.0, 0.0), &none),
        CmdResult::NeedPoint
    ));
    assert_eq!(c.placements, 0);
    assert!(matches!(
        c.on_point(p3(1.0, 0.0, 0.0), p3(1.0, 0.0, 0.0), &none),
        CmdResult::CommitCopies { exit: false, .. }
    ));
    assert_eq!(c.options().len(), 3);
    assert!(matches!(c.on_text_input("undo"), Some(CmdResult::UndoDocument)));
    assert_eq!(c.placements, 0);
    assert!(matches!(c.on_text_input("E"), Some(CmdResult::Cancel)));
    assert!(matches!(c.on_enter(), CmdResult::Cancel));
}

#[test]
fn copies_are_arrayed() {
    let mut c = picked();
    c.on_text_input("D");
    assert!(matches!(c.on_text_input("array"), Some(CmdResult::NeedPoint)));
    for text in ["1", "32768", "many"] {
        c.on_text_input(text);
        assert_eq!(c.step, Step::ArrayCount(p3(0.0, 0.0, 0.0)), "{text}");
    }
    assert_eq!(c.array(), None);
    c.on_text_input(" 3 ");
    assert_eq!(c.array(), Some(ArrayPlan { base: p3(0.0, 0.0, 0.0), count: 3, divisor: 1 }));
    assert_eq!(c.prompt(), "Specify second point or [Fit]:");
    c.on_text_input("F");
    assert_eq!(c.array(), Some(ArrayPlan { base: p3(0.0, 0.0, 0.0), count: 3, divisor: 2 }));
    let offsets = vec![p3(0.0, 0.0, 0.0), p3(2.0, 0.0, 0.0), p3(4.0, 0.0, 0.0)];
    match c.on_point(p3(4.0, 0.0, 0.0), p3(2.0, 0.0, 0.0), &offsets) {
        CmdResult::CommitCopies { copies, exit: true } => {
            let at: Vec<Point3> = copies.iter().map(|x| x.offset).collect();
            assert_eq!(at, offsets);
        }
        other => panic!("{other:?}"),
    }
}

// ── Properties by layer ────────────────────────────────────────────────────

#[test]
fn the_setting_is_stored_at_the_end() {
    let mut setting = first_mode();
    assert_eq!(mode(&setting), 255);
    let mut c = SetByLayerCommand::new(vec![], &setting);
    assert!(c.is_selection_gathering());
    assert!(c.on_text_input(&mut setting, "x").is_none());
    assert!(matches!(c.on_text_input(&mut setting, " _settings "), Some(CmdResult::NeedPoint)));
    c.on_text_input(&mut setting, "C");
    c.on_text_input(&mut setting, "lweight");
    assert_eq!(
        c.prompt(),
        "Current active settings: Linetype Transparency Material\nEnter a property to toggle [Color/LType/LWeight/Transparency/Material]:"
    );
    assert_eq!(mode(&setting), 255);
    c.on_enter(&mut setting);
    assert!(matches!(c.on_enter(&mut setting), CmdResult::Cancel));
    c.on_selection_complete(vec![4, 5]);
    c.on_enter(&mut setting);
    assert_eq!(c.prompt(), "Change ByBlock to ByLayer? [Yes/No] <Yes>:");
    c.on_text_input(&mut setting, "no");
    match c.on_enter(&mut setting) {
        CmdResult::Relaunch(line, handles) => {
            assert_eq!(line, "SETBYLAYER_APPLY 0 1");
            assert_eq!(handles, vec![4, 5]);
        }
        other => panic!("{other:?}"),
    }
    assert_eq!(mode(&setting), 255 & !(1 | 4 | 32));
    let c = SetByLayerCommand::new(vec![1], &setting);
    assert!(!c.change_byblock && c.include_blocks);
    assert_eq!(c.prompt(), "Change ByBlock to ByLayer? [Yes/No] <No>:");
}

#[test]
fn toggling_twice_leaves_the_setting() {
    let mut setting = ModeSetting { value: COLOR };
    let mut c = SetByLayerCommand::new(vec![], &setting);
    c.on_text_input(&mut setting, "S");
    c.on_text_input(&mut setting, "T");
    assert_eq!(c.pending_mode, COLOR | TRANSPARENCY);
    c.on_text_input(&mut setting, "transparency");
    assert_eq!(c.pending_mode, COLOR);
    c.on_text_input(&mut setting, "?");
    assert_eq!(c.pending_mode, COLOR);
}

#[test]
fn the_setting_is_typed_in() {
    let mut setting = first_mode();
    set_mode(&mut setting, 7);
    let c = ModeCommand;
    assert_eq!(c.name(), "SETBYLAYERMODE");
    assert_eq!(c.prompt(&setting), "Enter new value for SETBYLAYERMODE <7>:");
    for text in ["256", "-1", "x", ""] {
        assert!(matches!(c.on_text_input(&mut setting, text), Some(CmdResult::NeedPoint)));
        assert_eq!(mode(&setting), 7);
    }
    assert!(matches!(c.on_text_input(&mut setting, " 0200 "), Some(CmdResult::Cancel)));
    assert_eq!(mode(&setting), 200);
    assert!(matches!(c.on_enter(), CmdResult::Cancel));
}

// ── The tools of the ribbon ────────────────────────────────────────────────

fn plain(command: &'static str) -> Tool {
    Tool { command, label: command, icon: "x.svg", options: vec![] }
}

#[test]
fn tools_have_their_menus() {
    assert_eq!(
        multipoint().options,
        vec![
            Choice { command: "POINT", label: "Single Point" },
            Choice { command: "MULTIPOINT", label: "Multiple Points" },
            Choice { command: "DDPTYPE", label: "Point Style" },
        ]
    );
    assert_eq!(revcloud().command, "REVCLOUD");
    assert_eq!(revcloud().options[2].command, "REVCLOUD_FREEHAND");
    assert_eq!(draworder().options.len(), 4);
    assert_eq!(draworder().icon, "modify_draworder.svg");
}

#[test]
fn dropdowns_belong_to_panels() {
    let tools = vec![plain("RAY"), multipoint(), revcloud()];
    assert!(owns_dropdown(&tools, panel_id()));
    assert!(owns_dropdown(&tools, "REVCLOUD"));
    assert!(!owns_dropdown(&tools, "RAY"));
    assert!(!owns_dropdown(&tools, "LINE"));
    assert_eq!(group_title(&tools, "Modify", &None), Title::Plain);
    assert_eq!(group_title(&vec![], "Draw", &None), Title::Plain);
    assert_eq!(group_title(&tools, "Draw", &None), Title::Toggle { expanded: false });
    let open = |id: &str| Some(id.to_string());
    assert_eq!(group_title(&tools, "Draw", &open("MULTIPOINT")), Title::Toggle { expanded: true });
    assert_eq!(group_title(&tools, "Draw", &open("LAYERS")), Title::Toggle { expanded: false });
}

#[test]
fn tools_are_shown_in_rows_or_menus() {
    let tools = vec![plain("RAY"), multipoint(), revcloud()];
    assert_eq!(overlay(&tools, "REVCLOUD", 5), Contents::Menu(2));
    assert_eq!(overlay(&tools, "RAY", 5), Contents::Grid(5));
    assert_eq!(overlay(&tools, panel_id(), 0), Contents::Grid(1));
    assert_eq!(overlay(&tools, panel_id(), 9), Contents::Grid(7));
    assert_eq!(grid_rows(0, 7), 0);
    assert_eq!(grid_rows(15, 7), 3);
    assert_eq!(grid_row(15, 7, 1), (7, 14));
    assert_eq!(grid_row(15, 7, 2), (14, 15));
    let b = tool_button(&tools[1], "Points", "Command:", &Some("MULTIPOINT".to_string()));
    assert_eq!((b.command, b.tip.as_str()), ("MULTIPOINT", "Points\nCommand: MULTIPOINT"));
    assert!(b.arrow && b.active);
    let b = tool_button(&tools[0], "Ray", "Command:", &None);
    assert!(!b.arrow && !b.active);
}

// ── Texts and values ───────────────────────────────────────────────────────

#[test]
fn texts_are_read_and_written() {
    assert_eq!(text::keyword(" stra\u{df}e\u{a0}"), "STRASSE");
    assert_eq!(text::to_ascii_upper("gr\u{fc}n"), "GR\u{fc}N");
    assert_eq!(text::trim("\t a b \u{3000}"), "a b");
    assert_eq!(text::join3("a", "", "bc"), "abc");
    assert_eq!(text::decimal_text(" 1,5 "), " 1.5 ");
    assert_eq!(text::read_unsigned("+1f", 16, 255), Some(31));
    assert_eq!(text::read_unsigned("100", 16, 255), None);
    assert_eq!(text::read_unsigned("", 10, 255), None);
    assert_eq!(text::read_unsigned("+", 10, 255), None);
    assert_eq!(text::read_unsigned("18446744073709551615", 10, u64::MAX), Some(u64::MAX));
    assert_eq!(text::read_unsigned("18446744073709551616", 10, u64::MAX), None);
    assert_eq!(text::read_signed("-32768", -32768, 32767), Some(-32768));
    assert_eq!(text::read_signed("32768", -32768, 32767), None);
    assert_eq!(text::number(0), "0");
    assert_eq!(text::number(u64::MAX), "18446744073709551615");
    assert_eq!(text::signed_number(-120), "-120");
    assert_eq!(text::after_prefix("OCS", "OC").as_deref(), Some("S"));
    assert_eq!(text::after_prefix("OCS", "C"), None);
    assert_eq!(text::split("a,,b", ","), vec!["a", "", "b"]);
    assert_eq!(text::split_filled(" a;;b", " ;"), vec!["a", "b"]);
    assert_eq!(text::cut_word("one  two three").0, "one");
    assert!(text::equal_but_case("Door", "dOOR") && !text::equal_but_case("\u{c4}", "\u{e4}"));
}

#[test]
fn texts_are_ordered_like_strings() {
    let words = ["", "a", "aa", "b", "B", "\u{e4}", "a\u{e4}"];
    for a in words {
        for b in words {
            assert_eq!(text::comes_before(a, b), a < b, "{a} {b}");
        }
    }
}

#[test]
fn values_are_ordered_like_numbers() {
    let all = [0.0, -0.0, 1.0, -1.0, 2.5, f64::INFINITY, f64::NEG_INFINITY, f64::NAN, -f64::NAN, 5e-324];
    for a in all {
        assert_eq!(r(a).is_finite(), a.is_finite());
        assert_eq!(r(a).is_zero(), a == 0.0);
        assert_eq!(r(a).is_positive(), a.is_finite() && a > 0.0);
        assert_eq!(r(a).is_width(), a.is_finite() && a >= 0.0);
        for b in all {
            assert_eq!(r(a).less(&r(b)), a < b, "{a} {b}");
            assert_eq!(r(a).at_least(&r(b)), a >= b, "{a} {b}");
            assert_eq!(r(a).same_value(&r(b)), a == b, "{a} {b}");
            assert_eq!(r(a).total_less(&r(b)), a.total_cmp(&b).is_lt(), "{a} {b}");
        }
    }
    assert!(p3(0.0, 1.0, 2.0).same_place(&p3(-0.0, 1.0, 2.0)));
    assert!(!p3(0.0, f64::NAN, 2.0).is_finite());
}
