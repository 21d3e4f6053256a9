use cad_commands::command::{CmdOption, CmdResult, Phrase};
use cad_commands::entity::{
    Color, Common, Entity, Hatch, HatchStyle, Shape, Transparency, NO_HANDLE,
};
use cad_commands::hatchedit::{
    Clarity, FoundPath, HatchEditOperation, HatcheditCommand, Input, Reading, Shown,
};
use cad_commands::value::Real;

fn r(x: f64) -> Real {
    Real { bits: x.to_bits() }
}

fn f(x: Real) -> f64 {
    f64::from_bits(x.bits)
}

fn start() -> HatcheditCommand {
    HatcheditCommand::with_handle(9, "ANSI31".to_string(), r(1.0), r(0.0), false)
}

fn say(c: &mut HatcheditCommand, text: &str) -> Option<CmdResult> {
    let known_pattern = ["SOLID", "ANSI31", "DOTS"].contains(&HatcheditCommand::pattern_text(text).as_str());
    let numbers = c.number_texts(text).iter().map(|t| t.parse::<f64>().ok().map(r)).collect();
    c.on_text_input(text, &Reading { known_pattern, numbers })
}

fn applied(result: Option<CmdResult>) -> (String, f64, f64, HatchEditOperation) {
    match result {
        Some(CmdResult::HatcheditApply { handle: 9, name, scale, angle, operation }) => {
            (name, f(scale), f(angle), operation)
        }
        other => panic!("{other:?}"),
    }
}

fn operation(result: Option<CmdResult>) -> HatchEditOperation {
    applied(result).3
}

fn asks(result: Option<CmdResult>) -> bool {
    matches!(result, Some(CmdResult::NeedPoint))
}

fn keywords(options: Vec<CmdOption>) -> Vec<&'static str> {
    options.into_iter().map(|o| o.keyword).collect()
}

fn shown() -> Shown {
    Shown {
        color: "Index(3)".to_string(),
        percent: "25".to_string(),
        scale: "2.0000".to_string(),
        angle: "45.0".to_string(),
    }
}

fn hatch(style: HatchStyle) -> Entity {
    let mut common = Common::fresh();
    common.color = Color::Index(3);
    common.layer = "Fill".to_string();
    common.transparency = Transparency::Explicit(64);
    Entity { common, shape: Shape::Hatch(Hatch { solid: true, style, paths: vec![] }) }
}

/// A phrase in English, with its values in place.
fn english(phrase: Option<Phrase>) -> String {
    phrase.map_or(String::new(), |p| {
        p.values.iter().fold(p.text.to_string(), |text, slot| {
            text.replace(&format!("%{{{}}}", slot.name), &slot.value)
        })
    })
}

fn asked(c: &HatcheditCommand) -> String {
    c.prompt(&shown(), &english(c.phrase(&shown())))
}

#[test]
fn a_hatch_is_picked_first() {
    let mut c = HatcheditCommand::new();
    assert_eq!(c.name(), "HATCHEDIT");
    assert!(c.needs_entity_pick() && !c.wants_text_input());
    assert!(c.options().is_empty());
    assert_eq!(asked(&c), "HATCHEDIT  Select hatch:");
    assert!(c.on_text_input("D", &Reading { known_pattern: false, numbers: vec![] }).is_none());
    assert!(matches!(c.on_enter(), CmdResult::Cancel));
    c.on_entity_pick(NO_HANDLE);
    assert!(c.needs_entity_pick());
    c.on_entity_pick(9);
    assert!(!c.needs_entity_pick() && c.wants_text_input());
    let editing = c.editing.as_ref().unwrap();
    assert_eq!((editing.handle, editing.name.as_str()), (9, ""));
    assert_eq!((f(editing.scale), f(editing.angle)), (1.0, 0.0));
}

#[test]
fn no_edit_without_a_hatch() {
    let mut c = HatcheditCommand::new();
    for text in ["AS", "H", "DI", ""] {
        let numbers = c.number_texts(text).iter().map(|_| None).collect();
        assert!(c.on_text_input(text, &Reading { known_pattern: false, numbers }).is_none(), "{text}");
    }
}

#[test]
fn the_enter_key_applies_the_changes() {
    let mut c = HatcheditCommand::with_handle(9, "ANSI31".to_string(), r(2.0), r(45.0), false);
    let (name, scale, angle, op) = applied(Some(c.on_enter()));
    assert_eq!((name.as_str(), scale, angle), ("ANSI31", 2.0, 45.0));
    assert!(matches!(
        op,
        HatchEditOperation::Update { origin: None, disassociate: false, style: None, annotative: None }
    ));
    let mut c = start();
    assert!(asks(say(&mut c, "P DOTS")) && asks(say(&mut c, "S 2.5")) && asks(say(&mut c, "A 30")));
    assert!(asks(say(&mut c, "D")));
    let (name, scale, angle, op) = applied(Some(c.on_enter()));
    assert_eq!((name.as_str(), scale, angle), ("DOTS", 2.5, 30.0));
    assert!(matches!(op, HatchEditOperation::Update { disassociate: true, .. }));
    assert_eq!(c.options().last(), Some(&CmdOption::enter("Apply")));
}

#[test]
fn the_pattern_is_asked_for_in_three_steps() {
    let mut c = start();
    assert!(asks(say(&mut c, "P")));
    assert_eq!(c.input, Some(Input::Pattern));
    assert_eq!(keywords(c.options()), vec!["SOLID"]);
    assert!(asks(say(&mut c, "unknown")));
    assert_eq!(c.input, Some(Input::Pattern));
    assert!(asks(say(&mut c, " dots ")));
    assert_eq!(c.input, Some(Input::Scale));
    assert!(asks(say(&mut c, "0")));
    assert!(asks(say(&mut c, "-2")));
    assert!(asks(say(&mut c, "inf")));
    assert_eq!(c.input, Some(Input::Scale));
    assert!(asks(say(&mut c, "2.5")));
    assert_eq!(c.input, Some(Input::Angle));
    let (name, scale, angle, op) = applied(say(&mut c, "-45"));
    assert_eq!((name.as_str(), scale, angle), ("DOTS", 2.5, -45.0));
    assert!(matches!(
        op,
        HatchEditOperation::Update { origin: None, disassociate: false, style: None, annotative: None }
    ));
}

#[test]
fn a_solid_pattern_has_neither_scale_nor_angle() {
    let mut c = start();
    say(&mut c, "P");
    let (name, _, _, op) = applied(say(&mut c, "solid"));
    assert_eq!(name, "SOLID");
    assert!(matches!(op, HatchEditOperation::Update { .. }));
    let mut c = HatcheditCommand::with_handle(9, "Solid".to_string(), r(1.0), r(0.0), false);
    say(&mut c, "P");
    assert!(matches!(c.on_enter(), CmdResult::HatcheditApply { .. }));
    let mut c = start();
    say(&mut c, "P");
    c.on_enter();
    assert_eq!(c.input, Some(Input::Scale));
    c.on_enter();
    assert!(matches!(c.on_enter(), CmdResult::HatcheditApply { .. }));
}

#[test]
fn colors_are_read_by_name_number_and_mixture() {
    let color = |text: &str| {
        let mut c = start().with_appearance(None, Color::Index(99), Transparency::ByBlock);
        say(&mut c, "CO");
        match say(&mut c, text) {
            Some(CmdResult::HatcheditApply {
                operation: HatchEditOperation::Appearance { color, layer: None, transparency: None },
                ..
            }) => color,
            Some(CmdResult::NeedPoint) => None,
            other => panic!("{other:?}"),
        }
    };
    assert_eq!(color("."), Some(Color::Index(99)));
    assert_eq!(color("byLayer"), Some(Color::ByLayer));
    assert_eq!(color("BYBLOCK"), Some(Color::ByBlock));
    assert_eq!(color("red"), Some(Color::Index(1)));
    assert_eq!(color("White"), Some(Color::Index(7)));
    assert_eq!(color("0"), Some(Color::ByBlock));
    assert_eq!(color("256"), Some(Color::ByLayer));
    assert_eq!(color("+12"), Some(Color::Index(12)));
    assert_eq!(color("-1"), None);
    assert_eq!(color("257"), None);
    assert_eq!(color("40000"), None);
    let mut c = start();
    say(&mut c, "color");
    assert!(asks(say(&mut c, "T")));
    assert_eq!(c.input, Some(Input::Truecolor));
    assert!(asks(say(&mut c, "1,2")));
    assert!(asks(say(&mut c, "1,2,256")));
    assert!(matches!(
        operation(say(&mut c, " 1, 20 ,255 ")),
        HatchEditOperation::Appearance { color: Some(Color::Rgb { r: 1, g: 20, b: 255 }), .. }
    ));
}

#[test]
fn layers_and_transparencies_are_read() {
    let mut c = start();
    say(&mut c, "LA");
    assert!(asks(say(&mut c, "  ")));
    match operation(say(&mut c, " My Layer ")) {
        HatchEditOperation::Appearance { color: None, layer: Some(l), transparency: None } => {
            assert_eq!(l, "My Layer")
        }
        other => panic!("{other:?}"),
    }
    let clarity = |text: &str| {
        let mut c = start().with_appearance(None, Color::ByLayer, Transparency::Explicit(5));
        say(&mut c, "T");
        match say(&mut c, text) {
            Some(CmdResult::HatcheditApply {
                operation: HatchEditOperation::Appearance { transparency, .. },
                ..
            }) => transparency,
            _ => None,
        }
    };
    assert_eq!(clarity("."), Some(Clarity::Exactly(Transparency::Explicit(5))));
    assert_eq!(clarity("bylayer"), Some(Clarity::Exactly(Transparency::ByLayer)));
    assert_eq!(clarity("BYBLOCK"), Some(Clarity::Exactly(Transparency::ByBlock)));
    assert_eq!(clarity("90"), Some(Clarity::Percent(90)));
    assert_eq!(clarity("91"), None);
    assert_eq!(clarity("-1"), None);
}

#[test]
fn styles_orders_and_answers_are_read() {
    for (text, style) in [
        ("i", HatchStyle::Ignore),
        ("OUTER", HatchStyle::Outer),
        ("N", HatchStyle::Normal),
    ] {
        let mut c = start();
        say(&mut c, "S");
        assert!(asks(say(&mut c, "?")));
        match operation(say(&mut c, text)) {
            HatchEditOperation::Update { style: Some(s), .. } => assert_eq!(s, style),
            other => panic!("{other:?}"),
        }
    }
    let order = |text: &str| {
        let mut c = start();
        say(&mut c, "draw order");
        say(&mut c, text)
    };
    assert!(matches!(operation(order("F")), HatchEditOperation::DrawOrderFront));
    assert!(matches!(operation(order("back")), HatchEditOperation::DrawOrderBack));
    assert!(matches!(operation(order("H")), HatchEditOperation::DrawOrderBoundary { above: false }));
    assert!(matches!(operation(order("D")), HatchEditOperation::DrawOrderBoundary { above: true }));
    assert!(matches!(order("N"), Some(CmdResult::Cancel)));
    assert!(asks(order("X")));
    let mut c = start();
    say(&mut c, "AN");
    assert!(matches!(
        operation(say(&mut c, "yes")),
        HatchEditOperation::Update { annotative: Some(true), .. }
    ));
    let mut c = HatcheditCommand::with_handle(9, String::new(), r(1.0), r(0.0), true);
    say(&mut c, "AN");
    assert_eq!(asked(&c), "Make hatch annotative [Yes/No] <Y>:");
    match c.on_enter() {
        CmdResult::HatcheditApply { operation: HatchEditOperation::Update { annotative, .. }, .. } => {
            assert_eq!(annotative, Some(true))
        }
        other => panic!("{other:?}"),
    }
}

#[test]
fn boundaries_are_recreated() {
    let mut c = start();
    say(&mut c, "B");
    say(&mut c, "what");
    assert_eq!(c.input, Some(Input::BoundaryType));
    say(&mut c, "R");
    assert!(asks(say(&mut c, "maybe")));
    assert!(matches!(
        operation(say(&mut c, "Y")),
        HatchEditOperation::RecreateBoundary { associate: true, region: true }
    ));
    let mut c = start();
    say(&mut c, "R");
    c.on_enter();
    assert!(matches!(
        c.on_enter(),
        CmdResult::HatcheditApply {
            operation: HatchEditOperation::RecreateBoundary { associate: false, region: false },
            ..
        }
    ));
}

#[test]
fn short_forms_change_one_value() {
    let mut c = start();
    assert!(asks(say(&mut c, "P brick")));
    assert!(asks(say(&mut c, "S 2,5")));
    assert!(asks(say(&mut c, "S -1")));
    assert!(asks(say(&mut c, "A 30")));
    assert!(asks(say(&mut c, "O 3;4")));
    assert!(asks(say(&mut c, "O 5")));
    assert!(asks(say(&mut c, "YO")));
    assert!(asks(say(&mut c, "D")));
    assert!(asks(say(&mut c, "N")));
    assert!(asks(say(&mut c, "zzz")));
    let (name, scale, angle, op) = applied(say(&mut c, "  "));
    assert_eq!((name.as_str(), scale, angle), ("BRICK", 2.5, 30.0));
    match op {
        HatchEditOperation::Update {
            origin: Some((x, y)),
            disassociate: true,
            style: Some(HatchStyle::Outer),
            annotative: Some(true),
        } => assert_eq!((f(x), f(y)), (3.0, 4.0)),
        other => panic!("{other:?}"),
    }
    let mut c = start();
    assert!(matches!(
        operation(say(&mut c, "di")),
        HatchEditOperation::Update { disassociate: true, .. }
    ));
    assert!(matches!(operation(say(&mut c, "E")), HatchEditOperation::Separate));
    assert!(matches!(operation(say(&mut c, "AS")), HatchEditOperation::BeginAssociate));
    assert!(matches!(operation(say(&mut c, "F")), HatchEditOperation::DrawOrderFront));
    assert!(matches!(operation(say(&mut c, "back")), HatchEditOperation::DrawOrderBack));
    match operation(say(&mut c, "+1f, 0x2A;zz 7")) {
        HatchEditOperation::AddBoundaries(h) => assert_eq!(h, vec![0x1F, 0x2A, 7]),
        other => panic!("{other:?}"),
    }
    match operation(say(&mut c, "-")) {
        HatchEditOperation::RemoveBoundaries(h) => assert!(h.is_empty()),
        other => panic!("{other:?}"),
    }
}

#[test]
fn asking_for_annotation_twice_leaves_it() {
    let mut c = start();
    say(&mut c, "N");
    say(&mut c, "N");
    assert_eq!(c.annotative, Some(c.annotative_current));
}

#[test]
fn boundaries_are_associated_once() {
    let a = FoundPath { id: 1, owners: 1 };
    let b = FoundPath { id: 2, owners: 3 };
    let mut c =
        HatcheditCommand::for_association(9, "DOTS".to_string(), r(1.0), r(0.0), vec![4, 5]);
    assert_eq!(keywords(c.options()), vec!["S"]);
    assert_eq!(asked(&c), "Specify internal point or [Select objects]:");
    c.on_point(None);
    assert!(c.association_missed);
    assert_eq!(
        asked(&c),
        "No closed boundary found. Specify internal point or [Select objects]:"
    );
    assert!(matches!(c.on_enter(), CmdResult::Cancel));
    c.on_point(Some((1, vec![FoundPath { id: 3, owners: 0 }])));
    assert!(c.association_missed && c.association_paths.is_empty());
    c.on_point(Some((2, vec![a])));
    assert!(c.association_missed && c.association_paths.is_empty());
    c.on_point(Some((1, vec![a])));
    c.on_point(Some((2, vec![a, b])));
    assert!(!c.association_missed);
    assert_eq!(c.association_paths, vec![a, b]);
    assert!(asks(say(&mut c, "select objects")));
    assert!(c.is_selection_gathering() && !c.wants_text_input());
    assert_eq!(c.association_candidates(&vec![5, 6, 4]), vec![4, 5]);
    c.on_selection_complete(&vec![5, 6], 1, &vec![b]);
    assert_eq!(c.boundary_selection, vec![5, 6]);
    assert_eq!(c.input, Some(Input::AssociatePoint));
    match c.on_enter() {
        CmdResult::HatcheditApply { operation: HatchEditOperation::AssociatePaths(p), .. } => {
            assert_eq!(p, vec![a, b])
        }
        other => panic!("{other:?}"),
    }
    assert!(matches!(c.on_escape(), CmdResult::Cancel));
}

#[test]
fn prompts_show_what_the_hatch_has() {
    let e = hatch(HatchStyle::Ignore);
    let mut c = start().with_appearance(Some(&e), Color::ByLayer, Transparency::ByLayer);
    assert_eq!(
        asked(&c),
        "HATCHEDIT  Pattern:ANSI31  Scale:2.0000  Angle:45.0  [Style/Properties/COlor/LAyer/Transparency/DRaw order/ASsociate/DIsassociate/ANnotative/recreate Boundary/separate Hatches] <Apply>:"
    );
    assert_eq!(c.options().len(), 12);
    say(&mut c, "S");
    assert_eq!(asked(&c), "Enter hatching style [Ignore/Outer/Normal] <Ignore>:");
    match c.on_enter() {
        CmdResult::HatcheditApply { operation: HatchEditOperation::Update { style, .. }, .. } => {
            assert_eq!(style, Some(HatchStyle::Ignore))
        }
        other => panic!("{other:?}"),
    }
    c.input = Some(Input::Color);
    assert_eq!(asked(&c), "New color [Truecolor/. (for use current)] <Index(3)>:");
    c.input = Some(Input::Layer);
    assert_eq!(asked(&c), "Specify layer or [. (for use current)] <Fill>:");
    c.input = Some(Input::Transparency);
    assert_eq!(asked(&c), "Specify transparency (0-90) or ByLayer/ByBlock <25>:");
    c.input = Some(Input::Pattern);
    assert_eq!(asked(&c), "Enter a pattern name or [Solid] <ANSI31>:");
    c.source_appearance = None;
    c.input = Some(Input::Transparency);
    assert_eq!(asked(&c), "Specify transparency value (0-90) or ByLayer/ByBlock:");
}
