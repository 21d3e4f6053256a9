use cad_commands::command::{CmdResult, CurveMarker, DynField, Phrase};
use cad_commands::command::world_plane;
use cad_commands::divide::{
    divide_entity, divisions, measure_entity, measures_backward, DivideCommand, MeasureCommand, Spot,
    Step,
};
use cad_commands::entity::{
    plain_flags, plain_form, Arc, Circle, Common, Ellipse, Entity, InsertPlace, Line, LwPolyline,
    LwVertex, Shape, Spline, SplineEntity, SplineForm, NO_HANDLE,
};
use cad_commands::lengthen::{
    end_changes, first_defaults, lengthen_entity, LenMode, LenState, LengthenCommand,
    LengthenDefaults, Measures, Typed, ValueMode,
};
use cad_commands::value::{Point2, Point3, Real};

fn r(x: f64) -> Real {
    Real { bits: x.to_bits() }
}

fn f(x: Real) -> f64 {
    f64::from_bits(x.bits)
}

fn p3(x: f64, y: f64, z: f64) -> Point3 {
    Point3 { x: r(x), y: r(y), z: r(z) }
}

fn p2(x: f64, y: f64) -> Point2 {
    Point2 { x: r(x), y: r(y) }
}

fn entity(handle: u64, shape: Shape) -> Entity {
    let mut common = Common::fresh();
    common.handle = handle;
    common.layer = "Walls".to_string();
    Entity { common, shape }
}

fn line(x: f64) -> Shape {
    Shape::Line(Line {
        start: p3(0.0, 0.0, 0.0),
        end: p3(x, 0.0, 0.0),
        thickness: r(3.0),
        normal: p3(0.0, 0.0, 1.0),
    })
}

fn say(c: &mut LengthenCommand, d: &mut LengthenDefaults, text: &str) -> Option<CmdResult> {
    let number = c
        .number_text(text)
        .parse::<f64>()
        .ok()
        .map(|v| Typed { value: r(v), radians: r(v.to_radians()) });
    let radians = match c.state {
        LenState::Value(mode) => r(f(d.offered(mode)).to_radians()),
        _ => r(0.0),
    };
    c.on_text_input(d, text, number, radians)
}

fn asks(result: Option<CmdResult>) -> bool {
    matches!(result, Some(CmdResult::NeedPoint))
}

fn measures() -> Measures {
    Measures {
        line: None,
        arc: None,
        extent: r(1.0),
        current: r(1.0),
        new: r(2.0),
        to_start: r(1.0),
        to_end: r(0.5),
        parameter: r(2.5),
        flat: None,
        moved: p2(7.0, 8.0),
        halves: None,
    }
}

/// A phrase in English, with its values in place.
fn english(phrase: Option<Phrase>) -> String {
    phrase.map_or(String::new(), |p| {
        p.values.iter().fold(p.text.to_string(), |text, slot| {
            text.replace(&format!("%{{{}}}", slot.name), &slot.value)
        })
    })
}

fn asked(c: &LengthenCommand, shown: &str) -> String {
    c.prompt(shown, &english(c.phrase()))
}

#[test]
fn the_first_defaults() {
    let d = first_defaults();
    assert_eq!(d.mode, ValueMode::Total);
    assert_eq!((f(d.delta), f(d.total), f(d.percent)), (0.0, 1.0, 100.0));
    assert_eq!(f(d.total_angle), 180.0 / std::f64::consts::PI);
}

#[test]
fn a_picked_curve_is_measured() {
    let mut c = LengthenCommand::new();
    assert!(c.needs_entity_pick() && c.inject_before_entity_pick());
    assert_eq!(
        asked(&c, ""),
        "LENGTHEN  Select an object to measure or [Delta/Percent/Total/Dynamic]:"
    );
    c.on_entity_pick(4, p3(0.0, 0.0, 0.0), Some(r(3.0)), &measures());
    assert_eq!(c.measurement, None);
    c.inject_picked_entity(entity(4, line(3.0)));
    c.on_entity_pick(NO_HANDLE, p3(0.0, 0.0, 0.0), Some(r(3.0)), &measures());
    assert_eq!(c.measurement, None);
    c.on_entity_pick(4, p3(0.0, 0.0, 0.0), Some(r(3.0)), &measures());
    assert_eq!(c.measurement, Some(r(3.0)));
    assert_eq!(
        asked(&c, "3.0000"),
        "Length: 3.0000  LENGTHEN  Select an object to measure or [Delta/Percent/Total/Dynamic]:"
    );
    c.inject_picked_entity(entity(4, line(3.0)));
    c.on_entity_pick(4, p3(0.0, 0.0, 0.0), Some(r(f64::INFINITY)), &measures());
    assert_eq!(c.measurement, None);
}

#[test]
fn values_are_read_and_offered_again() {
    let mut d = first_defaults();
    let mut c = LengthenCommand::new();
    assert!(asks(say(&mut c, &mut d, "no mode")));
    assert!(matches!(c.state, LenState::ChooseMode));
    assert!(asks(say(&mut c, &mut d, " delta 2,5 ")));
    assert_eq!(c.state, LenState::Apply(LenMode::Delta(r(2.5))));
    assert_eq!((d.mode, f(d.delta)), (ValueMode::Delta, 2.5));

    let mut c = LengthenCommand::new();
    c.on_enter(&mut d, r(0.0));
    assert_eq!(c.state, LenState::Value(ValueMode::Delta));
    assert_eq!(asked(&c, "2.5"), "LENGTHEN  Enter delta length <2.5>:");
    assert_eq!(c.dyn_field(), DynField::Scalar);
    assert!(c.dyn_commit_as_text() && !c.dyn_auto_sign_angle());
    c.on_enter(&mut d, r(0.0));
    assert_eq!(c.state, LenState::Apply(LenMode::Delta(r(2.5))));
    assert!(matches!(c.on_enter(&mut d, r(0.0)), CmdResult::Cancel));
}

#[test]
fn values_out_of_range_are_asked_for_again() {
    let mut d = first_defaults();
    let mut c = LengthenCommand::new();
    say(&mut c, &mut d, "P");
    assert!(c.options().is_empty());
    for text in ["0", "-5", "inf", "nan", "x", "A"] {
        assert!(asks(say(&mut c, &mut d, text)));
        assert_eq!(c.state, LenState::Value(ValueMode::Percent), "{text}");
    }
    say(&mut c, &mut d, "150");
    assert_eq!(c.state, LenState::Apply(LenMode::Percent(r(150.0))));

    let mut c = LengthenCommand::new();
    say(&mut c, &mut d, "TO");
    say(&mut c, &mut d, "A");
    assert_eq!(c.state, LenState::Value(ValueMode::TotalAngle));
    assert_eq!(c.dyn_field(), DynField::Angle);
    say(&mut c, &mut d, "360");
    assert_eq!(c.state, LenState::Value(ValueMode::TotalAngle));
    say(&mut c, &mut d, "180");
    assert_eq!(c.state, LenState::Apply(LenMode::TotalAngle(r(180f64.to_radians()))));
    assert_eq!((f(d.total_angle), d.mode), (180.0, ValueMode::Total));

    let mut c = LengthenCommand::new();
    say(&mut c, &mut d, "DE A");
    say(&mut c, &mut d, "-90");
    assert_eq!(c.state, LenState::Apply(LenMode::DeltaAngle(r((-90f64).to_radians()))));
}

#[test]
fn changed_curves_can_be_undone() {
    let mut d = first_defaults();
    let mut c = LengthenCommand::new();
    say(&mut c, &mut d, "T 5");
    assert!(asks(say(&mut c, &mut d, "U")));
    c.inject_picked_entity(entity(4, line(3.0)));
    let (changed, mode, near) = c.change(p3(3.0, 0.0, 0.0)).unwrap();
    assert_eq!(changed.common.handle, 4);
    assert_eq!((mode, near), (LenMode::Total(r(5.0)), p3(3.0, 0.0, 0.0)));
    let longer = Measures { line: Some((p3(0.0, 0.0, 0.0), p3(5.0, 0.0, 0.0))), ..measures() };
    match c.on_entity_pick(4, p3(3.0, 0.0, 0.0), None, &longer) {
        CmdResult::ReplaceContinue(x) => {
            assert_eq!(x.handle, 4);
            assert!(matches!(x.entity.shape, Shape::Line(l) if l.end == p3(5.0, 0.0, 0.0)));
        }
        other => panic!("{other:?}"),
    }
    c.on_entity_replaced();
    assert!(matches!(say(&mut c, &mut d, "undo"), Some(CmdResult::UndoDocument)));
    assert!(asks(say(&mut c, &mut d, "undo")));
}

#[test]
fn ends_are_dragged() {
    let mut d = first_defaults();
    let mut c = LengthenCommand::new();
    say(&mut c, &mut d, "DY");
    assert_eq!((c.state, d.mode), (LenState::DynamicPick, ValueMode::Dynamic));
    let round = Shape::Circle(Circle { center: p3(0.0, 0.0, 0.0), radius: r(1.0), normal: p3(0.0, 0.0, 1.0) });
    c.inject_picked_entity(entity(4, round));
    c.on_entity_pick(4, p3(0.0, 0.0, 0.0), None, &measures());
    assert_eq!(c.state, LenState::DynamicPick);
    c.inject_picked_entity(entity(4, line(3.0)));
    c.on_entity_pick(4, p3(3.0, 0.0, 0.0), None, &measures());
    assert_eq!(c.state, LenState::DynamicPoint { handle: 4, pick: p3(3.0, 0.0, 0.0) });
    assert_eq!(asked(&c, ""), "LENGTHEN  Specify new end point:");
    assert!(say(&mut c, &mut d, "U").is_none());
    let there = p3(4.0, 0.0, 0.0);
    assert!(matches!(c.on_point(there, &measures()), CmdResult::NeedPoint));
    let (_, mode, near) = c.change(there).unwrap();
    assert_eq!((mode, near), (LenMode::Dynamic(there), p3(3.0, 0.0, 0.0)));
    let dragged = Measures { line: Some((p3(0.0, 0.0, 0.0), there)), ..measures() };
    match c.on_point(there, &dragged) {
        CmdResult::ReplaceContinue(x) => {
            assert_eq!(x.handle, 4);
            assert!(matches!(x.entity.shape, Shape::Line(l) if l.end == there));
        }
        other => panic!("{other:?}"),
    }
    assert!(c.change(there).is_none());
    assert_eq!(c.state, LenState::DynamicPick);
}

#[test]
fn lines_and_arcs_take_their_new_ends() {
    let e = entity(4, line(3.0));
    let mode = LenMode::Dynamic(p3(9.0, 0.0, 0.0));
    assert!(lengthen_entity(&e, &mode, &measures()).is_none());
    let m = Measures { line: Some((p3(0.0, 0.0, 0.0), p3(9.0, 0.0, 0.0))), ..measures() };
    let out = lengthen_entity(&e, &mode, &m).unwrap();
    assert_eq!(out.common.handle, NO_HANDLE);
    assert_eq!(out.common.layer, "Walls");
    assert!(matches!(out.shape, Shape::Line(l) if l.end == p3(9.0, 0.0, 0.0) && f(l.thickness) == 3.0));
    let arc = Shape::Arc(Arc {
        center: p3(0.0, 0.0, 0.0),
        radius: r(2.0),
        start_angle: r(0.0),
        end_angle: r(1.0),
        thickness: r(0.0),
        normal: p3(0.0, 0.0, 1.0),
    });
    let m = Measures { arc: Some((r(0.0), r(1.5))), ..measures() };
    let out = lengthen_entity(&entity(4, arc), &LenMode::Delta(r(1.0)), &m).unwrap();
    assert!(matches!(out.shape, Shape::Arc(a) if f(a.end_angle) == 1.5 && f(a.radius) == 2.0));
    let point = entity(4, Shape::Point(p3(0.0, 0.0, 0.0)));
    assert!(lengthen_entity(&point, &LenMode::Delta(r(1.0)), &m).is_none());
}

#[test]
fn ellipses_change_the_nearer_end() {
    let e = entity(
        4,
        Shape::Ellipse(Ellipse {
            center: p3(0.0, 0.0, 0.0),
            major_axis: p3(2.0, 0.0, 0.0),
            ratio: r(0.5),
            start: r(0.0),
            end: r(1.0),
            normal: p3(0.0, 0.0, 1.0),
        }),
    );
    let mode = LenMode::Delta(r(1.0));
    let out = lengthen_entity(&e, &mode, &measures()).unwrap();
    assert!(matches!(out.shape, Shape::Ellipse(x) if (f(x.start), f(x.end)) == (0.0, 2.5)));
    let m = Measures { to_end: r(3.0), ..measures() };
    let out = lengthen_entity(&e, &mode, &m).unwrap();
    assert!(matches!(out.shape, Shape::Ellipse(x) if (f(x.start), f(x.end)) == (2.5, 1.0)));
    assert!(lengthen_entity(&e, &mode, &Measures { extent: r(9e-10), ..measures() }).is_none());
    assert!(lengthen_entity(&e, &mode, &Measures { extent: r(1e-9), ..measures() }).is_some());
    assert!(lengthen_entity(&e, &mode, &Measures { current: r(9e-11), ..measures() }).is_none());
    assert!(lengthen_entity(&e, &mode, &Measures { new: r(-1.0), ..measures() }).is_none());
    assert!(lengthen_entity(&e, &LenMode::TotalAngle(r(1.0)), &measures()).is_none());
    assert!(end_changes(r(1.0), r(1.0)));
    assert!(!end_changes(r(1.0), r(1.5)));
}

#[test]
fn polylines_move_one_end() {
    let shape = |n: usize| LwPolyline {
        vertices: (0..n).map(|i| LwVertex::new(p2(i as f64, 0.0))).collect(),
        form: plain_form(),
    };
    let e = entity(4, Shape::LwPolyline(shape(3)));
    let mode = LenMode::Percent(r(200.0));
    assert!(lengthen_entity(&e, &mode, &measures()).is_none());
    let m = Measures { flat: Some(shape(3)), ..measures() };
    let ends = |m: &Measures| match lengthen_entity(&e, &mode, m).unwrap().shape {
        Shape::LwPolyline(p) => p.vertices.iter().map(|v| (f(v.location.x), f(v.location.y))).collect::<Vec<_>>(),
        _ => panic!("no polyline"),
    };
    assert_eq!(ends(&m), vec![(0.0, 0.0), (1.0, 0.0), (7.0, 8.0)]);
    let m = Measures { to_start: r(0.0), ..m };
    assert_eq!(ends(&m), vec![(7.0, 8.0), (1.0, 0.0), (2.0, 0.0)]);
    let m = Measures { flat: Some(shape(1)), ..measures() };
    assert!(lengthen_entity(&e, &mode, &m).is_none());
}

#[test]
fn splines_are_only_shortened() {
    let spline = |x: f64| Spline {
        control_points: vec![p3(x, 0.0, 0.0)],
        knots: vec![],
        weights: vec![],
        fit_points: vec![],
        form: SplineForm {
            degree: 3,
            flags: plain_flags(),
            normal: p3(0.0, 0.0, 1.0),
            begin_tangent: p3(0.0, 0.0, 0.0),
            end_tangent: p3(0.0, 0.0, 0.0),
            knot_parameterization: 0,
        },
    };
    let half = |x: f64| SplineEntity { common: Common::fresh(), spline: spline(x) };
    let e = entity(4, Shape::Spline(spline(0.0)));
    let mode = LenMode::Total(r(2.0));
    let found = |current: f64, to_start: f64| Measures {
        current: r(current),
        to_start: r(to_start),
        halves: Some((half(1.0), half(2.0))),
        ..measures()
    };
    assert!(lengthen_entity(&e, &mode, &found(2.0, 1.0)).is_none());
    assert!(lengthen_entity(&e, &mode, &found(1.0, 1.0)).is_none());
    let first = |m: Measures| match lengthen_entity(&e, &mode, &m).unwrap().shape {
        Shape::Spline(s) => f(s.control_points[0].x),
        _ => panic!("no spline"),
    };
    assert_eq!(first(found(5.0, 1.0)), 1.0);
    assert_eq!(first(found(5.0, 0.25)), 2.0);
    assert!(lengthen_entity(&e, &mode, &Measures { extent: r(9e-13), ..found(5.0, 1.0) }).is_none());
    assert!(lengthen_entity(&e, &mode, &Measures { extent: r(1e-12), ..found(5.0, 1.0) }).is_some());
}

// ── Markers along a curve ──────────────────────────────────────────────────

fn spots(n: usize) -> Vec<Spot> {
    (0..n)
        .map(|i| Spot {
            point: p3(i as f64, 0.0, 0.0),
            place: InsertPlace {
                insert_point: p3(i as f64, 1.0, 0.0),
                x_scale: r(1.0),
                y_scale: r(1.0),
                z_scale: r(1.0),
                rotation: r(0.5),
                normal: p3(0.0, 0.0, 1.0),
            },
        })
        .collect()
}

#[test]
fn a_curve_is_divided() {
    let mut c = DivideCommand::new().with_blocks(vec!["Door".to_string(), "DOOR".to_string()]);
    assert_eq!(c.name(), "DIVIDE");
    assert_eq!(c.prompt(), "DIVIDE  Select object to divide:");
    assert!(c.on_text_input("5", None).is_none());
    c.on_entity_pick(4, p3(0.0, 0.0, 0.0));
    assert_eq!(c.step, Step::Pick);
    c.inject_picked_entity(true);
    c.on_entity_pick(NO_HANDLE, p3(0.0, 0.0, 0.0));
    assert_eq!(c.step, Step::Pick);
    c.on_entity_pick(4, p3(0.0, 0.0, 0.0));
    assert_eq!(c.step, Step::Amount);
    assert_eq!(c.dyn_field(), DynField::Scalar);
    assert_eq!(c.prompt(), "DIVIDE  Enter number of segments or [Block]:");
    for text in ["1", "32768", "x", "-3", "2.5"] {
        assert!(c.on_text_input(text, None).is_none(), "{text}");
    }
    match c.on_text_input(" 32767 ", None) {
        Some(CmdResult::DivideEntity { handle: 4, n: 32767, marker: None }) => {}
        other => panic!("{other:?}"),
    }
    assert!(matches!(c.on_point(p3(1.0, 0.0, 0.0), r(1.0)), CmdResult::NeedPoint));
    assert_eq!(c.value_origin, None);
    assert!(asks(c.on_text_input("block", None)));
    assert!(c.on_text_input("Window", None).is_none());
    assert!(asks(c.on_text_input(" dOOR ", None)));
    assert_eq!(c.block.as_deref(), Some("Door"));
    assert!(c.on_text_input("maybe", None).is_none());
    assert!(asks(c.on_text_input("n", None)));
    assert_eq!(c.prompt(), "DIVIDE  Enter number of segments:");
    assert!(c.options().is_empty());
    match c.on_text_input("3", None) {
        Some(CmdResult::DivideEntity { marker: Some(m), .. }) => {
            assert_eq!((m.block.as_str(), m.align), ("Door", false))
        }
        other => panic!("{other:?}"),
    }
    assert!(matches!(c.on_enter(), CmdResult::Cancel));
}

#[test]
fn a_length_is_typed_or_shown() {
    let mut c = MeasureCommand::new();
    assert_eq!(c.name(), "MEASURE");
    c.inject_picked_entity(true);
    c.on_entity_pick(4, p3(2.0, 3.0, 0.0));
    assert_eq!(c.dyn_field(), DynField::Distance);
    assert_eq!(MeasureCommand::number_text(" 1,5 "), "1.5");
    assert!(c.on_text_input("0", Some(r(0.0))).is_none());
    assert!(c.on_text_input("x", None).is_none());
    match c.on_text_input("1,5", Some(r(1.5))) {
        Some(CmdResult::MeasureEntity { handle: 4, segment_length, pick_point, marker: None }) => {
            assert_eq!((f(segment_length), pick_point), (1.5, p3(2.0, 3.0, 0.0)))
        }
        other => panic!("{other:?}"),
    }
    assert_eq!(c.dyn_live_value(p3(1.0, 0.0, 0.0), r(1.0)), None);
    c.on_point(p3(0.0, 0.0, 0.0), r(0.0));
    assert_eq!(c.prompt(), "MEASURE  Specify second point:");
    assert_eq!(c.dyn_live_value(p3(1.0, 0.0, 0.0), r(1.0)), Some(r(1.0)));
    assert_eq!(c.dyn_live_value(p3(f64::NAN, 0.0, 0.0), r(1.0)), None);
    assert!(matches!(c.on_point(p3(0.0, 0.0, 0.0), r(0.0)), CmdResult::NeedPoint));
    assert!(matches!(c.on_point(p3(4.0, 0.0, 0.0), r(4.0)), CmdResult::MeasureEntity { .. }));
    // No block is asked for once a first point is given.
    assert!(c.on_text_input("B", None).is_none());
}

#[test]
fn alignment_is_the_default_answer() {
    let mut c = MeasureCommand::new().with_blocks(vec!["A".to_string()]);
    c.inject_picked_entity(true);
    c.on_entity_pick(4, p3(0.0, 0.0, 0.0));
    c.on_text_input("B", None);
    c.on_text_input("a", None);
    assert_eq!(c.prompt(), "MEASURE  Align block with object? [Yes/No] <Yes>:");
    assert!(matches!(c.on_enter(), CmdResult::NeedPoint));
    assert!(c.align);
    assert_eq!(c.step, Step::Amount);
}

#[test]
fn markers_are_points_or_blocks() {
    assert_eq!((divisions(4), divisions(1), divisions(2), divisions(32767), divisions(32768)), (3, 0, 1, 32766, 0));
    let points = divide_entity(true, 4, &spots(3), &None);
    assert_eq!(points.len(), 3);
    assert!(matches!(points[2].shape, Shape::Point(p) if p == p3(2.0, 0.0, 0.0)));
    let marker = CurveMarker { block: "Door".to_string(), align: true, plane: world_plane() };
    let blocks = divide_entity(true, 3, &spots(2), &Some(marker));
    match &blocks[1].shape {
        Shape::Insert(i) => {
            assert_eq!(i.block_name, "Door");
            assert_eq!(i.place.insert_point, p3(1.0, 1.0, 0.0));
            assert!(i.attributes.is_empty());
        }
        _ => panic!("no insert"),
    }
    assert!(divide_entity(true, 1, &spots(0), &None).is_empty());
    assert!(divide_entity(false, 4, &vec![], &None).is_empty());
    assert_eq!(measure_entity(r(1.0), &Some(spots(2)), &None).len(), 2);
    assert!(measure_entity(r(0.0), &Some(spots(2)), &None).is_empty());
    assert!(measure_entity(r(f64::NAN), &Some(spots(2)), &None).is_empty());
    assert!(measure_entity(r(1.0), &None, &None).is_empty());
    assert!(measures_backward(false, r(4.0), r(1.0)));
    assert!(!measures_backward(false, r(1.0), r(1.0)));
    assert!(!measures_backward(true, r(4.0), r(1.0)));
}
