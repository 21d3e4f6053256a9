use cad_commands::command::{CmdOption, CmdResult, Phrase};
use cad_commands::entity::{
    plain_flags, Common, Entity, Line, Polyline3D, Shape, Smoothing, Spline, SplineEntity, SplineForm,
    Vertex3D, NO_HANDLE,
};
use cad_commands::spline::{control_frame, make_spline, ControlCurve, PointFacts, SplineCommand};
use cad_commands::splinedit::{
    apply_spline_op, apply_to_spline, full_weights, nearest, PointReading, Reading, Reduced, SplineFacts,
    SplineditCommand, Step,
};
use cad_commands::value::{Point3, Real};

fn r(x: f64) -> Real {
    Real { bits: x.to_bits() }
}

fn f(x: Real) -> f64 {
    f64::from_bits(x.bits)
}

fn p3(x: f64, y: f64, z: f64) -> Point3 {
    Point3 { x: r(x), y: r(y), z: r(z) }
}

fn reals(v: &[f64]) -> Vec<Real> {
    v.iter().map(|x| r(*x)).collect()
}

fn spline(points: &[(f64, f64)], degree: i32) -> Spline {
    Spline {
        control_points: points.iter().map(|p| p3(p.0, p.1, 0.0)).collect(),
        knots: vec![],
        weights: vec![],
        fit_points: vec![p3(7.0, 7.0, 7.0)],
        form: SplineForm {
            degree,
            flags: plain_flags(),
            normal: p3(0.0, 0.0, 1.0),
            begin_tangent: p3(0.0, 0.0, 0.0),
            end_tangent: p3(0.0, 0.0, 0.0),
            knot_parameterization: 0,
        },
    }
}

fn entity(handle: u64, shape: Shape) -> Entity {
    let mut common = Common::fresh();
    common.handle = handle;
    Entity { common, shape }
}

fn facts() -> SplineFacts {
    SplineFacts { ends_near: false, reversed: None }
}

fn reading(text: &str) -> Reading {
    Reading {
        number: SplineditCommand::number_text(text).parse::<f64>().ok().map(r),
        elevated: None,
        facts: facts(),
    }
}

fn say(c: &mut SplineditCommand, text: &str) -> Option<CmdResult> {
    c.on_text_input(text, &reading(text))
}

fn editing() -> SplineditCommand {
    let mut c = SplineditCommand::new();
    let s = spline(&[(0.0, 0.0), (1.0, 2.0), (2.0, 2.0), (3.0, 0.0)], 3);
    c.inject_picked_entity(entity(5, Shape::Spline(s)));
    c.on_entity_pick(5);
    c
}

fn replaced(result: CmdResult) -> Spline {
    match result {
        CmdResult::ReplaceContinue(x) => match x.entity.shape {
            Shape::Spline(s) => s,
            _ => panic!("no spline"),
        },
        other => panic!("{other:?}"),
    }
}

fn keywords(options: Vec<CmdOption>) -> Vec<&'static str> {
    options.into_iter().map(|o| o.keyword).collect()
}

fn point_reading(distances: &[f64]) -> PointReading {
    PointReading { distances: reals(distances), reduced: None, refined: None }
}

/// The value of a clamped spline at `t`, by repeated interpolation.
fn curve_at(s: &Spline, t: f64) -> [f64; 3] {
    let degree = s.form.degree as usize;
    let knots: Vec<f64> = s.knots.iter().map(|k| f(*k)).collect();
    let mut span = degree;
    while span + 1 < s.control_points.len() && knots[span + 1] <= t {
        span += 1;
    }
    let mut d: Vec<[f64; 3]> = (0..=degree)
        .map(|j| {
            let p = s.control_points[span - degree + j];
            [f(p.x), f(p.y), f(p.z)]
        })
        .collect();
    for round in 1..=degree {
        for j in (round..=degree).rev() {
            let left = knots[span - degree + j];
            let right = knots[span + 1 + j - round];
            let a = (t - left) / (right - left);
            for k in 0..3 {
                d[j][k] = (1.0 - a) * d[j - 1][k] + a * d[j][k];
            }
        }
    }
    d[degree]
}

/// A phrase in English, with its values in place.
fn english(phrase: Option<Phrase>) -> String {
    phrase.map_or(String::new(), |p| {
        p.values.iter().fold(p.text.to_string(), |text, slot| {
            text.replace(&format!("%{{{}}}", slot.name), &slot.value)
        })
    })
}

#[test]
fn control_vertices_make_a_clamped_finite_spline() {
    let points =
        vec![p3(0.0, 0.0, 0.0), p3(1.0, 2.0, 0.0), p3(2.0, 2.0, 0.0), p3(3.0, 0.0, 0.0)];
    let spline = make_spline(&points, false, true, &vec![]);

    assert_eq!(spline.form.degree, 3);
    assert_eq!(spline.control_points.len(), 4);
    assert_eq!(spline.knots, reals(&[0.0, 0.0, 0.0, 0.0, 1.0, 1.0, 1.0, 1.0]));
    assert_eq!(spline.weights, reals(&[1.0; 4]));
    assert!((0..=64)
        .map(|i| curve_at(&spline, i as f64 / 64.0))
        .flatten()
        .all(|value| (value as f32).is_finite()));
    assert_eq!(curve_at(&spline, 0.5), [1.5, 1.5, 0.0]);
}

#[test]
fn closed_control_vertices_repeat_the_first() {
    let points = vec![p3(0.0, 0.0, 0.0), p3(1.0, 2.0, 0.0), p3(2.0, 2.0, 0.0), p3(3.0, 0.0, 0.0)];
    let s = make_spline(&points, true, true, &reals(&[0.5]));
    assert_eq!(s.control_points.len(), 5);
    assert_eq!(s.control_points[4], points[0]);
    assert_eq!(s.knots, reals(&[0.0, 0.0, 0.0, 0.0, 0.5, 1.0, 1.0, 1.0, 1.0]));
    assert!(s.form.flags.closed && !s.form.flags.periodic);
    let fit = make_spline(&points, true, false, &vec![]);
    assert_eq!(fit.fit_points, points);
    assert!(fit.control_points.is_empty() && fit.knots.is_empty() && fit.weights.is_empty());
    assert!(fit.form.flags.closed && fit.form.flags.periodic);
    let two = make_spline(&points[..2].to_vec(), false, true, &vec![]);
    assert_eq!(two.form.degree, 1);
    assert_eq!(two.knots, reals(&[0.0, 0.0, 1.0, 1.0]));
}

fn at(direction: Option<Point3>) -> PointFacts {
    PointFacts { direction, repeated: false, curve: None }
}

#[test]
fn fit_points_make_a_spline() {
    let mut c = SplineCommand::new();
    assert_eq!(c.name(), "SPLINE");
    assert!(c.enter_accepts_default_start());
    assert_eq!(c.prompt(&english(c.phrase())), "SPLINE  Specify first point:");
    assert_eq!(keywords(c.options()), vec!["M", "O", "K"]);
    assert!(matches!(c.on_text_input("K", &None), Some(CmdResult::NeedPoint)));
    assert!(c.on_text_input("zz", &None).is_none());
    assert!(matches!(c.on_text_input("squareroot", &None), Some(CmdResult::NeedPoint)));
    assert_eq!(c.knot_parameterization, 1);
    c.on_point(p3(0.0, 0.0, 0.0), &at(None));
    assert!(matches!(c.on_enter(&None), CmdResult::Cancel));
    c.on_point(p3(f64::NAN, 0.0, 0.0), &at(None));
    c.on_point(p3(0.0, 0.0, 0.0), &PointFacts { direction: None, repeated: true, curve: None });
    assert_eq!(c.pts.len(), 1);
    assert!(c.on_text_input("M", &None).is_none());
    assert!(c.on_text_input("C", &None).is_none());
    c.on_text_input("T", &None);
    assert_eq!(c.prompt(&english(c.phrase())), "SPLINE  Specify tangent direction:");
    assert!(c.on_text_input("U", &None).is_none());
    c.on_point(p3(1.0, 0.0, 0.0), &at(None));
    assert!(c.choosing_tangent);
    c.on_point(p3(5.0, 0.0, 0.0), &at(Some(p3(1.0, 0.0, 0.0))));
    assert_eq!(c.begin_tangent, p3(1.0, 0.0, 0.0));
    c.on_point(p3(2.0, 1.0, 0.0), &at(None));
    assert_eq!(c.prompt(&english(c.phrase())), "SPLINE  Specify next point  [2 pts]:");
    assert_eq!(keywords(c.options()), vec!["T", "U", ""]);
    c.on_point(p3(3.0, 0.0, 0.0), &at(None));
    assert_eq!(keywords(c.options()), vec!["C", "T", "U", ""]);
    match c.on_enter(&None) {
        CmdResult::CommitAndExit(Entity { shape: Shape::Spline(s), .. }) => {
            assert_eq!(s.fit_points, vec![p3(0.0, 0.0, 0.0), p3(2.0, 1.0, 0.0), p3(3.0, 0.0, 0.0)]);
            assert_eq!(s.form.knot_parameterization, 1);
            assert_eq!(s.form.begin_tangent, p3(1.0, 0.0, 0.0));
            assert!(!s.form.flags.closed);
        }
        other => panic!("{other:?}"),
    }
    match c.on_text_input("close", &None) {
        Some(CmdResult::CommitAndExit(Entity { shape: Shape::Spline(s), .. })) => {
            assert!(s.form.flags.closed && s.form.flags.periodic)
        }
        other => panic!("{other:?}"),
    }
}

#[test]
fn undo_takes_points_and_tangents_back() {
    let mut c = SplineCommand::new();
    assert!(c.on_undo_step().is_none());
    assert!(matches!(c.on_text_input("u", &None), Some(CmdResult::NeedPoint)));
    c.on_point(p3(0.0, 0.0, 0.0), &at(None));
    c.on_text_input("T", &None);
    c.on_point(p3(1.0, 0.0, 0.0), &at(Some(p3(1.0, 0.0, 0.0))));
    let before = (c.pts.clone(), c.begin_tangent);
    c.on_point(p3(4.0, 0.0, 0.0), &at(None));
    c.on_undo_step();
    assert_eq!((c.pts.clone(), c.begin_tangent), before);
    c.on_undo_step();
    assert!(c.pts.is_empty());
    assert_eq!(c.begin_tangent, p3(0.0, 0.0, 0.0));
}

#[test]
fn control_vertices_ask_for_a_degree() {
    let mut c = SplineCommand::control_vertices();
    assert_eq!(c.name(), "SPLINECV");
    assert_eq!(keywords(c.options()), vec!["M", "O", "D"]);
    c.on_text_input("D", &None);
    assert_eq!(c.prompt(&english(c.phrase())), "SPLINE  Enter degree of spline <3>:");
    assert!(c.on_text_input("11", &None).is_none());
    assert!(c.on_text_input("0", &None).is_none());
    assert!(matches!(c.on_text_input(" +2 ", &None), Some(CmdResult::NeedPoint)));
    assert_eq!(c.degree, 2);
    for x in 0..2 {
        c.on_point(p3(x as f64, 0.0, 0.0), &at(None));
    }
    assert_eq!(c.curve_degree(), 1);
    c.on_point(p3(2.0, 1.0, 0.0), &at(None));
    assert_eq!(c.curve_degree(), 2);
    assert!(c.on_text_input("T", &None).is_none());
    assert!(matches!(c.on_enter(&None), CmdResult::Cancel));
    let curve = Some(ControlCurve {
        degree: 2,
        control_points: c.pts.clone(),
        knots: reals(&[0.0, 0.0, 0.0, 1.0, 1.0, 1.0]),
        weights: reals(&[1.0; 3]),
        planar: true,
    });
    match c.on_enter(&curve) {
        CmdResult::CommitAndExit(Entity { shape: Shape::Spline(s), .. }) => {
            assert_eq!(s.form.degree, 2);
            assert_eq!(s.control_points, c.pts);
            assert!(s.form.flags.planar && !s.form.flags.closed);
        }
        other => panic!("{other:?}"),
    }
    assert!(c.on_mouse_move(p3(9.0, 0.0, 0.0), &curve).is_some());
    assert!(c.on_mouse_move(p3(9.0, 0.0, 0.0), &None).is_none());
    c.on_text_input("M", &None);
    let mut c = SplineCommand::control_vertices();
    c.on_text_input("m", &None);
    assert_eq!(keywords(c.options()), vec!["FIT", "CV"]);
    c.on_text_input("fit", &None);
    assert!(!c.control_vertices && !c.choosing_method);
    c.on_text_input("controlvertices", &None);
    assert!(c.control_vertices);
    assert!(matches!(c.on_escape(), CmdResult::Cancel));
}

#[test]
fn spline_fit_polylines_are_converted() {
    let frame = |flags: u8| Vertex3D { position: p3(flags as f64, 0.0, 0.0), flags };
    let poly = |smooth: Smoothing, spline_fit: bool| {
        Shape::Polyline3D(Polyline3D {
            vertices: vec![frame(16), frame(8), frame(17)],
            closed: true,
            spline_fit,
            smooth,
            normal: p3(0.0, 0.0, 1.0),
        })
    };
    let good = entity(3, poly(Smoothing::Quadratic, true));
    let framed = control_frame(&good).unwrap();
    assert_eq!(framed.degree, 2);
    assert!(framed.closed);
    assert_eq!(framed.points, vec![p3(16.0, 0.0, 0.0), p3(17.0, 0.0, 0.0)]);
    assert!(control_frame(&entity(4, poly(Smoothing::Bezier, true))).is_none());
    assert!(control_frame(&entity(4, poly(Smoothing::Cubic, false))).is_none());
    let curve = || {
        Some(ControlCurve {
            degree: 2,
            control_points: vec![p3(16.0, 0.0, 0.0), p3(17.0, 0.0, 0.0)],
            knots: reals(&[0.0, 1.0]),
            weights: reals(&[1.0, 1.0]),
            planar: true,
        })
    };
    let plain = entity(4, poly(Smoothing::Cubic, false));
    let mut c = SplineCommand::new().with_document(&vec![good, plain], &vec![curve(), curve()]);
    c.on_text_input("O", &None);
    assert!(c.is_selection_gathering() && c.options().is_empty());
    match c.on_selection_complete(&vec![9, 4, 3], &None) {
        CmdResult::ReplaceMany(list) => {
            assert_eq!(list.len(), 1);
            assert_eq!(list[0].handle, 3);
            assert_eq!(list[0].entity.common.handle, NO_HANDLE);
            assert!(matches!(&list[0].entity.shape, Shape::Spline(s) if s.form.flags.periodic));
        }
        other => panic!("{other:?}"),
    }
    assert!(matches!(c.on_selection_complete(&vec![4], &None), CmdResult::Cancel));
}

#[test]
fn only_splines_can_be_edited() {
    let mut c = SplineditCommand::new();
    assert_eq!(c.name(), "SPLINEDIT");
    assert!(c.needs_entity_pick() && c.inject_before_entity_pick() && !c.wants_text_input());
    let l = Line {
        start: p3(0.0, 0.0, 0.0),
        end: p3(1.0, 0.0, 0.0),
        thickness: r(0.0),
        normal: p3(0.0, 0.0, 1.0),
    };
    c.inject_picked_entity(entity(4, Shape::Line(l)));
    c.on_entity_pick(4);
    assert_eq!(c.step, Step::SelectSpline);
    assert!(matches!(c.on_enter(None), CmdResult::Cancel));
    let c = editing();
    assert_eq!(c.step, Step::Options);
    assert_eq!(keywords(c.options()), vec!["C", "O", "M", "R", "E", "U", "X"]);
    assert_eq!(c.prompt(&english(c.phrase())), "SPLINEDIT  [Close/Open/Move vertex/Refine/rEverse/Undo/eXit] <eXit>:");
}

#[test]
fn closing_repeats_the_first_control_point() {
    let mut c = editing();
    let s = replaced(say(&mut c, "close").unwrap());
    assert_eq!(s.control_points.len(), 5);
    assert_eq!(s.control_points[4], s.control_points[0]);
    assert!(s.fit_points.is_empty());
    // Degree and number of points give the knots: clamped, and even between.
    assert_eq!(s.knots, reals(&[0.0, 0.0, 0.0, 0.0, 0.5, 1.0, 1.0, 1.0, 1.0]));
}

#[test]
fn opening_takes_back_closing() {
    let closed = entity(5, Shape::Spline(spline(&[(0.0, 0.0), (1.0, 2.0), (2.0, 2.0)], 2)));
    let mut doc = vec![entity(4, Shape::Point(p3(0.0, 0.0, 0.0))), closed];
    apply_spline_op(&mut doc, 5, "__SPLINEDIT_CLOSE__", &facts());
    apply_spline_op(&mut doc, 5, "__SPLINEDIT_OPEN__", &facts());
    match &doc[1].shape {
        Shape::Spline(s) => {
            assert_eq!(s.control_points, spline(&[(0.0, 0.0), (1.0, 2.0), (2.0, 2.0)], 2).control_points);
            assert_eq!(s.knots.len(), 6);
        }
        _ => panic!("no spline"),
    }
    apply_spline_op(&mut doc, 5, "__SPLINEDIT_OPEN__", &facts());
    apply_spline_op(&mut doc, 4, "__SPLINEDIT_CLOSE__", &facts());
    apply_spline_op(&mut doc, 5, "__SOMETHING_ELSE__", &facts());
    match &doc[1].shape {
        Shape::Spline(s) => assert_eq!(s.control_points.len(), 3),
        _ => panic!("no spline"),
    }
    let turned = SplineFacts { ends_near: false, reversed: Some(spline(&[(2.0, 2.0), (0.0, 0.0)], 1)) };
    apply_spline_op(&mut doc, 5, "__SPLINEDIT_REVERSE__", &turned);
    match &doc[1].shape {
        Shape::Spline(s) => assert_eq!(s.control_points[0], p3(2.0, 2.0, 0.0)),
        _ => panic!("no spline"),
    }
    assert_eq!(doc[1].common.handle, 5);
}

#[test]
fn only_ends_that_meet_are_opened() {
    let near = SplineFacts { ends_near: true, reversed: None };
    let mut s = spline(&[(0.0, 0.0), (1.0, 2.0), (1e-10, 0.0)], 2);
    apply_to_spline(&mut s, "__SPLINEDIT_OPEN__", &facts());
    assert_eq!(s.control_points.len(), 3);
    apply_to_spline(&mut s, "__SPLINEDIT_OPEN__", &near);
    assert_eq!(s.control_points.len(), 2);
    // Points that are not finite have no distance.
    let mut s = spline(&[(f64::NAN, 0.0), (1.0, 2.0), (f64::NAN, 0.0)], 2);
    apply_to_spline(&mut s, "__SPLINEDIT_OPEN__", &near);
    assert_eq!(s.control_points.len(), 3);
}

#[test]
fn vertices_are_walked_around() {
    let mut c = editing();
    say(&mut c, "M");
    assert_eq!(c.step, Step::Move { index: 0, refine: false });
    say(&mut c, "P");
    assert_eq!(c.step, Step::Move { index: 3, refine: false });
    say(&mut c, "next");
    assert_eq!(c.step, Step::Move { index: 0, refine: false });
    c.on_enter(None);
    assert_eq!(c.step, Step::Move { index: 1, refine: false });
    assert_eq!(
        c.prompt(&english(c.phrase())),
        "SPLINEDIT  Vertex 2: specify new location or [Next/Previous/Select point/eXit] <Next>:"
    );
    assert!(matches!(
        c.on_point(p3(f64::INFINITY, 0.0, 0.0), point_reading(&[1.0; 4])),
        CmdResult::NeedPoint
    ));
    let s = replaced(c.on_point(p3(9.0, 9.0, 9.0), point_reading(&[1.0; 4])));
    assert_eq!(s.control_points[1], p3(9.0, 9.0, 9.0));
    assert!(s.fit_points.is_empty());
    say(&mut c, "S");
    assert_eq!(c.step, Step::SelectVertex { weight: false, refine: false });
    c.on_point(p3(0.0, 0.0, 0.0), point_reading(&[4.0, 2.0, 2.0, 3.0]));
    assert_eq!(c.step, Step::Move { index: 1, refine: false });
    say(&mut c, "x");
    assert_eq!(c.step, Step::Options);
}

#[test]
fn weights_are_read_and_filled_in() {
    let mut c = editing();
    say(&mut c, "R");
    say(&mut c, "W");
    assert_eq!(c.step, Step::Weight { index: 0 });
    assert!(matches!(say(&mut c, "0"), Some(CmdResult::NeedPoint)));
    assert!(matches!(say(&mut c, "-1"), Some(CmdResult::NeedPoint)));
    let s = replaced(say(&mut c, "2,5").unwrap());
    assert_eq!(s.weights, reals(&[2.5, 1.0, 1.0, 1.0]));
    assert!(s.form.flags.rational);
    assert_eq!(full_weights(&spline(&[(0.0, 0.0), (1.0, 1.0)], 1)), reals(&[1.0, 1.0]));
    say(&mut c, "S");
    assert_eq!(c.step, Step::SelectVertex { weight: true, refine: true });
    c.on_point(p3(0.0, 0.0, 0.0), point_reading(&[4.0, 3.0, 2.0, 3.0]));
    assert_eq!(c.step, Step::Weight { index: 2 });
    say(&mut c, "X");
    assert_eq!(c.step, Step::Refine);
    say(&mut c, "X");
    assert_eq!(c.step, Step::Options);
}

#[test]
fn replaced_splines_can_be_undone() {
    let mut c = editing();
    let before = c.spline.as_ref().unwrap().spline.control_points.clone();
    assert!(matches!(say(&mut c, "U"), Some(CmdResult::NeedPoint)));
    let s = replaced(say(&mut c, "C").unwrap());
    c.on_entity_replaced(4, &vec![6]);
    assert_eq!(c.handle, 5);
    c.on_entity_replaced(5, &vec![6, 7]);
    assert_eq!(c.handle, 6);
    assert_eq!(c.spline.as_ref().unwrap().spline.control_points, s.control_points);
    assert_eq!(c.history.len(), 1);
    assert!(matches!(say(&mut c, "undo"), Some(CmdResult::UndoDocument)));
    assert_eq!(c.handle, 5);
    assert_eq!(c.spline.as_ref().unwrap().spline.control_points, before);
    assert!(c.history.is_empty());
}

#[test]
fn degrees_and_points_are_refined() {
    assert_eq!(SplineditCommand::asked_degree(" 26 "), Some(26));
    assert_eq!(SplineditCommand::asked_degree("27"), None);
    assert_eq!(SplineditCommand::asked_degree("x"), None);
    let raised = || SplineEntity { common: Common::fresh(), spline: spline(&[(0.0, 0.0), (5.0, 5.0)], 4) };
    let mut c = editing();
    say(&mut c, "R");
    say(&mut c, "E");
    assert_eq!(c.offered_order(), 4);
    assert_eq!(c.prompt(&english(c.phrase())), "SPLINEDIT  Enter new order <4>:");
    assert!(matches!(say(&mut c, "2"), Some(CmdResult::NeedPoint)));
    assert_eq!(c.step, Step::Elevate);
    let s = replaced(c.on_enter(Some(raised())));
    assert_eq!(s.form.degree, 4);
    assert_eq!(c.step, Step::Refine);
    say(&mut c, "A");
    assert!(!c.wants_text_input());
    let knot = PointReading { distances: reals(&[1.0; 4]), reduced: None, refined: Some(raised()) };
    assert_eq!(replaced(c.on_point(p3(0.0, 0.0, 0.0), knot)).control_points.len(), 2);
    c.on_enter(None);
    assert_eq!(c.step, Step::Refine);
    say(&mut c, "D");
    assert!(matches!(
        c.on_point(p3(0.0, 0.0, 0.0), point_reading(&[1.0; 4])),
        CmdResult::NeedPoint
    ));
    let fewer = PointReading {
        distances: reals(&[1.0; 4]),
        reduced: Some(Reduced {
            degree: 2,
            control_points: vec![p3(0.0, 0.0, 0.0), p3(1.0, 0.0, 0.0), p3(2.0, 0.0, 0.0)],
            weights: reals(&[1.0; 3]),
            knots: reals(&[0.0, 0.0, 0.0, 1.0, 1.0, 1.0]),
            planar: true,
        }),
        refined: None,
    };
    let s = replaced(c.on_point(p3(0.0, 0.0, 0.0), fewer));
    assert_eq!((s.form.degree, s.control_points.len()), (2, 3));
    assert!(s.form.flags.planar && s.fit_points.is_empty());
}

#[test]
fn the_nearest_is_the_first_of_the_least() {
    assert_eq!(nearest(&vec![]), None);
    assert_eq!(nearest(&reals(&[3.0, 1.0, 2.0, 1.0])), Some(1));
    // The order of all bit patterns puts the negative zero first, a NaN last.
    assert_eq!(nearest(&reals(&[0.0, -0.0])), Some(1));
    assert_eq!(nearest(&reals(&[f64::NAN, f64::INFINITY])), Some(1));
}

#[test]
fn phrases_and_labels_are_shown_in_translation() {
    let mut c = SplineCommand::new();
    assert_eq!(c.phrase().unwrap().text, "SPLINE  Specify first point:");
    assert_eq!(c.prompt("Erster Punkt:"), "Erster Punkt:");
    let options = c.options();
    assert_eq!(options[0], CmdOption::said("Method", "M"));
    assert_eq!(options[0].shown("Methode"), "Methode");
    assert_eq!(options[1], CmdOption::new("Object", "O"));
    assert_eq!(options[1].shown("Objekt"), "Object");
    c.on_text_input("M", &None);
    assert!(c.phrase().is_none());
    assert_eq!(c.prompt("Methode:"), "SPLINE  Choose creation method [Fit/Control vertices]:");
    let c = SplineditCommand::new();
    assert_eq!(c.phrase().unwrap().text, "SPLINEDIT  Select spline:");
    assert_eq!(c.prompt("Spline:"), "Spline:");
}
