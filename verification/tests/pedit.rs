use cad_commands::command::{CmdOption, CmdResult, Phrase};
use cad_commands::entity::{
    Arc, Common, Entity, Line, LwForm, LwPolyline, LwVertex, MeshForm, PolygonMesh, Shape, Smoothing,
};
use cad_commands::pedit::{clamp_density, Mode, PeditCommand, PeditOp, PeditTarget};
use cad_commands::polyline::{
    apply_pedit, convert_to_polyline, edit_vertex_range, fit_curve, smoothing_frame, spline_smooth,
    tangent_chords, Computed, Flattened, SegmentArcs,
};
use cad_commands::value::{Point2, Point3, Real};
use rustc_hash::FxHashMap;

fn r(x: f64) -> Real {
    Real { bits: x.to_bits() }
}

fn f(x: Real) -> f64 {
    f64::from_bits(x.bits)
}

fn p3(x: f64, y: f64, z: f64) -> Point3 {
    Point3 { x: r(x), y: r(y), z: r(z) }
}

fn p2(x: f64, y: f64) -> Point2 {
    Point2 { x: r(x), y: r(y) }
}

fn form(closed: bool) -> LwForm {
    LwForm {
        is_closed: closed,
        plinegen: false,
        constant_width: r(0.0),
        elevation: r(0.0),
        thickness: r(0.0),
        normal: p3(0.0, 0.0, 1.0),
    }
}

fn entity(handle: u64, shape: Shape) -> Entity {
    let mut common = Common::fresh();
    common.handle = handle;
    Entity { common, shape }
}

fn poly(handle: u64, points: &[(f64, f64)], closed: bool) -> Entity {
    entity(
        handle,
        Shape::LwPolyline(LwPolyline {
            vertices: points.iter().map(|p| LwVertex::new(p2(p.0, p.1))).collect(),
            form: form(closed),
        }),
    )
}

fn poly_info() -> PeditTarget {
    PeditTarget { is_poly: true, convertible: false, mesh_size: None, mesh_closed: None }
}

fn line_info() -> PeditTarget {
    PeditTarget { is_poly: false, convertible: true, mesh_size: None, mesh_closed: None }
}

fn mesh_info(m: usize, n: usize) -> PeditTarget {
    PeditTarget {
        is_poly: true,
        convertible: false,
        mesh_size: Some((m, n)),
        mesh_closed: Some((false, false)),
    }
}

fn command(list: &[(u64, PeditTarget)]) -> PeditCommand {
    let mut info: FxHashMap<u64, PeditTarget> = FxHashMap::default();
    for (h, t) in list {
        info.insert(*h, *t);
    }
    PeditCommand::new(info, 6, 6, 6)
}

fn say(c: &mut PeditCommand, text: &str) -> Option<CmdResult> {
    let number = c.number_text(text).and_then(|t| t.parse::<f64>().ok()).map(r);
    c.on_text_input(text, number)
}

fn keywords(options: Vec<CmdOption>) -> Vec<&'static str> {
    options.into_iter().map(|o| o.keyword).collect()
}

fn vertices(e: &Entity) -> Vec<(f64, f64)> {
    match &e.shape {
        Shape::LwPolyline(p) => {
            p.vertices.iter().map(|v| (f(v.location.x), f(v.location.y))).collect()
        }
        _ => panic!("no polyline"),
    }
}

/// A phrase in English, with its values in place.
fn english(phrase: Option<Phrase>) -> String {
    phrase.map_or(String::new(), |p| {
        p.values.iter().fold(p.text.to_string(), |text, slot| {
            text.replace(&format!("%{{{}}}", slot.name), &slot.value)
        })
    })
}

fn asked(c: &PeditCommand) -> String {
    let width = c.shown_width().map_or(String::new(), |w| f(w).to_string());
    c.prompt(&width, &english(c.phrase()))
}

#[test]
fn picking_a_polyline_offers_its_options() {
    let mut c = command(&[(7, poly_info())]);
    assert!(c.needs_entity_pick());
    assert!(matches!(c.on_entity_pick(7), CmdResult::NeedPoint));
    assert_eq!(c.target, Some(7));
    assert!(matches!(c.mode, Mode::Options));
    let keys = keywords(c.options());
    assert!(keys.contains(&"J") && keys.contains(&"W"));
    match say(&mut c, " close ") {
        Some(CmdResult::PeditOp { handle: 7, op: PeditOp::SetClosed(true) }) => {}
        other => panic!("{other:?}"),
    }
    assert!(say(&mut c, "nonsense").is_none());
    assert!(matches!(say(&mut c, "x"), Some(CmdResult::Cancel)));
}

#[test]
fn picking_a_line_asks_for_conversion() {
    let mut c = command(&[(3, line_info())]);
    c.on_entity_pick(3);
    assert!(matches!(c.mode, Mode::ConvertPrompt(3)));
    assert!(matches!(
        say(&mut c, "Y"),
        Some(CmdResult::PeditOp { handle: 3, op: PeditOp::ConvertToPolyline })
    ));
    assert!(matches!(say(&mut c, "n"), Some(CmdResult::NeedPoint)));
    assert!(matches!(c.mode, Mode::PickTarget));
}

#[test]
fn widths_are_read_with_points_and_commas() {
    let mut c = command(&[(7, poly_info())]);
    c.on_entity_pick(7);
    match say(&mut c, "w 2,5") {
        Some(CmdResult::PeditOp { op: PeditOp::SetWidth(w), .. }) => assert_eq!(f(w), 2.5),
        other => panic!("{other:?}"),
    }
    assert!(say(&mut c, "W -1").is_none());
    assert!(matches!(say(&mut c, "W"), Some(CmdResult::NeedPoint)));
    assert!(matches!(c.mode, Mode::AwaitWidth));
    assert!(say(&mut c, "inf").is_none());
    match say(&mut c, "1,5") {
        Some(CmdResult::PeditOp { op: PeditOp::SetWidth(w), .. }) => assert_eq!(f(w), 1.5),
        other => panic!("{other:?}"),
    }
    assert!(matches!(c.mode, Mode::Options));
}

#[test]
fn walking_the_vertices_of_a_polyline() {
    let mut c = command(&[(7, poly_info())])
        .with_entities(vec![poly(7, &[(0.0, 0.0), (1.0, 0.0), (2.0, 0.0)], false)]);
    c.on_entity_pick(7);
    say(&mut c, "E");
    assert!(matches!(c.mode, Mode::PolyVertex(0)));
    say(&mut c, "P");
    assert!(matches!(c.mode, Mode::PolyVertex(0)));
    for _ in 0..5 {
        say(&mut c, "N");
    }
    assert!(matches!(c.mode, Mode::PolyVertex(2)));
    say(&mut c, "B");
    assert!(matches!(c.mode, Mode::PolyRange { start: 2, end: 2, split: true }));
    say(&mut c, "P");
    match say(&mut c, "GO") {
        Some(CmdResult::PeditOp { op: PeditOp::VertexRange { first: 1, last: 2, split: true }, .. }) => {}
        other => panic!("{other:?}"),
    }
    assert!(matches!(c.mode, Mode::PolyVertex(1)));
    say(&mut c, "M");
    match c.on_point(p3(9.0, 9.0, 0.0)) {
        CmdResult::PeditOp { op: PeditOp::EditVertex { index: 1, insert: false, point }, .. } => {
            assert_eq!(point, p3(9.0, 9.0, 0.0))
        }
        other => panic!("{other:?}"),
    }
    say(&mut c, "W");
    assert!(matches!(c.mode, Mode::PolyWidthStart(1, _)));
    assert!(say(&mut c, "wide").is_none());
    say(&mut c, "0.5");
    match say(&mut c, "0.75") {
        Some(CmdResult::PeditOp { op: PeditOp::SetVertexWidth { index: 1, start, end }, .. }) => {
            assert_eq!((f(start), f(end)), (0.5, 0.75))
        }
        other => panic!("{other:?}"),
    }
    say(&mut c, "X");
    assert!(matches!(c.mode, Mode::Options));
}

#[test]
fn walking_the_vertices_of_a_mesh() {
    let mut c = command(&[(9, mesh_info(2, 3))]);
    c.on_entity_pick(9);
    say(&mut c, "edit vertex");
    assert!(matches!(c.mode, Mode::MeshVertex(0)));
    say(&mut c, "U");
    assert!(matches!(c.mode, Mode::MeshVertex(3)));
    say(&mut c, "U");
    assert!(matches!(c.mode, Mode::MeshVertex(3)));
    say(&mut c, "RIGHT");
    say(&mut c, "R");
    say(&mut c, "R");
    assert!(matches!(c.mode, Mode::MeshVertex(5)));
    say(&mut c, "D");
    assert!(matches!(c.mode, Mode::MeshVertex(2)));
    say(&mut c, "P");
    assert_eq!(c.mesh_vertex_default, -1);
    assert!(matches!(c.mode, Mode::MeshVertex(1)));
    assert!(say(&mut c, "Q").is_none());
    say(&mut c, "M");
    assert!(matches!(
        c.on_point(p3(1.0, 2.0, 3.0)),
        CmdResult::PeditOp { op: PeditOp::MoveMeshVertex { index: 1, .. }, .. }
    ));
}

#[test]
fn closing_a_mesh_is_taken_back() {
    let mut c = command(&[(9, mesh_info(2, 3))]);
    c.on_entity_pick(9);
    assert!(matches!(say(&mut c, "U"), Some(CmdResult::NeedPoint)));
    assert!(matches!(
        say(&mut c, "MCLOSE"),
        Some(CmdResult::PeditOp { op: PeditOp::SetMeshClosedM(true), .. })
    ));
    c.on_pedit_applied();
    assert_eq!(c.info[&9].mesh_closed, Some((true, false)));
    assert_eq!(c.undo_count, 1);
    assert!(matches!(say(&mut c, "UNDO"), Some(CmdResult::UndoDocument)));
    assert_eq!(c.info[&9].mesh_closed, Some((false, false)));
    match say(&mut c, "S") {
        Some(CmdResult::PeditOp { op: PeditOp::SetMeshSmooth { smooth, m_density: 6, n_density: 6 }, .. }) => {
            assert_eq!(smooth, Smoothing::Cubic)
        }
        other => panic!("{other:?}"),
    }
}

#[test]
fn several_entities_are_edited_together() {
    let c = command(&[(1, poly_info()), (2, poly_info()), (3, line_info())]);
    let mut c = c.with_preselection(&vec![1, 2, 3, 99]);
    assert!(matches!(c.mode, Mode::MultipleConvert));
    assert!(matches!(say(&mut c, "N"), Some(CmdResult::NeedPoint)));
    assert_eq!(c.multiple, vec![1, 2]);
    match say(&mut c, "C") {
        Some(CmdResult::PeditOp { handle: 1, op: PeditOp::Multiple(list, op) }) => {
            assert_eq!(list, vec![1, 2]);
            assert!(matches!(*op, PeditOp::SetClosed(true)));
        }
        other => panic!("{other:?}"),
    }
    // Vertices are edited one polyline at a time.
    assert!(say(&mut c, "E").is_none());
}

#[test]
fn joining_gathers_and_merges() {
    let mut c = command(&[(1, poly_info()), (2, poly_info()), (3, line_info())]);
    c.on_entity_pick(1);
    say(&mut c, "J");
    assert!(matches!(c.mode, Mode::JoinGather));
    assert!(c.is_selection_gathering());
    c.on_selection_complete(&vec![2, 2, 1, 3, 50]);
    match c.on_enter() {
        CmdResult::JoinEntities(list) => {
            assert_eq!(list[0], 1);
            assert!(list.contains(&2) && list.contains(&3) && !list.contains(&50));
            assert_eq!(list.len(), 3);
        }
        other => panic!("{other:?}"),
    }
}

#[test]
fn densities_are_brought_into_range() {
    assert_eq!(clamp_density(-5), 2);
    assert_eq!(clamp_density(2), 2);
    assert_eq!(clamp_density(200), 200);
    assert_eq!(clamp_density(201), 200);
}

#[test]
fn closing_and_widths_of_polylines() {
    let mut e = poly(1, &[(0.0, 0.0), (1.0, 0.0), (1.0, 1.0)], false);
    assert!(apply_pedit(&mut e, &PeditOp::SetClosed(true), Computed::nothing()));
    assert!(apply_pedit(&mut e, &PeditOp::SetWidth(r(0.25)), Computed::nothing()));
    assert!(apply_pedit(
        &mut e,
        &PeditOp::SetVertexWidth { index: 1, start: r(1.0), end: r(2.0) },
        Computed::nothing()
    ));
    assert!(!apply_pedit(
        &mut e,
        &PeditOp::SetVertexWidth { index: 3, start: r(1.0), end: r(2.0) },
        Computed::nothing()
    ));
    let Shape::LwPolyline(p) = &e.shape else { panic!("polyline") };
    assert!(p.form.is_closed);
    assert_eq!(f(p.vertices[1].end_width), 2.0);
    assert_eq!(f(p.vertices[0].start_width), 0.25);
}

#[test]
fn vertices_move_and_come_in() {
    let mut e = poly(1, &[(0.0, 0.0), (1.0, 0.0)], false);
    let at = Computed { local: Some(p2(0.5, 0.5)), ..Computed::nothing() };
    assert!(apply_pedit(
        &mut e,
        &PeditOp::EditVertex { index: 0, point: p3(0.5, 0.5, 0.0), insert: true },
        at
    ));
    assert_eq!(vertices(&e), vec![(0.0, 0.0), (0.5, 0.5), (1.0, 0.0)]);
    assert!(!apply_pedit(
        &mut e,
        &PeditOp::EditVertex { index: 0, point: p3(0.5, 0.5, 0.0), insert: true },
        Computed::nothing()
    ));
}

#[test]
fn meshes_close_and_move() {
    let mesh = PolygonMesh {
        vertices: vec![p3(0.0, 0.0, 0.0); 4],
        form: MeshForm {
            m_count: 2,
            n_count: 2,
            flags: 0,
            smooth: Smoothing::Plain,
            m_density: 0,
            n_density: 0,
        },
    };
    let mut e = entity(1, Shape::PolygonMesh(mesh));
    assert!(apply_pedit(&mut e, &PeditOp::SetMeshClosedM(true), Computed::nothing()));
    assert!(apply_pedit(&mut e, &PeditOp::SetMeshClosedN(true), Computed::nothing()));
    assert!(apply_pedit(
        &mut e,
        &PeditOp::MoveMeshVertex { index: 3, point: p3(1.0, 2.0, 3.0) },
        Computed::nothing()
    ));
    assert!(!apply_pedit(
        &mut e,
        &PeditOp::MoveMeshVertex { index: 4, point: p3(1.0, 2.0, 3.0) },
        Computed::nothing()
    ));
    let Shape::PolygonMesh(m) = &e.shape else { panic!("mesh") };
    assert_eq!(m.form.flags, 33);
    assert_eq!(m.vertices[3], p3(1.0, 2.0, 3.0));
    assert!(apply_pedit(&mut e, &PeditOp::SetMeshClosedM(false), Computed::nothing()));
    let Shape::PolygonMesh(m) = &e.shape else { panic!("mesh") };
    assert_eq!(m.form.flags, 32);
    assert!(!apply_pedit(&mut e, &PeditOp::SetClosed(true), Computed::nothing()));
}

#[test]
fn fitting_puts_arcs_on_every_segment() {
    let Shape::LwPolyline(mut p) = poly(1, &[(0.0, 0.0), (1.0, 0.0), (1.0, 1.0)], false).shape else {
        panic!("polyline")
    };
    let arcs = vec![
        SegmentArcs { bulge: r(0.1), knee: Some((p2(0.5, 0.1), r(0.2))) },
        SegmentArcs { bulge: r(0.3), knee: None },
    ];
    assert!(fit_curve(&mut p, &arcs));
    let got: Vec<(f64, f64, f64)> = p
        .vertices
        .iter()
        .map(|v| (f(v.location.x), f(v.location.y), f(v.bulge)))
        .collect();
    assert_eq!(
        got,
        vec![(0.0, 0.0, 0.1), (0.5, 0.1, 0.2), (1.0, 0.0, 0.3), (1.0, 1.0, 0.0)]
    );
    let Shape::LwPolyline(mut q) = poly(1, &[(0.0, 0.0), (1.0, 0.0)], false).shape else {
        panic!("polyline")
    };
    assert!(!fit_curve(&mut q, &vec![]));
    assert_eq!(tangent_chords(4, false, 0), (0, None));
    assert_eq!(tangent_chords(4, false, 3), (2, None));
    assert_eq!(tangent_chords(4, false, 1), (0, Some(1)));
    assert_eq!(tangent_chords(4, true, 0), (3, Some(0)));
}

#[test]
fn smoothing_follows_the_samples() {
    let Shape::LwPolyline(mut p) = poly(1, &[(0.0, 0.0), (1.0, 0.0), (1.0, 1.0)], false).shape else {
        panic!("polyline")
    };
    let (points, steps) = smoothing_frame(&p).unwrap();
    assert_eq!(points.len(), 3);
    assert_eq!(steps, 24);
    assert!(!spline_smooth(&mut p, &None));
    assert!(spline_smooth(&mut p, &Some(vec![p2(0.0, 0.0), p2(0.5, 0.2), p2(1.0, 1.0)])));
    assert_eq!(p.vertices.len(), 3);
    assert_eq!(p.vertices[1].location, p2(0.5, 0.2));
}

#[test]
fn ranges_are_straightened_and_broken() {
    let e = poly(5, &[(0.0, 0.0), (1.0, 0.0), (2.0, 0.0), (3.0, 0.0), (4.0, 0.0)], false);
    let straight = edit_vertex_range(&e, 1, 3, false).unwrap();
    assert_eq!(straight.len(), 1);
    assert_eq!(vertices(&straight[0]), vec![(0.0, 0.0), (1.0, 0.0), (3.0, 0.0), (4.0, 0.0)]);
    let broken = edit_vertex_range(&e, 1, 3, true).unwrap();
    assert_eq!(broken.len(), 2);
    assert_eq!(vertices(&broken[0]), vec![(0.0, 0.0), (1.0, 0.0)]);
    assert_eq!(vertices(&broken[1]), vec![(3.0, 0.0), (4.0, 0.0)]);
    assert!(edit_vertex_range(&e, 1, 9, true).is_none());
    let l = entity(
        1,
        Shape::Line(Line {
            start: p3(0.0, 0.0, 0.0),
            end: p3(1.0, 0.0, 0.0),
            thickness: r(0.0),
            normal: p3(0.0, 0.0, 1.0),
        }),
    );
    assert!(edit_vertex_range(&l, 0, 1, true).is_none());
}

#[test]
fn convert_keeps_line_thickness() {
    let l = entity(
        4,
        Shape::Line(Line {
            start: p3(2.0, 3.0, 4.0),
            end: p3(2.0, 5.0, 6.0),
            thickness: r(3.5),
            normal: p3(1.0, 0.0, 0.0),
        }),
    );
    // The line lies in the plane x = 2, with y and z as its axes.
    let flat = Flattened {
        normal: p3(1.0, 0.0, 0.0),
        elevation: r(2.0),
        start: p2(3.0, 4.0),
        end: p2(5.0, 6.0),
        bulge: r(0.0),
    };
    let Some(Shape::LwPolyline(pl)) = convert_to_polyline(&l, Some(flat)).map(|e| e.shape) else {
        panic!("line must convert");
    };
    assert!(
        (f(pl.form.thickness) - 3.5).abs() < 1e-12,
        "converted polyline must keep source thickness, got {}",
        f(pl.form.thickness)
    );
    assert_eq!(pl.form.normal, p3(1.0, 0.0, 0.0));
    assert!((f(pl.form.elevation) - 2.0).abs() < 1e-12);
}

#[test]
fn convert_keeps_arc_thickness() {
    let a = entity(
        4,
        Shape::Arc(Arc {
            center: p3(0.0, 0.0, 4.0),
            radius: r(5.0),
            start_angle: r(0.0),
            end_angle: r(std::f64::consts::FRAC_PI_2),
            thickness: r(-2.0),
            normal: p3(0.0, 1.0, 0.0),
        }),
    );
    let flat = Flattened {
        normal: p3(0.0, 1.0, 0.0),
        elevation: r(4.0),
        start: p2(5.0, 0.0),
        end: p2(0.0, 5.0),
        bulge: r((std::f64::consts::FRAC_PI_2 / 4.0).tan()),
    };
    let Some(Shape::LwPolyline(pl)) = convert_to_polyline(&a, Some(flat)).map(|e| e.shape) else {
        panic!("arc must convert");
    };
    assert!(
        (f(pl.form.thickness) - (-2.0)).abs() < 1e-12,
        "converted polyline must keep negative thickness, got {}",
        f(pl.form.thickness)
    );
    assert_eq!(pl.form.normal, p3(0.0, 1.0, 0.0));
    assert!((f(pl.form.elevation) - 4.0).abs() < 1e-12);
}

#[test]
fn curves_that_do_not_flatten_stay() {
    let l = entity(
        4,
        Shape::Line(Line {
            start: p3(0.0, 0.0, 0.0),
            end: p3(0.0, 0.0, 1.0),
            thickness: r(0.0),
            normal: p3(0.0, 0.0, 1.0),
        }),
    );
    assert!(convert_to_polyline(&l, None).is_none());
    let flat = Flattened {
        normal: p3(0.0, 0.0, 1.0),
        elevation: r(0.0),
        start: p2(0.0, 0.0),
        end: p2(1.0, 0.0),
        bulge: r(0.0),
    };
    let converted = convert_to_polyline(&l, Some(flat)).unwrap();
    assert_eq!(converted.common.handle, 0);
    assert_eq!(vertices(&converted), vec![(0.0, 0.0), (1.0, 0.0)]);
    assert!(convert_to_polyline(&poly(1, &[(0.0, 0.0)], false), Some(flat)).is_none());
}

#[test]
fn prompts_are_phrases_or_plain() {
    let mut c = command(&[(1, poly_info()), (2, line_info()), (3, mesh_info(2, 2)), (4, poly_info())])
        .with_entities(vec![poly(1, &[(0.0, 0.0), (1.0, 0.0), (1.0, 1.0)], false)]);
    assert_eq!(asked(&c), "PEDIT  Select polyline (or a line/arc to convert) or [Multiple]:");
    assert_eq!(c.prompt("", "Polylinie:"), "Polylinie:");
    assert_eq!(c.options(), vec![CmdOption::new("Multiple", "M")]);
    c.on_entity_pick(2);
    assert_eq!(asked(&c), "PEDIT  Object is not a polyline. Turn it into one?  [Yes/No] <Y>:");
    assert_eq!(c.options(), vec![CmdOption::said("Yes", "Y"), CmdOption::said("No", "N")]);
    let mut c = command(&[(1, poly_info()), (4, poly_info())])
        .with_entities(vec![poly(1, &[(0.0, 0.0), (1.0, 0.0), (1.0, 1.0)], false)]);
    c.on_entity_pick(1);
    assert_eq!(asked(&c), "PEDIT  Enter option:");
    assert!(c.options().iter().all(|o| o.translated));
    say(&mut c, "W");
    assert_eq!(asked(&c), "PEDIT  Specify new width:");
    let mut c = command(&[(1, poly_info()), (4, poly_info())])
        .with_entities(vec![poly(1, &[(0.0, 0.0), (1.0, 0.0), (1.0, 1.0)], false)]);
    c.on_entity_pick(1);
    say(&mut c, "E");
    assert!(c.phrase().is_none());
    assert_eq!(
        c.prompt("", "Scheitel"),
        "PEDIT  Vertex 1 [Next/Previous/Break/Insert/Move/Straighten/Width/eXit] <Next>:"
    );
    assert!(c.options().iter().all(|o| !o.translated));
    let mut c = command(&[(1, poly_info()), (4, poly_info())]);
    c.on_entity_pick(1);
    say(&mut c, "J");
    c.on_selection_complete(&vec![4]);
    assert_eq!(asked(&c), "PEDIT Join  Select objects to join (1 picked), Enter to merge:");
    assert_eq!(c.options(), vec![CmdOption::said_enter("Join")]);
    let mut c = command(&[(3, mesh_info(2, 2))]);
    c.on_entity_pick(3);
    say(&mut c, "E");
    assert_eq!(asked(&c), "PEDIT  Edit mesh vertex 1  Enter option:");
    say(&mut c, "M");
    assert_eq!(asked(&c), "PEDIT  Specify new location for mesh vertex 1:");
}
