use acadrust::entities::{
    DimensionAngular2Ln, DimensionAngular3Pt, DimensionDiameter, DimensionLinear, DimensionRadius,
};
use cad_commands::doc_api::{ApiError, GeometryErrorKind, Reason, Session};
use cad_commands::doc_edits::MeasureKind;
use cad_commands::doc_entities::validate_image_path;
use cad_commands::doc_queries::{Aabb, BoundsFacts, EntityFacts};
use cad_commands::doc_solids::{Made, Moved, NewEntity, SolidBody};
use cad_commands::document::{
    CloningFlags, DictEntry, Dictionary, Document, Filed, LayerFlags, LayerInfo, LayerStyle, LineWeight,
    Object, RecordEntry, RecordSpec, RecordValue, ReferenceKind,
};
use cad_commands::entity::{
    BoundaryEdge, Color, Dimension, ImagePlace, Insert, InsertPlace, Line, LwForm, LwPolyline, LwVertex, Shape, Text,
    TextPlace, Viewport, XDataValue,
};
use cad_commands::value::{Point2, Point3, Real};

fn r(x: f64) -> Real {
    Real { bits: x.to_bits() }
}

fn f(x: Real) -> f64 {
    f64::from_bits(x.bits)
}

fn p3(x: f64, y: f64, z: f64) -> Point3 {
    Point3 { x: r(x), y: r(y), z: r(z) }
}

fn p2(x: f64, y: f64) -> Point2 {
    Point2 { x: r(x), y: r(y) }
}

/// A session on tab 1: a root dictionary under handle 1 and the layer `0`.
fn session() -> Session {
    let mut doc = Document::new(1, 100);
    assert!(doc.load_layer("0", 2, LayerStyle::plain()));
    doc.objects.push(Filed {
        handle: 1,
        object: Object::Dictionary(Dictionary { owner: 0, entries: vec![] }),
    });
    Session::new(1, doc, 1000)
}

fn line(a: Point3, b: Point3) -> Shape {
    Shape::Line(Line { start: a, end: b, thickness: r(0.0), normal: p3(0.0, 0.0, 1.0) })
}

fn form(elevation: f64) -> LwForm {
    LwForm {
        is_closed: false,
        plinegen: false,
        constant_width: r(0.0),
        elevation: r(elevation),
        thickness: r(0.0),
        normal: p3(0.0, 0.0, 1.0),
    }
}

fn polyline(points: &[(f64, f64)], elevation: f64) -> Shape {
    Shape::LwPolyline(LwPolyline {
        vertices: points.iter().map(|p| LwVertex::new(p2(p.0, p.1))).collect(),
        form: form(elevation),
    })
}

fn info(name: &str) -> LayerInfo {
    LayerInfo {
        name: name.to_string(),
        flags: LayerFlags {
            frozen: false,
            locked: false,
            frozen_in_new_viewport: false,
            off: false,
        },
        color: Color::Index(7),
        line_type: "Continuous".to_string(),
        line_weight: LineWeight::Standard,
        plot_style: String::new(),
        is_plottable: true,
    }
}

fn kinds(names: &[&str]) -> Vec<EntityFacts> {
    names.iter().map(|k| EntityFacts { kind: k.to_string(), bounds: None }).collect()
}

fn unmoved(shape: Shape) -> Moved {
    Moved { lifted: None, solid: None, shape: Ok(shape) }
}

fn bounds_of(b: Option<Aabb>) -> BoundsFacts {
    BoundsFacts {
        lifted: None,
        body: None,
        entity: match b {
            Some(b) => Ok(b),
            None => Err(ApiError::Unsupported(Reason::Outside("unbounded".to_string()))),
        },
    }
}

fn solid(body: u64) -> SolidBody {
    SolidBody { body, display: true, stored: Some(body + 1000) }
}

fn record(name: &str) -> RecordSpec {
    RecordSpec {
        name: name.to_string(),
        cloning_flags: CloningFlags::NotApplicable,
        entries: vec![RecordEntry { code: 1, value: RecordValue::Text("value".to_string()) }],
    }
}

fn set_locked(s: &mut Session, name: &str, locked: bool) {
    let mut i = s.lookup_layer(name).unwrap();
    i.flags.locked = locked;
    s.update_layer(name, &i).unwrap();
}

// ── Requests ───────────────────────────────────────────────────────────────

#[test]
fn doc_api_tab_mismatch_is_rejected() {
    let mut host = session();
    let wrong_tab = host.tab_id.wrapping_add(999);
    let err = host.open_request(wrong_tab, 16).unwrap_err();
    assert!(err.contains("tab mismatch"), "{err}");
    assert_eq!(
        err,
        "DocApi tab mismatch: request names tab 1000 but the bound tab is 1"
    );
}

#[test]
fn doc_api_envelope_guards_and_query_budget_reset() {
    let mut host = session();
    let id = host.store_solid(solid(5)).unwrap();
    let tab = host.tab_id;
    assert!(host.open_request(tab + 1, 64).is_err());
    host.measured = 32;
    assert!(host.open_request(tab, 64).is_ok());
    let v = f(host.volume(id, None, Some((r(8.0), p3(1.0, 1.0, 1.0)))).unwrap());
    assert!((v - 8.0).abs() < 1e-9);
    assert_eq!(host.measured, 1);
}

#[test]
fn request_length_and_allowance() {
    let mut host = session();
    host.measured = 32;
    assert!(host.open_request(2, 16).is_err());
    assert_eq!(host.measured, 32);
    assert!(host.open_request(1, 67108864).is_ok());
    assert_eq!(host.measured, 0);
    host.measured = 5;
    assert_eq!(host.open_request(1, 67108865).unwrap_err(), "DocApi frame exceeds 64 MiB");
    assert_eq!(host.measured, 0);
}

#[test]
fn doc_api_unknown_id_surfaces_structured_error() {
    let mut host = session();
    let ghost = 0xDEAD;
    let err = host.can_remove(ghost).unwrap_err();
    assert!(
        matches!(err, ApiError::Validation { .. } | ApiError::UnknownId(_)),
        "{err:?}"
    );
    assert!(matches!(host.can_modify(ghost), Err(ApiError::UnknownId(0xDEAD))));
    assert!(!host.remove_entity(ghost).unwrap());
    assert!(!host.entity_exists(ghost));
}

#[test]
fn undo_steps_are_recorded() {
    let mut host = session();
    host.push_undo("Move");
    host.cancel_op();
    assert!(host.recording.is_none());
    assert_eq!(host.revision(), 0);
    host.push_undo("Copy");
    host.finalize_op();
    assert_eq!(host.history, vec!["Copy".to_string()]);
    assert_eq!(host.revision(), 1);
    host.finalize_op();
    assert_eq!(host.history.len(), 1);
    assert_eq!(host.revision(), 2);
}

// ── Entities ───────────────────────────────────────────────────────────────

#[test]
fn phase0_add_vertex_to_polyline() {
    let mut host = session();
    let poly = host
        .add_curve(&None, Ok(polyline(&[(0.0, 0.0), (10.0, 0.0), (10.0, 10.0)], 0.0)))
        .unwrap();
    host.add_vertex(poly, 1, p3(5.0, 0.0, 0.0)).unwrap();
    let i = host.document.find(poly).unwrap();
    let Shape::LwPolyline(pl) = &host.document.entities[i].shape else {
        panic!("polyline not found");
    };
    assert_eq!(pl.vertices.len(), 4);
    assert!((f(pl.vertices[1].location.x) - 5.0).abs() < 1e-9);
    let err = host.add_vertex(poly, 99, p3(0.0, 0.0, 0.0)).unwrap_err();
    assert!(matches!(err, ApiError::Validation { .. }), "{err:?}");
}

#[test]
fn vertex_refusals_in_order() {
    let mut host = session();
    host.item_cap = 3;
    let poly = host.add_curve(&None, Ok(polyline(&[(0.0, 0.0), (1.0, 0.0)], 2.5))).unwrap();
    let pt = host.add_curve(&None, Ok(Shape::Point(p3(0.0, 0.0, 0.0)))).unwrap();
    assert!(matches!(host.add_vertex(77, 0, p3(0.0, 0.0, 0.0)), Err(ApiError::UnknownId(77))));
    assert!(matches!(
        host.add_vertex(pt, 0, p3(0.0, 0.0, 0.0)),
        Err(ApiError::Unsupported(Reason::Note("AddVertex is only implemented for polylines")))
    ));
    // Another height.
    assert!(matches!(
        host.add_vertex(poly, 0, p3(0.0, 0.0, 0.0)),
        Err(ApiError::Validation { op: "AddVertex", reason: Reason::Note(_) })
    ));
    let out = host.add_vertex(poly, 3, p3(0.0, 0.0, 2.5)).unwrap_err();
    match out {
        ApiError::Validation { op, reason } => {
            assert_eq!(op, "AddVertex");
            assert_eq!(reason.text(""), "index 3 out of range (2 vertices)");
        }
        other => panic!("{other:?}"),
    }
    host.add_vertex(poly, 2, p3(9.0, 9.0, 2.5)).unwrap();
    // The cap is reached.
    assert!(matches!(
        host.add_vertex(poly, 0, p3(0.0, 0.0, 2.5)),
        Err(ApiError::Validation { op: "AddVertex", reason: Reason::Note(_) })
    ));
}

#[test]
fn phase2b_text_mtext_create_content_transform() {
    let mut host = session();
    let text = host
        .add_text(
            "hello",
            TextPlace { insertion_point: p3(1.0, 2.0, 0.0), height: r(2.5), rotation: r(0.0) },
        )
        .unwrap();
    assert_eq!(host.text_content(text).unwrap(), "hello");
    host.set_text_content(text, "world").unwrap();
    let Shape::Text(t) = &host.document.entities[host.document.find(text).unwrap()].shape else {
        panic!("text not found")
    };
    assert_eq!(t.value, "world");

    let l = host.add_curve(&None, Ok(line(p3(0.0, 0.0, 0.0), p3(1.0, 1.0, 1.0)))).unwrap();
    assert!(host.set_text_content(l, "x").is_err());

    let mtext = host.add_mtext("multi\nline", p3(5.0, 5.0, 0.0), r(3.0)).unwrap();
    assert_eq!(host.text_content(mtext).unwrap(), "multi\nline");
    let moved = Shape::MText(Text {
        value: "multi\nline".to_string(),
        place: TextPlace {
            insertion_point: p3(5.0 + 10.0, 5.0, 0.0),
            height: r(3.0),
            rotation: r(0.0),
        },
    });
    host.transform_entity(mtext, unmoved(moved)).unwrap();
    let Shape::MText(t) = &host.document.entities[host.document.find(mtext).unwrap()].shape else {
        panic!("mtext not found")
    };
    assert!((f(t.place.insertion_point.x) - 15.0).abs() < 1e-6);
}

#[test]
fn text_queries_refuse_other_families() {
    let mut host = session();
    let l = host.add_curve(&None, Ok(line(p3(0.0, 0.0, 0.0), p3(1.0, 1.0, 1.0)))).unwrap();
    assert!(matches!(
        host.text_content(l),
        Err(ApiError::Unsupported(Reason::Note("GetTextContent is only for Text/MText")))
    ));
    assert!(matches!(host.text_content(9), Err(ApiError::UnknownId(9))));
    assert!(matches!(
        host.set_text_content(l, "x"),
        Err(ApiError::Unsupported(Reason::Note("SetTextContent is only for Text/MText")))
    ));
}

#[test]
fn locked_layers_refuse_changes() {
    let mut host = session();
    let t = host
        .add_text("a", TextPlace { insertion_point: p3(0.0, 0.0, 0.0), height: r(1.0), rotation: r(0.0) })
        .unwrap();
    set_locked(&mut host, "0", true);
    match host.set_text_content(t, "b") {
        Err(ApiError::Unsupported(reason)) => {
            assert_eq!(reason.text("ObjectId(100)"), "entity ObjectId(100) is on a locked layer")
        }
        other => panic!("{other:?}"),
    }
    assert_eq!(host.text_content(t).unwrap(), "a");
    assert!(host.remove_entity(t).is_err());
    assert!(host.can_modify(t).is_err());
    set_locked(&mut host, "0", false);
    assert!(host.remove_entity(t).unwrap());
    assert!(!host.entity_exists(t));
}

#[test]
fn phase3ii_create_attribute_definition() {
    let mut host = session();
    let attdef = host
        .add_attribute_definition(
            "DOOR_NO",
            "Door number?",
            "D-1",
            TextPlace { insertion_point: p3(5.0, 5.0, 0.0), height: r(2.5), rotation: r(0.0) },
        )
        .unwrap();
    let Shape::AttributeDefinition(a) =
        &host.document.entities[host.document.find(attdef).unwrap()].shape
    else {
        panic!("attdef not found")
    };
    assert_eq!(a.tag, "DOOR_NO");
    assert_eq!(a.default_value, "D-1");
    assert!((f(a.place.height) - 2.5).abs() < 1e-9);
    let view = host.get_entity(attdef, "AttributeDefinition", &bounds_of(None)).unwrap();
    assert_eq!(view.kind, "AttributeDefinition");
    assert_eq!(view.layer, "0");
    assert!(view.bounds.is_none());
}

#[test]
fn phase5ii_create_table_from_grid() {
    let mut host = session();
    let s = |t: &str| t.to_string();
    let data = vec![
        vec![s("Name"), s("Value")],
        vec![s("Length"), s("100.0")],
        vec![s("Width"), s("50.0")],
    ];
    let id = host.add_table(p3(10.0, 10.0, 0.0), &data).unwrap();
    let Shape::Table(t) = &host.document.entities[host.document.find(id).unwrap()].shape else {
        panic!("table not found")
    };
    assert_eq!(t.rows.len(), 3);
    assert_eq!(t.columns, 2);
    assert_eq!(t.rows[1].cells, vec![s("Length"), s("100.0")]);
    assert_eq!(host.get_entity(id, "Table", &bounds_of(None)).unwrap().kind, "Table");
}

#[test]
fn tables_take_their_columns_from_the_first_row() {
    let mut host = session();
    let s = |t: &str| t.to_string();
    let ragged = vec![vec![s("a")], vec![s("b"), s("c")], vec![]];
    let id = host.add_table(p3(0.0, 0.0, 0.0), &ragged).unwrap();
    let Shape::Table(t) = &host.document.entities[host.document.find(id).unwrap()].shape else {
        panic!("table not found")
    };
    assert_eq!(t.columns, 1);
    assert_eq!(t.rows[1].cells, vec![s("b")]);
    assert_eq!(t.rows[2].cells, vec![s("")]);

    let id = host.add_table(p3(0.0, 0.0, 0.0), &vec![]).unwrap();
    let Shape::Table(t) = &host.document.entities[host.document.find(id).unwrap()].shape else {
        panic!("table not found")
    };
    assert_eq!((t.columns, t.rows.len()), (0, 0));
}

#[test]
fn phase2b_hatch_create_boundary_bounds_delete() {
    let mut host = session();
    let sq = vec![p2(0.0, 0.0), p2(10.0, 0.0), p2(10.0, 10.0), p2(0.0, 10.0)];
    let hatch = host.add_hatch(&sq, true).unwrap();

    // Boundary round-trips (one loop, 4 vertices).
    let loops = host.hatch_boundary(hatch).unwrap();
    assert_eq!(loops.len(), 1);
    assert_eq!(loops[0].len(), 4);
    assert!((f(loops[0][0].x) - 0.0).abs() < 1e-9 && (f(loops[0][2].x) - 10.0).abs() < 1e-9);
    let square = Aabb { min: p3(0.0, 0.0, 0.0), max: p3(10.0, 10.0, 0.0) };
    let b = host.bounds(hatch, &bounds_of(Some(square))).unwrap();
    assert!((f(b.min.x) - 0.0).abs() < 1e-6 && (f(b.max.y) - 10.0).abs() < 1e-6, "{b:?}");

    // Generic delete works.
    assert!(host.remove_entity(hatch).unwrap());
    assert!(host.document.find(hatch).is_none());
    assert!(!host.entity_exists(hatch));
}

#[test]
fn hatch_boundary_reads_back() {
    let mut host = session();
    let sq = vec![p2(0.0, 0.0), p2(10.0, 0.0), p2(10.0, 10.0), p2(0.0, 10.0)];
    let hatch = host.add_hatch(&sq, true).unwrap();
    let loops = host.hatch_boundary(hatch).unwrap();
    assert_eq!(loops.len(), 1);
    assert_eq!(loops[0].len(), 4);
    assert!((f(loops[0][0].x) - 0.0).abs() < 1e-9 && (f(loops[0][2].x) - 10.0).abs() < 1e-9);
    assert_eq!(loops[0], sq);
    let i = host.document.find(hatch).unwrap();
    if let Shape::Hatch(h) = &mut host.document.entities[i].shape {
        assert!(h.solid);
        assert_eq!(
            h.paths[0].edges[3],
            BoundaryEdge::Line { start: p2(0.0, 10.0), end: p2(0.0, 0.0) }
        );
        h.paths[0].edges[1] = BoundaryEdge::Curved;
    }
    assert!(matches!(
        host.hatch_boundary(hatch),
        Err(ApiError::Unsupported(Reason::Note("hatch boundary contains non-line edges")))
    ));
    assert!(matches!(host.hatch_boundary(5), Err(ApiError::UnknownId(5))));
    assert!(host.remove_entity(hatch).unwrap());
    assert!(host.document.find(hatch).is_none());
    // A hatch that is not asked to be filled starts out filled as well.
    let open = host.add_hatch(&sq, false).unwrap();
    if let Shape::Hatch(h) = &host.document.entities[host.document.find(open).unwrap()].shape {
        assert!(h.solid);
    }
    let text = host
        .add_text("a", TextPlace { insertion_point: p3(0.0, 0.0, 0.0), height: r(1.0), rotation: r(0.0) })
        .unwrap();
    assert!(matches!(
        host.hatch_boundary(text),
        Err(ApiError::Unsupported(Reason::Note("GetHatchBoundary is only for Hatch")))
    ));
}

/// What `acadrust` measures for a dimension as it is stored.
fn measured(host: &Session, id: u64) -> Real {
    let v = |p: Point3| acadrust::Vector3::new(f(p.x), f(p.y), f(p.z));
    let Shape::Dimension(d) = &host.document.entities[host.document.find(id).unwrap()].shape else {
        panic!("dimension not found")
    };
    r(match *d {
        Dimension::Linear { first_point, second_point, rotation, normal, .. } => {
            let mut x = DimensionLinear::rotated(v(first_point), v(second_point), f(rotation));
            x.base.normal = v(normal);
            x.measurement()
        }
        Dimension::Radius { center, point } => DimensionRadius::new(v(center), v(point)).measurement(),
        Dimension::Diameter { center, point } => {
            DimensionDiameter::new(v(center), v(point)).measurement()
        }
        Dimension::Angular3Pt { vertex, first_point, second_point, definition_point, normal } => {
            let mut x = DimensionAngular3Pt::new(v(vertex), v(first_point), v(second_point));
            x.definition_point = v(definition_point);
            x.base.normal = v(normal);
            x.measurement_degrees()
        }
        Dimension::Angular2Ln { first_start, first_end, second_start, second_end, dimension_arc, normal } => {
            let mut x = DimensionAngular2Ln::new(v(second_start), v(first_end), v(second_end));
            x.first_point = v(first_start);
            x.dimension_arc = v(dimension_arc);
            x.base.normal = v(normal);
            x.measurement_degrees()
        }
        Dimension::Further => panic!("not measured"),
    })
}

#[test]
fn phase2cii_dimension_radius_diameter_angular() {
    let mut host = session();
    let o = p3(0.0, 0.0, 0.0);
    let rad = host.add_dimension_radius(o, p3(4.0, 0.0, 0.0)).unwrap();
    let dia = host.add_dimension_diameter(o, p3(6.0, 0.0, 0.0)).unwrap();
    let ang = host
        .add_dimension_angular(o, p3(10.0, 0.0, 0.0), p3(0.0, 10.0, 0.0), p3(5.0, 5.0, 0.0))
        .unwrap();
    let v = f(host.dimension_measurement(rad, measured(&host, rad)).unwrap());
    assert!((v - 4.0).abs() < 1e-4, "radius {v}");
    let v = f(host.dimension_measurement(dia, measured(&host, dia)).unwrap());
    assert!((v - 6.0).abs() < 1e-4, "diameter {v}");
    let v = f(host.dimension_measurement(ang, measured(&host, ang)).unwrap());
    assert!((v - 90.0).abs() < 0.1, "angle {v}");
}

#[test]
fn phase2ciii_dimension_angular2ln() {
    let mut host = session();
    let o = p3(0.0, 0.0, 0.0);
    let ang = host
        .add_dimension_angular2ln(o, p3(10.0, 0.0, 0.0), p3(0.0, 10.0, 0.0), p3(5.0, 5.0, 0.0))
        .unwrap();
    let v = f(host.dimension_measurement(ang, measured(&host, ang)).unwrap());
    assert!((v - 90.0).abs() < 0.1, "angle {v}");
    assert_eq!(host.get_entity(ang, "Dimension", &bounds_of(None)).unwrap().kind, "Dimension");
}

#[test]
fn phase2c_dimension_linear_create_measurement_bounds() {
    let mut host = session();
    let dim = host
        .add_dimension_linear(p3(0.0, 0.0, 0.0), p3(30.0, 0.0, 0.0), p3(0.0, 5.0, 0.0))
        .unwrap();
    let v = f(host.dimension_measurement(dim, measured(&host, dim)).unwrap());
    assert!((v - 30.0).abs() < 1e-6, "measurement {v}");
    let around = Aabb { min: p3(0.0, 0.0, 0.0), max: p3(30.0, 5.0, 0.0) };
    assert_eq!(host.get_entity(dim, "Dimension", &bounds_of(Some(around))).unwrap().kind, "Dimension");
    let b = host.bounds(dim, &bounds_of(Some(around))).unwrap();
    assert!((f(b.min.x) - 0.0).abs() < 1e-6 && (f(b.max.x) - 30.0).abs() < 1e-6, "{b:?}");
}

#[test]
fn dimensions_report_their_measure() {
    let mut host = session();
    let o = p3(0.0, 0.0, 0.0);
    let linear = host.add_dimension_linear(o, p3(30.0, 0.0, 0.0), p3(0.0, 5.0, 0.0)).unwrap();
    let rad = host.add_dimension_radius(o, p3(4.0, 0.0, 0.0)).unwrap();
    let dia = host.add_dimension_diameter(o, p3(6.0, 0.0, 0.0)).unwrap();
    let ang = host
        .add_dimension_angular(o, p3(10.0, 0.0, 0.0), p3(0.0, 10.0, 0.0), p3(5.0, 5.0, 0.0))
        .unwrap();
    let two = host
        .add_dimension_angular2ln(o, p3(10.0, 0.0, 0.0), p3(0.0, 10.0, 0.0), p3(5.0, 5.0, 0.0))
        .unwrap();
    assert!((f(measured(&host, linear)) - 30.0).abs() < 1e-9);
    for (id, v) in [(linear, 30.0), (rad, 4.0), (dia, 6.0), (ang, 90.0), (two, 90.0)] {
        assert_eq!(f(host.dimension_measurement(id, r(v)).unwrap()), v);
        assert!((f(measured(&host, id)) - v).abs() < 1e-9);
        let kind = if v == 90.0 { MeasureKind::Degrees } else { MeasureKind::Distance };
        assert_eq!(host.measure_kind(id).unwrap(), kind);
    }
    let i = host.document.find(ang).unwrap();
    assert!(matches!(
        host.document.entities[i].shape,
        Shape::Dimension(Dimension::Angular3Pt { definition_point, .. })
            if definition_point == p3(5.0, 5.0, 0.0)
    ));
    host.document.entities[i].shape = Shape::Dimension(Dimension::Further);
    assert!(matches!(
        host.dimension_measurement(ang, r(1.0)),
        Err(ApiError::Unsupported(Reason::Note("dimension measurement for this sub-type")))
    ));
    let l = host.add_curve(&None, Ok(line(o, p3(1.0, 0.0, 0.0)))).unwrap();
    assert!(matches!(
        host.measure_kind(ang),
        Err(ApiError::Unsupported(Reason::Note("dimension measurement for this sub-type")))
    ));
    assert!(host.dimension_measurement(l, r(1.0)).is_err());
    assert!(matches!(
        host.measure_kind(l),
        Err(ApiError::Unsupported(Reason::Note("GetDimensionMeasurement is only for Dimension")))
    ));
    assert!(matches!(host.dimension_measurement(3, r(1.0)), Err(ApiError::UnknownId(3))));
    assert!(matches!(host.measure_kind(3), Err(ApiError::UnknownId(3))));
}

#[test]
fn phase5_create_raster_image_registers_definition() {
    let mut host = session();
    let objects = host.document.objects.len();
    let place = ImagePlace {
        insertion_point: p3(10.0, 20.0, 0.0),
        u_vector: p3(0.5, 0.0, 0.0),
        v_vector: p3(0.0, 0.5, 0.0),
        size: p2(100.0, 50.0),
    };
    let img = host.add_raster_image("C:/img/photo.png", place).unwrap();
    let Shape::RasterImage(i) = &host.document.entities[host.document.find(img).unwrap()].shape else {
        panic!("image not found")
    };
    assert_eq!(i.file_path, "C:/img/photo.png");
    assert_eq!(i.place, place);
    // The image names its definition, which is filed with the other objects.
    assert!(i.definition.is_some(), "ImageDefinition was auto-registered");
    let definition = i.definition.unwrap();
    assert!(host.object_exists(definition) && definition != img);
    assert!(host.document.objects.len() > objects);
    let filed = &host.document.objects[host.document.find_object(definition).unwrap()];
    assert!(matches!(&filed.object, Object::ImageDefinition(path) if path == "C:/img/photo.png"));
    let corners = Aabb { min: p3(10.0, 20.0, 0.0), max: p3(60.0, 45.0, 0.0) };
    let b = host.bounds(img, &bounds_of(Some(corners))).unwrap();
    assert!((f(b.min.x) - 10.0).abs() < 1e-6 && (f(b.max.x) - 60.0).abs() < 1e-6, "{b:?}");
    assert!((f(b.min.y) - 20.0).abs() < 1e-6 && (f(b.max.y) - 45.0).abs() < 1e-6, "{b:?}");
    // The next entity gets a handle of its own, and a refused image files nothing.
    let count = host.document.objects.len();
    assert!(host.add_raster_image("C:/img/evil.exe", place).is_err());
    assert_eq!(host.document.objects.len(), count);
    let p = host.add_curve(&None, Ok(Shape::Point(p3(0.0, 0.0, 0.0)))).unwrap();
    assert!(p != img && p != definition);
}

#[test]
fn new_entities_come_last_in_model_space() {
    let mut host = session();
    let inside = host.add_curve(&None, Ok(Shape::Point(p3(0.0, 0.0, 0.0)))).unwrap();
    assert!(host.document.load_block("*MODEL_SPACE", &vec![inside]));
    assert!(host.document.load_block("Door", &vec![inside]));
    let p = host.add_curve(&None, Ok(Shape::Point(p3(1.0, 0.0, 0.0)))).unwrap();
    let s = host.store_solid(solid(5)).unwrap();
    assert_eq!(host.block_parts("*Model_Space").unwrap(), vec![inside, p, s]);
    assert_eq!(host.block_parts("door").unwrap(), vec![inside]);
    let facts = kinds(&["Point", "Point", "3DSOLID"]);
    let listed = host.block_entities("*Model_Space", &facts).unwrap();
    assert_eq!((listed[1].id, listed[1].kind.as_str()), (p, "Point"));
    // An entity that is gone is still listed, as missing.
    assert!(host.remove_entity(p).unwrap());
    let listed = host.block_entities("*Model_Space", &facts).unwrap();
    assert_eq!((listed.len(), listed[1].kind.as_str()), (3, "Missing"));
}

#[test]
fn layers_with_one_handle_keep_their_own_looks() {
    let mut host = session();
    let mut locked = LayerStyle::plain();
    locked.flags.locked = true;
    assert!(host.document.load_layer("Open", 7, LayerStyle::plain()));
    assert!(host.document.load_layer("Shut", 7, locked));
    assert!(!host.document.is_layer_locked("open"));
    assert!(host.document.is_layer_locked("SHUT"));
    assert_eq!(host.document.layer_looks("Open").unwrap().handle, 7);
    set_locked(&mut host, "Shut", false);
    set_locked(&mut host, "Open", true);
    assert!(host.document.is_layer_locked("open"));
    assert!(!host.document.is_layer_locked("SHUT"));
    host.delete_layer("Open").unwrap();
    assert!(host.document.layer_looks("Open").is_none());
    assert!(!host.lookup_layer("Shut").unwrap().flags.locked);
    host.create_layer(&info("Next")).unwrap();
    assert!(!host.lookup_layer("Next").unwrap().flags.locked);
}

#[test]
fn solids_are_measured_once() {
    let mut host = session();
    let id = host.store_solid(solid(5)).unwrap();
    assert!(host.measures_anew(id));
    host.volume(id, None, Some((r(8.0), p3(1.0, 1.0, 1.0)))).unwrap();
    assert!(!host.measures_anew(id));
    assert_eq!(host.volume(id, None, None).unwrap(), r(8.0));
    host.finalize_op();
    assert!(host.measures_anew(id));
    host.measured = 32;
    assert!(!host.measures_anew(id));
    assert!(host.volume(id, None, None).is_err());
}

#[test]
fn the_record_dictionary_is_made_once() {
    let mut host = session();
    let first = host.document.xrecord_dictionary_handle();
    let (count, next) = (host.document.objects.len(), host.document.next_handle);
    assert_eq!(host.document.xrecord_dictionary_handle(), first);
    assert_eq!((host.document.objects.len(), host.document.next_handle), (count, next));
}

#[test]
fn fix_raster_image_path_validation() {
    let mut host = session();
    let place = ImagePlace {
        insertion_point: p3(0.0, 0.0, 0.0),
        u_vector: p3(0.5, 0.0, 0.0),
        v_vector: p3(0.0, 0.5, 0.0),
        size: p2(10.0, 10.0),
    };
    assert!(host.add_raster_image("C:/img/photo.png", place).is_ok());
    assert!(host.add_raster_image("\\\\server\\share\\x.png", place).is_err());
    assert!(host.add_raster_image("C:/img/../../etc/passwd.png", place).is_err());
    assert!(host.add_raster_image("C:/img/evil.exe", place).is_err());
    assert!(host.add_raster_image("", place).is_err());
    assert_eq!(host.document.entities.len(), 1);
}

#[test]
fn image_paths_case_by_case() {
    for good in ["a.PNG", " a.jpg ", "x/y.jpeg", "a..bmp", "tga", "..gif", "a.b.webp", "q.TiFf", "q.tif"] {
        assert!(validate_image_path(good).is_ok(), "{good}");
    }
    assert!(matches!(
        validate_image_path("   "),
        Err(ApiError::Validation { op: "CreateRasterImage", reason: Reason::Note("empty image file path") })
    ));
    for unc in ["//host/a.png", "\\\\host\\a.png", "  //host/a.png"] {
        assert!(matches!(
            validate_image_path(unc),
            Err(ApiError::Unsupported(Reason::Note("network/UNC image paths are not allowed")))
        ));
    }
    for up in ["../a.png", "a/..", "a\\..\\b.png"] {
        assert!(matches!(
            validate_image_path(up),
            Err(ApiError::Unsupported(Reason::Note("parent-traversal ('..') in image path is not allowed")))
        ));
    }
    match validate_image_path("a.exe ") {
        Err(ApiError::Validation { op, reason }) => {
            assert_eq!(op, "CreateRasterImage");
            assert_eq!(reason.text("\"a.exe \""), "unsupported image file extension in \"a.exe \"");
        }
        other => panic!("{other:?}"),
    }
    assert!(validate_image_path("a.png/").is_err());
}

#[test]
fn phase4_set_view_and_view_query() {
    let mut host = session();
    let vp = host
        .add_viewport(Viewport {
            center: p3(50.0, 50.0, 0.0),
            width: r(40.0),
            height: r(30.0),
            view_target: p3(0.0, 0.0, 0.0),
            view_height: r(100.0),
        })
        .unwrap();
    host.set_viewport_view(vp, p3(20.0, 30.0, 0.0), r(50.0)).unwrap();
    let Shape::Viewport(v) = &host.document.entities[host.document.find(vp).unwrap()].shape else {
        panic!("viewport not found")
    };
    assert!((f(v.view_target.x) - 20.0).abs() < 1e-6 && (f(v.view_height) - 50.0).abs() < 1e-6);
    assert_eq!(v.width, r(40.0));
    let (target, height) = host.viewport_view(vp).unwrap();
    assert!((f(target.x) - 20.0).abs() < 1e-6 && (f(height) - 50.0).abs() < 1e-6);
    let l = host.add_curve(&None, Ok(line(p3(0.0, 0.0, 0.0), p3(1.0, 1.0, 1.0)))).unwrap();
    assert!(host.set_viewport_view(l, p3(0.0, 0.0, 0.0), r(1.0)).is_err());
    assert!(host.viewport_view(l).is_err());
}

#[test]
fn phase3_attributes_and_block_traversal() {
    let mut host = session();
    let l = host.add_curve(&None, Ok(line(p3(0.0, 0.0, 0.0), p3(10.0, 10.0, 10.0)))).unwrap();
    assert!(host.document.load_block("Door", &vec![l]));
    let ins = host.add_insert("Door", p3(0.0, 0.0, 0.0), r(1.0), r(0.0)).unwrap();

    host.set_attribute(ins, "HANDLE", "A-1").unwrap();
    let attrs = host.attributes(ins).unwrap();
    assert_eq!(attrs.len(), 1);
    assert_eq!(attrs[0], ("HANDLE".to_string(), "A-1".to_string()));
    host.set_attribute(ins, "HANDLE", "A-2").unwrap();
    let attrs = host.attributes(ins).unwrap();
    assert_eq!(attrs[0].1, "A-2");
    assert_eq!(attrs.len(), 1);

    let v = host.block_entities("Door", &kinds(&["Line"])).unwrap();
    assert_eq!(v.len(), 1);
    assert_eq!(v[0].kind, "Line");
    assert_eq!(v[0].layer, "0");
    assert!(host.block_entities("Nope", &vec![]).is_err());
}

#[test]
fn attributes_are_found_by_their_exact_tag() {
    let mut host = session();
    assert!(host.document.load_block("B", &vec![]));
    let ins = host.add_insert("b", p3(3.0, 4.0, 0.0), r(1.0), r(0.0)).unwrap();
    host.set_attribute(ins, "T", "1").unwrap();
    host.set_attribute(ins, "t", "2").unwrap();
    assert_eq!(
        host.attributes(ins).unwrap(),
        vec![("T".to_string(), "1".to_string()), ("t".to_string(), "2".to_string())]
    );
    let Shape::Insert(i) = &host.document.entities[host.document.find(ins).unwrap()].shape else {
        panic!("insert not found")
    };
    assert_eq!(i.attributes[1].insertion_point, p3(3.0, 4.0, 0.0));
    let l = host.add_curve(&None, Ok(line(p3(0.0, 0.0, 0.0), p3(1.0, 0.0, 0.0)))).unwrap();
    assert!(host.set_attribute(l, "T", "1").is_err());
    assert!(host.attributes(l).is_err());
}

#[test]
fn block_parts_that_are_gone_are_missing() {
    let mut host = session();
    assert!(host.document.load_block("B", &vec![55]));
    assert!(!host.document.load_block("b", &vec![]));
    assert_eq!(host.block_parts("b"), Some(vec![55]));
    assert_eq!(host.block_parts("Nope"), None);
    let v = host.block_entities("b", &kinds(&["Line"])).unwrap();
    assert_eq!((v[0].id, v[0].kind.as_str(), v[0].layer.as_str()), (55, "Missing", ""));
    match host.block_entities("Nope", &vec![]) {
        Err(ApiError::Validation { op, reason }) => {
            assert_eq!(op, "GetBlockEntities");
            assert_eq!(reason.text("\"Nope\""), "unknown block \"Nope\"");
        }
        other => panic!("{other:?}"),
    }
}

#[test]
fn phase3_create_insert_and_transform() {
    let mut host = session();
    assert!(host.document.load_block("MyBlock", &vec![]));
    let ins = host.add_insert("MyBlock", p3(10.0, 20.0, 0.0), r(2.0), r(0.0)).unwrap();
    let Shape::Insert(i) = &host.document.entities[host.document.find(ins).unwrap()].shape else {
        panic!("insert not found")
    };
    assert_eq!(i.block_name, "MyBlock");
    assert_eq!(i.place.normal, p3(0.0, 0.0, 1.0));
    assert!((f(i.place.insert_point.x) - 10.0).abs() < 1e-9 && (f(i.place.x_scale) - 2.0).abs() < 1e-9);
    let place = InsertPlace { insert_point: p3(10.0 + 5.0, 20.0, 0.0), ..i.place };
    let moved = Insert { block_name: i.block_name.clone(), place, attributes: vec![] };
    host.transform_entity(ins, unmoved(Shape::Insert(moved))).unwrap();
    let Shape::Insert(i) = &host.document.entities[host.document.find(ins).unwrap()].shape else {
        panic!("insert not found")
    };
    assert!((f(i.place.insert_point.x) - 15.0).abs() < 1e-6);
    let count = host.document.entities.len();
    let before = host.epoch;
    let err = host.add_insert("NoSuchBlock", p3(0.0, 0.0, 0.0), r(1.0), r(0.0)).unwrap_err();
    assert!(matches!(err, ApiError::Validation { op: "CreateInsert", .. }), "{err:?}");
    assert_eq!(host.epoch, before, "no entity on unknown block");
    assert_eq!(host.document.entities.len(), count);
}

#[test]
fn inserts_are_never_of_no_size() {
    let mut host = session();
    assert!(host.document.load_block("MyBlock", &vec![]));
    // A scale of zero is not taken.
    let z = host.add_insert("myblock", p3(0.0, 0.0, 0.0), r(-0.0), r(0.0)).unwrap();
    let Shape::Insert(i) = &host.document.entities[host.document.find(z).unwrap()].shape else {
        panic!("insert not found")
    };
    assert_eq!(f(i.place.y_scale), 1e-12);
    let n = host.add_insert("myblock", p3(0.0, 0.0, 0.0), r(-1e-12), r(0.0)).unwrap();
    let Shape::Insert(i) = &host.document.entities[host.document.find(n).unwrap()].shape else {
        panic!("insert not found")
    };
    assert_eq!(f(i.place.z_scale), -1e-12);
}

// ── Many at once ───────────────────────────────────────────────────────────

#[test]
fn doc_api_transform_many_with_stale_id_fails_all_or_nothing() {
    let mut host = session();
    let solid_id = host.store_solid(solid(7)).unwrap();
    let stale = 0xFFFF_FFFF;
    let rev_before = host.epoch;
    let moved = vec![
        Moved { lifted: None, solid: Some(solid(8)), shape: Err(ApiError::UnknownId(0)) },
        Moved { lifted: None, solid: None, shape: Err(ApiError::UnknownId(stale)) },
    ];
    let err = host.transform_many(&vec![solid_id, stale], moved).unwrap_err();
    assert!(
        matches!(err, ApiError::Validation { .. } | ApiError::UnknownId(_)),
        "{err:?}"
    );
    assert_eq!(host.epoch, rev_before, "no mutation on rejected TransformMany");
    assert!(host.history.is_empty());
    assert_eq!(host.resolve_body(solid_id, None).unwrap(), 7);
}

#[test]
fn fix_transform_many_locked_layer_fails_all_or_nothing() {
    let mut host = session();
    let a = host.add_curve(&None, Ok(Shape::Point(p3(0.0, 0.0, 0.0)))).unwrap();
    let b = host.add_curve(&None, Ok(Shape::Point(p3(1.0, 1.0, 1.0)))).unwrap();
    let layer = host.entity_layer(b).unwrap();
    set_locked(&mut host, &layer, true);
    let rev_before = host.epoch;
    let err = host
        .transform_many(
            &vec![a, b],
            vec![
                unmoved(Shape::Point(p3(5.0, 0.0, 0.0))),
                unmoved(Shape::Point(p3(6.0, 1.0, 1.0))),
            ],
        )
        .unwrap_err();
    assert!(
        matches!(
            err,
            ApiError::Validation { .. } | ApiError::Unsupported(_) | ApiError::UnknownId(_)
        ),
        "{err:?}"
    );
    let pa = host.point_position(a).unwrap();
    assert!((f(pa.x) - 0.0).abs() < 1e-9, "a moved despite locked batch member");
    assert_eq!(host.epoch, rev_before, "no mutation on rejected TransformMany");
}

#[test]
fn transform_many_moves_all_in_one_step() {
    let mut host = session();
    let a = host.add_curve(&None, Ok(Shape::Point(p3(0.0, 0.0, 0.0)))).unwrap();
    let b = host.store_solid(solid(3)).unwrap();
    host.bodies.clear();
    host.transform_many(
        &vec![a, b],
        vec![
            unmoved(Shape::Point(p3(5.0, 0.0, 0.0))),
            Moved { lifted: Some(3), solid: Some(solid(4)), shape: Err(ApiError::UnknownId(0)) },
        ],
    )
    .unwrap();
    assert_eq!(host.point_position(a).unwrap(), p3(5.0, 0.0, 0.0));
    assert_eq!(host.resolve_body(b, None).unwrap(), 4);
    assert!(matches!(
        host.document.entities[host.document.find(b).unwrap()].shape,
        Shape::Solid3D(1004)
    ));
    assert_eq!(host.history, vec!["TransformMany".to_string()]);
    assert_eq!(host.epoch, 1);
    assert!(host.recording.is_none());
}

#[test]
fn moves_fail_for_each_reason() {
    let mut host = session();
    let o = p3(0.0, 0.0, 0.0);
    let dim = host.add_dimension_radius(o, o).unwrap();
    assert!(matches!(
        host.ensure_transformable(dim, None),
        Err(ApiError::Unsupported(Reason::Note("transform is not supported for this entity family")))
    ));
    let s = host.store_solid(solid(3)).unwrap();
    assert!(host.ensure_transformable(s, None).is_ok());
    host.bodies.clear();
    assert!(matches!(host.ensure_transformable(s, None), Err(ApiError::UnknownId(_))));
    assert!(host.ensure_transformable(s, Some(3)).is_ok());
    assert_eq!(host.bodies.get(&s), Some(&3));
    let stuck = Moved { lifted: None, solid: None, shape: Ok(Shape::Point(o)) };
    assert!(matches!(
        host.transform_entity(s, stuck),
        Err(ApiError::Geometry { kind: GeometryErrorKind::InvalidInput, message: "transform failed" })
    ));
    let unshown = Moved {
        lifted: None,
        solid: Some(SolidBody { body: 1, display: false, stored: Some(1) }),
        shape: Ok(Shape::Point(o)),
    };
    assert!(matches!(
        host.transform_entity(s, unshown),
        Err(ApiError::Geometry { kind: GeometryErrorKind::Other, .. })
    ));
    let p = host.add_curve(&None, Ok(Shape::Point(o))).unwrap();
    let refused = Moved {
        lifted: None,
        solid: None,
        shape: Err(ApiError::Unsupported(Reason::Outside("skew".to_string()))),
    };
    match host.transform_entity(p, refused) {
        Err(ApiError::Unsupported(reason)) => assert_eq!(reason.text(""), "skew"),
        other => panic!("{other:?}"),
    }
}

#[test]
fn fix_create_many_invalid_curve_is_all_or_nothing() {
    let mut host = session();
    let rev_before = host.epoch;
    let specs = vec![
        NewEntity { layer: None, made: Made::Curve(Ok(Shape::Point(p3(0.0, 0.0, 0.0)))) },
        NewEntity {
            layer: None,
            made: Made::Curve(Err(ApiError::Validation {
                op: "CreateCurve",
                reason: Reason::Outside("ellipse ratio 2 is above 1".to_string()),
            })),
        },
    ];
    let err = host.create_many(specs).unwrap_err();
    assert!(matches!(err, ApiError::Validation { .. }), "{err:?}");
    assert_eq!(host.epoch, rev_before, "no mutation on rejected CreateMany");
    assert!(host.document.entities.is_empty());
    assert!(host.history.is_empty());
    assert!(host.recording.is_none());
}

#[test]
fn doc_api_failed_inputs_leave_document_and_history_unchanged() {
    let mut host = session();
    let count = host.document.entities.len();
    let undo = host.history.len();
    let (epoch, revision) = (host.epoch, host.revision());
    let dirty = host.dirty;
    let refused = |op: &'static str, why: &str| ApiError::Validation {
        op,
        reason: Reason::Outside(why.to_string()),
    };
    assert!(host
        .create_many(vec![
            NewEntity { layer: None, made: Made::Curve(Ok(Shape::Point(p3(0.0, 0.0, 0.0)))) },
            NewEntity { layer: None, made: Made::Solid(Err(refused("CreateSolid", "radius NaN"))) },
        ])
        .is_err());
    assert!(host.recording.is_none());
    assert!(host.add_curve(&None, Err(refused("CreateCurve", "radius -1"))).is_err());
    assert!(host.recording.is_none());
    assert!(host.add_curve(&None, Err(refused("CreateCurve", "points not level"))).is_err());
    assert!(host.recording.is_none());
    assert_eq!(host.document.entities.len(), count);
    assert_eq!((host.epoch, host.revision()), (epoch, revision));
    assert_eq!(host.history.len(), undo);
    assert_eq!(host.dirty, dirty);
}

#[test]
fn doc_api_bulk_creation_is_dirty_and_undoes_in_one_step() {
    let mut host = session();
    let undo = host.history.len();
    let count = host.document.entities.len();
    let ids = host
        .create_many(vec![
            NewEntity { layer: None, made: Made::Curve(Ok(Shape::Point(p3(1.0, 1.0, 1.0)))) },
            NewEntity { layer: None, made: Made::Solid(Ok(solid(9))) },
        ])
        .unwrap();
    assert!(host.dirty);
    assert_eq!(host.history.len(), undo + 1);
    assert_eq!(host.history.last().unwrap(), "CreateMany");
    assert_eq!(host.epoch, 1);
    assert_eq!(host.document.entities.len(), count + 2);
    for id in &ids {
        assert!(host.entity_exists(*id));
    }
    assert!(host.bodies.contains_key(&ids[1]));
}

#[test]
fn create_many_is_one_step() {
    let mut host = session();
    host.create_layer(&info("Walls")).unwrap();
    let ids = host
        .create_many(vec![
            NewEntity {
                layer: Some(" walls ".to_string()),
                made: Made::Curve(Ok(Shape::Point(p3(1.0, 1.0, 1.0)))),
            },
            NewEntity { layer: Some("Walls".to_string()), made: Made::Solid(Ok(solid(9))) },
        ])
        .unwrap();
    assert_eq!(ids.len(), 2);
    assert_eq!(ids[1], ids[0] + 1);
    assert_eq!(host.document.entities.len(), 2);
    assert_eq!(host.history, vec!["CreateMany".to_string()]);
    assert_eq!(host.epoch, 1);
    assert_eq!(host.entity_layer(ids[0]).unwrap(), "WALLS");
    // A solid goes to the layer 0.
    assert_eq!(host.entity_layer(ids[1]).unwrap(), "0");
    assert_eq!(host.bodies.get(&ids[1]), Some(&9));
}

#[test]
fn create_many_checks_layers_first() {
    let mut host = session();
    let err = host
        .create_many(vec![
            NewEntity { layer: None, made: Made::Solid(Err(ApiError::UnknownId(1))) },
            NewEntity {
                layer: Some(" Nope".to_string()),
                made: Made::Curve(Ok(Shape::Point(p3(1.0, 1.0, 1.0)))),
            },
        ])
        .unwrap_err();
    match err {
        ApiError::Validation { op, reason } => {
            assert_eq!(op, "CreateMany");
            assert_eq!(reason.text(""), "layer ' Nope' does not exist");
        }
        other => panic!("{other:?}"),
    }
    assert!(matches!(
        host.create_many(vec![NewEntity {
            layer: None,
            made: Made::Solid(Ok(SolidBody { body: 1, display: true, stored: None })),
        }]),
        Err(ApiError::Geometry { kind: GeometryErrorKind::Acis, message: "solid serialization failed" })
    ));
    assert!(host.document.entities.is_empty());
}

#[test]
fn curves_go_to_their_layer() {
    let mut host = session();
    host.create_layer(&info("Wände")).unwrap();
    let a = host.add_curve(&Some("wände".to_string()), Ok(Shape::Point(p3(0.0, 0.0, 0.0)))).unwrap();
    assert_eq!(host.entity_layer(a).unwrap(), "WÄNDE");
    assert!(matches!(
        host.add_curve(&Some("  ".to_string()), Ok(Shape::Point(p3(0.0, 0.0, 0.0)))),
        Err(ApiError::Validation { op: "CreateCurve", reason: Reason::EmptyLayerName })
    ));
    assert!(matches!(
        host.add_curve(&None, Err(ApiError::UnknownId(4))),
        Err(ApiError::UnknownId(4))
    ));
}

// ── Solids ─────────────────────────────────────────────────────────────────

#[test]
fn solids_are_stored_and_updated() {
    let mut host = session();
    let id = host.store_solid(solid(5)).unwrap();
    assert_eq!(host.resolve_body(id, Some(99)).unwrap(), 5);
    host.update_solid(id, solid(6)).unwrap();
    assert_eq!(host.resolve_body(id, None).unwrap(), 6);
    let p = host.add_curve(&None, Ok(Shape::Point(p3(0.0, 0.0, 0.0)))).unwrap();
    assert!(matches!(host.update_solid(p, solid(1)), Err(ApiError::UnknownId(_))));
    assert!(matches!(host.update_solid(3, solid(1)), Err(ApiError::UnknownId(3))));
    assert!(matches!(
        host.loft(None),
        Err(ApiError::Geometry { kind: GeometryErrorKind::InvalidInput, message: "loft failed" })
    ));
    let l = host.loft(Some(solid(8))).unwrap();
    assert_eq!(host.resolve_body(l, None).unwrap(), 8);
    assert!(host.remove_entity(l).unwrap());
    assert!(host.resolve_body(l, None).is_err());
    set_locked(&mut host, "0", true);
    assert!(matches!(
        host.update_solid(id, solid(1)),
        Err(ApiError::Unsupported(Reason::LockedLayer(_)))
    ));
}

#[test]
fn volumes_are_kept_and_limited() {
    let mut host = session();
    let id = host.store_solid(solid(5)).unwrap();
    let c = p3(1.0, 1.0, 1.0);
    assert_eq!(host.volume(id, None, Some((r(8.0), c))).unwrap(), r(8.0));
    assert_eq!(host.measured, 1);
    // Kept at the same revision, whatever would be measured now.
    assert_eq!(host.centroid(id, None, None).unwrap(), c);
    assert_eq!(host.measured, 1);
    host.push_undo("x");
    host.finalize_op();
    assert!(matches!(
        host.volume(id, None, None),
        Err(ApiError::Geometry { kind: GeometryErrorKind::Empty, message: "solid has no measurable volume" })
    ));
    assert_eq!(host.measured, 2);
    host.measured = 32;
    assert!(matches!(
        host.volume(id, None, Some((r(8.0), c))),
        Err(ApiError::Validation { op: "mass properties", .. })
    ));
    assert!(host.open_request(1, 10).is_ok());
    assert_eq!(host.volume(id, None, Some((r(8.0), c))).unwrap(), r(8.0));
    assert_eq!(host.measured, 1);
}

#[test]
fn kept_volumes_start_over_when_full() {
    let mut host = session();
    host.item_cap = 2;
    let c = p3(0.0, 0.0, 0.0);
    let ids: Vec<u64> = (0..3).map(|k| host.store_solid(solid(k)).unwrap()).collect();
    for id in &ids {
        host.volume(*id, None, Some((r(1.0), c))).unwrap();
    }
    assert_eq!(host.masses.len(), 1);
    assert!(host.masses.contains_key(&ids[2]));
}

#[test]
fn boxes_come_from_bodies_or_entities() {
    let mut host = session();
    let b = Aabb { min: p3(0.0, 0.0, 0.0), max: p3(1.0, 1.0, 1.0) };
    let id = host.store_solid(solid(5)).unwrap();
    let facts = BoundsFacts { lifted: None, body: Some(b), entity: Err(ApiError::UnknownId(id)) };
    assert_eq!(host.bounds(id, &facts).unwrap(), b);
    let none = BoundsFacts { lifted: None, body: None, entity: Ok(b) };
    assert!(matches!(
        host.bounds(id, &none),
        Err(ApiError::Geometry { kind: GeometryErrorKind::Empty, message: "no bounds" })
    ));
    let p = host.add_curve(&None, Ok(Shape::Point(p3(0.0, 0.0, 0.0)))).unwrap();
    assert_eq!(host.bounds(p, &none).unwrap(), b);
    assert!(host.bounds(p, &facts).is_err());
    let view = host.get_entity(p, "Point", &none).unwrap();
    assert_eq!((view.id, view.kind.as_str(), view.bounds), (p, "Point", Some(b)));
    assert!(host.get_entity(4, "Point", &none).is_err());
    assert_eq!(host.profile(p, Some(3)).unwrap(), 3);
    assert!(matches!(host.profile(p, None), Err(ApiError::Unsupported(_))));
    assert!(matches!(host.profile(4, Some(3)), Err(ApiError::UnknownId(4))));
}

// ── Layers ─────────────────────────────────────────────────────────────────

#[test]
fn doc_api_layer_crud_roundtrip_and_entity_assignment() {
    let mut host = session();
    let l = host.add_curve(&None, Ok(line(p3(0.0, 0.0, 0.0), p3(1.0, 1.0, 1.0)))).unwrap();
    let list = host.layers().unwrap();
    assert!(list.iter().any(|l| l.name == "0"));

    let mut walls = info("Walls");
    walls.color = Color::Index(1);
    walls.line_weight = LineWeight::Value(25);
    host.create_layer(&walls).unwrap();

    walls.color = Color::Index(2);
    let (had, has) = host.update_layer(" Walls ", &walls).unwrap();
    assert_eq!((had.as_str(), has.as_str()), ("Walls", "Walls"));
    let back = host.lookup_layer("walls").unwrap();
    assert_eq!(back.color, Color::Index(2));
    assert_eq!(back.line_weight, LineWeight::Value(25));

    host.set_entity_layer(l, "Walls").unwrap();
    assert_eq!(host.entity_layer(l).unwrap(), "Walls");

    let err = host.delete_layer("Walls").unwrap_err();
    assert!(matches!(err, ApiError::Validation { .. }));

    host.set_entity_layer(l, "0").unwrap();
    host.delete_layer(" Walls ").unwrap();
    let list = host.layers().unwrap();
    assert!(!list.iter().any(|l| l.name == "Walls"));
}

#[test]
fn layer_refusals() {
    let mut host = session();
    assert!(matches!(
        host.create_layer(&info("  ")),
        Err(ApiError::Validation { op: "CreateLayer", reason: Reason::EmptyLayerName })
    ));
    host.create_layer(&info("Walls")).unwrap();
    match host.create_layer(&info(" wALLS")) {
        Err(ApiError::Validation { op, reason }) => {
            assert_eq!(op, "CreateLayer");
            assert_eq!(reason.text(""), "layer 'WALLS' already exists");
        }
        other => panic!("{other:?}"),
    }
    match host.delete_layer("Doors") {
        Err(ApiError::Validation { op: "DeleteLayer", reason }) => {
            assert_eq!(reason.text(""), "layer 'Doors' does not exist")
        }
        other => panic!("{other:?}"),
    }
    assert!(matches!(
        host.delete_layer(" 0 "),
        Err(ApiError::Validation { op: "DeleteLayer", reason: Reason::Note("cannot delete layer 0") })
    ));
    host.document.current_layer = "walls".to_string();
    assert!(matches!(
        host.delete_layer("Walls"),
        Err(ApiError::Validation { reason: Reason::Note("cannot delete the current layer"), .. })
    ));
    host.document.current_layer = "0".to_string();
    let p = host.add_curve(&Some("Walls".to_string()), Ok(Shape::Point(p3(0.0, 0.0, 0.0)))).unwrap();
    assert!(matches!(
        host.delete_layer("walls"),
        Err(ApiError::Validation { reason: Reason::LayerInUse(_), .. })
    ));
    assert!(matches!(
        host.update_layer("Doors", &info("Doors")),
        Err(ApiError::Validation { op: "UpdateLayer", reason: Reason::NoLayer(_) })
    ));
    assert!(matches!(
        host.update_layer("Walls", &info(" ")),
        Err(ApiError::Validation { op: "UpdateLayer", reason: Reason::EmptyLayerName })
    ));
    host.create_layer(&info("Doors")).unwrap();
    match host.update_layer("Walls", &info("doors")) {
        Err(ApiError::Validation { op: "UpdateLayer", reason }) => {
            assert_eq!(reason.text(""), "Entry 'DOORS' already exists in table")
        }
        other => panic!("{other:?}"),
    }
    assert!(matches!(
        host.set_entity_layer(p, "Roof"),
        Err(ApiError::Validation { op: "SetEntityLayer", reason: Reason::NoLayer(_) })
    ));
    set_locked(&mut host, "Doors", true);
    match host.set_entity_layer(p, "Doors") {
        Err(ApiError::Unsupported(reason)) => {
            assert_eq!(
                reason.text("ObjectId(9)"),
                "entity ObjectId(9) cannot be moved to locked layer 'Doors'"
            )
        }
        other => panic!("{other:?}"),
    }
    assert!(matches!(host.set_entity_layer(3, "0"), Err(ApiError::UnknownId(3))));
    assert!(matches!(
        host.lookup_layer(""),
        Err(ApiError::Validation { op: "LookupLayer", reason: Reason::EmptyLayerName })
    ));
}

#[test]
fn renamed_layers_keep_their_place() {
    let mut host = session();
    host.create_layer(&info("B")).unwrap();
    host.create_layer(&info("C")).unwrap();
    let mut a = info(" Zoo ");
    a.plot_style = "Fine".to_string();
    let names = host.update_layer("b", &a).unwrap();
    assert_eq!(names, ("B".to_string(), "Zoo".to_string()));
    assert!(host.lookup_layer("B").is_err());
    assert_eq!(host.lookup_layer("zoo").unwrap().plot_style, "Fine");
    // Listed in the order of names, not of the table.
    let listed: Vec<String> = host.layers().unwrap().into_iter().map(|l| l.name).collect();
    assert_eq!(listed, vec!["0", "C", "Zoo"]);
    // Upper case comes before lower case.
    host.create_layer(&info("a")).unwrap();
    host.create_layer(&info("Zo")).unwrap();
    let listed: Vec<String> = host.layers().unwrap().into_iter().map(|l| l.name).collect();
    assert_eq!(listed, vec!["0", "C", "Zo", "Zoo", "a"]);
}

#[test]
fn names_are_compared_letter_by_letter() {
    let mut host = session();
    host.create_layer(&info("Yazı")).unwrap();
    // The dotless letter is another than I, and a sharp s is not two letters.
    assert!(host.lookup_layer("YAZI").is_err());
    assert!(host.lookup_layer("yazı").is_ok());
    host.create_layer(&info("straße")).unwrap();
    assert!(host.lookup_layer("STRASSE").is_err());
    assert!(host.lookup_layer("STRAßE").is_ok());
    host.create_layer(&info("ölçü")).unwrap();
    assert_eq!(host.lookup_layer("ÖLÇÜ").unwrap().name, "ölçü");
}

#[test]
fn prepared_names_do_not_change_again() {
    // What every letter becomes in a compared name stays what it is.
    for n in 0..0x11_0000u32 {
        let Some(c) = char::from_u32(n) else { continue };
        let once = acadrust::tables::normalize_name(&c.to_string());
        assert_eq!(once.chars().count(), 1);
        let u = once.chars().next().unwrap();
        if c.is_ascii() {
            assert_eq!(u, c.to_ascii_uppercase());
        } else {
            assert!(!u.is_ascii());
        }
        assert_eq!(acadrust::tables::normalize_name(&once), once, "{c:?}");
    }
}

// ── Application data ───────────────────────────────────────────────────────

#[test]
fn data_hangs_on_entities() {
    let mut host = session();
    let first = host.add_curve(&None, Ok(line(p3(0.0, 0.0, 0.0), p3(1.0, 1.0, 1.0)))).unwrap();
    let locked = host.add_curve(&None, Ok(line(p3(0.0, 0.0, 0.0), p3(1.0, 1.0, 1.0)))).unwrap();
    host.create_layer(&info("Locked")).unwrap();
    host.set_entity_layer(locked, "Locked").unwrap();
    set_locked(&mut host, "Locked", true);
    assert!(host.set_xdata(locked, "LOCKED", Some(vec![XDataValue::Integer32(42)])).is_err());
    assert!(host.xdata(locked, "LOCKED").unwrap().is_none());
    assert!(host.xdata(first, "FIRST").unwrap().is_none());
    host.set_xdata(first, "FIRST", Some(vec![XDataValue::Integer32(42)])).unwrap();
    host.set_xdata(first, "SECOND", Some(vec![XDataValue::Text("t".to_string())])).unwrap();
    host.set_xdata(first, "FIRST", Some(vec![XDataValue::Integer16(7)])).unwrap();
    let back = host.xdata(first, "FIRST").unwrap().unwrap();
    assert_eq!(back.application_name, "FIRST");
    assert!(matches!(back.values[..], [XDataValue::Integer16(7)]));
    assert!(host.xdata(first, "first").unwrap().is_none());
    host.set_xdata(first, "FIRST", None).unwrap();
    host.set_xdata(first, "FIRST", None).unwrap();
    assert!(host.xdata(first, "FIRST").unwrap().is_none());
    assert!(host.xdata(first, "SECOND").unwrap().is_some());
    assert!(matches!(host.xdata(4, "FIRST"), Err(ApiError::UnknownId(4))));
}

#[test]
fn doc_api_xrecords_keep_one_named_owner() {
    let mut host = session();
    let first = host.add_xrecord(&record("FIRST")).unwrap();
    let i = host.document.find_object(first).unwrap();
    let Object::XRecord(x) = &host.document.objects[i].object else { panic!("expected XRecord") };
    let owner = x.owner;
    let d = host.document.find_object(owner).unwrap();
    let Object::Dictionary(dict) = &host.document.objects[d].object else {
        panic!("expected dictionary")
    };
    assert!(dict.entries.iter().any(|e| e.name == "FIRST" && e.handle == first));

    let count = host.document.objects.len();
    assert!(matches!(
        host.add_xrecord(&record("first")),
        Err(ApiError::Validation { op: "CreateXRecord", reason: Reason::RecordExists(_) })
    ));
    assert_eq!(host.document.objects.len(), count);

    let second = host.add_xrecord(&record("SECOND")).unwrap();
    match host.set_xrecord(second, &record("FIRST")) {
        Err(ApiError::Validation { op: "SetXRecord", reason }) => {
            assert_eq!(reason.text(""), "XRecord 'FIRST' already exists")
        }
        other => panic!("{other:?}"),
    }
    assert_eq!(host.xrecord(second).unwrap().name, "SECOND");

    host.set_xrecord(second, &record("Third")).unwrap();
    assert_eq!(host.xrecord(second).unwrap().name, "Third");
    let d = host.document.find_object(owner).unwrap();
    let Object::Dictionary(dict) = &host.document.objects[d].object else {
        panic!("expected dictionary")
    };
    let names: Vec<&str> = dict.entries.iter().map(|e| e.name.as_str()).collect();
    assert_eq!(names, vec!["FIRST", "Third"]);
    // Changing the case of its own name is no conflict.
    host.set_xrecord(second, &record("THIRD")).unwrap();
    // The root leads to the dictionary, once.
    let Object::Dictionary(root) =
        &host.document.objects[host.document.find_object(1).unwrap()].object
    else {
        panic!("expected root")
    };
    assert_eq!(root.entries.len(), 1);
    assert_eq!(root.entries[0].name, "OCS_XRECORD_DICT");
    assert_eq!(root.entries[0].handle, owner);
}

#[test]
fn record_refusals() {
    let mut host = session();
    match host.set_xrecord(77, &record("A")) {
        Err(ApiError::Validation { op: "SetXRecord", reason }) => {
            assert_eq!(reason.text("ObjectId(77)"), "unknown ObjectId ObjectId(77)")
        }
        other => panic!("{other:?}"),
    }
    match host.set_xrecord(1, &record("A")) {
        Err(ApiError::Unsupported(reason)) => {
            assert_eq!(reason.text("ObjectId(1)"), "ObjectId ObjectId(1) is not an XRecord")
        }
        other => panic!("{other:?}"),
    }
    assert!(host.xrecord(1).is_none());
    assert!(host.object_exists(1));
    assert!(!host.object_exists(77));
}

#[test]
fn stale_dictionary_entries_are_replaced() {
    let mut host = session();
    // The root names an object that is no dictionary.
    if let Object::Dictionary(root) = &mut host.document.objects[0].object {
        root.entries.push(DictEntry { name: "ocs_xrecord_dict".to_string(), handle: 50 });
        root.entries.push(DictEntry { name: "OTHER".to_string(), handle: 51 });
    }
    let id = host.add_xrecord(&record("A")).unwrap();
    let Object::Dictionary(root) = &host.document.objects[0].object else { panic!("root") };
    let names: Vec<&str> = root.entries.iter().map(|e| e.name.as_str()).collect();
    assert_eq!(names, vec!["OTHER", "OCS_XRECORD_DICT"]);
    let dict = root.entries[1].handle;
    let i = host.document.find_object(id).unwrap();
    let Object::XRecord(x) = &host.document.objects[i].object else { panic!("record") };
    assert_eq!(x.owner, dict);
    // A record that another dictionary leads to stays there.
    assert_eq!(host.document.xrecord_owner_dictionary(id, 999), Some(dict));
    assert_eq!(host.document.xrecord_owner_dictionary(12345, dict), None);
}

#[test]
fn references_follow_the_entries() {
    let mut host = session();
    let entry = |code: i32, value: RecordValue| RecordEntry { code, value };
    let mut spec = record("R");
    spec.entries = vec![
        entry(330, RecordValue::Handle(11)),
        entry(1, RecordValue::Handle(12)),
        entry(345, RecordValue::Handle(13)),
        entry(350, RecordValue::Int32(5)),
        entry(355, RecordValue::Handle(14)),
        entry(369, RecordValue::Handle(15)),
        entry(370, RecordValue::Handle(16)),
    ];
    let id = host.add_xrecord(&spec).unwrap();
    let of = |host: &Session| {
        let i = host.document.find_object(id).unwrap();
        let Object::XRecord(x) = &host.document.objects[i].object else { panic!("record") };
        x.references.iter().map(|r| (r.handle, r.kind)).collect::<Vec<_>>()
    };
    assert_eq!(
        of(&host),
        vec![
            (11, ReferenceKind::SoftPointer),
            (13, ReferenceKind::HardPointer),
            (14, ReferenceKind::SoftOwnership),
            (15, ReferenceKind::HardOwnership),
        ]
    );
    // Kinds that were known stay, in order.
    spec.entries = vec![
        entry(360, RecordValue::Handle(21)),
        entry(360, RecordValue::Handle(22)),
    ];
    host.set_xrecord(id, &spec).unwrap();
    assert_eq!(
        of(&host),
        vec![(21, ReferenceKind::SoftPointer), (22, ReferenceKind::HardPointer)]
    );
}

// ── Queries ────────────────────────────────────────────────────────────────

#[test]
fn doc_api_enumerate_entities_and_geometry_queries() {
    let mut host = session();
    let line_id =
        host.add_curve(&None, Ok(line(p3(1.0, 2.0, 3.0), p3(4.0, 5.0, 6.0)))).unwrap();
    let point_id = host.add_curve(&None, Ok(Shape::Point(p3(7.0, 8.0, 9.0)))).unwrap();
    let mut markers = info("Markers");
    markers.color = Color::Index(3);
    host.create_layer(&markers).unwrap();
    host.set_entity_layer(point_id, "Markers").unwrap();
    let facts = kinds(&["Line", "Point"]);

    let all = host.enumerate_entities(None, None, true, &facts).unwrap();
    assert!(all.iter().any(|e| e.id == line_id && e.kind == "Line" && e.layer == "0"));
    assert!(all.iter().any(|e| e.id == point_id && e.kind == "Point" && e.layer == "Markers"));

    let lines = host.enumerate_entities(Some("Line"), None, true, &facts).unwrap();
    assert_eq!(lines.len(), 1);
    assert_eq!(lines[0].id, line_id);

    let marked = host.enumerate_entities(None, Some(" Markers "), true, &facts).unwrap();
    assert_eq!(marked.len(), 1);
    assert_eq!(marked[0].id, point_id);

    let pos = host.point_position(point_id).unwrap();
    assert!((f(pos.x) - 7.0).abs() < 1e-9);
    assert!((f(pos.y) - 8.0).abs() < 1e-9);
    assert!((f(pos.z) - 9.0).abs() < 1e-9);
    let (start, end) = host.line_geometry(line_id).unwrap();
    assert!((f(start.x) - 1.0).abs() < 1e-9);
    assert!((f(end.x) - 4.0).abs() < 1e-9);

    let err = host.point_position(line_id).unwrap_err();
    assert!(matches!(err, ApiError::Unsupported { .. }));
    assert!(host.line_geometry(point_id).is_err());
}

#[test]
fn enumeration_ignores_case_and_can_leave_out_boxes() {
    let mut host = session();
    host.add_curve(&None, Ok(Shape::Point(p3(0.0, 0.0, 0.0)))).unwrap();
    let b = Aabb { min: p3(0.0, 0.0, 0.0), max: p3(0.0, 0.0, 0.0) };
    let facts = vec![EntityFacts { kind: "Point".to_string(), bounds: Some(b) }];
    let with = host.enumerate_entities(Some("pOINT"), None, true, &facts).unwrap();
    assert_eq!(with[0].bounds, Some(b));
    let without = host.enumerate_entities(Some("POINT"), Some("0"), false, &facts).unwrap();
    assert_eq!(without[0].bounds, None);
    assert!(host.enumerate_entities(Some("Poin"), None, true, &facts).unwrap().is_empty());
    assert!(host.enumerate_entities(None, Some("1"), true, &facts).unwrap().is_empty());
}
