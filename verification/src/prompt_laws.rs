//! What the commands offer and show while they ask.
use crate::command::{CmdOption, PhraseModel};
use crate::entity::{HatchStyle, Transparency};
use crate::hatchedit::{HatchState, Input, ShownModel};
use crate::lengthen::{LenState, LengthenState, ValueMode};
use crate::pedit::{Mode, PeditState};
use crate::spline::SplineState;
use crate::splinedit::SplineditState;
use crate::text::{decimal, signed_decimal};
use vstd::prelude::*;

verus! {

/// Whether an option is offered: its label, the keyword that picks it, and whether
/// the label is shown in the language of the user.
pub open spec fn offers(
    list: Seq<CmdOption>,
    label: Seq<char>,
    keyword: Seq<char>,
    translated: bool,
) -> bool {
    exists|k: int|
        0 <= k < list.len() && (#[trigger] list[k]).label@ == label && list[k].keyword@ == keyword
            && list[k].translated == translated
}

/// Whether a text holds a piece.
pub open spec fn shows(text: Seq<char>, piece: Seq<char>) -> bool {
    exists|i: int|
        0 <= i && i + piece.len() <= text.len() && #[trigger] text.subrange(i, i + piece.len())
            == piece
}

pub proof fn lemma_shows(a: Seq<char>, piece: Seq<char>, b: Seq<char>)
    ensures
        shows(a + piece + b, piece),
{
    let text = a + piece + b;
    let i = a.len() as int;
    assert(text.subrange(i, i + piece.len()) =~= piece);
}

/// On one polyline, all edits are offered, with that of its vertices.
pub proof fn polyline_options_are_offered(s: PeditState)
    requires
        s.mode == Mode::Options,
        s.mesh_size() is None,
        s.multiple.len() == 0,
    ensures
        ({
            let list = crate::pedit::offered(s);
            &&& list.len() == 12
            &&& offers(list, "Close"@, "C"@, true)
            &&& offers(list, "Open"@, "O"@, true)
            &&& offers(list, "Join"@, "J"@, true)
            &&& offers(list, "Width"@, "W"@, true)
            &&& offers(list, "Fit"@, "F"@, true)
            &&& offers(list, "Spline"@, "S"@, true)
            &&& offers(list, "Decurve"@, "D"@, true)
            &&& offers(list, "Edit vertex"@, "E"@, true)
            &&& offers(list, "Ltype gen"@, "L"@, true)
            &&& offers(list, "Reverse"@, "R"@, true)
            &&& offers(list, "Undo"@, "U"@, true)
            &&& offers(list, "eXit"@, "X"@, true)
        }),
{
    let list = crate::pedit::offered(s);
    assert(list[0].label@ == "Close"@);
    assert(list[1].label@ == "Open"@);
    assert(list[2].label@ == "Join"@);
    assert(list[3].label@ == "Width"@);
    assert(list[4].label@ == "Fit"@);
    assert(list[5].label@ == "Spline"@);
    assert(list[6].label@ == "Decurve"@);
    assert(list[7].label@ == "Edit vertex"@);
    assert(list[8].label@ == "Ltype gen"@);
    assert(list[9].label@ == "Reverse"@);
    assert(list[10].label@ == "Undo"@);
    assert(list[11].label@ == "eXit"@);
}

/// On many polylines, all edits but that of the vertices are offered.
pub proof fn polylines_options_are_offered(s: PeditState)
    requires
        s.mode == Mode::Options,
        s.mesh_size() is None,
        s.multiple.len() > 0,
    ensures
        ({
            let list = crate::pedit::offered(s);
            &&& list.len() == 11
            &&& offers(list, "Close"@, "C"@, true)
            &&& offers(list, "Open"@, "O"@, true)
            &&& offers(list, "Join"@, "J"@, true)
            &&& offers(list, "Width"@, "W"@, true)
            &&& offers(list, "Fit"@, "F"@, true)
            &&& offers(list, "Spline"@, "S"@, true)
            &&& offers(list, "Decurve"@, "D"@, true)
            &&& offers(list, "Ltype gen"@, "L"@, true)
            &&& offers(list, "Reverse"@, "R"@, true)
            &&& offers(list, "Undo"@, "U"@, true)
            &&& offers(list, "eXit"@, "X"@, true)
        }),
{
    let list = crate::pedit::offered(s);
    assert(list[0].label@ == "Close"@);
    assert(list[1].label@ == "Open"@);
    assert(list[2].label@ == "Join"@);
    assert(list[3].label@ == "Width"@);
    assert(list[4].label@ == "Fit"@);
    assert(list[5].label@ == "Spline"@);
    assert(list[6].label@ == "Decurve"@);
    assert(list[7].label@ == "Ltype gen"@);
    assert(list[8].label@ == "Reverse"@);
    assert(list[9].label@ == "Undo"@);
    assert(list[10].label@ == "eXit"@);
}

/// A mesh that is open in the M direction and open in the N direction can be
/// closed in the one and closed in the other.
pub proof fn mesh_open_open_options_are_offered(s: PeditState)
    requires
        s.mode == Mode::Options,
        s.mesh_size() is Some,
        s.mesh_closed() == Some((false, false)),
    ensures
        ({
            let list = crate::pedit::offered(s);
            &&& list.len() == 7
            &&& offers(list, "Edit vertex"@, "E"@, true)
            &&& offers(list, "Smooth surface"@, "S"@, true)
            &&& offers(list, "Desmooth"@, "D"@, true)
            &&& offers(list, "M close"@, "MC"@, true)
            &&& offers(list, "N close"@, "NC"@, true)
            &&& offers(list, "Undo"@, "U"@, true)
            &&& offers(list, "eXit"@, "X"@, true)
        }),
{
    let list = crate::pedit::offered(s);
    assert(list[0].label@ == "Edit vertex"@);
    assert(list[1].label@ == "Smooth surface"@);
    assert(list[2].label@ == "Desmooth"@);
    assert(list[3].label@ == "M close"@);
    assert(list[4].label@ == "N close"@);
    assert(list[5].label@ == "Undo"@);
    assert(list[6].label@ == "eXit"@);
}

/// A mesh that is open in the M direction and closed in the N direction can be
/// closed in the one and opened in the other.
pub proof fn mesh_open_closed_options_are_offered(s: PeditState)
    requires
        s.mode == Mode::Options,
        s.mesh_size() is Some,
        s.mesh_closed() == Some((false, true)),
    ensures
        ({
            let list = crate::pedit::offered(s);
            &&& list.len() == 7
            &&& offers(list, "Edit vertex"@, "E"@, true)
            &&& offers(list, "Smooth surface"@, "S"@, true)
            &&& offers(list, "Desmooth"@, "D"@, true)
            &&& offers(list, "M close"@, "MC"@, true)
            &&& offers(list, "N open"@, "NO"@, true)
            &&& offers(list, "Undo"@, "U"@, true)
            &&& offers(list, "eXit"@, "X"@, true)
        }),
{
    let list = crate::pedit::offered(s);
    assert(list[0].label@ == "Edit vertex"@);
    assert(list[1].label@ == "Smooth surface"@);
    assert(list[2].label@ == "Desmooth"@);
    assert(list[3].label@ == "M close"@);
    assert(list[4].label@ == "N open"@);
    assert(list[5].label@ == "Undo"@);
    assert(list[6].label@ == "eXit"@);
}

/// A mesh that is closed in the M direction and open in the N direction can be
/// opened in the one and closed in the other.
pub proof fn mesh_closed_open_options_are_offered(s: PeditState)
    requires
        s.mode == Mode::Options,
        s.mesh_size() is Some,
        s.mesh_closed() == Some((true, false)),
    ensures
        ({
            let list = crate::pedit::offered(s);
            &&& list.len() == 7
            &&& offers(list, "Edit vertex"@, "E"@, true)
            &&& offers(list, "Smooth surface"@, "S"@, true)
            &&& offers(list, "Desmooth"@, "D"@, true)
            &&& offers(list, "M open"@, "MO"@, true)
            &&& offers(list, "N close"@, "NC"@, true)
            &&& offers(list, "Undo"@, "U"@, true)
            &&& offers(list, "eXit"@, "X"@, true)
        }),
{
    let list = crate::pedit::offered(s);
    assert(list[0].label@ == "Edit vertex"@);
    assert(list[1].label@ == "Smooth surface"@);
    assert(list[2].label@ == "Desmooth"@);
    assert(list[3].label@ == "M open"@);
    assert(list[4].label@ == "N close"@);
    assert(list[5].label@ == "Undo"@);
    assert(list[6].label@ == "eXit"@);
}

/// A mesh that is closed in the M direction and closed in the N direction can be
/// opened in the one and opened in the other.
pub proof fn mesh_closed_closed_options_are_offered(s: PeditState)
    requires
        s.mode == Mode::Options,
        s.mesh_size() is Some,
        s.mesh_closed() == Some((true, true)),
    ensures
        ({
            let list = crate::pedit::offered(s);
            &&& list.len() == 7
            &&& offers(list, "Edit vertex"@, "E"@, true)
            &&& offers(list, "Smooth surface"@, "S"@, true)
            &&& offers(list, "Desmooth"@, "D"@, true)
            &&& offers(list, "M open"@, "MO"@, true)
            &&& offers(list, "N open"@, "NO"@, true)
            &&& offers(list, "Undo"@, "U"@, true)
            &&& offers(list, "eXit"@, "X"@, true)
        }),
{
    let list = crate::pedit::offered(s);
    assert(list[0].label@ == "Edit vertex"@);
    assert(list[1].label@ == "Smooth surface"@);
    assert(list[2].label@ == "Desmooth"@);
    assert(list[3].label@ == "M open"@);
    assert(list[4].label@ == "N open"@);
    assert(list[5].label@ == "Undo"@);
    assert(list[6].label@ == "eXit"@);
}

/// At a vertex of a mesh, all ways to go on are offered.
pub proof fn mesh_vertex_options_are_offered(s: PeditState)
    requires
        s.mode is MeshVertex,
    ensures
        ({
            let list = crate::pedit::offered(s);
            &&& list.len() == 9
            &&& offers(list, "Next"@, "N"@, true)
            &&& offers(list, "Previous"@, "P"@, true)
            &&& offers(list, "Left"@, "L"@, true)
            &&& offers(list, "Right"@, "R"@, true)
            &&& offers(list, "Up"@, "U"@, true)
            &&& offers(list, "Down"@, "D"@, true)
            &&& offers(list, "Move"@, "M"@, true)
            &&& offers(list, "Regen"@, "G"@, true)
            &&& offers(list, "eXit"@, "X"@, true)
        }),
{
    let list = crate::pedit::offered(s);
    assert(list[0].label@ == "Next"@);
    assert(list[1].label@ == "Previous"@);
    assert(list[2].label@ == "Left"@);
    assert(list[3].label@ == "Right"@);
    assert(list[4].label@ == "Up"@);
    assert(list[5].label@ == "Down"@);
    assert(list[6].label@ == "Move"@);
    assert(list[7].label@ == "Regen"@);
    assert(list[8].label@ == "eXit"@);
}

/// At a vertex of a polyline, all edits of it are offered.
pub proof fn vertex_options_are_offered(s: PeditState)
    requires
        s.mode is PolyVertex,
    ensures
        ({
            let list = crate::pedit::offered(s);
            &&& list.len() == 8
            &&& offers(list, "Next"@, "N"@, false)
            &&& offers(list, "Previous"@, "P"@, false)
            &&& offers(list, "Break"@, "B"@, false)
            &&& offers(list, "Straighten"@, "S"@, false)
            &&& offers(list, "Insert"@, "I"@, false)
            &&& offers(list, "Move"@, "M"@, false)
            &&& offers(list, "Width"@, "W"@, false)
            &&& offers(list, "Exit"@, "X"@, false)
        }),
{
    let list = crate::pedit::offered(s);
    assert(list[0].label@ == "Next"@);
    assert(list[1].label@ == "Previous"@);
    assert(list[2].label@ == "Break"@);
    assert(list[3].label@ == "Straighten"@);
    assert(list[4].label@ == "Insert"@);
    assert(list[5].label@ == "Move"@);
    assert(list[6].label@ == "Width"@);
    assert(list[7].label@ == "Exit"@);
}

/// In a range, the walk and its ends are offered.
pub proof fn range_options_are_offered(s: PeditState)
    requires
        s.mode is PolyRange,
    ensures
        ({
            let list = crate::pedit::offered(s);
            &&& list.len() == 4
            &&& offers(list, "Next"@, "N"@, false)
            &&& offers(list, "Previous"@, "P"@, false)
            &&& offers(list, "Go"@, "G"@, false)
            &&& offers(list, "Exit"@, "X"@, false)
        }),
{
    let list = crate::pedit::offered(s);
    assert(list[0].label@ == "Next"@);
    assert(list[1].label@ == "Previous"@);
    assert(list[2].label@ == "Go"@);
    assert(list[3].label@ == "Exit"@);
}

/// The line type generation is offered on and off.
pub proof fn line_type_options_are_offered(s: PeditState)
    requires
        s.mode == Mode::AwaitLinetype,
    ensures
        ({
            let list = crate::pedit::offered(s);
            &&& list.len() == 2
            &&& offers(list, "On"@, "ON"@, false)
            &&& offers(list, "Off"@, "OFF"@, false)
        }),
{
    let list = crate::pedit::offered(s);
    assert(list[0].label@ == "On"@);
    assert(list[1].label@ == "Off"@);
}

/// While one entity is picked, many are offered.
pub proof fn many_can_be_picked(s: PeditState)
    requires
        s.mode == Mode::PickTarget,
    ensures
        ({
            let list = crate::pedit::offered(s);
            &&& list.len() == 1
            &&& offers(list, "Multiple"@, "M"@, false)
        }),
{
    let list = crate::pedit::offered(s);
    assert(list[0].label@ == "Multiple"@);
}

/// All lines and arcs can be converted or not.
pub proof fn conversions_are_offered(s: PeditState)
    requires
        s.mode == Mode::MultipleConvert,
    ensures
        ({
            let list = crate::pedit::offered(s);
            &&& list.len() == 2
            &&& offers(list, "Yes"@, "Y"@, false)
            &&& offers(list, "No"@, "N"@, false)
        }),
{
    let list = crate::pedit::offered(s);
    assert(list[0].label@ == "Yes"@);
    assert(list[1].label@ == "No"@);
}

/// A line or an arc can be converted or not.
pub proof fn conversion_is_offered(s: PeditState)
    requires
        s.mode is ConvertPrompt,
    ensures
        ({
            let list = crate::pedit::offered(s);
            &&& list.len() == 2
            &&& offers(list, "Yes"@, "Y"@, true)
            &&& offers(list, "No"@, "N"@, true)
        }),
{
    let list = crate::pedit::offered(s);
    assert(list[0].label@ == "Yes"@);
    assert(list[1].label@ == "No"@);
}

/// The Enter key joins.
pub proof fn joining_is_offered(s: PeditState)
    requires
        s.mode == Mode::JoinGather,
    ensures
        ({
            let list = crate::pedit::offered(s);
            &&& list.len() == 1
            &&& offers(list, "Join"@, ""@, true)
        }),
{
    let list = crate::pedit::offered(s);
    assert(list[0].label@ == "Join"@);
}

/// Before the first fit point, the knots can be chosen.
pub proof fn fit_options_are_offered(s: SplineState)
    requires
        !s.choosing_objects && !s.choosing_method && !s.choosing_degree && !s.choosing_knots && !s.choosing_tangent,
        s.pts.len() == 0,
        !s.control_vertices,
    ensures
        ({
            let list = crate::spline::offered(s);
            &&& list.len() == 3
            &&& offers(list, "Method"@, "M"@, true)
            &&& offers(list, "Object"@, "O"@, false)
            &&& offers(list, "Knots"@, "K"@, false)
        }),
{
    let list = crate::spline::offered(s);
    assert(list[0].label@ == "Method"@);
    assert(list[1].label@ == "Object"@);
    assert(list[2].label@ == "Knots"@);
}

/// Before the first control vertex, the degree can be chosen.
pub proof fn control_options_are_offered(s: SplineState)
    requires
        !s.choosing_objects && !s.choosing_method && !s.choosing_degree && !s.choosing_knots && !s.choosing_tangent,
        s.pts.len() == 0,
        s.control_vertices,
    ensures
        ({
            let list = crate::spline::offered(s);
            &&& list.len() == 3
            &&& offers(list, "Method"@, "M"@, true)
            &&& offers(list, "Object"@, "O"@, false)
            &&& offers(list, "Degree"@, "D"@, false)
        }),
{
    let list = crate::spline::offered(s);
    assert(list[0].label@ == "Method"@);
    assert(list[1].label@ == "Object"@);
    assert(list[2].label@ == "Degree"@);
}

/// With one or two fit points, a tangent can be given.
pub proof fn fit_point_options_are_offered(s: SplineState)
    requires
        !s.choosing_objects && !s.choosing_method && !s.choosing_degree && !s.choosing_knots && !s.choosing_tangent,
        0 < s.pts.len() < 3,
        !s.control_vertices,
    ensures
        ({
            let list = crate::spline::offered(s);
            &&& list.len() == 3
            &&& offers(list, "Tangency"@, "T"@, false)
            &&& offers(list, "Undo"@, "U"@, true)
            &&& offers(list, "Done"@, ""@, true)
        }),
{
    let list = crate::spline::offered(s);
    assert(list[0].label@ == "Tangency"@);
    assert(list[1].label@ == "Undo"@);
    assert(list[2].label@ == "Done"@);
}

/// From three fit points on, the spline can be closed.
pub proof fn closing_fit_options_are_offered(s: SplineState)
    requires
        !s.choosing_objects && !s.choosing_method && !s.choosing_degree && !s.choosing_knots && !s.choosing_tangent,
        s.pts.len() >= 3,
        !s.control_vertices,
    ensures
        ({
            let list = crate::spline::offered(s);
            &&& list.len() == 4
            &&& offers(list, "Close"@, "C"@, true)
            &&& offers(list, "Tangency"@, "T"@, false)
            &&& offers(list, "Undo"@, "U"@, true)
            &&& offers(list, "Done"@, ""@, true)
        }),
{
    let list = crate::spline::offered(s);
    assert(list[0].label@ == "Close"@);
    assert(list[1].label@ == "Tangency"@);
    assert(list[2].label@ == "Undo"@);
    assert(list[3].label@ == "Done"@);
}

/// With one or two control vertices, there is no tangent.
pub proof fn control_point_options_are_offered(s: SplineState)
    requires
        !s.choosing_objects && !s.choosing_method && !s.choosing_degree && !s.choosing_knots && !s.choosing_tangent,
        0 < s.pts.len() < 3,
        s.control_vertices,
    ensures
        ({
            let list = crate::spline::offered(s);
            &&& list.len() == 2
            &&& offers(list, "Undo"@, "U"@, true)
            &&& offers(list, "Done"@, ""@, true)
        }),
{
    let list = crate::spline::offered(s);
    assert(list[0].label@ == "Undo"@);
    assert(list[1].label@ == "Done"@);
}

/// From three control vertices on, the spline can be closed.
pub proof fn closing_control_options_are_offered(s: SplineState)
    requires
        !s.choosing_objects && !s.choosing_method && !s.choosing_degree && !s.choosing_knots && !s.choosing_tangent,
        s.pts.len() >= 3,
        s.control_vertices,
    ensures
        ({
            let list = crate::spline::offered(s);
            &&& list.len() == 3
            &&& offers(list, "Close"@, "C"@, true)
            &&& offers(list, "Undo"@, "U"@, true)
            &&& offers(list, "Done"@, ""@, true)
        }),
{
    let list = crate::spline::offered(s);
    assert(list[0].label@ == "Close"@);
    assert(list[1].label@ == "Undo"@);
    assert(list[2].label@ == "Done"@);
}

/// The two methods are offered.
pub proof fn methods_are_offered(s: SplineState)
    requires
        s.choosing_method,
        !s.choosing_objects,
    ensures
        ({
            let list = crate::spline::offered(s);
            &&& list.len() == 2
            &&& offers(list, "Fit"@, "FIT"@, false)
            &&& offers(list, "Control vertices"@, "CV"@, false)
        }),
{
    let list = crate::spline::offered(s);
    assert(list[0].label@ == "Fit"@);
    assert(list[1].label@ == "Control vertices"@);
}

/// The three spacings of knots are offered.
pub proof fn knots_are_offered(s: SplineState)
    requires
        s.choosing_knots,
        !s.choosing_objects && !s.choosing_method && !s.choosing_degree && !s.choosing_tangent,
    ensures
        ({
            let list = crate::spline::offered(s);
            &&& list.len() == 3
            &&& offers(list, "Chord"@, "CH"@, false)
            &&& offers(list, "Square root"@, "S"@, false)
            &&& offers(list, "Uniform"@, "U"@, false)
        }),
{
    let list = crate::spline::offered(s);
    assert(list[0].label@ == "Chord"@);
    assert(list[1].label@ == "Square root"@);
    assert(list[2].label@ == "Uniform"@);
}

/// All edits of a spline are offered.
pub proof fn spline_edits_are_offered(s: SplineditState)
    requires
        s.step == crate::splinedit::Step::Options,
    ensures
        ({
            let list = crate::splinedit::offered(s);
            &&& list.len() == 7
            &&& offers(list, "Close"@, "C"@, false)
            &&& offers(list, "Open"@, "O"@, false)
            &&& offers(list, "Move vertex"@, "M"@, false)
            &&& offers(list, "Refine"@, "R"@, false)
            &&& offers(list, "Reverse"@, "E"@, false)
            &&& offers(list, "Undo"@, "U"@, false)
            &&& offers(list, "Exit"@, "X"@, false)
        }),
{
    let list = crate::splinedit::offered(s);
    assert(list[0].label@ == "Close"@);
    assert(list[1].label@ == "Open"@);
    assert(list[2].label@ == "Move vertex"@);
    assert(list[3].label@ == "Refine"@);
    assert(list[4].label@ == "Reverse"@);
    assert(list[5].label@ == "Undo"@);
    assert(list[6].label@ == "Exit"@);
}

/// All refinements of a spline are offered.
pub proof fn refinements_are_offered(s: SplineditState)
    requires
        s.step == crate::splinedit::Step::Refine,
    ensures
        ({
            let list = crate::splinedit::offered(s);
            &&& list.len() == 6
            &&& offers(list, "Add"@, "A"@, false)
            &&& offers(list, "Delete"@, "D"@, false)
            &&& offers(list, "Elevate order"@, "E"@, false)
            &&& offers(list, "Move"@, "M"@, false)
            &&& offers(list, "Weight"@, "W"@, false)
            &&& offers(list, "Exit"@, "X"@, false)
        }),
{
    let list = crate::splinedit::offered(s);
    assert(list[0].label@ == "Add"@);
    assert(list[1].label@ == "Delete"@);
    assert(list[2].label@ == "Elevate order"@);
    assert(list[3].label@ == "Move"@);
    assert(list[4].label@ == "Weight"@);
    assert(list[5].label@ == "Exit"@);
}

/// At a vertex of a spline, the walk over the vertices is offered.
pub proof fn vertex_walk_is_offered(s: SplineditState)
    requires
        s.step is Move || s.step is Weight,
    ensures
        ({
            let list = crate::splinedit::offered(s);
            &&& list.len() == 4
            &&& offers(list, "Next"@, "N"@, false)
            &&& offers(list, "Previous"@, "P"@, false)
            &&& offers(list, "Select point"@, "S"@, false)
            &&& offers(list, "Exit"@, "X"@, false)
        }),
{
    let list = crate::splinedit::offered(s);
    assert(list[0].label@ == "Next"@);
    assert(list[1].label@ == "Previous"@);
    assert(list[2].label@ == "Select point"@);
    assert(list[3].label@ == "Exit"@);
}

/// All edits of a hatch are offered, and the Enter key applies.
pub proof fn hatch_edits_are_offered(s: HatchState)
    requires
        s.input is None,
        s.editing is Some,
    ensures
        ({
            let list = crate::hatchedit::offered(s);
            &&& list.len() == 12
            &&& offers(list, "Style"@, "S"@, false)
            &&& offers(list, "Properties"@, "P"@, false)
            &&& offers(list, "Color"@, "CO"@, false)
            &&& offers(list, "Layer"@, "LA"@, false)
            &&& offers(list, "Transparency"@, "T"@, false)
            &&& offers(list, "Draw order"@, "DR"@, false)
            &&& offers(list, "Associate"@, "AS"@, false)
            &&& offers(list, "Disassociate"@, "DI"@, false)
            &&& offers(list, "Annotative"@, "AN"@, false)
            &&& offers(list, "Recreate boundary"@, "B"@, false)
            &&& offers(list, "Separate hatches"@, "H"@, false)
            &&& offers(list, "Apply"@, ""@, false)
        }),
{
    let list = crate::hatchedit::offered(s);
    assert(list[0].label@ == "Style"@);
    assert(list[1].label@ == "Properties"@);
    assert(list[2].label@ == "Color"@);
    assert(list[3].label@ == "Layer"@);
    assert(list[4].label@ == "Transparency"@);
    assert(list[5].label@ == "Draw order"@);
    assert(list[6].label@ == "Associate"@);
    assert(list[7].label@ == "Disassociate"@);
    assert(list[8].label@ == "Annotative"@);
    assert(list[9].label@ == "Recreate boundary"@);
    assert(list[10].label@ == "Separate hatches"@);
    assert(list[11].label@ == "Apply"@);
}

/// The three styles are offered.
pub proof fn styles_are_offered(s: HatchState)
    requires
        s.input == Some(Input::Style),
    ensures
        ({
            let list = crate::hatchedit::offered(s);
            &&& list.len() == 3
            &&& offers(list, "Ignore"@, "I"@, false)
            &&& offers(list, "Outer"@, "O"@, false)
            &&& offers(list, "Normal"@, "N"@, false)
        }),
{
    let list = crate::hatchedit::offered(s);
    assert(list[0].label@ == "Ignore"@);
    assert(list[1].label@ == "Outer"@);
    assert(list[2].label@ == "Normal"@);
}

/// The orders of drawing are offered.
pub proof fn orders_are_offered(s: HatchState)
    requires
        s.input == Some(Input::DrawOrder),
    ensures
        ({
            let list = crate::hatchedit::offered(s);
            &&& list.len() == 5
            &&& offers(list, "Do not change"@, "N"@, false)
            &&& offers(list, "Send to back"@, "B"@, false)
            &&& offers(list, "Bring to front"@, "F"@, false)
            &&& offers(list, "Behind boundary"@, "H"@, false)
            &&& offers(list, "In front of boundary"@, "D"@, false)
        }),
{
    let list = crate::hatchedit::offered(s);
    assert(list[0].label@ == "Do not change"@);
    assert(list[1].label@ == "Send to back"@);
    assert(list[2].label@ == "Bring to front"@);
    assert(list[3].label@ == "Behind boundary"@);
    assert(list[4].label@ == "In front of boundary"@);
}

/// Yes and no are offered.
pub proof fn yes_and_no_are_offered(s: HatchState)
    requires
        s.input == Some(Input::Annotative) || s.input == Some(Input::BoundaryAssociate),
    ensures
        ({
            let list = crate::hatchedit::offered(s);
            &&& list.len() == 2
            &&& offers(list, "Yes"@, "Y"@, false)
            &&& offers(list, "No"@, "N"@, false)
        }),
{
    let list = crate::hatchedit::offered(s);
    assert(list[0].label@ == "Yes"@);
    assert(list[1].label@ == "No"@);
}

/// Regions and polylines are offered.
pub proof fn boundary_kinds_are_offered(s: HatchState)
    requires
        s.input == Some(Input::BoundaryType),
    ensures
        ({
            let list = crate::hatchedit::offered(s);
            &&& list.len() == 2
            &&& offers(list, "Region"@, "R"@, false)
            &&& offers(list, "Polyline"@, "P"@, false)
        }),
{
    let list = crate::hatchedit::offered(s);
    assert(list[0].label@ == "Region"@);
    assert(list[1].label@ == "Polyline"@);
}

/// A colour can be mixed.
pub proof fn true_colors_are_offered(s: HatchState)
    requires
        s.input == Some(Input::Color),
    ensures
        ({
            let list = crate::hatchedit::offered(s);
            &&& list.len() == 1
            &&& offers(list, "Truecolor"@, "T"@, false)
        }),
{
    let list = crate::hatchedit::offered(s);
    assert(list[0].label@ == "Truecolor"@);
}

/// The solid pattern is offered.
pub proof fn solid_pattern_is_offered(s: HatchState)
    requires
        s.input == Some(Input::Pattern),
    ensures
        ({
            let list = crate::hatchedit::offered(s);
            &&& list.len() == 1
            &&& offers(list, "Solid"@, "SOLID"@, false)
        }),
{
    let list = crate::hatchedit::offered(s);
    assert(list[0].label@ == "Solid"@);
}

/// A boundary can be selected.
pub proof fn selection_is_offered(s: HatchState)
    requires
        s.input == Some(Input::AssociatePoint),
    ensures
        ({
            let list = crate::hatchedit::offered(s);
            &&& list.len() == 1
            &&& offers(list, "Select objects"@, "S"@, false)
        }),
{
    let list = crate::hatchedit::offered(s);
    assert(list[0].label@ == "Select objects"@);
}

/// The four kinds of change are offered.
pub proof fn kinds_of_length_are_offered(state: LenState)
    requires
        state == LenState::ChooseMode,
    ensures
        ({
            let list = crate::lengthen::offered_options(state);
            &&& list.len() == 4
            &&& offers(list, "Delta"@, "DE"@, false)
            &&& offers(list, "Percent"@, "P"@, false)
            &&& offers(list, "Total"@, "TO"@, false)
            &&& offers(list, "Dynamic"@, "DY"@, false)
        }),
{
    let list = crate::lengthen::offered_options(state);
    assert(list[0].label@ == "Delta"@);
    assert(list[1].label@ == "Percent"@);
    assert(list[2].label@ == "Total"@);
    assert(list[3].label@ == "Dynamic"@);
}

/// Differences and whole lengths can be angles.
pub proof fn angles_are_offered(state: LenState)
    requires
        state == LenState::Value(ValueMode::Delta) || state == LenState::Value(ValueMode::Total),
    ensures
        ({
            let list = crate::lengthen::offered_options(state);
            &&& list.len() == 1
            &&& offers(list, "Angle"@, "A"@, false)
        }),
{
    let list = crate::lengthen::offered_options(state);
    assert(list[0].label@ == "Angle"@);
}

/// Changes can be taken back.
pub proof fn taking_back_is_offered(state: LenState)
    requires
        state is Apply || state is DynamicPick,
    ensures
        ({
            let list = crate::lengthen::offered_options(state);
            &&& list.len() == 1
            &&& offers(list, "Undo"@, "U"@, false)
        }),
{
    let list = crate::lengthen::offered_options(state);
    assert(list[0].label@ == "Undo"@);
}

/// A block can be chosen while there is none.
pub proof fn blocks_are_offered(s: crate::divide::MarkerState)
    requires
        s.value_origin is None,
        s.step == crate::divide::Step::Amount,
        s.block is None,
    ensures
        ({
            let list = crate::divide::offered(s);
            &&& list.len() == 1
            &&& offers(list, "Block"@, "B"@, false)
        }),
{
    let list = crate::divide::offered(s);
    assert(list[0].label@ == "Block"@);
}

/// The alignment is offered.
pub proof fn alignment_is_offered(s: crate::divide::MarkerState)
    requires
        s.value_origin is None,
        s.step == crate::divide::Step::Align,
    ensures
        ({
            let list = crate::divide::offered(s);
            &&& list.len() == 2
            &&& offers(list, "Yes"@, "Y"@, false)
            &&& offers(list, "No"@, "N"@, false)
        }),
{
    let list = crate::divide::offered(s);
    assert(list[0].label@ == "Yes"@);
    assert(list[1].label@ == "No"@);
}

/// At the base point, a displacement and more copies are offered.
pub proof fn base_options_are_offered(s: crate::ncopy::NcopyState)
    requires
        s.step == crate::ncopy::Step::Base,
    ensures
        ({
            let list = crate::ncopy::offered(s);
            &&& list.len() == 2
            &&& offers(list, "Displacement"@, "D"@, false)
            &&& offers(list, "Multiple"@, "M"@, false)
        }),
{
    let list = crate::ncopy::offered(s);
    assert(list[0].label@ == "Displacement"@);
    assert(list[1].label@ == "Multiple"@);
}

/// At the second point, an array is offered.
pub proof fn array_is_offered(s: crate::ncopy::NcopyState)
    requires
        s.step is Target,
        !s.multiple || s.placements == 0,
    ensures
        ({
            let list = crate::ncopy::offered(s);
            &&& list.len() == 1
            &&& offers(list, "Array"@, "A"@, false)
        }),
{
    let list = crate::ncopy::offered(s);
    assert(list[0].label@ == "Array"@);
}

/// While more copies are made, the last can be taken back.
pub proof fn more_copies_are_offered(s: crate::ncopy::NcopyState)
    requires
        s.step is Target,
        s.multiple,
        s.placements > 0,
    ensures
        ({
            let list = crate::ncopy::offered(s);
            &&& list.len() == 3
            &&& offers(list, "Array"@, "A"@, false)
            &&& offers(list, "Exit"@, "E"@, false)
            &&& offers(list, "Undo"@, "U"@, false)
        }),
{
    let list = crate::ncopy::offered(s);
    assert(list[0].label@ == "Array"@);
    assert(list[1].label@ == "Exit"@);
    assert(list[2].label@ == "Undo"@);
}

/// The last item of an array can be given in place of the second.
pub proof fn fit_is_offered(s: crate::ncopy::NcopyState)
    requires
        s.step is ArrayTarget,
        !s.step->ArrayTarget_2,
    ensures
        ({
            let list = crate::ncopy::offered(s);
            &&& list.len() == 1
            &&& offers(list, "Fit"@, "F"@, false)
        }),
{
    let list = crate::ncopy::offered(s);
    assert(list[0].label@ == "Fit"@);
}

/// While entities are selected, the settings are offered.
pub proof fn settings_are_offered(s: crate::setbylayer::State)
    requires
        s.step == crate::setbylayer::Step::Selection,
    ensures
        ({
            let list = crate::setbylayer::offered(s);
            &&& list.len() == 1
            &&& offers(list, "Settings"@, "S"@, false)
        }),
{
    let list = crate::setbylayer::offered(s);
    assert(list[0].label@ == "Settings"@);
}

/// The five properties are offered.
pub proof fn properties_are_offered(s: crate::setbylayer::State)
    requires
        s.step == crate::setbylayer::Step::Settings,
    ensures
        ({
            let list = crate::setbylayer::offered(s);
            &&& list.len() == 5
            &&& offers(list, "Color"@, "C"@, false)
            &&& offers(list, "LType"@, "LT"@, false)
            &&& offers(list, "LWeight"@, "LW"@, false)
            &&& offers(list, "Transparency"@, "T"@, false)
            &&& offers(list, "Material"@, "M"@, false)
        }),
{
    let list = crate::setbylayer::offered(s);
    assert(list[0].label@ == "Color"@);
    assert(list[1].label@ == "LType"@);
    assert(list[2].label@ == "LWeight"@);
    assert(list[3].label@ == "Transparency"@);
    assert(list[4].label@ == "Material"@);
}

/// Yes and no are offered to either question.
pub proof fn answers_are_offered(s: crate::setbylayer::State)
    requires
        s.step == crate::setbylayer::Step::ByBlock || s.step == crate::setbylayer::Step::Blocks,
    ensures
        ({
            let list = crate::setbylayer::offered(s);
            &&& list.len() == 2
            &&& offers(list, "Yes"@, "Y"@, false)
            &&& offers(list, "No"@, "N"@, false)
        }),
{
    let list = crate::setbylayer::offered(s);
    assert(list[0].label@ == "Yes"@);
    assert(list[1].label@ == "No"@);
}

/// While polylines are edited, the prompt shows how many entities are selected,
/// the number of the vertex, counted from one, and the width that is offered; and
/// what is asked in the language of the user is asked as it is said there.
pub proof fn polyline_prompts_show_values(s: PeditState, width: Seq<char>, said: Seq<char>)
    ensures
        ({
            let text = crate::pedit::prompted(s, width, said);
            &&& s.mode == Mode::MultipleGather ==> shows(text, decimal(s.multiple.len()))
            &&& s.mode matches Mode::PolyVertex(i) ==> shows(text, decimal((i + 1) as nat))
            &&& s.mode matches Mode::PolyRange { start, end, split } ==> shows(
                text,
                decimal((end + 1) as nat),
            )
            &&& s.mode matches Mode::PolyMove(i) ==> shows(text, decimal((i + 1) as nat))
            &&& s.mode matches Mode::PolyInsert(i) ==> shows(text, decimal((i + 1) as nat))
            &&& s.mode is PolyWidthStart || s.mode is PolyWidthEnd ==> shows(text, width)
            &&& crate::pedit::phrased(s) is Some ==> text == said
        }),
        s.mode matches Mode::MeshVertex(i) ==> slot_holds(
            crate::pedit::phrased(s),
            "vertex"@,
            decimal((i + 1) as nat),
        ),
        s.mode matches Mode::MeshVertexMove(i) ==> slot_holds(
            crate::pedit::phrased(s),
            "vertex"@,
            decimal((i + 1) as nat),
        ),
        s.mode == Mode::JoinGather && s.joining.len() > 0 ==> slot_holds(
            crate::pedit::phrased(s),
            "count"@,
            decimal((s.joining.len() - 1) as nat),
        ),
{
    match s.mode {
        Mode::MultipleGather => lemma_shows(
            "PEDIT  Select objects ("@,
            decimal(s.multiple.len()),
            " selected, Enter when done):"@,
        ),
        Mode::PolyVertex(i) => lemma_shows(
            "PEDIT  Vertex "@,
            decimal((i + 1) as nat),
            " [Next/Previous/Break/Insert/Move/Straighten/Width/eXit] <Next>:"@,
        ),
        Mode::PolyRange { start, end, split } => lemma_shows(
            "PEDIT  Vertex "@,
            decimal((end + 1) as nat),
            " [Next/Previous/Go/eXit] <Next>:"@,
        ),
        Mode::PolyMove(i) => lemma_shows(
            "PEDIT  Specify new location for vertex "@,
            decimal((i + 1) as nat),
            ":"@,
        ),
        Mode::PolyInsert(i) => lemma_shows(
            "PEDIT  Specify location after vertex "@,
            decimal((i + 1) as nat),
            ":"@,
        ),
        Mode::PolyWidthStart(i, w) => lemma_shows(
            "PEDIT  Specify starting width for next segment <"@,
            width,
            ">:"@,
        ),
        Mode::PolyWidthEnd(i, w) => lemma_shows(
            "PEDIT  Specify ending width for next segment <"@,
            width,
            ">:"@,
        ),
        _ => {},
    }
}

/// Whether a phrase has one value, under a name.
pub open spec fn slot_holds(p: Option<PhraseModel>, name: Seq<char>, value: Seq<char>) -> bool {
    &&& p is Some
    &&& (p->0).values.len() == 1
    &&& (p->0).values[0].name == name
    &&& (p->0).values[0].value == value
}

/// While a spline is drawn, the prompt shows the degree that is offered, and the
/// phrase for the next point how many there are.
pub proof fn spline_prompts_show_values(s: SplineState, said: Seq<char>)
    ensures
        s.choosing_degree && !s.choosing_objects && !s.choosing_method ==> shows(
            crate::spline::prompted(s, said),
            decimal(s.degree as nat),
        ),
        crate::spline::phrased(s) is Some ==> crate::spline::prompted(s, said) == said,
        !s.choosing_objects && !s.choosing_method && !s.choosing_degree && !s.choosing_knots
            && !s.choosing_tangent && s.pts.len() > 0 ==> slot_holds(
            crate::spline::phrased(s),
            "n"@,
            decimal(s.pts.len()),
        ),
{
    lemma_shows("SPLINE  Enter degree of spline <"@, decimal(s.degree as nat), ">:"@);
}

/// While a spline is edited, the prompt shows the order that is offered, one above
/// the degree, and the number of the vertex, counted from one.
pub proof fn spline_edit_prompts_show_values(s: SplineditState, said: Seq<char>)
    ensures
        ({
            let text = crate::splinedit::prompted(s, said);
            &&& s.step == crate::splinedit::Step::Elevate && s.spline is Some ==> shows(
                text,
                signed_decimal((s.spline->0).spline.form.degree + 1),
            )
            &&& s.step matches crate::splinedit::Step::Move { index, refine } ==> shows(
                text,
                decimal((index + 1) as nat),
            )
            &&& s.step matches crate::splinedit::Step::Weight { index } ==> shows(
                text,
                decimal((index + 1) as nat),
            )
            &&& crate::splinedit::phrased(s) is Some ==> text == said
        }),
{
    match s.step {
        crate::splinedit::Step::Elevate => lemma_shows(
            "SPLINEDIT  Enter new order <"@,
            signed_decimal(crate::splinedit::order_offered(s)),
            ">:"@,
        ),
        crate::splinedit::Step::Move { index, refine } => lemma_shows(
            "SPLINEDIT  Vertex "@,
            decimal((index + 1) as nat),
            ": specify new location or [Next/Previous/Select point/eXit] <Next>:"@,
        ),
        crate::splinedit::Step::Weight { index } => lemma_shows(
            "SPLINEDIT  Vertex "@,
            decimal((index + 1) as nat),
            ": enter new weight or [Next/Previous/Select point/eXit] <Next>:"@,
        ),
        _ => {},
    }
}

/// While a hatch is edited, each question shows the value that the Enter key
/// takes: the style, the layer, the transparency, the pattern, its scale and its
/// angle.
pub proof fn hatch_prompts_show_values(s: HatchState, shown: ShownModel, said: Seq<char>)
    ensures
        ({
            let text = crate::hatchedit::prompted(s, shown, said);
            &&& s.input is None ==> text == said
            &&& s.input == Some(Input::Style) ==> {
                &&& s.style_current == HatchStyle::Normal ==> shows(text, "Normal"@ + ">:"@)
                &&& s.style_current == HatchStyle::Outer ==> shows(text, "Outer"@ + ">:"@)
                &&& s.style_current == HatchStyle::Ignore ==> shows(text, "Ignore"@ + ">:"@)
            }
            &&& s.input == Some(Input::Color) && s.source_appearance is Some ==> shows(
                text,
                shown.color,
            )
            &&& s.input == Some(Input::Layer) && s.source_appearance is Some ==> shows(
                text,
                (s.source_appearance->0).layer,
            )
            &&& s.input == Some(Input::Transparency) && s.source_appearance is Some ==> {
                let t = (s.source_appearance->0).transparency;
                &&& t == Transparency::ByLayer ==> shows(text, "ByLayer"@ + ">:"@)
                &&& t == Transparency::ByBlock ==> shows(text, "ByBlock"@ + ">:"@)
                &&& t is Explicit ==> shows(text, shown.percent)
            }
            &&& s.input == Some(Input::Pattern) && s.editing is Some ==> shows(
                text,
                (s.editing->0).name,
            )
            &&& s.input == Some(Input::Scale) && s.editing is Some ==> shows(text, shown.scale)
            &&& s.input == Some(Input::Angle) && s.editing is Some ==> shows(text, shown.angle)
        }),
        s.input is None && s.editing is Some ==> {
            let p = crate::hatchedit::phrased(s, shown)->0;
            &&& crate::hatchedit::phrased(s, shown) is Some
            &&& p.values.len() == 3
            &&& p.values[0].name == "name"@ && p.values[0].value == (s.editing->0).name
            &&& p.values[1].name == "scale"@ && p.values[1].value == shown.scale
            &&& p.values[2].name == "angle"@ && p.values[2].value == shown.angle
        },
{
    let a = "Enter hatching style [Ignore/Outer/Normal] <"@;
    lemma_ends(a, "Normal"@, ">:"@);
    lemma_ends(a, "Outer"@, ">:"@);
    lemma_ends(a, "Ignore"@, ">:"@);
    lemma_shows("New color [Truecolor/. (for use current)] <"@, shown.color, ">:"@);
    if s.source_appearance is Some {
        let layer = (s.source_appearance->0).layer;
        lemma_shows("Specify layer or [. (for use current)] <"@, layer, ">:"@);
    }
    let t = "Specify transparency (0-90) or ByLayer/ByBlock <"@;
    lemma_ends(t, "ByLayer"@, ">:"@);
    lemma_ends(t, "ByBlock"@, ">:"@);
    lemma_shows(t, shown.percent, ">:"@);
    if s.editing is Some {
        lemma_shows("Enter a pattern name or [Solid] <"@, (s.editing->0).name, ">:"@);
    }
    lemma_shows("Specify a scale for the pattern <"@, shown.scale, ">:"@);
    lemma_shows("Specify an angle for the pattern <"@, shown.angle, ">:"@);
}

proof fn lemma_ends(a: Seq<char>, piece: Seq<char>, b: Seq<char>)
    ensures
        shows(a + piece + b, piece + b),
{
    let text = a + piece + b;
    let i = a.len() as int;
    assert(text.subrange(i, i + (piece + b).len()) =~= piece + b);
}

/// While curves are lengthened, each question for a value shows the one that is
/// offered, and a curve that was measured its length.
pub proof fn length_prompts_show_values(s: LengthenState, shown: Seq<char>, said: Seq<char>)
    ensures
        ({
            let text = crate::lengthen::prompted(s, shown, said);
            &&& s.state is Value && s.state != LenState::Value(ValueMode::Dynamic) ==> shows(
                text,
                shown,
            )
            &&& s.state == LenState::ChooseMode && s.measurement is Some ==> shows(text, shown)
            &&& s.state == LenState::ChooseMode && s.measurement is None ==> text == said
            &&& s.state is Apply || s.state is DynamicPick ==> text == said
        }),
{
    lemma_shows("LENGTHEN  Enter delta length <"@, shown, ">:"@);
    lemma_shows("LENGTHEN  Enter total length <"@, shown, ">:"@);
    lemma_shows("LENGTHEN  Enter percentage length <"@, shown, ">:"@);
    lemma_shows("LENGTHEN  Enter delta angle <"@, shown, ">:"@);
    lemma_shows("LENGTHEN  Enter total angle <"@, shown, ">:"@);
    lemma_shows("Length: "@, shown, "  "@ + said);
    assert("Length: "@ + shown + "  "@ + said =~= "Length: "@ + shown + ("  "@ + said));
    assert(Seq::<char>::empty() + said =~= said);
}

/// The questions of the command that sets properties by layer show the answers
/// that the Enter key gives.
pub proof fn answers_are_shown(s: crate::setbylayer::State)
    ensures
        ({
            let text = crate::setbylayer::prompted(s);
            &&& s.step == crate::setbylayer::Step::ByBlock && s.change_byblock ==> shows(
                text,
                "Yes"@ + ">:"@,
            )
            &&& s.step == crate::setbylayer::Step::ByBlock && !s.change_byblock ==> shows(
                text,
                "No"@ + ">:"@,
            )
            &&& s.step == crate::setbylayer::Step::Blocks && s.include_blocks ==> shows(
                text,
                "Yes"@ + ">:"@,
            )
            &&& s.step == crate::setbylayer::Step::Blocks && !s.include_blocks ==> shows(
                text,
                "No"@ + ">:"@,
            )
        }),
{
    lemma_ends("Change ByBlock to ByLayer? [Yes/No] <"@, "Yes"@, ">:"@);
    lemma_ends("Change ByBlock to ByLayer? [Yes/No] <"@, "No"@, ">:"@);
    lemma_ends("Include blocks? [Yes/No] <"@, "Yes"@, ">:"@);
    lemma_ends("Include blocks? [Yes/No] <"@, "No"@, ">:"@);
}

proof fn lemma_still_shows(a: Seq<char>, piece: Seq<char>, b: Seq<char>)
    requires
        shows(a, piece),
    ensures
        shows(a + b, piece),
{
    let i = choose|i: int|
        0 <= i && i + piece.len() <= a.len() && #[trigger] a.subrange(i, i + piece.len())
            == piece;
    assert((a + b).subrange(i, i + piece.len()) =~= piece);
}

proof fn lemma_spaced(words: Seq<Seq<char>>, k: int)
    requires
        0 <= k < words.len(),
    ensures
        shows(crate::setbylayer::spaced(words), words[k]),
    decreases words.len(),
{
    let all = crate::setbylayer::spaced(words);
    let none = Seq::<char>::empty();
    if words.len() == 1 {
        lemma_shows(none, words[0], none);
        assert(none + words[0] + none =~= words[0]);
    } else {
        let rest = words.drop_last();
        let before = crate::setbylayer::spaced(rest);
        if k < rest.len() {
            lemma_spaced(rest, k);
            assert(rest[k] == words[k]);
            lemma_still_shows(before, words[k], " "@ + words.last());
            assert(before + (" "@ + words.last()) =~= all);
        } else {
            lemma_shows(before + " "@, words.last(), none);
            assert(before + " "@ + words.last() + none =~= all);
        }
    }
}

/// The settings show each property that is on.
pub proof fn active_properties_are_shown(p: u8)
    ensures
        ({
            let text = crate::setbylayer::active(p);
            &&& p & 1 != 0 ==> shows(text, "Color"@)
            &&& p & 2 != 0 ==> shows(text, "Linetype"@)
            &&& p & 4 != 0 ==> shows(text, "Lineweight"@)
            &&& p & 128 != 0 ==> shows(text, "Transparency"@)
            &&& p & 8 != 0 ==> shows(text, "Material"@)
            &&& p & 143 == 0 ==> text.len() == 0
        }),
{
    assert(p & 143 == 0 ==> p & 1 == 0 && p & 2 == 0 && p & 4 == 0 && p & 128 == 0 && p & 8 == 0)
        by (bit_vector);
    let one = if p & 1 != 0 {
        seq!["Color"@]
    } else {
        Seq::empty()
    };
    let two = if p & 2 != 0 {
        one.push("Linetype"@)
    } else {
        one
    };
    let three = if p & 4 != 0 {
        two.push("Lineweight"@)
    } else {
        two
    };
    let four = if p & 128 != 0 {
        three.push("Transparency"@)
    } else {
        three
    };
    let five = if p & 8 != 0 {
        four.push("Material"@)
    } else {
        four
    };
    if p & 1 != 0 {
        lemma_spaced(five, 0);
    }
    if p & 2 != 0 {
        lemma_spaced(five, one.len() as int);
    }
    if p & 4 != 0 {
        lemma_spaced(five, two.len() as int);
    }
    if p & 128 != 0 {
        lemma_spaced(five, three.len() as int);
    }
    if p & 8 != 0 {
        lemma_spaced(five, four.len() as int);
    }
}

/// The prompts of the two commands that mark a curve begin with their names, and
/// only the measuring one asks for a second point.
pub proof fn marking_prompts_name_the_command(measure: bool, s: crate::divide::MarkerState)
    ensures
        ({
            let text = crate::divide::prompted(measure, s);
            &&& s.value_origin is Some ==> text == "MEASURE  Specify second point:"@
            &&& measure && s.value_origin is None ==> crate::text::begins(text, "MEASURE  "@)
            &&& !measure && s.value_origin is None ==> crate::text::begins(text, "DIVIDE  "@)
        }),
{
    let ask = crate::divide::question(measure, s);
    crate::text_laws::beginnings_are_put_in_front("MEASURE  "@, ask, ask);
    crate::text_laws::beginnings_are_put_in_front("DIVIDE  "@, ask, ask);
}

} // verus!
