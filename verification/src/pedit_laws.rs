//! What the answers to the polyline editor ask for.
use crate::command::ResultModel;
use crate::entity::{Entity, Handle, Shape, Smoothing};
use crate::pedit::{
    applied, by_handle, entered, gathered, injected, joined, number_of, picked, pointed,
    preselected, replaced, started, typed, Mode, OpModel, PeditState, PeditTarget,
};
use crate::text::{keyword_of, points_for_commas, trimmed};
use crate::text_laws::only_outer_blanks_go;
use crate::value::{Point3, Real};
use vstd::prelude::*;

verus! {

/// An edit of one entity, or of all that are edited together.
pub open spec fn edit_asked(s: PeditState, handle: Handle, op: OpModel) -> Option<ResultModel> {
    Some(
        ResultModel::PeditOp {
            handle,
            op: if s.multiple.len() == 0 {
                op
            } else {
                OpModel::Multiple(s.multiple, Box::new(op))
            },
        },
    )
}

/// The state that a typed text starts from: no closing of a mesh is pending.
pub open spec fn settled(s: PeditState) -> PeditState {
    PeditState { pending_mesh_closed: None, ..s }
}

/// Whether the target of the command is known and no mesh.
pub open spec fn edits_polyline(s: PeditState) -> bool {
    &&& s.target is Some
    &&& s.info.contains_key(s.target->0) ==> s.info[s.target->0].mesh_size is None
}

/// At the options of polylines, each word asks for its edit: closing closes,
/// opening opens, and fitting, smoothing, decurving and reversing are asked for
/// by their names. The state stays.
pub proof fn options_ask_for_edits(s: PeditState, up: Seq<char>, number: Option<Real>)
    requires
        s.mode == Mode::Options,
        edits_polyline(s),
    ensures
        ({
            let (t, r) = typed(s, up, number);
            let asks = |op: OpModel| t == settled(s) && r == edit_asked(s, s.target->0, op);
            &&& up == "C"@ || up == "CLOSE"@ ==> asks(OpModel::SetClosed(true))
            &&& up == "O"@ || up == "OPEN"@ ==> asks(OpModel::SetClosed(false))
            &&& up == "F"@ || up == "FIT"@ ==> asks(OpModel::Fit)
            &&& up == "S"@ || up == "SPLINE"@ ==> asks(OpModel::Spline)
            &&& up == "D"@ || up == "DECURVE"@ ==> asks(OpModel::Decurve)
            &&& up == "R"@ || up == "REVERSE"@ ==> asks(OpModel::Reverse)
        }),
{
    reveal_strlit("E");
    reveal_strlit("EDIT");
    reveal_strlit("R");
    reveal_strlit("REVERSE");
    reveal_strlit("L");
    reveal_strlit("LTYPE");
    reveal_strlit("LTYPEGEN");
    reveal_strlit("U");
    reveal_strlit("UNDO");
    reveal_strlit("X");
    reveal_strlit("EXIT");
    reveal_strlit("C");
    reveal_strlit("CLOSE");
    reveal_strlit("O");
    reveal_strlit("OPEN");
    reveal_strlit("W");
    reveal_strlit("WIDTH");
    reveal_strlit("J");
    reveal_strlit("JOIN");
    reveal_strlit("F");
    reveal_strlit("FIT");
    reveal_strlit("S");
    reveal_strlit("SPLINE");
    reveal_strlit("D");
    reveal_strlit("DECURVE");
    assert("E"@.len() == 1);
    assert("E"@[0] == 'E');
    assert("EDIT"@.len() == 4);
    assert("EDIT"@[0] == 'E');
    assert("EDIT"@[1] == 'D');
    assert("R"@.len() == 1);
    assert("R"@[0] == 'R');
    assert("REVERSE"@.len() == 7);
    assert("REVERSE"@[0] == 'R');
    assert("L"@.len() == 1);
    assert("L"@[0] == 'L');
    assert("LTYPE"@.len() == 5);
    assert("LTYPE"@[0] == 'L');
    assert("LTYPEGEN"@.len() == 8);
    assert("U"@.len() == 1);
    assert("U"@[0] == 'U');
    assert("UNDO"@.len() == 4);
    assert("UNDO"@[0] == 'U');
    assert("X"@.len() == 1);
    assert("X"@[0] == 'X');
    assert("EXIT"@.len() == 4);
    assert("EXIT"@[0] == 'E');
    assert("EXIT"@[1] == 'X');
    assert("C"@.len() == 1);
    assert("C"@[0] == 'C');
    assert("CLOSE"@.len() == 5);
    assert("CLOSE"@[0] == 'C');
    assert("O"@.len() == 1);
    assert("O"@[0] == 'O');
    assert("OPEN"@.len() == 4);
    assert("OPEN"@[0] == 'O');
    assert("W"@.len() == 1);
    assert("W"@[0] == 'W');
    assert("WIDTH"@.len() == 5);
    assert("WIDTH"@[0] == 'W');
    assert("J"@.len() == 1);
    assert("J"@[0] == 'J');
    assert("JOIN"@.len() == 4);
    assert("JOIN"@[0] == 'J');
    assert("F"@.len() == 1);
    assert("F"@[0] == 'F');
    assert("FIT"@.len() == 3);
    assert("S"@.len() == 1);
    assert("S"@[0] == 'S');
    assert("SPLINE"@.len() == 6);
    assert("D"@.len() == 1);
    assert("D"@[0] == 'D');
    assert("DECURVE"@.len() == 7);
    assert("DECURVE"@[0] == 'D');
}

/// At the options of polylines, a word asks for a width, for the line type
/// generation, for entities to join or for a vertex to edit, and the exit ends
/// the command. Vertices are edited on one polyline only.
pub proof fn options_ask_on(s: PeditState, up: Seq<char>, number: Option<Real>)
    requires
        s.mode == Mode::Options,
        edits_polyline(s),
    ensures
        ({
            let (t, r) = typed(s, up, number);
            let go = Some(ResultModel::NeedPoint);
            &&& up == "W"@ || up == "WIDTH"@ ==> r == go && t == (PeditState {
                mode: Mode::AwaitWidth,
                ..settled(s)
            })
            &&& up == "L"@ || up == "LTYPE"@ || up == "LTYPEGEN"@ ==> r == go && t
                == (PeditState { mode: Mode::AwaitLinetype, ..settled(s) })
            &&& up == "J"@ || up == "JOIN"@ ==> r == go && t == (PeditState {
                mode: Mode::JoinGather,
                joining: seq![s.target->0],
                ..settled(s)
            })
            &&& (up == "E"@ || up == "EDIT"@) && s.multiple.len() == 0 ==> r == go && t
                == (PeditState { mode: Mode::PolyVertex(0), ..settled(s) })
            &&& up == "X"@ || up == "EXIT"@ ==> r == Some(ResultModel::Cancel) && t == settled(s)
        }),
{
    reveal_strlit("E");
    reveal_strlit("EDIT");
    reveal_strlit("R");
    reveal_strlit("REVERSE");
    reveal_strlit("L");
    reveal_strlit("LTYPE");
    reveal_strlit("LTYPEGEN");
    reveal_strlit("U");
    reveal_strlit("UNDO");
    reveal_strlit("X");
    reveal_strlit("EXIT");
    reveal_strlit("C");
    reveal_strlit("CLOSE");
    reveal_strlit("O");
    reveal_strlit("OPEN");
    reveal_strlit("W");
    reveal_strlit("WIDTH");
    reveal_strlit("J");
    reveal_strlit("JOIN");
    assert("E"@.len() == 1);
    assert("E"@[0] == 'E');
    assert("EDIT"@.len() == 4);
    assert("EDIT"@[0] == 'E');
    assert("EDIT"@[1] == 'D');
    assert("R"@.len() == 1);
    assert("R"@[0] == 'R');
    assert("REVERSE"@.len() == 7);
    assert("L"@.len() == 1);
    assert("L"@[0] == 'L');
    assert("LTYPE"@.len() == 5);
    assert("LTYPE"@[0] == 'L');
    assert("LTYPEGEN"@.len() == 8);
    assert("U"@.len() == 1);
    assert("U"@[0] == 'U');
    assert("UNDO"@.len() == 4);
    assert("UNDO"@[0] == 'U');
    assert("X"@.len() == 1);
    assert("X"@[0] == 'X');
    assert("EXIT"@.len() == 4);
    assert("EXIT"@[0] == 'E');
    assert("EXIT"@[1] == 'X');
    assert("C"@.len() == 1);
    assert("C"@[0] == 'C');
    assert("CLOSE"@.len() == 5);
    assert("CLOSE"@[0] == 'C');
    assert("O"@.len() == 1);
    assert("O"@[0] == 'O');
    assert("OPEN"@.len() == 4);
    assert("OPEN"@[0] == 'O');
    assert("W"@.len() == 1);
    assert("W"@[0] == 'W');
    assert("WIDTH"@.len() == 5);
    assert("WIDTH"@[0] == 'W');
    assert("J"@.len() == 1);
    assert("J"@[0] == 'J');
    assert("JOIN"@.len() == 4);
    assert("JOIN"@[0] == 'J');
}

/// A typed width that is finite and not below zero is asked for on all that is
/// edited, at the question for it and behind the letter `W`. Any other number is
/// not.
pub proof fn width_is_asked_for(s: PeditState, up: Seq<char>, rest: Seq<char>, w: Real)
    requires
        edits_polyline(s),
    ensures
        ({
            let fits = w.bits < 0x7FF0_0000_0000_0000 || w.bits == 0x8000_0000_0000_0000;
            let (t, r) = typed(s, up, Some(w));
            let (u, q) = typed(s, seq!['W', ' '] + rest, Some(w));
            &&& s.mode == Mode::AwaitWidth && fits ==> t == (PeditState {
                mode: Mode::Options,
                ..settled(s)
            }) && r == edit_asked(s, s.target->0, OpModel::SetWidth(w))
            &&& s.mode == Mode::AwaitWidth && !fits ==> t == settled(s) && r is None
            &&& s.mode == Mode::Options && fits ==> u == settled(s) && q == edit_asked(
                s,
                s.target->0,
                OpModel::SetWidth(w),
            )
            &&& s.mode == Mode::Options && !fits ==> u == settled(s) && q is None
        }),
{
    let typed_text = seq!['W', ' '] + rest;
    assert(typed_text[0] == 'W' && typed_text[1] == ' ');
    reveal_strlit("E");
    reveal_strlit("EDIT");
    reveal_strlit("R");
    reveal_strlit("REVERSE");
    reveal_strlit("L");
    reveal_strlit("LTYPE");
    reveal_strlit("LTYPEGEN");
    reveal_strlit("U");
    reveal_strlit("UNDO");
    reveal_strlit("X");
    reveal_strlit("EXIT");
    reveal_strlit("C");
    reveal_strlit("CLOSE");
    reveal_strlit("O");
    reveal_strlit("OPEN");
    reveal_strlit("W");
    reveal_strlit("WIDTH");
    reveal_strlit("J");
    reveal_strlit("JOIN");
    reveal_strlit("F");
    reveal_strlit("FIT");
    reveal_strlit("S");
    reveal_strlit("SPLINE");
    reveal_strlit("D");
    reveal_strlit("DECURVE");
    reveal_strlit("W ");
    assert("E"@.len() == 1);
    assert("E"@[0] == 'E');
    assert("EDIT"@.len() == 4);
    assert("EDIT"@[0] == 'E');
    assert("EDIT"@[1] == 'D');
    assert("R"@.len() == 1);
    assert("R"@[0] == 'R');
    assert("REVERSE"@.len() == 7);
    assert("REVERSE"@[0] == 'R');
    assert("L"@.len() == 1);
    assert("L"@[0] == 'L');
    assert("LTYPE"@.len() == 5);
    assert("LTYPE"@[0] == 'L');
    assert("LTYPEGEN"@.len() == 8);
    assert("U"@.len() == 1);
    assert("U"@[0] == 'U');
    assert("UNDO"@.len() == 4);
    assert("UNDO"@[0] == 'U');
    assert("X"@.len() == 1);
    assert("X"@[0] == 'X');
    assert("EXIT"@.len() == 4);
    assert("EXIT"@[0] == 'E');
    assert("EXIT"@[1] == 'X');
    assert("C"@.len() == 1);
    assert("C"@[0] == 'C');
    assert("CLOSE"@.len() == 5);
    assert("CLOSE"@[0] == 'C');
    assert("O"@.len() == 1);
    assert("O"@[0] == 'O');
    assert("OPEN"@.len() == 4);
    assert("OPEN"@[0] == 'O');
    assert("W"@.len() == 1);
    assert("W"@[0] == 'W');
    assert("WIDTH"@.len() == 5);
    assert("WIDTH"@[0] == 'W');
    assert("J"@.len() == 1);
    assert("J"@[0] == 'J');
    assert("JOIN"@.len() == 4);
    assert("JOIN"@[0] == 'J');
    assert("F"@.len() == 1);
    assert("F"@[0] == 'F');
    assert("FIT"@.len() == 3);
    assert("S"@.len() == 1);
    assert("S"@[0] == 'S');
    assert("SPLINE"@.len() == 6);
    assert("D"@.len() == 1);
    assert("D"@[0] == 'D');
    assert("DECURVE"@.len() == 7);
    assert("DECURVE"@[0] == 'D');
    assert("W "@.len() == 2);
    assert(typed_text.take(2) =~= "W "@);
    assert("EDIT"@[1] == 'D' && "REVERSE"@[1] == 'E' && "LTYPE"@[1] == 'T' && "LTYPEGEN"@[1]
        == 'T' && "UNDO"@[1] == 'N' && "EXIT"@[1] == 'X' && "CLOSE"@[1] == 'L' && "OPEN"@[1]
        == 'P' && "WIDTH"@[1] == 'I' && "JOIN"@[1] == 'O' && "FIT"@[1] == 'I' && "SPLINE"@[1]
        == 'P' && "DECURVE"@[1] == 'E');
}

/// The line type generation is switched on by the word on, off by the word off,
/// and the options come again.
pub proof fn line_type_is_switched(s: PeditState, up: Seq<char>, number: Option<Real>)
    requires
        s.mode == Mode::AwaitLinetype,
        s.target is Some,
    ensures
        ({
            let (t, r) = typed(s, up, number);
            let back = PeditState { mode: Mode::Options, ..settled(s) };
            &&& up == "ON"@ ==> t == back && r == edit_asked(
                s,
                s.target->0,
                OpModel::SetLinetypeGeneration(true),
            )
            &&& up == "OFF"@ ==> t == back && r == edit_asked(
                s,
                s.target->0,
                OpModel::SetLinetypeGeneration(false),
            )
            &&& up != "ON"@ && up != "OFF"@ ==> t == settled(s) && r == Some(
                ResultModel::NeedPoint,
            )
        }),
{
    reveal_strlit("ON");
    reveal_strlit("OFF");
    assert("ON"@.len() == 2);
    assert("OFF"@.len() == 3);
}

/// Undo takes back the last edit: the drawing is asked to, one edit less is to be
/// taken back, and the entities that were edited together before it are edited
/// again. Where there is none, it does nothing.
pub proof fn undo_takes_back_one_edit(s: PeditState, up: Seq<char>, number: Option<Real>)
    requires
        s.mode == Mode::Options,
        edits_polyline(s),
        up == "U"@ || up == "UNDO"@,
    ensures
        ({
            let (t, r) = typed(s, up, number);
            let h = s.multiple_history;
            &&& s.undo_count == 0 ==> t == settled(s) && r == Some(ResultModel::NeedPoint)
            &&& s.undo_count > 0 ==> {
                &&& r == Some(ResultModel::UndoDocument)
                &&& t.undo_count == s.undo_count - 1
                &&& t.mode == s.mode
                &&& t.info == s.info
                &&& h.len() > 0 ==> t.multiple == h.last() && t.multiple_history.push(h.last())
                    == h
                &&& h.len() > 0 && h.last().len() > 0 ==> t.target == Some(h.last()[0])
                &&& h.len() > 0 && h.last().len() == 0 ==> t.target == s.target
                &&& h.len() == 0 ==> t.multiple == s.multiple && t.target == s.target
            }
        }),
{
    reveal_strlit("E");
    reveal_strlit("EDIT");
    reveal_strlit("R");
    reveal_strlit("REVERSE");
    reveal_strlit("L");
    reveal_strlit("LTYPE");
    reveal_strlit("LTYPEGEN");
    reveal_strlit("U");
    reveal_strlit("UNDO");
    assert("E"@.len() == 1);
    assert("E"@[0] == 'E');
    assert("EDIT"@.len() == 4);
    assert("EDIT"@[0] == 'E');
    assert("R"@.len() == 1);
    assert("R"@[0] == 'R');
    assert("REVERSE"@.len() == 7);
    assert("L"@.len() == 1);
    assert("L"@[0] == 'L');
    assert("LTYPE"@.len() == 5);
    assert("LTYPEGEN"@.len() == 8);
    assert("U"@.len() == 1);
    assert("U"@[0] == 'U');
    assert("UNDO"@.len() == 4);
    assert("UNDO"@[0] == 'U');
    if s.multiple_history.len() > 0 {
        let h = s.multiple_history;
        assert(h.drop_last().push(h.last()) =~= h);
    }
}

/// At a vertex of a polyline, next and previous go one vertex on and back and
/// stay at the ends; breaking and straightening start a range at the vertex,
/// inserting and moving ask for a point, and the exit leads to the options.
pub proof fn vertices_are_edited(s: PeditState, i: usize, up: Seq<char>, number: Option<Real>)
    requires
        s.mode == Mode::PolyVertex(i),
    ensures
        ({
            let (t, r) = typed(s, up, number);
            let n = s.vertex_count();
            &&& r == Some(ResultModel::NeedPoint)
            &&& t == PeditState { mode: t.mode, ..settled(s) }
            &&& up == "N"@ || up == "NEXT"@ ==> {
                &&& i + 1 < n ==> t.mode == Mode::PolyVertex((i + 1) as usize)
                &&& i + 1 >= n ==> t.mode == Mode::PolyVertex(i)
            }
            &&& up == "P"@ || up == "PREVIOUS"@ ==> {
                &&& i > 0 ==> t.mode == Mode::PolyVertex((i - 1) as usize)
                &&& i == 0 ==> t.mode == Mode::PolyVertex(i)
            }
            &&& up == "B"@ || up == "BREAK"@ ==> t.mode == (Mode::PolyRange {
                start: i,
                end: i,
                split: true,
            })
            &&& up == "S"@ || up == "STRAIGHTEN"@ ==> t.mode == (Mode::PolyRange {
                start: i,
                end: i,
                split: false,
            })
            &&& up == "I"@ || up == "INSERT"@ ==> t.mode == Mode::PolyInsert(i)
            &&& up == "M"@ || up == "MOVE"@ ==> t.mode == Mode::PolyMove(i)
            &&& up == "W"@ || up == "WIDTH"@ ==> t.mode is PolyWidthStart
                && t.mode->PolyWidthStart_0 == i
            &&& up == "X"@ || up == "EXIT"@ ==> t.mode == Mode::Options
        }),
        ({
            let (t, r) = entered(s);
            let n = s.vertex_count();
            &&& r == ResultModel::NeedPoint
            &&& i + 1 < n ==> t.mode == Mode::PolyVertex((i + 1) as usize)
            &&& i + 1 >= n ==> t.mode == Mode::PolyVertex(i)
        }),
{
    reveal_strlit("N");
    reveal_strlit("NEXT");
    reveal_strlit("P");
    reveal_strlit("PREVIOUS");
    reveal_strlit("B");
    reveal_strlit("BREAK");
    reveal_strlit("S");
    reveal_strlit("STRAIGHTEN");
    reveal_strlit("I");
    reveal_strlit("INSERT");
    reveal_strlit("M");
    reveal_strlit("MOVE");
    reveal_strlit("W");
    reveal_strlit("WIDTH");
    reveal_strlit("X");
    reveal_strlit("EXIT");
    assert("N"@.len() == 1);
    assert("N"@[0] == 'N');
    assert("NEXT"@.len() == 4);
    assert("NEXT"@[0] == 'N');
    assert("P"@.len() == 1);
    assert("P"@[0] == 'P');
    assert("PREVIOUS"@.len() == 8);
    assert("B"@.len() == 1);
    assert("B"@[0] == 'B');
    assert("BREAK"@.len() == 5);
    assert("BREAK"@[0] == 'B');
    assert("S"@.len() == 1);
    assert("S"@[0] == 'S');
    assert("STRAIGHTEN"@.len() == 10);
    assert("I"@.len() == 1);
    assert("I"@[0] == 'I');
    assert("INSERT"@.len() == 6);
    assert("M"@.len() == 1);
    assert("M"@[0] == 'M');
    assert("MOVE"@.len() == 4);
    assert("MOVE"@[0] == 'M');
    assert("W"@.len() == 1);
    assert("W"@[0] == 'W');
    assert("WIDTH"@.len() == 5);
    assert("WIDTH"@[0] == 'W');
    assert("X"@.len() == 1);
    assert("X"@[0] == 'X');
    assert("EXIT"@.len() == 4);
    assert("EXIT"@[0] == 'E');
}

/// The width offered at a vertex is the one its segment starts with: that of the
/// whole polyline where it has one, else its own; a heavy polyline lends its
/// width to vertices that have none.
pub proof fn offered_width_is_the_segments(
    s: PeditState,
    i: usize,
    up: Seq<char>,
    number: Option<Real>,
    h: Handle,
)
    requires
        s.mode == Mode::PolyVertex(i),
        up == "W"@ || up == "WIDTH"@,
        s.target == Some(h),
        s.entities.contains_key(h),
    ensures
        ({
            let w = typed(s, up, number).0.mode->PolyWidthStart_1;
            &&& s.entities[h].shape matches Shape::LwPolyline(p) ==> {
                &&& p.form.constant_width.magnitude() != 0 ==> w == p.form.constant_width
                &&& p.form.constant_width.magnitude() == 0 && i < p.vertices@.len() ==> w
                    == p.vertices@[i as int].start_width
            }
            &&& s.entities[h].shape matches Shape::Polyline2D(p) ==> {
                let own = p.vertices@[i as int].start_width;
                &&& i < p.vertices@.len() && own.magnitude() != 0 ==> w == own
                &&& i < p.vertices@.len() && own.magnitude() == 0 ==> w == p.form.start_width
            }
        }),
        s.entities[h].shape matches Shape::LwPolyline(p) ==> s.vertex_count()
            == p.vertices@.len(),
        s.entities[h].shape matches Shape::Polyline2D(p) ==> s.vertex_count()
            == p.vertices@.len(),
{
    reveal_strlit("N");
    reveal_strlit("NEXT");
    reveal_strlit("P");
    reveal_strlit("PREVIOUS");
    reveal_strlit("B");
    reveal_strlit("BREAK");
    reveal_strlit("S");
    reveal_strlit("STRAIGHTEN");
    reveal_strlit("I");
    reveal_strlit("INSERT");
    reveal_strlit("M");
    reveal_strlit("MOVE");
    reveal_strlit("W");
    reveal_strlit("WIDTH");
    assert("N"@.len() == 1);
    assert("N"@[0] == 'N');
    assert("NEXT"@.len() == 4);
    assert("NEXT"@[0] == 'N');
    assert("P"@.len() == 1);
    assert("P"@[0] == 'P');
    assert("PREVIOUS"@.len() == 8);
    assert("B"@.len() == 1);
    assert("B"@[0] == 'B');
    assert("BREAK"@.len() == 5);
    assert("BREAK"@[0] == 'B');
    assert("S"@.len() == 1);
    assert("S"@[0] == 'S');
    assert("STRAIGHTEN"@.len() == 10);
    assert("I"@.len() == 1);
    assert("I"@[0] == 'I');
    assert("INSERT"@.len() == 6);
    assert("M"@.len() == 1);
    assert("M"@[0] == 'M');
    assert("MOVE"@.len() == 4);
    assert("MOVE"@[0] == 'M');
    assert("W"@.len() == 1);
    assert("W"@[0] == 'W');
    assert("WIDTH"@.len() == 5);
    assert("WIDTH"@[0] == 'W');
}

/// The two widths of a segment are asked for one after the other, and the edit
/// gets the first as the start and the second as the end. The Enter key takes the
/// width that is offered.
pub proof fn widths_come_in_order(s: PeditState, i: usize, w: Real, up: Seq<char>, v: Real)
    ensures
        s.mode == Mode::PolyWidthStart(i, w) && v.width_like() ==> {
            let (t, r) = typed(s, up, Some(v));
            &&& r == Some(ResultModel::NeedPoint)
            &&& t == PeditState { mode: Mode::PolyWidthEnd(i, v), ..settled(s) }
        },
        s.mode == Mode::PolyWidthStart(i, w) && w.width_like() ==> entered(s) == (
            PeditState { mode: Mode::PolyWidthEnd(i, w), ..settled(s) },
            ResultModel::NeedPoint,
        ),
        s.mode == Mode::PolyWidthEnd(i, w) && v.width_like() && s.target is Some ==> {
            let (t, r) = typed(s, up, Some(v));
            &&& t == PeditState { mode: Mode::PolyVertex(i), ..settled(s) }
            &&& r == edit_asked(
                s,
                s.target->0,
                OpModel::SetVertexWidth { index: i, start: w, end: v },
            )
        },
        s.mode == Mode::PolyWidthEnd(i, w) && w.width_like() && s.target is Some ==> Some(
            entered(s).1,
        ) == edit_asked(s, s.target->0, OpModel::SetVertexWidth { index: i, start: w, end: w }),
        (s.mode == Mode::PolyWidthStart(i, w) || s.mode == Mode::PolyWidthEnd(i, w))
            && !v.width_like() ==> typed(s, up, Some(v)) == (
            settled(s),
            Some(ResultModel::NeedPoint),
        ),
{
}

/// The second end of a range is walked to; going asks for the edit of the range
/// from its lower to its upper end, and the exit leads back to where it started.
pub proof fn ranges_are_walked(
    s: PeditState,
    start: usize,
    end: usize,
    split: bool,
    up: Seq<char>,
    number: Option<Real>,
)
    requires
        s.mode == (Mode::PolyRange { start, end, split }),
        s.target is Some,
    ensures
        ({
            let (t, r) = typed(s, up, number);
            let n = s.vertex_count();
            let go = Some(ResultModel::NeedPoint);
            let low = if start <= end {
                start
            } else {
                end
            };
            let high = if start <= end {
                end
            } else {
                start
            };
            &&& t == PeditState { mode: t.mode, ..settled(s) }
            &&& up == "N"@ || up == "NEXT"@ ==> r == go && t.mode == (Mode::PolyRange {
                start,
                end: if end + 1 < n {
                    (end + 1) as usize
                } else {
                    end
                },
                split,
            })
            &&& up == "P"@ || up == "PREVIOUS"@ ==> r == go && t.mode == (Mode::PolyRange {
                start,
                end: if end > 0 {
                    (end - 1) as usize
                } else {
                    end
                },
                split,
            })
            &&& up == "X"@ || up == "EXIT"@ ==> r == go && t.mode == Mode::PolyVertex(start)
            &&& up == "G"@ || up == "GO"@ ==> {
                &&& t.mode == Mode::PolyVertex(low)
                &&& r == Some(
                    ResultModel::PeditOp {
                        handle: s.target->0,
                        op: OpModel::VertexRange { first: low, last: high, split },
                    },
                )
            }
        }),
        entered(s).1 == ResultModel::NeedPoint,
        entered(s).0.mode == (Mode::PolyRange {
            start,
            end: if end + 1 < s.vertex_count() {
                (end + 1) as usize
            } else {
                end
            },
            split,
        }),
{
    reveal_strlit("N");
    reveal_strlit("NEXT");
    reveal_strlit("P");
    reveal_strlit("PREVIOUS");
    reveal_strlit("X");
    reveal_strlit("EXIT");
    reveal_strlit("G");
    reveal_strlit("GO");
    assert("N"@.len() == 1);
    assert("N"@[0] == 'N');
    assert("NEXT"@.len() == 4);
    assert("NEXT"@[0] == 'N');
    assert("P"@.len() == 1);
    assert("P"@[0] == 'P');
    assert("PREVIOUS"@.len() == 8);
    assert("X"@.len() == 1);
    assert("X"@[0] == 'X');
    assert("EXIT"@.len() == 4);
    assert("EXIT"@[0] == 'E');
    assert("G"@.len() == 1);
    assert("G"@[0] == 'G');
    assert("GO"@.len() == 2);
}

/// A point given for a vertex moves it there or inserts one behind it; a point
/// for a vertex of a mesh moves that. The walk goes on at the vertex.
pub proof fn points_place_vertices(s: PeditState, i: usize, point: Point3)
    requires
        s.target is Some,
    ensures
        s.mode == Mode::PolyMove(i) && point.finite() ==> pointed(s, point) == (
            PeditState { mode: Mode::PolyVertex(i), ..s },
            ResultModel::PeditOp {
                handle: s.target->0,
                op: OpModel::EditVertex { index: i, point, insert: false },
            },
        ),
        s.mode == Mode::PolyInsert(i) && point.finite() ==> pointed(s, point) == (
            PeditState { mode: Mode::PolyVertex(i), ..s },
            ResultModel::PeditOp {
                handle: s.target->0,
                op: OpModel::EditVertex { index: i, point, insert: true },
            },
        ),
        (s.mode == Mode::PolyMove(i) || s.mode == Mode::PolyInsert(i)) && !point.finite()
            ==> pointed(s, point) == (s, ResultModel::NeedPoint),
        s.mode == Mode::MeshVertexMove(i) ==> pointed(s, point) == (
            PeditState { mode: Mode::MeshVertex(i), ..s },
            ResultModel::PeditOp {
                handle: s.target->0,
                op: OpModel::MoveMeshVertex { index: i, point },
            },
        ),
        s.mode == Mode::Options || s.mode is PolyVertex || s.mode is MeshVertex ==> pointed(
            s,
            point,
        ) == (s, ResultModel::NeedPoint),
{
}

/// Whether the target is a mesh of so many rows and columns.
pub open spec fn edits_mesh(s: PeditState, m: usize, n: usize) -> bool {
    &&& s.target is Some
    &&& s.info.contains_key(s.target->0)
    &&& s.info[s.target->0].mesh_size == Some((m, n))
}

proof fn lemma_grid(row: int, column: int, m: int, n: int)
    requires
        0 <= row < m,
        0 <= column < n,
    ensures
        (row * n + column) / n == row,
        (row * n + column) % n == column,
        0 <= row * n + column < m * n,
        row + 1 < m ==> row * n + column + n < m * n,
        row > 0 ==> row * n + column >= n,
        m * n > 0,
{
    vstd::arithmetic::div_mod::lemma_fundamental_div_mod_converse(
        row * n + column,
        n,
        row,
        column,
    );
    assert(row * n + column < m * n && (row + 1 < m ==> row * n + column + n < m * n) && (row > 0
        ==> row * n + column >= n) && m * n > 0 && row * n + column >= 0) by (nonlinear_arith)
        requires
            0 <= row < m,
            0 <= column < n,
    ;
}

/// At the vertex of a mesh in a row and a column, right and left go along the
/// row, up and down along the column, and none leaves the mesh. Next and previous
/// run through all vertices, row after row, and the Enter key goes on that way.
pub proof fn mesh_is_walked(
    s: PeditState,
    m: usize,
    n: usize,
    row: int,
    column: int,
    i: usize,
    up: Seq<char>,
    number: Option<Real>,
)
    requires
        edits_mesh(s, m, n),
        s.mode == Mode::MeshVertex(i),
        0 <= row < m,
        0 <= column < n,
        i == row * n + column,
        m * n <= usize::MAX,
    ensures
        ({
            let (t, r) = typed(s, up, number);
            let at = |r: int, c: int| Mode::MeshVertex((r * n + c) as usize);
            let moved = r == Some(ResultModel::NeedPoint) && t == PeditState {
                mode: t.mode,
                mesh_vertex_default: t.mesh_vertex_default,
                ..settled(s)
            };
            &&& up == "R"@ || up == "RIGHT"@ ==> moved && t.mode == (if column + 1 < n {
                at(row, column + 1)
            } else {
                s.mode
            })
            &&& up == "L"@ || up == "LEFT"@ ==> moved && t.mode == (if column > 0 {
                at(row, column - 1)
            } else {
                s.mode
            })
            &&& up == "U"@ || up == "UP"@ ==> moved && t.mode == (if row + 1 < m {
                at(row + 1, column)
            } else {
                s.mode
            })
            &&& up == "D"@ || up == "DOWN"@ ==> moved && t.mode == (if row > 0 {
                at(row - 1, column)
            } else {
                s.mode
            })
            &&& up == "N"@ || up == "NEXT"@ ==> moved && t.mesh_vertex_default == 1 && t.mode
                == (if i + 1 < m * n {
                Mode::MeshVertex((i + 1) as usize)
            } else {
                s.mode
            })
            &&& up == "P"@ || up == "PREVIOUS"@ ==> moved && t.mesh_vertex_default == -1
                && t.mode == (if i > 0 {
                Mode::MeshVertex((i - 1) as usize)
            } else {
                s.mode
            })
            &&& up == "M"@ || up == "MOVE"@ ==> moved && t.mode == Mode::MeshVertexMove(i)
            &&& up == "G"@ || up == "REGEN"@ ==> t == settled(s) && r == Some(
                ResultModel::NeedPoint,
            )
            &&& up == "X"@ || up == "EXIT"@ ==> moved && t.mode == Mode::Options
        }),
        entered(s).1 == ResultModel::NeedPoint,
        s.mesh_vertex_default >= 0 && i + 1 < m * n ==> entered(s).0.mode == Mode::MeshVertex(
            (i + 1) as usize,
        ),
        s.mesh_vertex_default < 0 && i > 0 ==> entered(s).0.mode == Mode::MeshVertex(
            (i - 1) as usize,
        ),
{
    lemma_grid(row, column, m as int, n as int);
    if row + 1 < m {
        assert((row + 1) * n + column == row * n + column + n) by (nonlinear_arith);
    }
    if row > 0 {
        assert((row - 1) * n + column == row * n + column - n) by (nonlinear_arith);
    }
    reveal_strlit("R");
    reveal_strlit("RIGHT");
    reveal_strlit("L");
    reveal_strlit("LEFT");
    reveal_strlit("U");
    reveal_strlit("UP");
    reveal_strlit("D");
    reveal_strlit("DOWN");
    reveal_strlit("N");
    reveal_strlit("NEXT");
    reveal_strlit("P");
    reveal_strlit("PREVIOUS");
    reveal_strlit("M");
    reveal_strlit("MOVE");
    reveal_strlit("G");
    reveal_strlit("REGEN");
    reveal_strlit("X");
    reveal_strlit("EXIT");
    assert("R"@.len() == 1);
    assert("R"@[0] == 'R');
    assert("RIGHT"@.len() == 5);
    assert("RIGHT"@[1] == 'I');
    assert("L"@.len() == 1);
    assert("L"@[0] == 'L');
    assert("LEFT"@.len() == 4);
    assert("LEFT"@[0] == 'L');
    assert("U"@.len() == 1);
    assert("U"@[0] == 'U');
    assert("UP"@.len() == 2);
    assert("D"@.len() == 1);
    assert("D"@[0] == 'D');
    assert("DOWN"@.len() == 4);
    assert("DOWN"@[0] == 'D');
    assert("N"@.len() == 1);
    assert("N"@[0] == 'N');
    assert("NEXT"@.len() == 4);
    assert("NEXT"@[0] == 'N');
    assert("P"@.len() == 1);
    assert("P"@[0] == 'P');
    assert("PREVIOUS"@.len() == 8);
    assert("M"@.len() == 1);
    assert("M"@[0] == 'M');
    assert("MOVE"@.len() == 4);
    assert("MOVE"@[0] == 'M');
    assert("G"@.len() == 1);
    assert("G"@[0] == 'G');
    assert("REGEN"@.len() == 5);
    assert("REGEN"@[1] == 'E');
    assert("X"@.len() == 1);
    assert("X"@[0] == 'X');
    assert("EXIT"@.len() == 4);
    assert("EXIT"@[0] == 'E');
}

/// At the options of a mesh, smoothing asks for the kind and the densities that
/// the command started with, desmoothing for none, and closing and opening for
/// just that, in the direction that is named. What is asked for is remembered.
pub proof fn mesh_options_ask_for_edits(
    s: PeditState,
    m: usize,
    n: usize,
    up: Seq<char>,
    number: Option<Real>,
)
    requires
        edits_mesh(s, m, n),
        s.mode == Mode::Options,
    ensures
        ({
            let (t, r) = typed(s, up, number);
            let h = s.target->0;
            let asks = |op: OpModel| r == Some(ResultModel::PeditOp { handle: h, op });
            let waits = |pending: (bool, bool)|
                t == PeditState { pending_mesh_closed: Some(pending), ..s };
            &&& up == "E"@ || up == "EDIT"@ || up == "EDIT VERTEX"@ ==> r == Some(
                ResultModel::NeedPoint,
            ) && t == (PeditState { mode: Mode::MeshVertex(0), ..settled(s) })
            &&& up == "S"@ || up == "SMOOTH"@ || up == "SMOOTH SURFACE"@ ==> t == settled(s)
                && asks(
                OpModel::SetMeshSmooth {
                    smooth: s.mesh_smooth_type,
                    m_density: s.mesh_smooth_density.0,
                    n_density: s.mesh_smooth_density.1,
                },
            )
            &&& up == "D"@ || up == "DESMOOTH"@ ==> t == settled(s) && asks(
                OpModel::SetMeshSmooth {
                    smooth: Smoothing::Plain,
                    m_density: s.mesh_smooth_density.0,
                    n_density: s.mesh_smooth_density.1,
                },
            )
            &&& up == "MC"@ || up == "MCLOSE"@ || up == "M CLOSE"@ ==> waits((true, true))
                && asks(OpModel::SetMeshClosedM(true))
            &&& up == "MO"@ || up == "MOPEN"@ || up == "M OPEN"@ ==> waits((true, false))
                && asks(OpModel::SetMeshClosedM(false))
            &&& up == "NC"@ || up == "NCLOSE"@ || up == "N CLOSE"@ ==> waits((false, true))
                && asks(OpModel::SetMeshClosedN(true))
            &&& up == "NO"@ || up == "NOPEN"@ || up == "N OPEN"@ ==> waits((false, false))
                && asks(OpModel::SetMeshClosedN(false))
            &&& up == "X"@ || up == "EXIT"@ ==> t == settled(s) && r == Some(ResultModel::Cancel)
            &&& (up == "U"@ || up == "UNDO"@) && s.undo_count == 0 ==> t == settled(s) && r
                == Some(ResultModel::NeedPoint)
            &&& (up == "U"@ || up == "UNDO"@) && s.undo_count > 0 ==> r == Some(
                ResultModel::UndoDocument,
            ) && t.undo_count == s.undo_count - 1
        }),
{
    reveal_strlit("E");
    reveal_strlit("EDIT");
    reveal_strlit("EDIT VERTEX");
    reveal_strlit("S");
    reveal_strlit("SMOOTH");
    reveal_strlit("SMOOTH SURFACE");
    reveal_strlit("D");
    reveal_strlit("DESMOOTH");
    reveal_strlit("MC");
    reveal_strlit("MCLOSE");
    reveal_strlit("M CLOSE");
    reveal_strlit("MO");
    reveal_strlit("MOPEN");
    reveal_strlit("M OPEN");
    reveal_strlit("NC");
    reveal_strlit("NCLOSE");
    reveal_strlit("N CLOSE");
    reveal_strlit("NO");
    reveal_strlit("NOPEN");
    reveal_strlit("N OPEN");
    reveal_strlit("U");
    reveal_strlit("UNDO");
    reveal_strlit("X");
    reveal_strlit("EXIT");
    assert("E"@.len() == 1);
    assert("E"@[0] == 'E');
    assert("EDIT"@.len() == 4);
    assert("EDIT"@[0] == 'E');
    assert("EDIT"@[1] == 'D');
    assert("EDIT VERTEX"@.len() == 11);
    assert("S"@.len() == 1);
    assert("S"@[0] == 'S');
    assert("SMOOTH"@.len() == 6);
    assert("SMOOTH"@[0] == 'S');
    assert("SMOOTH SURFACE"@.len() == 14);
    assert("D"@.len() == 1);
    assert("D"@[0] == 'D');
    assert("DESMOOTH"@.len() == 8);
    assert("MC"@.len() == 2);
    assert("MC"@[0] == 'M');
    assert("MC"@[1] == 'C');
    assert("MCLOSE"@.len() == 6);
    assert("MCLOSE"@[0] == 'M');
    assert("MCLOSE"@[1] == 'C');
    assert("M CLOSE"@.len() == 7);
    assert("M CLOSE"@[0] == 'M');
    assert("MO"@.len() == 2);
    assert("MO"@[0] == 'M');
    assert("MO"@[1] == 'O');
    assert("MOPEN"@.len() == 5);
    assert("MOPEN"@[0] == 'M');
    assert("M OPEN"@.len() == 6);
    assert("M OPEN"@[0] == 'M');
    assert("M OPEN"@[1] == ' ');
    assert("NC"@.len() == 2);
    assert("NC"@[0] == 'N');
    assert("NC"@[1] == 'C');
    assert("NCLOSE"@.len() == 6);
    assert("NCLOSE"@[0] == 'N');
    assert("NCLOSE"@[1] == 'C');
    assert("N CLOSE"@.len() == 7);
    assert("N CLOSE"@[0] == 'N');
    assert("NO"@.len() == 2);
    assert("NO"@[0] == 'N');
    assert("NO"@[1] == 'O');
    assert("NOPEN"@.len() == 5);
    assert("NOPEN"@[0] == 'N');
    assert("N OPEN"@.len() == 6);
    assert("N OPEN"@[0] == 'N');
    assert("N OPEN"@[1] == ' ');
    assert("U"@.len() == 1);
    assert("U"@[0] == 'U');
    assert("UNDO"@.len() == 4);
    assert("UNDO"@[0] == 'U');
    assert("X"@.len() == 1);
    assert("X"@[0] == 'X');
    assert("EXIT"@.len() == 4);
    assert("EXIT"@[0] == 'E');
    assert("EXIT"@[1] == 'X');
}

/// Once a closing or an opening of a mesh was carried out, the mesh is known to
/// be so in that direction and as before in the other, and the state before is
/// remembered for taking it back.
pub proof fn closing_is_remembered(
    s: PeditState,
    h: Handle,
    m_closed: bool,
    n_closed: bool,
    m_direction: bool,
    closed: bool,
)
    requires
        s.target == Some(h),
        s.info.contains_key(h),
        s.info[h].mesh_closed == Some((m_closed, n_closed)),
        s.pending_mesh_closed == Some((m_direction, closed)),
    ensures
        ({
            let t = applied(s);
            &&& t.info[h].mesh_closed == Some(
                if m_direction {
                    (closed, n_closed)
                } else {
                    (m_closed, closed)
                },
            )
            &&& t.info[h].mesh_size == s.info[h].mesh_size
            &&& t.info[h].is_poly == s.info[h].is_poly
            &&& t.mesh_closed_history.len() == s.mesh_closed_history.len() + 1
            &&& t.mesh_closed_history.last() == Some((m_closed, n_closed))
            &&& t.pending_mesh_closed is None
            &&& forall|k: Handle|
                k != h ==> (#[trigger] t.info.contains_key(k) <==> s.info.contains_key(k)) && (
                s.info.contains_key(k) ==> t.info[k] == s.info[k])
        }),
{
}

/// Each edit that was carried out can be taken back: it is counted, and the
/// entities that were edited together are remembered, those of a conversion as
/// they were before it.
pub proof fn edits_are_counted(s: PeditState)
    ensures
        ({
            let t = applied(s);
            &&& s.undo_count < usize::MAX ==> t.undo_count == s.undo_count + 1
            &&& t.multiple_history.len() == s.multiple_history.len() + 1
            &&& s.pending_multiple is None ==> t.multiple_history.last() == s.multiple
            &&& s.pending_multiple is Some ==> t.multiple_history.last() == s.pending_multiple->0
            &&& t.pending_multiple is None
            &&& t.multiple == s.multiple
            &&& t.target == s.target
            &&& t.mode == s.mode
            &&& s.pending_mesh_closed is None ==> t.info == s.info
                && t.mesh_closed_history.last() is None
        }),
{
}

/// A line or an arc is converted on yes, which is what the Enter key says too; on
/// no another entity is asked for.
pub proof fn conversion_is_asked(s: PeditState, h: Handle, up: Seq<char>, number: Option<Real>)
    requires
        s.mode == Mode::ConvertPrompt(h),
    ensures
        ({
            let (t, r) = typed(s, up, number);
            &&& up == "Y"@ || up == "YES"@ || up == ""@ ==> t == settled(s) && r == edit_asked(
                s,
                h,
                OpModel::ConvertToPolyline,
            )
            &&& up == "N"@ || up == "NO"@ ==> t == (PeditState {
                mode: Mode::PickTarget,
                ..settled(s)
            }) && r == Some(ResultModel::NeedPoint)
        }),
        entered(s) == (
            s,
            ResultModel::PeditOp { handle: h, op: OpModel::ConvertToPolyline },
        ),
{
    reveal_strlit("Y");
    reveal_strlit("YES");
    reveal_strlit("");
    reveal_strlit("N");
    reveal_strlit("NO");
    assert("Y"@.len() == 1);
    assert("Y"@[0] == 'Y');
    assert("YES"@.len() == 3);
    assert(""@.len() == 0);
    assert("N"@.len() == 1);
    assert("N"@[0] == 'N');
    assert("NO"@.len() == 2);
}

/// Of many entities, all are converted on yes; on no those that are polylines
/// stay, the first of them being the target, and the command ends where none is.
pub proof fn conversions_are_asked(
    s: PeditState,
    up: Seq<char>,
    number: Option<Real>,
    h: Handle,
)
    requires
        s.mode == Mode::MultipleConvert,
        s.multiple.len() > 0,
    ensures
        ({
            let (t, r) = typed(s, up, number);
            &&& up == "Y"@ || up == "YES"@ || up == ""@ ==> {
                &&& r == edit_asked(s, s.multiple[0], OpModel::ConvertToPolyline)
                &&& t.mode == Mode::Options
                &&& t.pending_multiple == Some(s.multiple)
                &&& t.multiple == s.multiple
            }
            &&& up == "N"@ || up == "NO"@ ==> {
                &&& t.mode == Mode::Options
                &&& t.multiple.contains(h) <==> s.multiple.contains(h) && s.info.contains_key(h)
                    && s.info[h].is_poly
                &&& t.multiple.len() > 0 ==> t.target == Some(t.multiple[0]) && r == Some(
                    ResultModel::NeedPoint,
                )
                &&& t.multiple.len() == 0 ==> r == Some(ResultModel::Cancel)
            }
        }),
{
    reveal_strlit("Y");
    reveal_strlit("YES");
    reveal_strlit("");
    reveal_strlit("N");
    reveal_strlit("NO");
    assert("Y"@.len() == 1);
    assert("Y"@[0] == 'Y');
    assert("YES"@.len() == 3);
    assert(""@.len() == 0);
    assert("N"@.len() == 1);
    assert("N"@[0] == 'N');
    assert("NO"@.len() == 2);
    let f = |h: Handle| crate::pedit::known_poly(s.info, h);
    lemma_filtered(s.multiple, f, h);
}

proof fn lemma_filtered(list: Seq<Handle>, f: spec_fn(Handle) -> bool, h: Handle)
    ensures
        list.filter(f).contains(h) <==> list.contains(h) && f(h),
{
    let kept = list.filter(f);
    if kept.contains(h) {
        let k = choose|k: int| 0 <= k < kept.len() && kept[k] == h;
        list.lemma_filter_pred(f, k);
        list.lemma_filter_contains_rev(f, h);
    }
    if list.contains(h) && f(h) {
        let k = choose|k: int| 0 <= k < list.len() && list[k] == h;
        list.lemma_filter_contains(f, k);
    }
}

/// A picked polyline or mesh is edited, a picked line or arc is offered for
/// conversion, and nothing else can be picked. More can be asked for by name.
pub proof fn picks_choose_the_target(
    s: PeditState,
    h: Handle,
    up: Seq<char>,
    number: Option<Real>,
)
    requires
        s.mode == Mode::PickTarget,
        h != 0,
    ensures
        s.info.contains_key(h) && s.info[h].is_poly ==> picked(s, h) == (PeditState {
            target: Some(h),
            mode: Mode::Options,
            ..s
        }),
        s.info.contains_key(h) && !s.info[h].is_poly && s.info[h].convertible ==> picked(s, h)
            == (PeditState { mode: Mode::ConvertPrompt(h), ..s }),
        s.info.contains_key(h) && !s.info[h].is_poly && !s.info[h].convertible ==> picked(s, h)
            == s,
        !s.info.contains_key(h) ==> picked(s, h) == s,
        up == "M"@ || up == "MULTIPLE"@ ==> typed(s, up, number) == (
            PeditState { mode: Mode::MultipleGather, ..settled(s) },
            Some(ResultModel::NeedPoint),
        ),
        up != "M"@ && up != "MULTIPLE"@ ==> typed(s, up, number) == (
            settled(s),
            None::<ResultModel>,
        ),
{
}

/// A selection of many keeps what is known and no mesh, in its order. The Enter
/// key takes the first of them as the target, and asks first whether to convert
/// where a line or an arc is among them.
pub proof fn many_are_gathered(s: PeditState, handles: Seq<Handle>, h: Handle)
    requires
        s.mode == Mode::MultipleGather,
    ensures
        gathered(s, handles).multiple.contains(h) <==> handles.contains(h)
            && s.info.contains_key(h) && s.info[h].mesh_size is None,
        gathered(s, handles) == (PeditState {
            multiple: gathered(s, handles).multiple,
            ..s
        }),
        s.multiple.len() == 0 ==> entered(s).1 == ResultModel::Cancel,
        s.multiple.len() > 0 ==> {
            let (t, r) = entered(s);
            let converts = exists|k: int|
                0 <= k < s.multiple.len() && s.info.contains_key(#[trigger] s.multiple[k])
                    && s.info[s.multiple[k]].convertible;
            &&& r == ResultModel::NeedPoint
            &&& t.target == Some(s.multiple[0])
            &&& t.multiple == s.multiple
            &&& converts ==> t.mode == Mode::MultipleConvert
            &&& !converts ==> t.mode == Mode::Options
        },
{
    let f = |h: Handle| crate::pedit::known_plain(s.info, h);
    lemma_filtered(handles, f, h);
}

proof fn lemma_joined(target: Handle, info: Map<Handle, PeditTarget>, list: Seq<Handle>, h: Handle)
    ensures
        joined(target, info, list).len() > 0,
        joined(target, info, list)[0] == target,
        joined(target, info, list).contains(h) <==> h == target || list.contains(h)
            && info.contains_key(h),
    decreases list.len(),
{
    let all = joined(target, info, list);
    if list.len() > 0 {
        let before = joined(target, info, list.drop_last());
        lemma_joined(target, info, list.drop_last(), h);
        let last = list.last();
        assert(list.drop_last().push(last) =~= list);
        assert(list.contains(h) <==> list.drop_last().contains(h) || h == last) by {
            if list.contains(h) {
                let k = choose|k: int| 0 <= k < list.len() && list[k] == h;
                if k < list.len() - 1 {
                    assert(list.drop_last()[k] == h);
                }
            }
            if list.drop_last().contains(h) {
                let k = choose|k: int|
                    0 <= k < list.drop_last().len() && list.drop_last()[k] == h;
                assert(list[k] == h);
            }
            assert(list[list.len() - 1] == last);
        }
        if all != before {
            assert(all == before.push(last));
            assert(all[before.len() as int] == last);
            if before.contains(h) {
                let k = choose|k: int| 0 <= k < before.len() && before[k] == h;
                assert(all[k] == h);
            }
            if all.contains(h) {
                let k = choose|k: int| 0 <= k < all.len() && all[k] == h;
                if k < before.len() {
                    assert(before[k] == h);
                }
            }
        }
    } else {
        assert(all[0] == target);
    }
}

/// The entities to join are the target, which comes first, and what is known of
/// the selection. The Enter key joins them from two on.
pub proof fn joins_are_gathered(s: PeditState, target: Handle, handles: Seq<Handle>, h: Handle)
    requires
        s.mode == Mode::JoinGather,
        s.target == Some(target),
    ensures
        ({
            let t = gathered(s, handles);
            &&& t == PeditState { joining: t.joining, ..s }
            &&& t.joining.len() > 0
            &&& t.joining[0] == target
            &&& t.joining.contains(h) <==> h == target || handles.contains(h)
                && s.info.contains_key(h)
        }),
        s.joining.len() >= 2 ==> entered(s) == (s, ResultModel::JoinEntities(s.joining)),
        s.joining.len() < 2 ==> entered(s) == (
            PeditState { mode: Mode::Options, ..s },
            ResultModel::NeedPoint,
        ),
{
    lemma_joined(target, s.info, handles, h);
}

/// Once an entity was replaced, the first of the new ones is edited in its place
/// as a polyline, also among those that are edited together.
pub proof fn replacement_is_edited(s: PeditState, old: Handle, new: Seq<Handle>, k: int)
    ensures
        new.len() == 0 ==> replaced(s, old, new) == s,
        new.len() > 0 ==> {
            let t = replaced(s, old, new);
            &&& t.target == Some(new[0])
            &&& t.mode == Mode::Options
            &&& t.info.contains_key(new[0])
            &&& t.info[new[0]].is_poly
            &&& !t.info[new[0]].convertible
            &&& t.info[new[0]].mesh_size is None
            &&& t.multiple.len() == s.multiple.len()
            &&& 0 <= k < s.multiple.len() && s.multiple[k] == old ==> t.multiple[k] == new[0]
            &&& 0 <= k < s.multiple.len() && s.multiple[k] != old ==> t.multiple[k]
                == s.multiple[k]
            &&& s.multiple.len() == 0 && old != new[0] ==> !t.info.contains_key(old)
            &&& t.undo_count == s.undo_count
        },
{
}

/// An entity that is taken in can be edited vertex by vertex, and the walk stays
/// at a vertex that it has.
pub proof fn entities_are_taken_in(s: PeditState, entity: Entity, i: usize)
    requires
        s.target == Some(entity.common.handle),
        s.mode == Mode::PolyVertex(i),
    ensures
        ({
            let t = injected(s, entity);
            let n = t.vertex_count();
            &&& t.entities.contains_key(entity.common.handle)
            &&& t.entities[entity.common.handle] == entity
            &&& t == PeditState { entities: t.entities, mode: t.mode, ..s }
            &&& i < n ==> t.mode == s.mode
            &&& i >= n && n > 0 ==> t.mode == Mode::PolyVertex((n - 1) as usize)
            &&& n == 0 ==> t.mode == Mode::PolyVertex(0)
        }),
{
}

/// A command starts with nothing picked. The surface type five smoothes
/// quadratically, eight by the curve of Bezier and any other cubically, with
/// densities between 2 and 200.
pub proof fn editing_starts_with_a_pick(
    info: Map<Handle, PeditTarget>,
    surface_type: i16,
    u: i16,
    v: i16,
)
    ensures
        ({
            let s = started(info, surface_type, u, v);
            let (m, n) = s.mesh_smooth_density;
            &&& s.mode == Mode::PickTarget
            &&& s.target is None
            &&& s.info == info
            &&& s.multiple.len() == 0
            &&& s.undo_count == 0
            &&& s.mesh_vertex_default == 1
            &&& surface_type == 5 ==> s.mesh_smooth_type == Smoothing::Quadratic
            &&& surface_type == 8 ==> s.mesh_smooth_type == Smoothing::Bezier
            &&& surface_type != 5 && surface_type != 8 ==> s.mesh_smooth_type == Smoothing::Cubic
            &&& 2 <= m <= 200 && 2 <= n <= 200
            &&& 2 <= u <= 200 ==> m == u
            &&& 2 <= v <= 200 ==> n == v
            &&& u < 2 ==> m == 2
            &&& u > 200 ==> m == 200
            &&& v < 2 ==> n == 2
            &&& v > 200 ==> n == 200
        }),
{
}

proof fn lemma_first_usable(info: Map<Handle, PeditTarget>, handles: Seq<Handle>, i: int)
    requires
        0 <= i < handles.len(),
        info.contains_key(handles[i]),
        info[handles[i]].is_poly || info[handles[i]].convertible,
        forall|k: int|
            0 <= k < i ==> !(info.contains_key(#[trigger] handles[k]) && (
            info[handles[k]].is_poly || info[handles[k]].convertible)),
    ensures
        crate::pedit::first_usable(info, handles) == i,
    decreases handles.len(),
{
    if i > 0 {
        assert(!(info.contains_key(handles[0]) && (info[handles[0]].is_poly
            || info[handles[0]].convertible)));
        let rest = handles.drop_first();
        assert forall|k: int| 0 <= k < i - 1 implies !(info.contains_key(#[trigger] rest[k]) && (
        info[rest[k]].is_poly || info[rest[k]].convertible)) by {
            assert(rest[k] == handles[k + 1]);
        }
        lemma_first_usable(info, rest, i - 1);
    }
}

/// A command that starts with a selection edits more than one polyline, line or
/// arc together. Else it takes the first entity that it can edit or convert.
pub proof fn selection_is_edited(s: PeditState, handles: Seq<Handle>, i: int, h: Handle)
    requires
        0 <= i < handles.len(),
        s.info.contains_key(handles[i]),
        s.info[handles[i]].is_poly || s.info[handles[i]].convertible,
        forall|k: int|
            0 <= k < i ==> !(s.info.contains_key(#[trigger] handles[k]) && (
            s.info[handles[k]].is_poly || s.info[handles[k]].convertible)),
    ensures
        ({
            let t = preselected(s, handles);
            let plain = handles.filter(|h: Handle| s.info.contains_key(h)
                && s.info[h].mesh_size is None);
            &&& plain.len() > 1 ==> {
                &&& t.multiple == plain
                &&& t.target == Some(plain[0])
                &&& t.mode == Mode::MultipleConvert || t.mode == Mode::Options
                &&& t.mode == Mode::Options && plain.contains(h) ==> !s.info[h].convertible
            }
            &&& plain.len() <= 1 ==> {
                &&& s.info[handles[i]].is_poly ==> t == (PeditState {
                    target: Some(handles[i]),
                    mode: Mode::Options,
                    ..s
                })
                &&& !s.info[handles[i]].is_poly ==> t == (PeditState {
                    mode: Mode::ConvertPrompt(handles[i]),
                    ..s
                })
            }
        }),
{
    lemma_first_usable(s.info, handles, i);
    let f = |h: Handle| crate::pedit::known_plain(s.info, h);
    let g = |h: Handle| s.info.contains_key(h) && s.info[h].mesh_size is None;
    assert(f =~= g);
    let plain = handles.filter(g);
    lemma_filtered(handles, g, h);
    if plain.contains(h) {
        let k = choose|k: int| 0 <= k < plain.len() && plain[k] == h;
        assert(plain[k] == h);
        if s.info[h].convertible {
            assert(crate::pedit::known_convertible(s.info, plain[k]));
            assert(crate::pedit::any_convertible(s.info, plain));
        }
    }
}

/// Of entities with the same handle, the last one is edited.
pub proof fn last_entity_counts(list: Seq<Entity>, e: Entity, h: Handle)
    ensures
        by_handle(list.push(e)).contains_key(e.common.handle),
        by_handle(list.push(e))[e.common.handle] == e,
        h != e.common.handle ==> (by_handle(list.push(e)).contains_key(h) <==> by_handle(
            list,
        ).contains_key(h)) && (by_handle(list).contains_key(h) ==> by_handle(list.push(e))[h]
            == by_handle(list)[h]),
        !by_handle(Seq::empty()).contains_key(h),
{
    assert(list.push(e).drop_last() =~= list);
}

/// A width is read from the text itself, and behind the letter `W` from what
/// follows it, decimal commas being points. The widths of a segment are read as
/// they are typed.
pub proof fn widths_are_read(s: PeditState, text: Seq<char>, value: Seq<char>)
    requires
        value.len() > 0,
        33 <= value[0] as int <= 126,
        33 <= value.last() as int <= 126,
    ensures
        s.mode == Mode::AwaitWidth && keyword_of(text) == value ==> number_of(s, text) == Some(
            points_for_commas(value),
        ),
        s.mode == Mode::Options && keyword_of(text) == seq!['W', ' '] + value ==> number_of(
            s,
            text,
        ) == Some(points_for_commas(value)),
        (s.mode is PolyWidthStart || s.mode is PolyWidthEnd) && trimmed(text) == value
            ==> number_of(s, text) == Some(value),
        s.mode is PolyVertex || s.mode == Mode::AwaitLinetype ==> number_of(s, text) is None,
{
    let up = seq!['W', ' '] + value;
    reveal_strlit("W ");
    assert("W "@[0] == 'W' && "W "@[1] == ' ');
    assert(up.take(2) =~= "W "@);
    assert(up.skip(2) =~= value);
    let none = Seq::<char>::empty();
    only_outer_blanks_go(none, value, none);
    assert(none + value + none =~= value);
}

} // verus!
