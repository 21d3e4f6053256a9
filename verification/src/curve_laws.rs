//! What lengthening, dividing and measuring do to a curve.
use crate::command::{MarkerModel, ResultModel};
use crate::divide::{all_marked, division_count, MarkerState, Spot, Step};
use crate::entity::{EntityModel, Handle, ShapeModel};
use crate::lengthen::{
    change_of, entered, lengthened, picked, pointed, typed, LenMode, LenState, LengthenDefaults,
    LengthenState, Measures, Typed, ValueMode,
};
use crate::text::{decimal, uppercase};
use crate::text_laws::{
    capitals_spell, decimals_read_back, first_word_ends_at_a_blank, printed, spells,
};
use crate::value::{Point3, Real};
use vstd::prelude::*;

verus! {

proof fn lemma_one_word(w: Seq<char>)
    requires
        w.len() > 0,
        forall|i: int| 0 <= i < w.len() ==> printed(#[trigger] w[i]),
    ensures
        crate::text::first_word(w) == w,
        crate::text::first_word(crate::text::after_word(w)).len() == 0,
{
    let none = Seq::<char>::empty();
    first_word_ends_at_a_blank(none, w, none);
    assert(none + w + none =~= w);
    assert(crate::text::trim_front(none) =~= none);
}

/// The words for a kind of value.
pub open spec fn kind_of(word: Seq<char>) -> Option<ValueMode> {
    if word == "D"@ || word == "DE"@ || word == "DELTA"@ {
        Some(ValueMode::Delta)
    } else if word == "T"@ || word == "TO"@ || word == "TOTAL"@ {
        Some(ValueMode::Total)
    } else if word == "P"@ || word == "PERCENT"@ {
        Some(ValueMode::Percent)
    } else if word == "DY"@ || word == "DYNAMIC"@ {
        Some(ValueMode::Dynamic)
    } else {
        None
    }
}

proof fn lemma_kinds(word: Seq<char>)
    ensures
        kind_of(word) == crate::lengthen::mode_named(word),
        kind_of(word) is Some ==> word.len() > 0 && forall|i: int|
            0 <= i < word.len() ==> printed(#[trigger] word[i]),
{
    reveal_strlit("D");
    reveal_strlit("DE");
    reveal_strlit("DELTA");
    reveal_strlit("T");
    reveal_strlit("TO");
    reveal_strlit("TOTAL");
    reveal_strlit("P");
    reveal_strlit("PERCENT");
    reveal_strlit("DY");
    reveal_strlit("DYNAMIC");
    assert("D"@.len() == 1);
    assert("D"@[0] == 'D');
    assert("DE"@.len() == 2);
    assert("DE"@[0] == 'D');
    assert("DE"@[1] == 'E');
    assert("DELTA"@.len() == 5);
    assert("DELTA"@[0] == 'D');
    assert("T"@.len() == 1);
    assert("T"@[0] == 'T');
    assert("TO"@.len() == 2);
    assert("TO"@[0] == 'T');
    assert("TOTAL"@.len() == 5);
    assert("TOTAL"@[0] == 'T');
    assert("P"@.len() == 1);
    assert("P"@[0] == 'P');
    assert("PERCENT"@.len() == 7);
    assert("PERCENT"@[0] == 'P');
    assert("DY"@.len() == 2);
    assert("DY"@[0] == 'D');
    assert("DY"@[1] == 'Y');
    assert("DYNAMIC"@.len() == 7);
    assert("DYNAMIC"@[0] == 'D');
}

/// A word for a kind of value chooses that kind: its value is asked for next, or
/// the curve whose end is dragged, and the choice is offered again later. Any
/// other word chooses none.
pub proof fn kinds_are_chosen(
    s: LengthenState,
    d: LengthenDefaults,
    word: Seq<char>,
    number: Option<Typed>,
    radians: Real,
)
    requires
        s.state == LenState::ChooseMode,
        word.len() > 0,
        forall|i: int| 0 <= i < word.len() ==> printed(#[trigger] word[i]),
    ensures
        ({
            let (t, e, r) = typed(s, d, word, number, radians);
            let kind = kind_of(word);
            &&& r == Some(ResultModel::NeedPoint)
            &&& kind is None ==> t == s && e == d
            &&& kind is Some ==> {
                &&& e == LengthenDefaults { mode: kind->0, ..d }
                &&& t == LengthenState { state: t.state, ..s }
                &&& kind->0 == ValueMode::Dynamic ==> t.state == LenState::DynamicPick
                &&& kind->0 != ValueMode::Dynamic ==> t.state == LenState::Value(kind->0)
            }
        }),
{
    lemma_one_word(word);
    lemma_kinds(word);
}

/// A number behind the word for a kind of value is taken as if it were typed at
/// the question for it.
pub proof fn kinds_take_their_value(
    s: LengthenState,
    d: LengthenDefaults,
    word: Seq<char>,
    value: Seq<char>,
    n: Typed,
    radians: Real,
)
    requires
        s.state == LenState::ChooseMode,
        kind_of(word) is Some,
        kind_of(word)->0 != ValueMode::Dynamic,
        value.len() > 0,
        forall|i: int| 0 <= i < value.len() ==> printed(#[trigger] value[i]),
        uppercase(value).len() > 0,
    ensures
        ({
            let (t, e, r) = typed(s, d, word + seq![' '] + value, Some(n), radians);
            let asked = LengthenState { state: LenState::Value(kind_of(word)->0), ..s };
            let chosen = LengthenDefaults { mode: kind_of(word)->0, ..d };
            (t, e, r) == typed(asked, chosen, uppercase(value), Some(n), radians)
        }),
{
    lemma_kinds(word);
    let none = Seq::<char>::empty();
    let rest = seq![' '] + value;
    first_word_ends_at_a_blank(none, word, rest);
    assert(none + word + rest =~= word + seq![' '] + value);
    first_word_ends_at_a_blank(seq![' '], value, none);
    assert(seq![' '] + value + none =~= rest);
}

/// Whether a number can be taken for a kind of value: any finite number for a
/// difference, a finite number above zero for the others, and less than a full
/// turn for a whole angle.
pub open spec fn can_be(mode: ValueMode, bits: u64) -> bool {
    match mode {
        ValueMode::Delta => bits & 0x7FFF_FFFF_FFFF_FFFF < 0x7FF0_0000_0000_0000,
        ValueMode::DeltaAngle => bits & 0x7FFF_FFFF_FFFF_FFFF < 0x7FF0_0000_0000_0000,
        ValueMode::Total => 0 < bits < 0x7FF0_0000_0000_0000,
        ValueMode::Percent => 0 < bits < 0x7FF0_0000_0000_0000,
        ValueMode::TotalAngle => 0 < bits < 0x4076_8000_0000_0000,
        ValueMode::Dynamic => false,
    }
}

proof fn lemma_can_be(mode: ValueMode, v: Real)
    requires
        mode != ValueMode::Dynamic,
    ensures
        can_be(mode, v.bits) <==> crate::lengthen::value_fits(mode, v),
{
    let b = v.bits;
    assert(b >= 0x8000_0000_0000_0000 ==> b & 0x7FFF_FFFF_FFFF_FFFF == b - 0x8000_0000_0000_0000)
        by (bit_vector);
    assert(b < 0x8000_0000_0000_0000 ==> b & 0x7FFF_FFFF_FFFF_FFFF == b) by (bit_vector);
}

/// A number that is typed for a kind of value is applied to the curves that are
/// picked next, as a length, a percentage or in radians as an angle, and is
/// offered again as it was typed. A number that cannot be is passed over.
pub proof fn values_are_taken(
    s: LengthenState,
    d: LengthenDefaults,
    mode: ValueMode,
    up: Seq<char>,
    n: Typed,
    radians: Real,
)
    requires
        s.state == LenState::Value(mode),
        mode != ValueMode::Dynamic,
        up.len() > 0,
        up != "A"@ && up != "ANGLE"@,
    ensures
        ({
            let (t, e, r) = typed(s, d, up, Some(n), radians);
            &&& r == Some(ResultModel::NeedPoint)
            &&& !can_be(mode, n.value.bits) ==> t == s && e == d
            &&& can_be(mode, n.value.bits) ==> {
                &&& t == LengthenState { state: t.state, ..s }
                &&& e.mode == d.mode
                &&& mode == ValueMode::Delta ==> t.state == LenState::Apply(
                    LenMode::Delta(n.value),
                ) && e == LengthenDefaults { delta: n.value, ..d }
                &&& mode == ValueMode::Total ==> t.state == LenState::Apply(
                    LenMode::Total(n.value),
                ) && e == LengthenDefaults { total: n.value, ..d }
                &&& mode == ValueMode::Percent ==> t.state == LenState::Apply(
                    LenMode::Percent(n.value),
                ) && e == LengthenDefaults { percent: n.value, ..d }
                &&& mode == ValueMode::DeltaAngle ==> t.state == LenState::Apply(
                    LenMode::DeltaAngle(n.radians),
                ) && e == LengthenDefaults { delta_angle: n.value, ..d }
                &&& mode == ValueMode::TotalAngle ==> t.state == LenState::Apply(
                    LenMode::TotalAngle(n.radians),
                ) && e == LengthenDefaults { total_angle: n.value, ..d }
            }
        }),
        typed(s, d, up, None, radians) == (s, d, Some(ResultModel::NeedPoint)),
{
    lemma_can_be(mode, n.value);
}

/// Differences and whole lengths can be asked for as angles, others not.
pub proof fn angles_can_be_asked(
    s: LengthenState,
    d: LengthenDefaults,
    mode: ValueMode,
    up: Seq<char>,
    number: Option<Typed>,
    radians: Real,
)
    requires
        s.state == LenState::Value(mode),
        up == "A"@ || up == "ANGLE"@,
    ensures
        ({
            let (t, e, r) = typed(s, d, up, number, radians);
            &&& e == d
            &&& r == Some(ResultModel::NeedPoint)
            &&& t == LengthenState { state: t.state, ..s }
            &&& mode == ValueMode::Delta ==> t.state == LenState::Value(ValueMode::DeltaAngle)
            &&& mode == ValueMode::Total ==> t.state == LenState::Value(ValueMode::TotalAngle)
            &&& mode != ValueMode::Delta && mode != ValueMode::Total ==> t.state == s.state
        }),
{
    reveal_strlit("A");
    reveal_strlit("ANGLE");
    assert("A"@.len() == 1);
    assert("ANGLE"@.len() == 5);
}

/// While curves are picked, undo takes back the last change, as long as there is
/// one; nothing else that is typed does anything.
pub proof fn changes_are_taken_back(
    s: LengthenState,
    d: LengthenDefaults,
    up: Seq<char>,
    number: Option<Typed>,
    radians: Real,
)
    requires
        s.state is Apply || s.state is DynamicPick,
        up.len() > 0,
    ensures
        ({
            let (t, e, r) = typed(s, d, up, number, radians);
            let undo = up == "U"@ || up == "UNDO"@;
            &&& e == d
            &&& undo && s.edits > 0 ==> r == Some(ResultModel::UndoDocument) && t
                == LengthenState { edits: (s.edits - 1) as usize, ..s }
            &&& !(undo && s.edits > 0) ==> r == Some(ResultModel::NeedPoint) && t == s
        }),
{
}

/// The Enter key takes the kind that was chosen last and the value that was given
/// for it last, and ends the command elsewhere.
pub proof fn last_values_are_offered(s: LengthenState, d: LengthenDefaults, radians: Real)
    ensures
        ({
            let (t, e, r) = entered(s, d, radians);
            &&& s.state == LenState::ChooseMode ==> e == d && r == ResultModel::NeedPoint && t
                == LengthenState { state: t.state, ..s } && t.state == (if d.mode
                == ValueMode::Dynamic {
                LenState::DynamicPick
            } else {
                LenState::Value(d.mode)
            })
            &&& s.state == LenState::Value(ValueMode::Delta) && can_be(
                ValueMode::Delta,
                d.delta.bits,
            ) ==> t.state == LenState::Apply(LenMode::Delta(d.delta))
            &&& s.state == LenState::Value(ValueMode::Total) && can_be(
                ValueMode::Total,
                d.total.bits,
            ) ==> t.state == LenState::Apply(LenMode::Total(d.total))
            &&& s.state == LenState::Value(ValueMode::Percent) && can_be(
                ValueMode::Percent,
                d.percent.bits,
            ) ==> t.state == LenState::Apply(LenMode::Percent(d.percent))
            &&& s.state == LenState::Value(ValueMode::DeltaAngle) && can_be(
                ValueMode::DeltaAngle,
                d.delta_angle.bits,
            ) ==> t.state == LenState::Apply(LenMode::DeltaAngle(radians))
            &&& s.state == LenState::Value(ValueMode::TotalAngle) && can_be(
                ValueMode::TotalAngle,
                d.total_angle.bits,
            ) ==> t.state == LenState::Apply(LenMode::TotalAngle(radians))
            &&& s.state is Value ==> r == ResultModel::NeedPoint && e == d
            &&& s.state is Apply || s.state is DynamicPick || s.state is DynamicPoint ==> t == s
                && e == d && r == ResultModel::Cancel
        }),
{
    lemma_can_be(ValueMode::Delta, d.delta);
    lemma_can_be(ValueMode::Total, d.total);
    lemma_can_be(ValueMode::Percent, d.percent);
    lemma_can_be(ValueMode::DeltaAngle, d.delta_angle);
    lemma_can_be(ValueMode::TotalAngle, d.total_angle);
}

/// A picked curve is measured while the kind is chosen, replaced by the changed
/// one once a change was, and held where its end is dragged, which lines and arcs
/// can be.
pub proof fn picked_curves_change(
    s: LengthenState,
    handle: Handle,
    point: Point3,
    length: Option<Real>,
    made: Option<EntityModel>,
)
    requires
        handle != 0,
        s.picked is Some,
    ensures
        ({
            let (t, r) = picked(s, handle, point, length, made);
            let e = s.picked->0;
            &&& t.picked is None
            &&& t.edits == s.edits
            &&& s.state == LenState::ChooseMode ==> {
                &&& r == ResultModel::NeedPoint
                &&& t.state == s.state
                &&& length is Some && length->0.finite() ==> t.measurement == length
                &&& length is None || !length->0.finite() ==> t.measurement is None
            }
            &&& s.state is Apply && made is Some ==> {
                &&& t.state == s.state
                &&& r is ReplaceContinue
                &&& r->ReplaceContinue_0.handle == handle
                &&& r->ReplaceContinue_0.entity == made->0
            }
            &&& s.state is Apply && made is None ==> r == ResultModel::NeedPoint && t.state
                == s.state
            &&& s.state == LenState::DynamicPick ==> {
                &&& r == ResultModel::NeedPoint
                &&& e.shape is Line || e.shape is Arc ==> t.held == Some(e) && t.state == (
                LenState::DynamicPoint { handle, pick: point })
                &&& !(e.shape is Line) && !(e.shape is Arc) ==> t.state == s.state && t.held
                    == s.held
            }
        }),
        picked(s, 0, point, length, made) == (s, ResultModel::NeedPoint),
{
}

/// A point drags the end of the held curve: the changed curve replaces it, and
/// another can be picked.
pub proof fn dragged_curve_is_replaced(
    s: LengthenState,
    handle: Handle,
    pick: Point3,
    made: Option<EntityModel>,
)
    requires
        s.state == (LenState::DynamicPoint { handle, pick }),
    ensures
        ({
            let (t, r) = pointed(s, made);
            &&& made is None ==> t == s && r == ResultModel::NeedPoint
            &&& made is Some ==> {
                &&& t == LengthenState { state: LenState::DynamicPick, held: None, ..s }
                &&& r is ReplaceContinue
                &&& r->ReplaceContinue_0.handle == handle
                &&& r->ReplaceContinue_0.entity == made->0
            }
        }),
{
}

/// What changes is the picked curve by the chosen change, at the end nearer to
/// the pick, or the held one up to the point, at the end nearer to where it was
/// picked.
pub proof fn changes_are_found(s: LengthenState, point: Point3)
    ensures
        s.state matches LenState::Apply(mode) ==> {
            &&& s.picked is Some ==> change_of(s, point) == Some((s.picked->0, mode, point))
            &&& s.picked is None ==> change_of(s, point) is None
        },
        s.state matches LenState::DynamicPoint { handle, pick } ==> {
            &&& s.held is Some ==> change_of(s, point) == Some(
                (s.held->0, LenMode::Dynamic(point), pick),
            )
            &&& s.held is None ==> change_of(s, point) is None
        },
        !(s.state is Apply) && !(s.state is DynamicPoint) ==> change_of(s, point) is None,
{
}

/// Whether an entity has the properties of another but no handle.
pub open spec fn unfiled(e: EntityModel, old: EntityModel) -> bool {
    &&& e.common.handle == 0
    &&& e.common.layer == old.common.layer
    &&& e.common.color == old.common.color
    &&& e.common.transparency == old.common.transparency
    &&& e.common.xdata == old.common.xdata
}

/// A changed line has the ends that were found, a changed arc the angles; all else
/// of them stays.
pub proof fn lines_and_arcs_are_lengthened(e: EntityModel, mode: LenMode, m: Measures)
    ensures
        e.shape matches ShapeModel::Line(l) ==> {
            let r = lengthened(e, mode, m);
            let k = r->0.shape->Line_0;
            &&& r is Some <==> m.line is Some
            &&& r is Some ==> {
                &&& unfiled(r->0, e)
                &&& r->0.shape is Line
                &&& k.start == (m.line->0).0
                &&& k.end == (m.line->0).1
                &&& k.thickness == l.thickness
                &&& k.normal == l.normal
            }
        },
        e.shape matches ShapeModel::Arc(a) ==> {
            let r = lengthened(e, mode, m);
            let k = r->0.shape->Arc_0;
            &&& r is Some <==> m.arc is Some
            &&& r is Some ==> {
                &&& unfiled(r->0, e)
                &&& r->0.shape is Arc
                &&& k.start_angle == (m.arc->0).0
                &&& k.end_angle == (m.arc->0).1
                &&& k.center == a.center
                &&& k.radius == a.radius
                &&& k.thickness == a.thickness
                &&& k.normal == a.normal
            }
        },
{
}

/// Whether the end of a curve changes, and not its start: unless the start is
/// nearer to the pick.
pub open spec fn nearer_end(m: Measures) -> bool {
    &&& !m.to_start.nan()
    &&& !m.to_end.nan()
    &&& m.to_start.rank() >= m.to_end.rank()
}

/// Whether the change is one of length, and neither the length nor the new one is
/// below a ten-thousandth of a millionth.
pub open spec fn long_enough(mode: LenMode, m: Measures) -> bool {
    let least = 0x3DDB_7CDF_D9D7_BDBBint;
    &&& mode is Delta || mode is Total || mode is Percent
    &&& m.current.nan() || m.current.rank() >= least
    &&& m.new.nan() || m.new.rank() >= least
}

/// Of an ellipse, the parameter of the end nearer to the pick changes and the
/// other stays.
pub proof fn ellipses_are_lengthened(e: EntityModel, mode: LenMode, m: Measures)
    requires
        e.shape is Ellipse,
    ensures
        ({
            let r = lengthened(e, mode, m);
            let old = e.shape->Ellipse_0;
            let new = r->0.shape->Ellipse_0;
            &&& r is Some <==> long_enough(mode, m) && (m.extent.nan() || m.extent.rank()
                >= 0x3E11_2E0B_E826_D695)
            &&& r is Some ==> {
                &&& unfiled(r->0, e)
                &&& r->0.shape is Ellipse
                &&& nearer_end(m) ==> new.end == m.parameter && new.start == old.start
                &&& !nearer_end(m) ==> new.start == m.parameter && new.end == old.end
                &&& new.center == old.center
                &&& new.major_axis == old.major_axis
                &&& new.ratio == old.ratio
                &&& new.normal == old.normal
            }
        }),
{
}

/// A spline is only shortened: of its two parts, the one away from the pick is
/// kept.
pub proof fn splines_are_cut(e: EntityModel, mode: LenMode, m: Measures)
    requires
        e.shape is Spline,
    ensures
        ({
            let r = lengthened(e, mode, m);
            let shorter = m.new.nan() || m.current.nan() || m.new.rank() < m.current.rank();
            &&& r is Some <==> long_enough(mode, m) && shorter && m.halves is Some && (
            m.extent.nan() || m.extent.rank() >= 0x3D71_9799_812D_EA11)
            &&& r is Some && nearer_end(m) ==> r->0.common == (m.halves->0).0@.common
                && r->0.shape == ShapeModel::Spline((m.halves->0).0@.spline)
            &&& r is Some && !nearer_end(m) ==> r->0.common == (m.halves->0).1@.common
                && r->0.shape == ShapeModel::Spline((m.halves->0).1@.spline)
        }),
{
}

/// Of a polyline, the vertex at the end nearer to the pick moves; its bulge, its
/// widths and all other vertices stay.
pub proof fn polylines_are_lengthened(e: EntityModel, mode: LenMode, m: Measures, k: int)
    requires
        e.shape is LwPolyline,
        m.flat is Some,
        0 <= k < (m.flat->0)@.vertices.len(),
    ensures
        ({
            let r = lengthened(e, mode, m);
            let old = (m.flat->0)@;
            let new = r->0.shape->LwPolyline_0;
            let n = old.vertices.len();
            let i = if nearer_end(m) {
                n - 1
            } else {
                0
            };
            &&& r is Some <==> n >= 2 && long_enough(mode, m)
            &&& r is Some ==> {
                &&& unfiled(r->0, e)
                &&& r->0.shape is LwPolyline
                &&& new.form == old.form
                &&& new.vertices.len() == n
                &&& new.vertices[i].location == m.moved
                &&& new.vertices[i].bulge == old.vertices[i].bulge
                &&& new.vertices[i].start_width == old.vertices[i].start_width
                &&& new.vertices[i].end_width == old.vertices[i].end_width
                &&& k != i ==> new.vertices[k] == old.vertices[k]
            }
        }),
{
}

/// Entities without a length stay as they are.
pub proof fn nothing_else_is_lengthened(e: EntityModel, mode: LenMode, m: Measures)
    requires
        !(e.shape is Line || e.shape is Arc || e.shape is Ellipse || e.shape is Spline
            || e.shape is LwPolyline),
    ensures
        lengthened(e, mode, m) is None,
{
}

/// The block to mark a curve with, as it was chosen.
pub open spec fn chosen_block(s: MarkerState, marker: Option<MarkerModel>) -> bool {
    match s.block {
        None => marker is None,
        Some(name) => marker is Some && (marker->0).block == name && (marker->0).align == s.align
            && (marker->0).plane == s.plane,
    }
}

/// A number of parts from 2 to 32767 divides the picked curve into so many parts,
/// with the block that was chosen; any other number is not understood.
pub proof fn parts_are_asked_for(s: MarkerState, n: nat, number: Option<Real>)
    requires
        s.step == Step::Amount,
        s.target is Some,
        n <= usize::MAX,
    ensures
        ({
            let (t, r) = crate::divide::typed(false, s, decimal(n), number);
            &&& t == s
            &&& 2 <= n <= 32767 ==> {
                &&& r is Some
                &&& r->0 is DivideEntity
                &&& r->0->DivideEntity_handle == s.target->0
                &&& r->0->n == n
                &&& chosen_block(s, r->0->DivideEntity_marker)
            }
            &&& n < 2 || n > 32767 ==> r is None
        }),
{
    decimals_read_back(n as int, 0, usize::MAX as int);
    lemma_not_block(n);
}

proof fn lemma_not_block(n: nat)
    ensures
        !spells(decimal(n), "B"@),
        !spells(decimal(n), "BLOCK"@),
        crate::text::ascii_upper(decimal(n)) != "B"@,
        crate::text::ascii_upper(decimal(n)) != "BLOCK"@,
{
    reveal_strlit("B");
    reveal_strlit("BLOCK");
    assert("B"@.len() == 1);
    assert("BLOCK"@.len() == 5);
    capitals_spell(decimal(n), "B"@);
    capitals_spell(decimal(n), "BLOCK"@);
    lemma_first_digit(n);
    if spells(decimal(n), "B"@) {
        assert("B"@[0] == 'B');
        assert(decimal(n)[0] as int <= 57);
    }
    if spells(decimal(n), "BLOCK"@) {
        assert("BLOCK"@[0] == 'B');
        assert(decimal(n)[0] as int <= 57);
    }
}

proof fn lemma_first_digit(n: nat)
    ensures
        decimal(n).len() > 0,
        48 <= decimal(n)[0] as int <= 57,
    decreases n,
{
    if n >= 10 {
        lemma_first_digit(n / 10);
    } else {
        assert(decimal(n)[0] == crate::text::digit_char(n));
    }
}

/// A length above zero measures the picked curve from where it was picked, with
/// the block that was chosen; any other number is not understood.
pub proof fn lengths_are_asked_for(s: MarkerState, plain: Seq<char>, v: Real)
    requires
        s.step == Step::Amount,
        s.target is Some,
        !spells(plain, "B"@) && !spells(plain, "BLOCK"@),
    ensures
        ({
            let (t, r) = crate::divide::typed(true, s, plain, Some(v));
            let fits = 0 < v.bits < 0x7FF0_0000_0000_0000;
            &&& t == s
            &&& !fits ==> r is None
            &&& fits ==> {
                &&& r is Some
                &&& r->0 is MeasureEntity
                &&& r->0->MeasureEntity_handle == s.target->0
                &&& r->0->segment_length == v
                &&& r->0->pick_point == s.pick_point
                &&& chosen_block(s, r->0->MeasureEntity_marker)
            }
        }),
{
    capitals_spell(plain, "B"@);
    capitals_spell(plain, "BLOCK"@);
}

/// A length can be given by two points: the first is held, and the second measures
/// the curve by their distance.
pub proof fn two_points_give_a_length(s: MarkerState, point: Point3, distance: Real)
    requires
        s.step == Step::Amount,
        s.target is Some,
        point.finite(),
    ensures
        s.value_origin is None ==> crate::divide::pointed(true, s, point, distance) == (
            MarkerState { value_origin: Some(point), ..s },
            ResultModel::NeedPoint,
        ),
        s.value_origin is Some ==> {
            let (t, r) = crate::divide::pointed(true, s, point, distance);
            let fits = 0 < distance.bits < 0x7FF0_0000_0000_0000;
            &&& t == s
            &&& !fits ==> r == ResultModel::NeedPoint
            &&& fits ==> {
                &&& r is MeasureEntity
                &&& r->MeasureEntity_handle == s.target->0
                &&& r->segment_length == distance
                &&& r->pick_point == s.pick_point
                &&& chosen_block(s, r->MeasureEntity_marker)
            }
        },
        crate::divide::pointed(false, s, point, distance) == (s, ResultModel::NeedPoint),
{
}

/// A block is asked for, found by its name in any case, and aligned with the curve
/// on yes and on the Enter key, and not on no.
pub proof fn blocks_are_chosen(
    measure: bool,
    s: MarkerState,
    plain: Seq<char>,
    number: Option<Real>,
    k: int,
)
    ensures
        s.step == Step::Amount && s.block is None && s.value_origin is None && (spells(
            plain,
            "B"@,
        ) || spells(plain, "BLOCK"@)) ==> crate::divide::typed(measure, s, plain, number) == (
            MarkerState { step: Step::BlockName, ..s },
            Some(ResultModel::NeedPoint),
        ),
        s.step == Step::BlockName && 0 <= k < s.blocks.len() && crate::text::same_but_case(
            s.blocks[k],
            plain,
        ) ==> {
            let (t, r) = crate::divide::typed(measure, s, plain, number);
            &&& r == Some(ResultModel::NeedPoint)
            &&& t.step == Step::Align
            &&& t.block is Some
            &&& crate::text::same_but_case(t.block->0, plain)
            &&& s.blocks.contains(t.block->0)
            &&& t == MarkerState { step: t.step, block: t.block, ..s }
        },
        s.step == Step::Align && (spells(plain, "Y"@) || spells(plain, "YES"@))
            ==> crate::divide::typed(measure, s, plain, number) == (
            MarkerState { align: true, step: Step::Amount, ..s },
            Some(ResultModel::NeedPoint),
        ),
        s.step == Step::Align && (spells(plain, "N"@) || spells(plain, "NO"@))
            ==> crate::divide::typed(measure, s, plain, number) == (
            MarkerState { align: false, step: Step::Amount, ..s },
            Some(ResultModel::NeedPoint),
        ),
        s.step == Step::Align ==> crate::divide::entered(s) == (
            MarkerState { align: true, step: Step::Amount, ..s },
            ResultModel::NeedPoint,
        ),
        s.step != Step::Align ==> crate::divide::entered(s) == (s, ResultModel::Cancel),
{
    capitals_spell(plain, "B"@);
    capitals_spell(plain, "BLOCK"@);
    capitals_spell(plain, "Y"@);
    capitals_spell(plain, "YES"@);
    capitals_spell(plain, "N"@);
    capitals_spell(plain, "NO"@);
    reveal_strlit("Y");
    reveal_strlit("YES");
    reveal_strlit("N");
    reveal_strlit("NO");
    assert("Y"@.len() == 1);
    assert("Y"@[0] == 'Y');
    assert("YES"@.len() == 3);
    assert("N"@.len() == 1);
    assert("N"@[0] == 'N');
    assert("NO"@.len() == 2);
    if s.step == Step::BlockName && 0 <= k < s.blocks.len() && crate::text::same_but_case(
        s.blocks[k],
        plain,
    ) {
        lemma_found(s.blocks, plain, k);
    }
}

proof fn lemma_found(list: Seq<Seq<char>>, name: Seq<char>, k: int)
    requires
        0 <= k < list.len(),
        crate::text::same_but_case(list[k], name),
    ensures
        crate::divide::found_name(list, name) is Some,
        crate::text::same_but_case(crate::divide::found_name(list, name)->0, name),
        list.contains(crate::divide::found_name(list, name)->0),
    decreases list.len(),
{
    if !crate::text::same_but_case(list[0], name) {
        let rest = list.drop_first();
        lemma_found(rest, name, k - 1);
        let i = choose|i: int|
            0 <= i < rest.len() && rest[i] == crate::divide::found_name(rest, name)->0;
        assert(list[i + 1] == rest[i]);
    } else {
        assert(list[0] == crate::divide::found_name(list, name)->0);
    }
}

/// A picked curve becomes the target, at the point where it was picked; what is no
/// such curve is passed over.
pub proof fn picked_curve_is_marked(s: MarkerState, handle: Handle, point: Point3)
    ensures
        handle != 0 && s.valid_pick ==> crate::divide::picked(s, handle, point) == (MarkerState {
            target: Some(handle),
            pick_point: point,
            step: Step::Amount,
            ..s
        }),
        handle == 0 || !s.valid_pick ==> crate::divide::picked(s, handle, point) == s,
{
}

/// A marker is a point at its spot, or a reference to the block placed there. Each
/// spot gets one, in order, and dividing takes one fewer than there are parts.
pub proof fn spots_are_marked(spots: Seq<Spot>, marker: Option<MarkerModel>, k: int, n: int)
    requires
        0 <= k < spots.len(),
    ensures
        ({
            let list = all_marked(spots, marker);
            let e = list[k];
            &&& list.len() == spots.len()
            &&& e.common.handle == 0
            &&& e.common.layer == "0"@
            &&& marker is None ==> e.shape == ShapeModel::Point(spots[k].point)
            &&& marker is Some ==> {
                &&& e.shape is Insert
                &&& e.shape->Insert_0.block_name == (marker->0).block
                &&& e.shape->Insert_0.place == spots[k].place
                &&& e.shape->Insert_0.attributes.len() == 0
            }
        }),
        2 <= n <= 32767 ==> division_count(n) + 1 == n,
        n < 2 || n > 32767 ==> division_count(n) == 0,
{
}

/// A curve with a length is marked once at each spot, a point where no block was
/// chosen. A curve without one is not marked, and along a curve nothing is set at a
/// distance of zero or below.
pub proof fn curves_with_a_length_are_marked(
    spots: Seq<Spot>,
    length: Real,
    marker: Option<MarkerModel>,
    k: int,
)
    requires
        0 <= k < spots.len(),
    ensures
        ({
            let divided = crate::divide::division_marks(true, spots, marker);
            &&& divided.len() == spots.len()
            &&& marker is None ==> divided[k].shape is Point
            &&& marker is Some ==> divided[k].shape is Insert
            &&& crate::divide::measure_marks(length, Some(spots), marker) == (if length.positive() {
                divided
            } else {
                Seq::empty()
            })
        }),
        crate::divide::division_marks(false, spots, marker).len() == 0,
        crate::divide::measure_marks(length, None, marker).len() == 0,
{
}

/// Beside the cursor DIVIDE asks for a number of parts and MEASURE for a distance, once
/// the curve is picked and before a block is chosen. LENGTHEN asks for an angle where the
/// change is one, for a number where it is another, and for a point at every other time.
pub proof fn fields_ask_for_the_value(m: MarkerState, s: LengthenState)
    ensures
        m.step is Amount ==> {
            &&& crate::divide::field_of(m, false) is Scalar
            &&& crate::divide::field_of(m, true) is Distance
        },
        !(m.step is Amount) ==> crate::divide::field_of(m, false) is Point
            && crate::divide::field_of(m, true) is Point,
        s.state == LenState::Value(ValueMode::DeltaAngle) || s.state == LenState::Value(
            ValueMode::TotalAngle,
        ) ==> crate::lengthen::field_of(s) is Angle,
        s.state is Value && s.state != LenState::Value(ValueMode::DeltaAngle) && s.state
            != LenState::Value(ValueMode::TotalAngle) ==> crate::lengthen::field_of(s) is Scalar,
        !(s.state is Value) ==> crate::lengthen::field_of(s) is Point,
{
}

} // verus!
