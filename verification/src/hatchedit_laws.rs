//! What the answers to the questions of the hatch editor do to the hatch.
use crate::command::ResultModel;
use crate::entity::{Color, EntityModel, Handle, HatchStyle, ShapeModel, Transparency};
use crate::hatchedit::{
    all_found, appearing, associating, candidates, entered, handle_of, handles_of, number_parts,
    picked, read_numbers, selected, spotted, started, typed, with_new, with_rings, without_marks, words, Clarity, EditingModel, FoundPath, HatchEditModel,
    HatchState, Input, ReadingModel,
};
use crate::text::{
    ascii_upper, decimal, digits_value, points_for_commas, split_on, trimmed,
};
use crate::text_laws::{
    capitals_spell, decimals_read_back, only_outer_blanks_go, separators_part, spells,
};
use crate::value::Real;
use vstd::prelude::*;

verus! {

/// An edit of the hatch `e` with the pattern that it holds.
pub open spec fn edit_of(e: EditingModel, operation: HatchEditModel) -> Option<ResultModel> {
    Some(
        ResultModel::HatcheditApply {
            handle: e.handle,
            name: e.name,
            scale: e.scale,
            angle: e.angle,
            operation,
        },
    )
}

/// Whether a text reads as one of two words, in any case.
pub open spec fn says(plain: Seq<char>, a: Seq<char>, b: Seq<char>) -> bool {
    spells(plain, a) || spells(plain, b)
}

proof fn lemma_says(plain: Seq<char>)
    ensures
        forall|word: Seq<char>| #[trigger] spells(plain, word) <==> ascii_upper(plain) == word,
{
    assert forall|word: Seq<char>| #[trigger] spells(plain, word) <==> ascii_upper(plain)
        == word by {
        capitals_spell(plain, word);
    }
}

/// At the question for the annotative property, no and yes answer with an edit
/// that switches the property off and on, and change nothing else.
pub proof fn annotative_is_answered(
    s: HatchState,
    plain: Seq<char>,
    up: Seq<char>,
    read: ReadingModel,
)
    requires
        s.input == Some(Input::Annotative),
        s.editing is Some,
    ensures
        says(plain, "N"@, "NO"@) ==> typed(s, plain, up, read) == (
            HatchState { annotative: Some(false), ..s },
            edit_of(
                s.editing->0,
                HatchEditModel::Update {
                    origin: s.origin,
                    disassociate: s.disassociate,
                    style: s.style,
                    annotative: Some(false),
                },
            ),
        ),
        says(plain, "Y"@, "YES"@) ==> typed(s, plain, up, read) == (
            HatchState { annotative: Some(true), ..s },
            edit_of(
                s.editing->0,
                HatchEditModel::Update {
                    origin: s.origin,
                    disassociate: s.disassociate,
                    style: s.style,
                    annotative: Some(true),
                },
            ),
        ),
        !says(plain, "N"@, "NO"@) && !says(plain, "Y"@, "YES"@) ==> typed(s, plain, up, read)
            == (s, Some(ResultModel::NeedPoint)),
{
    lemma_says(plain);
    reveal_strlit("N");
    reveal_strlit("NO");
    reveal_strlit("Y");
    reveal_strlit("YES");
    assert("N"@[0] == 'N');
    assert("Y"@[0] == 'Y');
}

/// At the question whether a recreated boundary is associated, no and yes answer
/// with a recreated boundary that is not and that is, of the kind chosen before.
pub proof fn association_is_answered(
    s: HatchState,
    plain: Seq<char>,
    up: Seq<char>,
    read: ReadingModel,
)
    requires
        s.input == Some(Input::BoundaryAssociate),
        s.editing is Some,
    ensures
        says(plain, "N"@, "NO"@) ==> typed(s, plain, up, read) == (
            s,
            edit_of(
                s.editing->0,
                HatchEditModel::RecreateBoundary { associate: false, region: s.boundary_region },
            ),
        ),
        says(plain, "Y"@, "YES"@) ==> typed(s, plain, up, read) == (
            s,
            edit_of(
                s.editing->0,
                HatchEditModel::RecreateBoundary { associate: true, region: s.boundary_region },
            ),
        ),
        !says(plain, "N"@, "NO"@) && !says(plain, "Y"@, "YES"@) ==> typed(s, plain, up, read)
            == (s, Some(ResultModel::NeedPoint)),
{
    lemma_says(plain);
    reveal_strlit("N");
    reveal_strlit("NO");
    reveal_strlit("Y");
    reveal_strlit("YES");
    assert("N"@[0] == 'N');
    assert("Y"@[0] == 'Y');
}

/// The kind of boundary is chosen before its association is asked for: a region,
/// or a polyline, which the Enter key chooses too.
pub proof fn boundary_kind_is_answered(
    s: HatchState,
    plain: Seq<char>,
    up: Seq<char>,
    read: ReadingModel,
)
    requires
        s.input == Some(Input::BoundaryType),
    ensures
        says(plain, "P"@, "POLYLINE"@) ==> typed(s, plain, up, read) == (
            HatchState {
                boundary_region: false,
                input: Some(Input::BoundaryAssociate),
                ..s
            },
            Some(ResultModel::NeedPoint),
        ),
        says(plain, "R"@, "REGION"@) ==> typed(s, plain, up, read) == (
            HatchState {
                boundary_region: true,
                input: Some(Input::BoundaryAssociate),
                ..s
            },
            Some(ResultModel::NeedPoint),
        ),
        entered(s) == (
            HatchState {
                boundary_region: false,
                input: Some(Input::BoundaryAssociate),
                ..s
            },
            ResultModel::NeedPoint,
        ),
{
    lemma_says(plain);
    reveal_strlit("P");
    reveal_strlit("POLYLINE");
    reveal_strlit("R");
    reveal_strlit("REGION");
    assert("P"@[0] == 'P');
    assert("R"@[0] == 'R');
}

/// Each word for a style answers with an edit to just that style.
pub proof fn style_is_answered(s: HatchState, plain: Seq<char>, up: Seq<char>, read: ReadingModel)
    requires
        s.input == Some(Input::Style),
        s.editing is Some,
    ensures
        ({
            let (t, r) = typed(s, plain, up, read);
            let styled = |style: HatchStyle|
                t == HatchState { style: Some(style), ..s } && r == edit_of(
                    s.editing->0,
                    HatchEditModel::Update {
                        origin: s.origin,
                        disassociate: s.disassociate,
                        style: Some(style),
                        annotative: s.annotative,
                    },
                );
            &&& says(plain, "I"@, "IGNORE"@) ==> styled(HatchStyle::Ignore)
            &&& says(plain, "O"@, "OUTER"@) ==> styled(HatchStyle::Outer)
            &&& says(plain, "N"@, "NORMAL"@) ==> styled(HatchStyle::Normal)
        }),
        entered(s).0 == (HatchState { style: Some(s.style_current), ..s }),
        Some(entered(s).1) == edit_of(
            s.editing->0,
            HatchEditModel::Update {
                origin: s.origin,
                disassociate: s.disassociate,
                style: Some(s.style_current),
                annotative: s.annotative,
            },
        ),
{
    lemma_says(plain);
    reveal_strlit("I");
    reveal_strlit("IGNORE");
    reveal_strlit("O");
    reveal_strlit("OUTER");
    reveal_strlit("N");
    reveal_strlit("NORMAL");
    assert("I"@[0] == 'I');
    assert("IGNORE"@[0] == 'I');
    assert("O"@[0] == 'O');
    assert("N"@[0] == 'N');
    assert("NORMAL"@[0] == 'N');
}

/// Each word for an order of drawing answers with that order, and no change ends
/// the command.
pub proof fn order_is_answered(s: HatchState, plain: Seq<char>, up: Seq<char>, read: ReadingModel)
    requires
        s.input == Some(Input::DrawOrder),
        s.editing is Some,
    ensures
        ({
            let (t, r) = typed(s, plain, up, read);
            let e = s.editing->0;
            &&& t == s
            &&& says(plain, "F"@, "FRONT"@) ==> r == edit_of(e, HatchEditModel::DrawOrderFront)
            &&& says(plain, "B"@, "BACK"@) ==> r == edit_of(e, HatchEditModel::DrawOrderBack)
            &&& says(plain, "H"@, "BEHIND"@) ==> r == edit_of(
                e,
                HatchEditModel::DrawOrderBoundary { above: false },
            )
            &&& spells(plain, "D"@) ==> r == edit_of(
                e,
                HatchEditModel::DrawOrderBoundary { above: true },
            )
            &&& says(plain, "N"@, "NOT"@) ==> r == Some(ResultModel::Cancel)
        }),
        entered(s) == (s, ResultModel::Cancel),
{
    lemma_says(plain);
    reveal_strlit("F");
    reveal_strlit("FRONT");
    reveal_strlit("B");
    reveal_strlit("BACK");
    reveal_strlit("H");
    reveal_strlit("BEHIND");
    reveal_strlit("D");
    reveal_strlit("N");
    reveal_strlit("NOT");
    assert("F"@[0] == 'F');
    assert("B"@[0] == 'B');
    assert("H"@[0] == 'H');
    assert("D"@[0] == 'D');
    assert("N"@[0] == 'N');
}

proof fn lemma_decimal_plain(n: nat)
    ensures
        ascii_upper(decimal(n)) == decimal(n),
        decimal(n).len() > 0,
        forall|i: int| 0 <= i < decimal(n).len() ==> 48 <= #[trigger] decimal(n)[i] as int <= 57,
    decreases n,
{
    if n >= 10 {
        lemma_decimal_plain(n / 10);
    }
    let d = decimal(n);
    assert forall|i: int| 0 <= i < d.len() implies 48 <= #[trigger] d[i] as int <= 57 by {
        if n >= 10 && i < d.len() - 1 {
            assert(d[i] == decimal(n / 10)[i]);
        } else if n >= 10 {
            assert(d[i] == crate::text::digit_char(n % 10));
        } else {
            assert(d[i] == crate::text::digit_char(n));
        }
    }
    assert(ascii_upper(d) =~= d);
}

/// An edit of the colour alone.
pub open spec fn colored(e: EditingModel, color: Color) -> Option<ResultModel> {
    edit_of(e, HatchEditModel::Appearance { color: Some(color), layer: None, transparency: None })
}

/// Each word for a colour answers with an edit to that colour and nothing else: a
/// full stop is the current colour, and seven colours have names.
pub proof fn color_is_answered(s: HatchState, plain: Seq<char>, up: Seq<char>, read: ReadingModel)
    requires
        s.input == Some(Input::Color),
        s.editing is Some,
    ensures
        ({
            let (t, r) = typed(s, plain, up, read);
            let e = s.editing->0;
            &&& !says(plain, "T"@, "TRUECOLOR"@) ==> t == s
            &&& says(plain, "T"@, "TRUECOLOR"@) ==> t == (HatchState {
                input: Some(Input::Truecolor),
                ..s
            }) && r == Some(ResultModel::NeedPoint)
            &&& plain == "."@ ==> r == colored(e, s.current_color)
            &&& spells(plain, "BYLAYER"@) ==> r == colored(e, Color::ByLayer)
            &&& spells(plain, "BYBLOCK"@) ==> r == colored(e, Color::ByBlock)
            &&& spells(plain, "RED"@) ==> r == colored(e, Color::Index(1))
            &&& spells(plain, "YELLOW"@) ==> r == colored(e, Color::Index(2))
            &&& spells(plain, "GREEN"@) ==> r == colored(e, Color::Index(3))
            &&& spells(plain, "CYAN"@) ==> r == colored(e, Color::Index(4))
            &&& spells(plain, "BLUE"@) ==> r == colored(e, Color::Index(5))
            &&& spells(plain, "MAGENTA"@) ==> r == colored(e, Color::Index(6))
            &&& spells(plain, "WHITE"@) ==> r == colored(e, Color::Index(7))
        }),
{
    lemma_says(plain);
    reveal_strlit("T");
    reveal_strlit("TRUECOLOR");
    reveal_strlit(".");
    reveal_strlit("BYLAYER");
    reveal_strlit("BYBLOCK");
    reveal_strlit("RED");
    reveal_strlit("YELLOW");
    reveal_strlit("GREEN");
    reveal_strlit("CYAN");
    reveal_strlit("BLUE");
    reveal_strlit("MAGENTA");
    reveal_strlit("WHITE");
    assert("T"@[0] == 'T');
    assert("."@[0] == '.');
    assert("BYLAYER"@[0] == 'B');
    assert("BYLAYER"@[2] == 'L');
    assert("BYBLOCK"@[0] == 'B');
    assert("BYBLOCK"@[2] == 'B');
    assert("GREEN"@[0] == 'G');
    assert("CYAN"@[0] == 'C');
    assert("BLUE"@[0] == 'B');
    assert("MAGENTA"@[0] == 'M');
    assert("WHITE"@[0] == 'W');
    if plain == "."@ {
        assert(spells(plain, "."@));
    }
}

/// A number up to 256 answers with the colour of that index, 0 being the colour of
/// the block and 256 that of the layer. A greater one is not taken.
pub proof fn color_number_is_answered(s: HatchState, n: nat, up: Seq<char>, read: ReadingModel)
    requires
        s.input == Some(Input::Color),
        s.editing is Some,
        n <= 32767,
    ensures
        ({
            let (t, r) = typed(s, decimal(n), up, read);
            let e = s.editing->0;
            &&& t == s
            &&& n == 0 ==> r == colored(e, Color::ByBlock)
            &&& n == 256 ==> r == colored(e, Color::ByLayer)
            &&& 0 < n < 256 ==> r == colored(e, Color::Index(n as u8))
            &&& n > 256 ==> r == Some(ResultModel::NeedPoint)
        }),
{
    lemma_decimal_plain(n);
    decimals_read_back(n as int, -32768, 32767);
    reveal_strlit("T");
    reveal_strlit("TRUECOLOR");
    reveal_strlit(".");
    reveal_strlit("BYLAYER");
    reveal_strlit("BYBLOCK");
    reveal_strlit("RED");
    reveal_strlit("YELLOW");
    reveal_strlit("GREEN");
    reveal_strlit("CYAN");
    reveal_strlit("BLUE");
    reveal_strlit("MAGENTA");
    reveal_strlit("WHITE");
    assert("T"@[0] == 'T');
    assert("."@[0] == '.');
    assert("BYLAYER"@[0] == 'B');
    assert("BYLAYER"@[2] == 'L');
    assert("BYBLOCK"@[0] == 'B');
    assert("BYBLOCK"@[2] == 'B');
    assert("GREEN"@[0] == 'G');
    assert("CYAN"@[0] == 'C');
    assert("BLUE"@[0] == 'B');
    assert("MAGENTA"@[0] == 'M');
    assert("WHITE"@[0] == 'W');
    assert(48 <= decimal(n)[0] as int <= 57);
}

/// Three numbers up to 255 between commas answer with the colour of that much
/// red, green and blue, in this order. With a greater number the question stays.
pub proof fn true_color_is_answered(
    s: HatchState,
    red: nat,
    green: nat,
    blue: nat,
    up: Seq<char>,
    read: ReadingModel,
)
    requires
        s.input == Some(Input::Truecolor),
        s.editing is Some,
    ensures
        ({
            let plain = decimal(red).push(',') + (decimal(green).push(',') + decimal(blue));
            if red <= 255 && green <= 255 && blue <= 255 {
                typed(s, plain, up, read) == (
                    s,
                    colored(
                        s.editing->0,
                        Color::Rgb { r: red as u8, g: green as u8, b: blue as u8 },
                    ),
                )
            } else {
                typed(s, plain, up, read) == (s, Some(ResultModel::NeedPoint))
            }
        }),
{
    lemma_decimal_plain(red);
    lemma_decimal_plain(green);
    lemma_decimal_plain(blue);
    decimals_read_back(
        red as int,
        0,
        if red > 255 {
            red as int
        } else {
            255
        },
    );
    decimals_read_back(
        green as int,
        0,
        if green > 255 {
            green as int
        } else {
            255
        },
    );
    decimals_read_back(
        blue as int,
        0,
        if blue > 255 {
            blue as int
        } else {
            255
        },
    );
    let dr = decimal(red);
    let dg = decimal(green);
    let db = decimal(blue);
    let tail = dg.push(',') + db;
    let plain = dr.push(',') + tail;
    reveal_strlit(",");
    let seps = ","@;
    assert(seps[0] == ',');
    assert forall|n: nat, i: int| 0 <= i < decimal(n).len() implies !seps.contains(
        #[trigger] decimal(n)[i],
    ) by {
        lemma_decimal_plain(n);
        if seps.contains(decimal(n)[i]) {
            let k = choose|k: int| 0 <= k < seps.len() && seps[k] == decimal(n)[i];
            assert(k == 0);
        }
    }
    separators_part(dr, ',', tail, seps);
    separators_part(dg, ',', db, seps);
    separators_part(db, ',', db, seps);
    assert(ascii_upper(plain) =~= plain) by {
        assert forall|i: int| 0 <= i < plain.len() implies ascii_upper(plain)[i] == plain[i] by {
            if i < dr.len() {
                assert(plain[i] == dr[i]);
            } else if i == dr.len() {
                assert(plain[i] == ',');
            } else {
                let j = i - dr.len() - 1;
                assert(plain[i] == tail[j]);
                if j < dg.len() {
                    assert(tail[j] == dg[j]);
                } else if j == dg.len() {
                    assert(tail[j] == ',');
                } else {
                    assert(tail[j] == db[j - dg.len() - 1]);
                }
            }
        }
    }
    assert(split_on(plain, seps) =~= seq![dr, dg, db]);
    assert forall|n: nat| #[trigger] trimmed(decimal(n)) == decimal(n) by {
        lemma_decimal_plain(n);
        let d = decimal(n);
        assert(48 <= d[0] as int <= 57);
        assert(48 <= d[d.len() - 1] as int <= 57);
        let none = Seq::<char>::empty();
        only_outer_blanks_go(none, d, none);
        assert(none + d + none =~= d);
    }
    assert(trimmed(dr) == dr && trimmed(dg) == dg && trimmed(db) == db);
}

/// A transparency is a number of hundredths up to ninety, the current one by a
/// full stop, or that of the layer or the block.
pub proof fn transparency_is_answered(
    s: HatchState,
    plain: Seq<char>,
    n: nat,
    up: Seq<char>,
    read: ReadingModel,
)
    requires
        s.input == Some(Input::Transparency),
        s.editing is Some,
    ensures
        ({
            let (t, r) = typed(s, plain, up, read);
            let clear = |c: Clarity|
                edit_of(
                    s.editing->0,
                    HatchEditModel::Appearance {
                        color: None,
                        layer: None,
                        transparency: Some(c),
                    },
                );
            &&& t == s
            &&& plain == "."@ ==> r == clear(Clarity::Exactly(s.current_transparency))
            &&& spells(plain, "BYLAYER"@) ==> r == clear(Clarity::Exactly(Transparency::ByLayer))
            &&& spells(plain, "BYBLOCK"@) ==> r == clear(Clarity::Exactly(Transparency::ByBlock))
            &&& plain == decimal(n) && n <= 90 ==> r == clear(Clarity::Percent(n as u8))
            &&& plain == decimal(n) && 90 < n <= 255 ==> r == Some(ResultModel::NeedPoint)
        }),
{
    lemma_says(plain);
    lemma_decimal_plain(n);
    if n <= 255 {
        decimals_read_back(n as int, 0, 255);
    }
    reveal_strlit(".");
    reveal_strlit("BYLAYER");
    reveal_strlit("BYBLOCK");
    assert("BYLAYER"@[2] == 'L');
    assert("BYBLOCK"@[2] == 'B');
    assert(48 <= decimal(n)[0] as int <= 57);
    if plain == "."@ {
        assert(spells(plain, "."@));
    }
}

/// A layer is given by its name as it was typed.
pub proof fn layer_is_answered(s: HatchState, plain: Seq<char>, up: Seq<char>, read: ReadingModel)
    requires
        s.input == Some(Input::Layer),
        s.editing is Some,
    ensures
        plain.len() > 0 ==> typed(s, plain, up, read) == (
            s,
            edit_of(
                s.editing->0,
                HatchEditModel::Appearance {
                    color: None,
                    layer: Some(plain),
                    transparency: None,
                },
            ),
        ),
        plain.len() == 0 ==> typed(s, plain, up, read) == (s, Some(ResultModel::NeedPoint)),
{
}

/// A known pattern becomes the pattern of the hatch. The solid one is applied at
/// once; any other goes on to the scale, and the scale goes on to the angle. An
/// unknown one changes nothing.
pub proof fn pattern_is_answered(s: HatchState, plain: Seq<char>, up: Seq<char>, read: ReadingModel)
    requires
        s.input == Some(Input::Pattern),
        s.editing is Some,
    ensures
        ({
            let (t, r) = typed(s, plain, up, read);
            let e = s.editing->0;
            &&& !read.known_pattern ==> t == s && r == Some(ResultModel::NeedPoint)
            &&& read.known_pattern ==> {
                &&& t.editing is Some
                &&& (t.editing->0).handle == e.handle
                &&& spells(plain, (t.editing->0).name)
                &&& (t.editing->0).scale == e.scale
                &&& (t.editing->0).angle == e.angle
            }
            &&& read.known_pattern && spells(plain, "SOLID"@) ==> {
                &&& t.input == s.input
                &&& r == edit_of(
                    EditingModel { name: "SOLID"@, ..e },
                    HatchEditModel::Update {
                        origin: s.origin,
                        disassociate: s.disassociate,
                        style: s.style,
                        annotative: s.annotative,
                    },
                )
            }
            &&& read.known_pattern && !spells(plain, "SOLID"@) ==> {
                &&& t.input == Some(Input::Scale)
                &&& r == Some(ResultModel::NeedPoint)
            }
        }),
{
    lemma_says(plain);
}

/// A scale is a finite number above zero, and the angle is asked for behind it;
/// an angle is any finite number, and with it the pattern is applied.
pub proof fn scale_and_angle_are_answered(
    s: HatchState,
    plain: Seq<char>,
    up: Seq<char>,
    read: ReadingModel,
    v: Real,
)
    requires
        s.editing is Some,
        read.numbers.len() > 0,
        read.numbers[0] == Some(v),
    ensures
        s.input == Some(Input::Scale) ==> {
            let (t, r) = typed(s, plain, up, read);
            &&& r == Some(ResultModel::NeedPoint)
            &&& 0 < v.bits < 0x7FF0_0000_0000_0000 ==> t == (HatchState {
                editing: Some(EditingModel { scale: v, ..s.editing->0 }),
                input: Some(Input::Angle),
                ..s
            })
            &&& !(0 < v.bits < 0x7FF0_0000_0000_0000) ==> t == s
        },
        s.input == Some(Input::Angle) ==> {
            let (t, r) = typed(s, plain, up, read);
            let e = EditingModel { angle: v, ..s.editing->0 };
            &&& v.finite() ==> t == (HatchState { editing: Some(e), ..s }) && r == edit_of(
                e,
                HatchEditModel::Update {
                    origin: s.origin,
                    disassociate: s.disassociate,
                    style: s.style,
                    annotative: s.annotative,
                },
            )
            &&& !v.finite() ==> t == s && r == Some(ResultModel::NeedPoint)
        },
{
}

/// Each option asks for its value, and the typed word changes nothing yet.
pub proof fn options_ask(s: HatchState, plain: Seq<char>, up: Seq<char>, read: ReadingModel)
    requires
        s.input is None,
    ensures
        ({
            let asks = |input: Input|
                typed(s, plain, up, read) == (
                    HatchState { input: Some(input), ..s },
                    Some(ResultModel::NeedPoint),
                );
            &&& says(plain, "S"@, "STYLE"@) ==> asks(Input::Style)
            &&& says(plain, "P"@, "PROPERTIES"@) ==> asks(Input::Pattern)
            &&& says(plain, "CO"@, "COLOR"@) ==> asks(Input::Color)
            &&& says(plain, "LA"@, "LAYER"@) ==> asks(Input::Layer)
            &&& says(plain, "AN"@, "ANNOTATIVE"@) ==> asks(Input::Annotative)
            &&& says(plain, "T"@, "TRANSPARENCY"@) ==> asks(Input::Transparency)
            &&& says(plain, "DR"@, "DRAW"@) ==> asks(Input::DrawOrder)
            &&& spells(plain, "DRAW ORDER"@) ==> asks(Input::DrawOrder)
            &&& says(plain, "B"@, "BOUNDARY"@) ==> asks(Input::BoundaryType)
            &&& says(plain, "R"@, "RECREATE"@) ==> asks(Input::BoundaryType)
        }),
{
    lemma_says(plain);
    reveal_strlit("S");
    reveal_strlit("STYLE");
    reveal_strlit("P");
    reveal_strlit("PROPERTIES");
    reveal_strlit("CO");
    reveal_strlit("COLOR");
    reveal_strlit("LA");
    reveal_strlit("LAYER");
    reveal_strlit("AN");
    reveal_strlit("ANNOTATIVE");
    reveal_strlit("T");
    reveal_strlit("TRANSPARENCY");
    reveal_strlit("DR");
    reveal_strlit("DRAW");
    reveal_strlit("DRAW ORDER");
    reveal_strlit("B");
    reveal_strlit("BOUNDARY");
    reveal_strlit("R");
    reveal_strlit("RECREATE");
    assert("S"@[0] == 'S');
    assert("STYLE"@[0] == 'S');
    assert("P"@[0] == 'P');
    assert("PROPERTIES"@[0] == 'P');
    assert("CO"@[0] == 'C');
    assert("COLOR"@[0] == 'C');
    assert("LA"@[0] == 'L');
    assert("LAYER"@[0] == 'L');
    assert("AN"@[0] == 'A');
    assert("ANNOTATIVE"@[0] == 'A');
    assert("T"@[0] == 'T');
    assert("DR"@[0] == 'D');
    assert("DRAW ORDER"@[0] == 'D');
    assert("B"@[0] == 'B');
    assert("BOUNDARY"@[0] == 'B');
    assert("R"@[0] == 'R');
    assert("RECREATE"@[0] == 'R');
}

proof fn lemma_no_option(plain: Seq<char>, up: Seq<char>)
    requires
        spells(plain, up),
        up.len() >= 1,
        ({
            ||| up.len() >= 2 && up[1] == ' ' && up[0] != 'D'
            ||| up[0] == '+'
            ||| up[0] == '-'
            ||| up == "D"@
            ||| up == "N"@
            ||| up == "E"@
            ||| up == "F"@
            ||| up == "FRONT"@
            ||| up == "BACK"@
        }),
    ensures
        ascii_upper(plain) == up,
        crate::hatchedit::option_input(up) is None,
        up != "H"@,
        up != "HATCHES"@,
        up != "SEPARATE"@,
        up != "AS"@,
        up != "ASSOCIATE"@,
        up != "DI"@,
        up != "DISASSOCIATE"@,
        up != "ANNOTATIVE"@,
{
    lemma_says(plain);
    reveal_strlit("S");
    reveal_strlit("STYLE");
    reveal_strlit("P");
    reveal_strlit("PROPERTIES");
    reveal_strlit("CO");
    reveal_strlit("COLOR");
    reveal_strlit("LA");
    reveal_strlit("LAYER");
    reveal_strlit("AN");
    reveal_strlit("ANNOTATIVE");
    reveal_strlit("T");
    reveal_strlit("TRANSPARENCY");
    reveal_strlit("DR");
    reveal_strlit("DRAW");
    reveal_strlit("DRAW ORDER");
    reveal_strlit("B");
    reveal_strlit("BOUNDARY");
    reveal_strlit("R");
    reveal_strlit("RECREATE");
    reveal_strlit("H");
    reveal_strlit("HATCHES");
    reveal_strlit("SEPARATE");
    reveal_strlit("AS");
    reveal_strlit("ASSOCIATE");
    reveal_strlit("DI");
    reveal_strlit("DISASSOCIATE");
    reveal_strlit("D");
    reveal_strlit("N");
    reveal_strlit("E");
    reveal_strlit("F");
    reveal_strlit("FRONT");
    reveal_strlit("BACK");
    assert("S"@[0] == 'S');
    assert("STYLE"@[0] == 'S');
    assert("P"@[0] == 'P');
    assert("PROPERTIES"@[0] == 'P');
    assert("CO"@[0] == 'C');
    assert("COLOR"@[0] == 'C');
    assert("LA"@[0] == 'L');
    assert("LAYER"@[0] == 'L');
    assert("AN"@[0] == 'A');
    assert("AN"@[1] == 'N');
    assert("ANNOTATIVE"@[0] == 'A');
    assert("T"@[0] == 'T');
    assert("TRANSPARENCY"@[0] == 'T');
    assert("DR"@[0] == 'D');
    assert("DR"@[1] == 'R');
    assert("DRAW"@[0] == 'D');
    assert("DRAW ORDER"@[0] == 'D');
    assert("B"@[0] == 'B');
    assert("BOUNDARY"@[0] == 'B');
    assert("R"@[0] == 'R');
    assert("RECREATE"@[0] == 'R');
    assert("H"@[0] == 'H');
    assert("SEPARATE"@[0] == 'S');
    assert("AS"@[0] == 'A');
    assert("AS"@[1] == 'S');
    assert("DI"@[0] == 'D');
    assert("DI"@[1] == 'I');
    assert("DISASSOCIATE"@[0] == 'D');
    assert("D"@[0] == 'D');
    assert("N"@[0] == 'N');
    assert("E"@[0] == 'E');
    assert("F"@[0] == 'F');
    assert("FRONT"@[0] == 'F');
    assert("BACK"@[0] == 'B');
}

/// The options that edit at once: each hatch on its own, a boundary to look for,
/// and the end of the association.
pub proof fn options_edit(s: HatchState, plain: Seq<char>, up: Seq<char>, read: ReadingModel)
    requires
        s.input is None,
        s.editing is Some,
    ensures
        ({
            let (t, r) = typed(s, plain, up, read);
            let e = s.editing->0;
            &&& says(plain, "H"@, "HATCHES"@) || spells(plain, "SEPARATE"@) ==> t == s && r
                == edit_of(e, HatchEditModel::Separate)
            &&& says(plain, "AS"@, "ASSOCIATE"@) ==> t == s && r == edit_of(
                e,
                HatchEditModel::BeginAssociate,
            )
            &&& says(plain, "DI"@, "DISASSOCIATE"@) ==> t == (HatchState {
                disassociate: true,
                ..s
            }) && r == edit_of(
                e,
                HatchEditModel::Update {
                    origin: s.origin,
                    disassociate: true,
                    style: s.style,
                    annotative: s.annotative,
                },
            )
        }),
{
    lemma_says(plain);
    reveal_strlit("S");
    reveal_strlit("STYLE");
    reveal_strlit("P");
    reveal_strlit("PROPERTIES");
    reveal_strlit("CO");
    reveal_strlit("COLOR");
    reveal_strlit("LA");
    reveal_strlit("LAYER");
    reveal_strlit("AN");
    reveal_strlit("ANNOTATIVE");
    reveal_strlit("T");
    reveal_strlit("TRANSPARENCY");
    reveal_strlit("DR");
    reveal_strlit("DRAW");
    reveal_strlit("DRAW ORDER");
    reveal_strlit("B");
    reveal_strlit("BOUNDARY");
    reveal_strlit("R");
    reveal_strlit("RECREATE");
    reveal_strlit("H");
    reveal_strlit("HATCHES");
    reveal_strlit("SEPARATE");
    reveal_strlit("AS");
    reveal_strlit("ASSOCIATE");
    reveal_strlit("DI");
    reveal_strlit("DISASSOCIATE");
    assert("S"@[0] == 'S');
    assert("STYLE"@[0] == 'S');
    assert("P"@[0] == 'P');
    assert("PROPERTIES"@[0] == 'P');
    assert("CO"@[0] == 'C');
    assert("COLOR"@[0] == 'C');
    assert("LA"@[0] == 'L');
    assert("LAYER"@[0] == 'L');
    assert("AN"@[0] == 'A');
    assert("AN"@[1] == 'N');
    assert("ANNOTATIVE"@[0] == 'A');
    assert("T"@[0] == 'T');
    assert("TRANSPARENCY"@[0] == 'T');
    assert("DR"@[0] == 'D');
    assert("DR"@[1] == 'R');
    assert("DRAW ORDER"@[0] == 'D');
    assert("B"@[0] == 'B');
    assert("BOUNDARY"@[0] == 'B');
    assert("R"@[0] == 'R');
    assert("RECREATE"@[0] == 'R');
    assert("H"@[0] == 'H');
    assert("SEPARATE"@[0] == 'S');
    assert("AS"@[0] == 'A');
    assert("AS"@[1] == 'S');
    assert("DI"@[0] == 'D');
    assert("DI"@[1] == 'I');
    assert("DISASSOCIATE"@[0] == 'D');
}

/// A letter, a blank and a value set the value and go on: `P` the name of the
/// pattern, `S` its scale, `A` its angle, `O` the origin and `Y` the style.
pub proof fn letters_set_values(
    s: HatchState,
    plain: Seq<char>,
    letter: char,
    value: Seq<char>,
    read: ReadingModel,
)
    requires
        s.input is None,
        s.editing is Some,
        value.len() > 0,
        33 <= value[0] as int <= 126,
        33 <= value.last() as int <= 126,
        letter == 'P' || letter == 'S' || letter == 'A' || letter == 'O' || letter == 'Y',
        spells(plain, seq![letter, ' '] + value),
    ensures
        ({
            let up = seq![letter, ' '] + value;
            let (t, r) = typed(s, plain, up, read);
            let e = s.editing->0;
            let v = read.numbers[0];
            &&& r == Some(ResultModel::NeedPoint)
            &&& letter == 'P' ==> t == (HatchState {
                editing: Some(EditingModel { name: value, ..e }),
                ..s
            })
            &&& letter == 'S' && read.numbers.len() > 0 && v is Some && !v->0.nan()
                && v->0.rank() > 0 ==> t == (HatchState {
                editing: Some(EditingModel { scale: v->0, ..e }),
                ..s
            })
            &&& letter == 'S' && read.numbers.len() > 0 && v is Some && v->0.rank() <= 0 ==> t
                == s
            &&& letter == 'A' && read.numbers.len() > 0 && v is Some ==> t == (HatchState {
                editing: Some(EditingModel { angle: v->0, ..e }),
                ..s
            })
            &&& letter == 'O' && read.numbers.len() == 2 && v is Some && read.numbers[1] is Some
                ==> t == (HatchState { origin: Some((v->0, read.numbers[1]->0)), ..s })
            &&& letter == 'Y' && (value == "I"@ || value == "IGNORE"@) ==> t == (HatchState {
                style: Some(HatchStyle::Ignore),
                ..s
            })
            &&& letter == 'Y' && (value == "O"@ || value == "OUTER"@) ==> t == (HatchState {
                style: Some(HatchStyle::Outer),
                ..s
            })
            &&& letter == 'Y' && (value == "N"@ || value == "NORMAL"@) ==> t == (HatchState {
                style: Some(HatchStyle::Normal),
                ..s
            })
        }),
{
    let up = seq![letter, ' '] + value;
    assert(up[0] == letter && up[1] == ' ');
    lemma_no_option(plain, up);
    reveal_strlit("P");
    reveal_strlit("S");
    reveal_strlit("A");
    reveal_strlit("O");
    reveal_strlit("Y");
    reveal_strlit("D");
    reveal_strlit("I");
    reveal_strlit("IGNORE");
    reveal_strlit("OUTER");
    reveal_strlit("N");
    reveal_strlit("NORMAL");
    reveal_strlit("DISASSOCIATE");
    assert("P"@[0] == 'P');
    assert("S"@[0] == 'S');
    assert("A"@[0] == 'A');
    assert("O"@[0] == 'O');
    assert("Y"@[0] == 'Y');
    assert("D"@[0] == 'D');
    assert("I"@[0] == 'I');
    assert("IGNORE"@[0] == 'I');
    assert("N"@[0] == 'N');
    assert("NORMAL"@[0] == 'N');
    let head = up.take(1);
    assert(head.len() == 1 && head[0] == letter);
    if letter == 'P' {
        assert(head =~= "P"@);
    } else if letter == 'S' {
        assert(head =~= "S"@);
    } else if letter == 'A' {
        assert(head =~= "A"@);
    } else if letter == 'O' {
        assert(head =~= "O"@);
    } else {
        assert(head =~= "Y"@);
    }
    let none = Seq::<char>::empty();
    only_outer_blanks_go(seq![' '], value, none);
    assert(seq![' '] + value + none =~= up.skip(1));
    if letter == 'O' && read.numbers.len() == 2 && read.numbers[0] is Some && read.numbers[1] is Some {
        let x = read.numbers[0]->0;
        let y = read.numbers[1]->0;
        let one = read.numbers.drop_last();
        assert(one.drop_last() =~= Seq::empty());
        assert(read_numbers(one.drop_last()) =~= Seq::empty());
        assert(read_numbers(one) =~= seq![x]);
        assert(read_numbers(read.numbers) =~= seq![x, y]);
    }
}

/// Letters that stand alone: `D` ends the association, `N` turns the annotative
/// property round, `E` makes a hatch of each loop, and `F`, `FRONT` and `BACK`
/// order the hatch.
pub proof fn letters_edit(s: HatchState, plain: Seq<char>, up: Seq<char>, read: ReadingModel)
    requires
        s.input is None,
        s.editing is Some,
        spells(plain, up),
    ensures
        ({
            let (t, r) = typed(s, plain, up, read);
            let e = s.editing->0;
            let more = Some(ResultModel::NeedPoint);
            &&& up == "D"@ ==> r == more && t == (HatchState { disassociate: true, ..s })
            &&& up == "N"@ && s.annotative is Some ==> r == more && t == (HatchState {
                annotative: Some(!(s.annotative->0)),
                ..s
            })
            &&& up == "N"@ && s.annotative is None ==> r == more && t == (HatchState {
                annotative: Some(!s.annotative_current),
                ..s
            })
            &&& up == "E"@ ==> t == s && r == edit_of(e, HatchEditModel::Separate)
            &&& up == "F"@ || up == "FRONT"@ ==> t == s && r == edit_of(
                e,
                HatchEditModel::DrawOrderFront,
            )
            &&& up == "BACK"@ ==> t == s && r == edit_of(e, HatchEditModel::DrawOrderBack)
        }),
{
    if up == "D"@ || up == "N"@ || up == "E"@ || up == "F"@ || up == "FRONT"@ || up == "BACK"@ {
        reveal_strlit("D");
        reveal_strlit("N");
        reveal_strlit("E");
        reveal_strlit("F");
        reveal_strlit("FRONT");
        reveal_strlit("BACK");
        assert("D"@[0] == 'D');
        assert("N"@[0] == 'N');
        assert("E"@[0] == 'E');
        assert("F"@[0] == 'F');
        lemma_no_option(plain, up);
        reveal_strlit("P");
        reveal_strlit("S");
        reveal_strlit("A");
        reveal_strlit("O");
        reveal_strlit("Y");
        reveal_strlit("+");
        reveal_strlit("-");
        reveal_strlit("B");
        reveal_strlit("R");
        reveal_strlit("RECREATE");
        assert("P"@[0] == 'P');
        assert("S"@[0] == 'S');
        assert("A"@[0] == 'A');
        assert("O"@[0] == 'O');
        assert("Y"@[0] == 'Y');
        assert("+"@[0] == '+');
        assert("-"@[0] == '-');
        assert("B"@[0] == 'B');
        assert("R"@[0] == 'R');
        let head = up.take(1);
        assert(head[0] == up[0]);
    }
}

/// A plus sign adds the entities that are named behind it to the boundary, and a
/// minus sign takes them out of it.
pub proof fn signs_change_the_boundary(
    s: HatchState,
    plain: Seq<char>,
    sign: char,
    list: Seq<char>,
    read: ReadingModel,
)
    requires
        s.input is None,
        s.editing is Some,
        sign == '+' || sign == '-',
        spells(plain, seq![sign] + list),
    ensures
        ({
            let (t, r) = typed(s, plain, seq![sign] + list, read);
            let e = s.editing->0;
            &&& t == s
            &&& sign == '+' ==> r == edit_of(
                e,
                HatchEditModel::AddBoundaries(handles_of(words(list))),
            )
            &&& sign == '-' ==> r == edit_of(
                e,
                HatchEditModel::RemoveBoundaries(handles_of(words(list))),
            )
        }),
{
    let up = seq![sign] + list;
    assert(up[0] == sign);
    lemma_no_option(plain, up);
    reveal_strlit("P");
    reveal_strlit("S");
    reveal_strlit("A");
    reveal_strlit("O");
    reveal_strlit("Y");
    reveal_strlit("D");
    reveal_strlit("N");
    reveal_strlit("E");
    reveal_strlit("F");
    reveal_strlit("FRONT");
    reveal_strlit("B");
    reveal_strlit("BACK");
    reveal_strlit("R");
    reveal_strlit("RECREATE");
    reveal_strlit("+");
    reveal_strlit("-");
    assert("P"@[0] == 'P');
    assert("S"@[0] == 'S');
    assert("A"@[0] == 'A');
    assert("O"@[0] == 'O');
    assert("Y"@[0] == 'Y');
    assert("D"@[0] == 'D');
    assert("N"@[0] == 'N');
    assert("E"@[0] == 'E');
    assert("F"@[0] == 'F');
    assert("B"@[0] == 'B');
    assert("R"@[0] == 'R');
    assert("+"@[0] == '+');
    assert("-"@[0] == '-');
    let head = up.take(1);
    assert(head[0] == sign);
    if sign == '+' {
        assert(head =~= "+"@);
    } else {
        assert(head =~= "-"@);
    }
    assert(up.skip(1) =~= list);
}

/// Handles are read from hexadecimal numbers, with the mark `0X` before them or
/// without, in their order; words that are no number are passed over.
pub proof fn handles_are_hexadecimal(parts: Seq<Seq<char>>, word: Seq<char>)
    ensures
        handles_of(Seq::empty()) == Seq::<Handle>::empty(),
        ({
            let hex = word.len() > 0 && forall|i: int|
                0 <= i < word.len() ==> {
                    ||| 48 <= #[trigger] word[i] as int <= 57
                    ||| 65 <= word[i] as int <= 70
                };
            let value = digits_value(word, 16);
            let marked = seq!['0', 'X'] + word;
            &&& hex && value <= 0xFFFF_FFFF_FFFF_FFFF ==> {
                &&& handles_of(parts.push(word)) == handles_of(parts).push(value as Handle)
                &&& handles_of(parts.push(marked)) == handles_of(parts).push(value as Handle)
            }
            &&& hex && value > 0xFFFF_FFFF_FFFF_FFFF ==> handles_of(parts.push(word))
                == handles_of(parts)
            &&& word.len() > 0 && word[0] as int > 102 ==> handles_of(parts.push(word))
                == handles_of(parts)
        }),
{
    let hex = word.len() > 0 && forall|i: int|
        0 <= i < word.len() ==> {
            ||| 48 <= #[trigger] word[i] as int <= 57
            ||| 65 <= word[i] as int <= 70
        };
    let marked = seq!['0', 'X'] + word;
    assert(marked.skip(2) =~= word);
    assert(parts.push(word).drop_last() =~= parts);
    assert(parts.push(marked).drop_last() =~= parts);
    if word.len() >= 2 {
        assert(hex ==> word[1] != 'X');
    }
    if hex {
        assert(without_marks(word) == word);
        assert(word[0] != '+');
        assert(crate::text::all_digits(word, 16));
        assert(without_marks(marked) == without_marks(word));
        assert(handle_of(word) == handle_of(marked));
    } else if word.len() > 0 && word[0] as int > 102 {
        assert(without_marks(word) == word);
        assert(crate::text::digit_value(word[0]) == -1);
        assert(handle_of(word) is None);
    }
}

/// The Enter key gives what the question offers: the pattern as it is at the
/// options and after the angle, the next question after the pattern and the
/// scale, no association, and the loops that were found.
pub proof fn enter_takes_what_is_offered(s: HatchState)
    requires
        s.editing is Some,
    ensures
        ({
            let (t, r) = entered(s);
            let e = s.editing->0;
            let update = edit_of(
                e,
                HatchEditModel::Update {
                    origin: s.origin,
                    disassociate: s.disassociate,
                    style: s.style,
                    annotative: s.annotative,
                },
            );
            &&& s.input is None || s.input == Some(Input::Angle) ==> t == s && Some(r) == update
            &&& s.input == Some(Input::Annotative) ==> t == (HatchState {
                annotative: Some(s.annotative_current),
                ..s
            }) && Some(r) == edit_of(
                e,
                HatchEditModel::Update {
                    origin: s.origin,
                    disassociate: s.disassociate,
                    style: s.style,
                    annotative: Some(s.annotative_current),
                },
            )
            &&& s.input == Some(Input::Pattern) && spells(e.name, "SOLID"@) ==> t == s && Some(r)
                == update
            &&& s.input == Some(Input::Pattern) && !spells(e.name, "SOLID"@) ==> t
                == (HatchState { input: Some(Input::Scale), ..s }) && r == ResultModel::NeedPoint
            &&& s.input == Some(Input::Scale) ==> t == (HatchState {
                input: Some(Input::Angle),
                ..s
            }) && r == ResultModel::NeedPoint
            &&& s.input == Some(Input::BoundaryAssociate) ==> t == s && Some(r) == edit_of(
                e,
                HatchEditModel::RecreateBoundary { associate: false, region: s.boundary_region },
            )
            &&& s.input == Some(Input::AssociateSelect) ==> t == (HatchState {
                input: Some(Input::AssociatePoint),
                ..s
            }) && r == ResultModel::NeedPoint
            &&& s.input == Some(Input::AssociatePoint) && s.association_paths.len() > 0 ==> t
                == s && Some(r) == edit_of(e, HatchEditModel::AssociatePaths(s.association_paths))
            &&& s.input == Some(Input::AssociatePoint) && s.association_paths.len() == 0 ==> t
                == s && r == ResultModel::Cancel
            &&& s.input == Some(Input::Color) || s.input == Some(Input::Truecolor) || s.input
                == Some(Input::Layer) || s.input == Some(Input::Transparency) ==> t == s && r
                == ResultModel::Cancel
        }),
{
    let name = (s.editing->0).name;
    reveal_strlit("SOLID");
    lemma_says(name);
    lemma_says("SOLID"@);
    assert(ascii_upper("SOLID"@) =~= "SOLID"@);
}

/// A boundary can be selected in place of a point inside it.
pub proof fn boundary_can_be_selected(
    s: HatchState,
    plain: Seq<char>,
    up: Seq<char>,
    read: ReadingModel,
)
    requires
        s.input == Some(Input::AssociatePoint),
    ensures
        says(plain, "S"@, "SELECT"@) || spells(plain, "SELECT OBJECTS"@) ==> typed(
            s,
            plain,
            up,
            read,
        ) == (
            HatchState { input: Some(Input::AssociateSelect), ..s },
            Some(ResultModel::NeedPoint),
        ),
        !(says(plain, "S"@, "SELECT"@) || spells(plain, "SELECT OBJECTS"@)) ==> typed(
            s,
            plain,
            up,
            read,
        ) == (s, Some(ResultModel::NeedPoint)),
{
    lemma_says(plain);
}

proof fn lemma_with_new(list: Seq<FoundPath>, new: Seq<FoundPath>, k: int)
    requires
        0 <= k < new.len(),
    ensures
        with_new(list, new).contains(new[k]),
    decreases new.len(),
{
    let before = with_new(list, new.drop_last());
    let all = with_new(list, new);
    if k == new.len() - 1 {
        if !before.contains(new.last()) {
            assert(all[before.len() as int] == new.last());
        }
    } else {
        lemma_with_new(list, new.drop_last(), k);
        let i = choose|i: int| 0 <= i < before.len() && before[i] == new[k];
        assert(all[i] == new[k]);
    }
}

proof fn lemma_from_either(list: Seq<FoundPath>, new: Seq<FoundPath>, p: FoundPath)
    requires
        with_new(list, new).contains(p),
    ensures
        list.contains(p) || new.contains(p),
    decreases new.len(),
{
    if new.len() > 0 {
        let before = with_new(list, new.drop_last());
        if before.contains(p) {
            lemma_from_either(list, new.drop_last(), p);
            if new.drop_last().contains(p) {
                let k = choose|k: int|
                    0 <= k < new.drop_last().len() && new.drop_last()[k] == p;
                assert(new[k] == p);
            }
        } else {
            let i = choose|i: int| 0 <= i < with_new(list, new).len() && with_new(list, new)[i]
                == p;
            assert(p == new.last());
        }
    }
}

/// Where a loop was found for each ring, and each along an entity, all of them
/// join those found before; else none does, and the failure is remembered.
pub proof fn found_loops_are_taken(s: HatchState, rings: int, paths: Seq<FoundPath>, p: FoundPath)
    ensures
        ({
            let t = with_rings(s, rings, paths);
            let found = paths.len() > 0 && paths.len() == rings && forall|i: int|
                0 <= i < paths.len() ==> (#[trigger] paths[i]).owners > 0;
            &&& found ==> {
                &&& !t.association_missed
                &&& t.association_paths.contains(p) <==> s.association_paths.contains(p)
                    || paths.contains(p)
            }
            &&& !found ==> t.association_missed && t.association_paths == s.association_paths
            &&& t == HatchState {
                association_missed: t.association_missed,
                association_paths: t.association_paths,
                ..s
            }
        }),
{
    if all_found(rings, paths) {
        let all = with_new(s.association_paths, paths);
        if paths.contains(p) {
            let k = choose|k: int| 0 <= k < paths.len() && paths[k] == p;
            lemma_with_new(s.association_paths, paths, k);
        }
        if s.association_paths.contains(p) {
            lemma_keeps(s.association_paths, paths, p);
        }
        if all.contains(p) {
            lemma_from_either(s.association_paths, paths, p);
        }
    }
}

proof fn lemma_keeps(list: Seq<FoundPath>, new: Seq<FoundPath>, p: FoundPath)
    requires
        list.contains(p),
    ensures
        with_new(list, new).contains(p),
    decreases new.len(),
{
    if new.len() > 0 {
        lemma_keeps(list, new.drop_last(), p);
        let before = with_new(list, new.drop_last());
        let i = choose|i: int| 0 <= i < before.len() && before[i] == p;
        assert(with_new(list, new)[i] == p);
    }
}

/// A picked hatch is edited, with a plain pattern; a pick of nothing is none.
pub proof fn picked_hatch_is_edited(s: HatchState, handle: Handle)
    ensures
        handle == 0 ==> picked(s, handle) == s,
        handle != 0 ==> {
            let t = picked(s, handle);
            &&& t.editing is Some
            &&& (t.editing->0).handle == handle
            &&& (t.editing->0).name == ""@
            &&& (t.editing->0).scale.bits == 0x3FF0_0000_0000_0000
            &&& (t.editing->0).angle.bits == 0
            &&& t == HatchState { editing: t.editing, ..s }
        },
{
}

/// The style, the colour, the layer and the transparency of the hatch are
/// remembered as they are, besides the current ones of the drawing.
pub proof fn looks_are_remembered(
    s: HatchState,
    e: EntityModel,
    color: Color,
    transparency: Transparency,
)
    ensures
        ({
            let t = appearing(s, Some(e), color, transparency);
            &&& t.current_color == color
            &&& t.current_transparency == transparency
            &&& t.source_appearance is Some
            &&& (t.source_appearance->0).color == e.common.color
            &&& (t.source_appearance->0).layer == e.common.layer
            &&& (t.source_appearance->0).transparency == e.common.transparency
            &&& e.shape matches ShapeModel::Hatch(h) ==> t.style_current == h.style
            &&& !(e.shape is Hatch) ==> t.style_current == s.style_current
            &&& t.editing == s.editing
            &&& t.input == s.input
        }),
        ({
            let t = appearing(s, None, color, transparency);
            &&& t.current_color == color
            &&& t.current_transparency == transparency
            &&& t.source_appearance is None
            &&& t.style_current == s.style_current
        }),
{
}

/// A search for a boundary starts at a point, with the hatch as it is and with the
/// entities that a boundary can run along. A selection narrows these down.
pub proof fn search_is_narrowed(e: EditingModel, sources: Seq<Handle>, handles: Seq<Handle>, h: Handle)
    ensures
        ({
            let s = associating(e, sources);
            &&& s.editing == Some(e)
            &&& s.input == Some(Input::AssociatePoint)
            &&& s.association_sources == Some(sources)
            &&& s.association_paths.len() == 0
            &&& candidates(s, handles).contains(h) <==> sources.contains(h) && handles.contains(h)
        }),
{
    let f = |h: Handle| handles.contains(h);
    let kept = sources.filter(f);
    assert(candidates(associating(e, sources), handles) == kept);
    if kept.contains(h) {
        let k = choose|k: int| 0 <= k < kept.len() && kept[k] == h;
        sources.lemma_filter_pred(f, k);
        sources.lemma_filter_contains_rev(f, h);
    }
    if sources.contains(h) && handles.contains(h) {
        let k = choose|k: int| 0 <= k < sources.len() && sources[k] == h;
        sources.lemma_filter_contains(f, k);
    }
}

/// A selection and a point take the loops that were found around them; a point
/// around which nothing was found is remembered as a miss. A point means nothing
/// elsewhere.
pub proof fn searches_take_what_is_found(
    s: HatchState,
    handles: Seq<Handle>,
    rings: int,
    paths: Seq<FoundPath>,
    p: FoundPath,
)
    requires
        s.association_sources is Some,
        paths.len() > 0,
        paths.len() == rings,
        forall|i: int| 0 <= i < paths.len() ==> (#[trigger] paths[i]).owners > 0,
    ensures
        ({
            let t = selected(s, handles, rings, paths);
            &&& t.boundary_selection == handles
            &&& t.input == Some(Input::AssociatePoint)
            &&& t.association_paths.contains(p) <==> s.association_paths.contains(p)
                || paths.contains(p)
            &&& !t.association_missed
        }),
        s.input == Some(Input::AssociatePoint) ==> {
            let t = spotted(s, Some((rings, paths)));
            &&& t.association_paths.contains(p) <==> s.association_paths.contains(p)
                || paths.contains(p)
            &&& !t.association_missed
            &&& t.input == s.input
        },
        s.input == Some(Input::AssociatePoint) ==> spotted(s, None) == (HatchState {
            association_missed: true,
            ..s
        }),
        s.input != Some(Input::AssociatePoint) ==> spotted(s, Some((rings, paths))) == s,
{
    found_loops_are_taken(s, rings, paths, p);
    found_loops_are_taken(HatchState { boundary_selection: handles, ..s }, rings, paths, p);
}

/// A command starts with the hatch as it is: nothing is asked for, and neither
/// origin, style nor association is changed.
pub proof fn nothing_is_set_at_first(editing: Option<EditingModel>, annotative: bool)
    ensures
        ({
            let s = started(editing, annotative);
            &&& s.editing == editing
            &&& s.annotative_current == annotative
            &&& s.input is None
            &&& s.origin is None
            &&& s.style is None
            &&& s.annotative is None
            &&& !s.disassociate
            &&& s.association_paths.len() == 0
            &&& !s.association_missed
        }),
{
}

/// A scale and an angle are read from the whole text where they are asked for,
/// and behind their letters from what follows, decimal commas being points there.
pub proof fn numbers_are_read(
    s: HatchState,
    plain: Seq<char>,
    letter: char,
    value: Seq<char>,
)
    requires
        value.len() > 0,
        33 <= value[0] as int <= 126,
        33 <= value.last() as int <= 126,
    ensures
        s.input == Some(Input::Scale) || s.input == Some(Input::Angle) ==> {
            let parts = number_parts(s, plain, plain);
            parts.len() == 1 && spells(plain, parts[0])
        },
        s.input is None && (letter == 'S' || letter == 'A') ==> number_parts(
            s,
            plain,
            seq![letter, ' '] + value,
        ) == seq![points_for_commas(value)],
        s.input is None && letter == 'O' ==> number_parts(s, plain, seq![letter, ' '] + value)
            == words(value),
{
    lemma_says(plain);
    let up = seq![letter, ' '] + value;
    reveal_strlit("S");
    reveal_strlit("A");
    reveal_strlit("O");
    let head = up.take(1);
    assert(head.len() == 1 && head[0] == letter);
    if letter == 'S' {
        assert(head =~= "S"@);
    } else if letter == 'A' {
        assert(head =~= "A"@);
    } else if letter == 'O' {
        assert(head =~= "O"@);
    }
    let none = Seq::<char>::empty();
    only_outer_blanks_go(seq![' '], value, none);
    assert(seq![' '] + value + none =~= up.skip(1));
}

} // verus!
