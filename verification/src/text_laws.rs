//! What the reading of texts and numbers does, character by character and bit by
//! bit.
use crate::text::{
    after_word, all_digits, ascii_upper, begins, decimal, digits_value, filled, first_of,
    first_word, points_for_commas, same_but_case, signed_decimal, signed_value, split_on,
    text_before, trim_back, trim_front, trimmed, unsigned_value, word_end,
};
use crate::value::{Point3, Real};
use vstd::prelude::*;

verus! {

/// Whether a text reads as `word` once its letters from `a` to `z` are written as
/// capitals.
pub open spec fn spells(text: Seq<char>, word: Seq<char>) -> bool {
    &&& text.len() == word.len()
    &&& forall|i: int|
        0 <= i < text.len() ==> word[i] as int == (#[trigger] text[i] as int) - (if 97
            <= text[i] as int <= 122 {
            32int
        } else {
            0
        })
}

/// Capitals differ from their small letters by the thirty-two places between
/// them, and every other character stays.
pub proof fn capitals_spell(text: Seq<char>, word: Seq<char>)
    ensures
        ascii_upper(text) == word <==> spells(text, word),
{
    let up = ascii_upper(text);
    assert forall|i: int| 0 <= i < text.len() implies #[trigger] up[i] as int == (text[i] as int)
        - (if 97 <= text[i] as int <= 122 {
        32int
    } else {
        0
    }) by {}
    if spells(text, word) {
        assert forall|i: int| 0 <= i < text.len() implies up[i] == word[i] by {
            assert(up[i] as int == word[i] as int);
        }
        assert(up =~= word);
    }
    if up == word {
        assert forall|i: int| 0 <= i < text.len() implies word[i] as int == (#[trigger]
        text[i] as int) - (if 97 <= text[i] as int <= 122 {
            32int
        } else {
            0
        }) by {
            assert(up[i] as int == word[i] as int);
        }
    }
}

/// Two texts are the same but for case where they have the same length and each
/// character of one is that of the other, or the same letter in the other case.
pub proof fn case_is_passed_over(a: Seq<char>, b: Seq<char>)
    ensures
        same_but_case(a, b) <==> a.len() == b.len() && forall|i: int|
            0 <= i < a.len() ==> {
                ||| #[trigger] a[i] == b[i]
                ||| 65 <= a[i] as int <= 90 && b[i] as int == a[i] as int + 32
                ||| 97 <= a[i] as int <= 122 && b[i] as int == a[i] as int - 32
            },
{
    let x = ascii_upper(a);
    let y = ascii_upper(b);
    capitals_spell(a, x);
    capitals_spell(b, y);
    if same_but_case(a, b) {
        assert forall|i: int| 0 <= i < a.len() implies {
            ||| #[trigger] a[i] == b[i]
            ||| 65 <= a[i] as int <= 90 && b[i] as int == a[i] as int + 32
            ||| 97 <= a[i] as int <= 122 && b[i] as int == a[i] as int - 32
        } by {
            assert(x[i] == y[i]);
            assert(b[i] as int >= 0);
        }
    }
    if a.len() == b.len() && forall|i: int|
        0 <= i < a.len() ==> {
            ||| #[trigger] a[i] == b[i]
            ||| 65 <= a[i] as int <= 90 && b[i] as int == a[i] as int + 32
            ||| 97 <= a[i] as int <= 122 && b[i] as int == a[i] as int - 32
        } {
        assert forall|i: int| 0 <= i < a.len() implies x[i] == y[i] by {
            assert(a[i] as int >= 0 && b[i] as int >= 0);
        }
        assert(x =~= y);
    }
}

/// Whether a character is a blank, a tab or a line break.
pub open spec fn blank(c: char) -> bool {
    c == ' ' || c == '\t' || c == '\n' || c == '\r' || c == '\u{b}' || c == '\u{c}'
}

/// Whether a character is a letter, a digit or a mark of ASCII.
pub open spec fn printed(c: char) -> bool {
    33 <= c as int <= 126
}

proof fn lemma_trim_front(blanks: Seq<char>, core: Seq<char>)
    requires
        forall|i: int| 0 <= i < blanks.len() ==> blank(#[trigger] blanks[i]),
        core.len() == 0 || printed(core[0]),
    ensures
        trim_front(blanks + core) == core,
    decreases blanks.len(),
{
    let whole = blanks + core;
    if blanks.len() == 0 {
        assert(whole =~= core);
    } else {
        assert(whole[0] == blanks[0]);
        assert(whole.drop_first() =~= blanks.drop_first() + core);
        lemma_trim_front(blanks.drop_first(), core);
    }
}

proof fn lemma_trim_back(core: Seq<char>, blanks: Seq<char>)
    requires
        forall|i: int| 0 <= i < blanks.len() ==> blank(#[trigger] blanks[i]),
        core.len() == 0 || printed(core.last()),
    ensures
        trim_back(core + blanks) == core,
    decreases blanks.len(),
{
    let whole = core + blanks;
    if blanks.len() == 0 {
        assert(whole =~= core);
    } else {
        assert(whole.last() == blanks.last());
        assert(whole.drop_last() =~= core + blanks.drop_last());
        lemma_trim_back(core, blanks.drop_last());
    }
}

/// Blanks around a text go; what stands between its first and its last printed
/// character stays, blanks inside it too.
pub proof fn only_outer_blanks_go(front: Seq<char>, core: Seq<char>, back: Seq<char>)
    requires
        forall|i: int| 0 <= i < front.len() ==> blank(#[trigger] front[i]),
        forall|i: int| 0 <= i < back.len() ==> blank(#[trigger] back[i]),
        core.len() > 0,
        printed(core[0]),
        printed(core.last()),
    ensures
        trimmed(front + core + back) == core,
{
    assert(front + core + back =~= front + (core + back));
    lemma_trim_front(front, core + back);
    lemma_trim_back(core, back);
}

/// Of blanks alone nothing is left.
pub proof fn blanks_are_trimmed(text: Seq<char>)
    requires
        forall|i: int| 0 <= i < text.len() ==> blank(#[trigger] text[i]),
    ensures
        trimmed(text) == Seq::<char>::empty(),
{
    lemma_trim_front(text, Seq::empty());
    assert(text + Seq::<char>::empty() =~= text);
}

proof fn lemma_trim_keeps(s: Seq<char>)
    ensures
        exists|i: int|
            0 <= i <= s.len() && trim_front(s) == #[trigger] s.subrange(i, s.len() as int),
        exists|j: int| 0 <= j <= s.len() && trim_back(s) == #[trigger] s.subrange(0, j),
    decreases s.len(),
{
    if s.len() == 0 {
        assert(s.subrange(0, 0) =~= s);
    } else {
        assert(s.subrange(0, s.len() as int) =~= s);
        lemma_trim_keeps(s.drop_first());
        lemma_trim_keeps(s.drop_last());
        if trim_front(s) != s {
            let t = s.drop_first();
            let i = choose|i: int|
                0 <= i <= t.len() && trim_front(t) == #[trigger] t.subrange(i, t.len() as int);
            assert(s.subrange(i + 1, s.len() as int) =~= t.subrange(i, t.len() as int));
        }
        if trim_back(s) != s {
            let t = s.drop_last();
            let j = choose|j: int|
                0 <= j <= t.len() && trim_back(t) == #[trigger] t.subrange(0, j);
            assert(s.subrange(0, j) =~= t.subrange(0, j));
        }
    }
}

/// A trimmed text is one piece of the text.
pub proof fn trimmed_is_a_piece(s: Seq<char>)
    ensures
        exists|i: int, j: int|
            0 <= i <= j <= s.len() && trimmed(s) == #[trigger] s.subrange(i, j),
{
    lemma_trim_keeps(s);
    let t = trim_front(s);
    lemma_trim_keeps(t);
    let i = choose|i: int| 0 <= i <= s.len() && t == #[trigger] s.subrange(i, s.len() as int);
    let j = choose|j: int| 0 <= j <= t.len() && trim_back(t) == #[trigger] t.subrange(0, j);
    assert(s.subrange(i, i + j) =~= t.subrange(0, j));
}

/// Commas become points, one for one.
pub proof fn commas_become_points(s: Seq<char>)
    ensures
        points_for_commas(s).len() == s.len(),
        forall|i: int|
            0 <= i < s.len() ==> {
                &&& s[i] == ',' ==> #[trigger] points_for_commas(s)[i] == '.'
                &&& s[i] != ',' ==> points_for_commas(s)[i] == s[i]
            },
{
}

/// A text begins with another where the other and something more make it.
pub proof fn beginnings_are_put_in_front(p: Seq<char>, rest: Seq<char>, s: Seq<char>)
    ensures
        begins(p + rest, p),
        begins(s, p) <==> s.len() >= p.len() && forall|i: int|
            0 <= i < p.len() ==> s[i] == #[trigger] p[i],
{
    assert((p + rest).take(p.len() as int) =~= p);
    if s.len() >= p.len() {
        if forall|i: int| 0 <= i < p.len() ==> s[i] == #[trigger] p[i] {
            assert(s.take(p.len() as int) =~= p);
        }
        if begins(s, p) {
            assert forall|i: int| 0 <= i < p.len() implies s[i] == #[trigger] p[i] by {
                assert(s.take(p.len() as int)[i] == s[i]);
            }
        }
    }
}

/// One digit stands for its distance from the digit zero, or from the letter `a`
/// plus ten; each further digit counts what is before it `radix` times.
pub proof fn digits_add_up(s: Seq<char>, c: char, radix: int)
    ensures
        digits_value(Seq::empty(), radix) == 0,
        48 <= c as int <= 57 ==> digits_value(s.push(c), radix) == digits_value(s, radix) * radix
            + (c as int - 48),
        97 <= c as int <= 102 ==> digits_value(s.push(c), radix) == digits_value(s, radix)
            * radix + (c as int - 87),
        65 <= c as int <= 70 ==> digits_value(s.push(c), radix) == digits_value(s, radix) * radix
            + (c as int - 55),
{
    assert(s.push(c).drop_last() =~= s);
}

/// A row of the digits from 0 to 9 is a number where it is not too great, with a
/// plus sign before it or without, and with a minus sign it is the number below
/// zero. Without a digit, or with anything else in it, it is none.
pub proof fn digits_are_numbers(s: Seq<char>, min: int, max: int)
    requires
        min <= 0 <= max,
    ensures
        ({
            let digits = s.len() > 0 && forall|i: int|
                0 <= i < s.len() ==> 48 <= #[trigger] s[i] as int <= 57;
            let value = digits_value(s, 10);
            let plus = seq!['+'] + s;
            let minus = seq!['-'] + s;
            &&& digits && value <= max ==> {
                &&& unsigned_value(s, 10, max) == Some(value)
                &&& unsigned_value(plus, 10, max) == Some(value)
                &&& signed_value(s, min, max) == Some(value)
                &&& signed_value(plus, min, max) == Some(value)
            }
            &&& digits && value > max ==> {
                &&& unsigned_value(s, 10, max) is None
                &&& signed_value(s, min, max) is None
            }
            &&& digits && -value >= min ==> signed_value(minus, min, max) == Some(-value)
            &&& digits && -value < min ==> signed_value(minus, min, max) is None
            &&& !digits ==> unsigned_value(plus, 10, max) is None && signed_value(
                minus,
                min,
                max,
            ) is None
            &&& unsigned_value(minus, 10, max) is None
        }),
{
    let plus = seq!['+'] + s;
    let minus = seq!['-'] + s;
    assert(plus.skip(1) =~= s);
    assert(minus.skip(1) =~= s);
    let digits = s.len() > 0 && forall|i: int|
        0 <= i < s.len() ==> 48 <= #[trigger] s[i] as int <= 57;
    if digits {
        assert(48 <= s[0] as int <= 57);
        assert forall|i: int| 0 <= i < s.len() implies 0 <= #[trigger] crate::text::digit_value(
            s[i],
        ) < 10 by {
            assert(48 <= s[i] as int <= 57);
        }
        assert(all_digits(s, 10));
    } else if s.len() > 0 {
        let i = choose|i: int| 0 <= i < s.len() && !(48 <= #[trigger] s[i] as int <= 57);
        assert(!(0 <= crate::text::digit_value(s[i]) < 10));
        assert(!all_digits(s, 10));
    }
    assert(crate::text::digit_value(minus[0]) == -1);
}

proof fn lemma_decimal_reads(n: nat)
    ensures
        decimal(n).len() > 0,
        forall|i: int| 0 <= i < decimal(n).len() ==> 48 <= #[trigger] decimal(n)[i] as int <= 57,
        digits_value(decimal(n), 10) == n,
        n > 0 ==> decimal(n)[0] != '0',
    decreases n,
{
    if n < 10 {
        let d = seq![crate::text::digit_char(n)];
        assert(d.drop_last() =~= Seq::<char>::empty());
        assert(decimal(n) == d);
        assert(digits_value(d.drop_last(), 10) == 0);
        assert(d.last() as int == n + 48);
    } else {
        lemma_decimal_reads(n / 10);
        let before = decimal(n / 10);
        let c = crate::text::digit_char(n % 10);
        assert(c as int == n % 10 + 48);
        assert(decimal(n) == before.push(c));
        digits_add_up(before, c, 10);
    }
}

/// A number in decimal notation reads as that number, and it starts with a zero
/// only where it is zero.
pub proof fn decimals_read_back(n: int, min: int, max: int)
    requires
        min <= n <= max,
        min <= 0 <= max,
    ensures
        signed_value(signed_decimal(n), min, max) == Some(n),
        n >= 0 ==> unsigned_value(decimal(n as nat), 10, max) == Some(n),
        n >= 0 ==> signed_decimal(n) == decimal(n as nat),
        n > 0 ==> decimal(n as nat)[0] != '0',
        n < 0 ==> signed_decimal(n)[0] == '-',
{
    if n >= 0 {
        lemma_decimal_reads(n as nat);
        digits_are_numbers(decimal(n as nat), min, max);
    } else {
        lemma_decimal_reads((-n) as nat);
        digits_are_numbers(decimal((-n) as nat), min, max);
    }
}

proof fn lemma_first_of(s: Seq<char>, seps: Seq<char>)
    ensures
        0 <= first_of(s, seps) <= s.len(),
        forall|i: int| 0 <= i < first_of(s, seps) ==> !seps.contains(#[trigger] s[i]),
        first_of(s, seps) < s.len() ==> seps.contains(s[first_of(s, seps)]),
    decreases s.len(),
{
    if s.len() > 0 && !seps.contains(s[0]) {
        let t = s.drop_first();
        lemma_first_of(t, seps);
        assert forall|i: int| 0 <= i < first_of(s, seps) implies !seps.contains(
            #[trigger] s[i],
        ) by {
            if i > 0 {
                assert(s[i] == t[i - 1]);
            }
        }
    }
}

/// A text without separators is one piece; with a separator behind it, it is the
/// first piece, and the others are those of what follows the separator.
pub proof fn separators_part(a: Seq<char>, c: char, b: Seq<char>, seps: Seq<char>)
    requires
        forall|i: int| 0 <= i < a.len() ==> !seps.contains(#[trigger] a[i]),
        seps.contains(c),
    ensures
        split_on(a, seps) == seq![a],
        split_on(a.push(c) + b, seps) == seq![a] + split_on(b, seps),
{
    lemma_first_of(a, seps);
    let whole = a.push(c) + b;
    lemma_first_of(whole, seps);
    assert(whole[a.len() as int] == c);
    let i = first_of(whole, seps);
    if i < a.len() {
        assert(whole[i] == a[i]);
    }
    assert(i == a.len());
    assert(whole.take(i) =~= a);
    assert(whole.skip(i + 1) =~= b);
}

/// Of a list, the texts that hold something stay, in their order.
pub proof fn empty_texts_go(list: Seq<Seq<char>>, t: Seq<char>)
    ensures
        filled(Seq::empty()) == Seq::<Seq<char>>::empty(),
        t.len() > 0 ==> filled(list.push(t)) == filled(list).push(t),
        t.len() == 0 ==> filled(list.push(t)) == filled(list),
{
    reveal(Seq::filter);
    assert(list.push(t).drop_last() =~= list);
    assert(filled(Seq::<Seq<char>>::empty()) =~= Seq::empty());
}

proof fn lemma_word_end(w: Seq<char>, rest: Seq<char>)
    requires
        forall|i: int| 0 <= i < w.len() ==> printed(#[trigger] w[i]),
        rest.len() == 0 || blank(rest[0]),
    ensures
        word_end(w + rest) == w.len(),
    decreases w.len(),
{
    let whole = w + rest;
    if w.len() == 0 {
        assert(whole =~= rest);
    } else {
        assert(whole[0] == w[0]);
        assert(whole.drop_first() =~= w.drop_first() + rest);
        lemma_word_end(w.drop_first(), rest);
    }
}

/// The first word of a text runs from its first printed character to the next
/// blank, and the rest is what follows, with that blank.
pub proof fn first_word_ends_at_a_blank(front: Seq<char>, w: Seq<char>, rest: Seq<char>)
    requires
        forall|i: int| 0 <= i < front.len() ==> blank(#[trigger] front[i]),
        w.len() > 0,
        forall|i: int| 0 <= i < w.len() ==> printed(#[trigger] w[i]),
        rest.len() == 0 || blank(rest[0]),
    ensures
        first_word(front + w + rest) == w,
        after_word(front + w + rest) == rest,
{
    assert(front + w + rest =~= front + (w + rest));
    assert(printed(w[0]));
    lemma_trim_front(front, w + rest);
    lemma_word_end(w, rest);
    assert((w + rest).take(w.len() as int) =~= w);
    assert((w + rest).skip(w.len() as int) =~= rest);
}

proof fn lemma_text_before(p: Seq<char>, a: Seq<char>, b: Seq<char>)
    ensures
        text_before(p + a, p + b) == text_before(a, b),
    decreases p.len(),
{
    if p.len() == 0 {
        assert(p + a =~= a);
        assert(p + b =~= b);
    } else {
        assert((p + a).drop_first() =~= p.drop_first() + a);
        assert((p + b).drop_first() =~= p.drop_first() + b);
        lemma_text_before(p.drop_first(), a, b);
    }
}

/// The first character in which two texts differ decides which comes first, and
/// a text comes before its continuations.
pub proof fn first_difference_decides(
    p: Seq<char>,
    c: char,
    d: char,
    a: Seq<char>,
    b: Seq<char>,
)
    requires
        c < d,
    ensures
        text_before(p + seq![c] + a, p + seq![d] + b),
        !text_before(p + seq![d] + b, p + seq![c] + a),
        text_before(p, p + seq![c] + a),
        !text_before(p + seq![c] + a, p),
        !text_before(p, p),
{
    let x = seq![c] + a;
    let y = seq![d] + b;
    assert(p + seq![c] + a =~= p + x);
    assert(p + seq![d] + b =~= p + y);
    lemma_text_before(p, x, y);
    lemma_text_before(p, y, x);
    let none = Seq::<char>::empty();
    assert(p + none =~= p);
    lemma_text_before(p, none, x);
    lemma_text_before(p, x, none);
    lemma_text_before(p, none, none);
}

/// The greatest bit of a value is its sign; the others order it by size, and from
/// the pattern of infinity on it is no finite number.
pub proof fn bits_hold_sign_and_size(v: Real, w: Real)
    ensures
        v.negative() <==> v.bits >= 0x8000_0000_0000_0000,
        0 <= v.magnitude() < 0x8000_0000_0000_0000,
        v.bits == v.magnitude() + (if v.negative() {
            0x8000_0000_0000_0000int
        } else {
            0
        }),
        v.finite() <==> v.magnitude() < 0x7FF0_0000_0000_0000,
        v.nan() <==> v.magnitude() > 0x7FF0_0000_0000_0000,
        v.negative() ==> v.rank() == -v.magnitude(),
        !v.negative() ==> v.rank() == v.magnitude(),
        !v.negative() && !w.negative() && !v.nan() && !w.nan() ==> {
            &&& v.below(w) <==> v.bits < w.bits
            &&& v.reaches(w) <==> v.bits >= w.bits
            &&& v.equals(w) <==> v.bits == w.bits
        },
        v.negative() && w.negative() && !v.nan() && !w.nan() ==> {
            &&& v.below(w) <==> v.bits > w.bits
            &&& v.reaches(w) <==> v.bits <= w.bits
            &&& v.equals(w) <==> v.bits == w.bits
        },
        v.negative() && !w.negative() && !v.nan() && !w.nan() ==> {
            &&& v.below(w) <==> v.magnitude() > 0 || w.magnitude() > 0
            &&& v.equals(w) <==> v.magnitude() == 0 && w.magnitude() == 0
        },
        v.nan() || w.nan() ==> !v.below(w) && !v.reaches(w) && !v.equals(w),
        v.positive() <==> 0 < v.bits < 0x7FF0_0000_0000_0000,
        v.width_like() <==> v.bits < 0x7FF0_0000_0000_0000 || v.bits == 0x8000_0000_0000_0000,
{
}

/// A point is finite, and equal to another, where that holds of all three of its
/// coordinates.
pub proof fn points_are_their_coordinates(p: Point3, q: Point3)
    ensures
        p.finite() <==> p.x.finite() && p.y.finite() && p.z.finite(),
        p.equals(q) <==> p.x.equals(q.x) && p.y.equals(q.y) && p.z.equals(q.z),
{
}

/// The whole numbers that the commands start with: zero, one and the degrees of a
/// full turn, and the point and the direction made of them.
pub proof fn starting_values()
    ensures
        crate::value::zero().bits == 0,
        crate::value::one().bits == 0x3FF0_0000_0000_0000,
        crate::value::full_turn().bits == 0x4076_8000_0000_0000,
        crate::value::origin().x.bits == 0,
        crate::value::origin().y.bits == 0,
        crate::value::origin().z.bits == 0,
        crate::value::upward().x.bits == 0,
        crate::value::upward().y.bits == 0,
        crate::value::upward().z.bits == 0x3FF0_0000_0000_0000,
{
}

} // verus!
