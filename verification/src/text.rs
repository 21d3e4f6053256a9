//! Strings as the command line reads them: trimming, case folding, splitting
//! and whole numbers. Every function is stated over the characters of its text.
use vstd::prelude::*;

verus! {

broadcast use vstd::string::group_string_axioms;

/// `String::push` appends one character.
pub assume_specification[ String::push ](s: &mut String, c: char)
    ensures
        final(s)@ == old(s)@.push(c),
;

/// Characters with the Unicode property `White_Space`.
pub open spec fn is_white(c: char) -> bool {
    let n = c as u32;
    ||| 0x9 <= n <= 0xD
    ||| n == 0x20
    ||| n == 0x85
    ||| n == 0xA0
    ||| n == 0x1680
    ||| 0x2000 <= n <= 0x200A
    ||| n == 0x2028
    ||| n == 0x2029
    ||| n == 0x202F
    ||| n == 0x205F
    ||| n == 0x3000
}

/// Whether a character is white space.
pub fn white(c: char) -> (r: bool)
    ensures
        r == is_white(c),
{
    let n: u32 = c as u32;
    (0x9 <= n && n <= 0xD) || n == 0x20 || n == 0x85 || n == 0xA0 || n == 0x1680 || (0x2000 <= n
        && n <= 0x200A) || n == 0x2028 || n == 0x2029 || n == 0x202F || n == 0x205F || n == 0x3000
}

/// `s` without its leading white space.
pub open spec fn trim_front(s: Seq<char>) -> Seq<char>
    decreases s.len(),
{
    if s.len() > 0 && is_white(s[0]) {
        trim_front(s.drop_first())
    } else {
        s
    }
}

/// `s` without its trailing white space.
pub open spec fn trim_back(s: Seq<char>) -> Seq<char>
    decreases s.len(),
{
    if s.len() > 0 && is_white(s.last()) {
        trim_back(s.drop_last())
    } else {
        s
    }
}

/// `s` without white space at either end.
pub open spec fn trimmed(s: Seq<char>) -> Seq<char> {
    trim_back(trim_front(s))
}

proof fn lemma_trim_front(s: Seq<char>, i: int)
    requires
        0 <= i <= s.len(),
        forall|k: int| 0 <= k < i ==> is_white(s[k]),
        i < s.len() ==> !is_white(s[i]),
    ensures
        trim_front(s) == s.skip(i),
    decreases i,
{
    if i > 0 {
        lemma_trim_front(s.drop_first(), i - 1);
        assert(s.drop_first().skip(i - 1) =~= s.skip(i));
    } else {
        assert(s.skip(0) =~= s);
    }
}

proof fn lemma_trim_back(s: Seq<char>, j: int)
    requires
        0 <= j <= s.len(),
        forall|k: int| j <= k < s.len() ==> is_white(s[k]),
        j > 0 ==> !is_white(s[j - 1]),
    ensures
        trim_back(s) == s.take(j),
    decreases s.len(),
{
    if j < s.len() {
        lemma_trim_back(s.drop_last(), j);
        assert(s.drop_last().take(j) =~= s.take(j));
    } else {
        assert(s.take(j) =~= s);
    }
}

/// The characters of a text.
pub fn chars_of(s: &str) -> (r: Vec<char>)
    ensures
        r@ == s@,
{
    let mut v: Vec<char> = Vec::new();
    for c in it: s.chars()
        invariant
            v@ == s@.take(it.index()),
            it.seq() == s@,
    {
        v.push(c);
        proof {
            assert(s@.take(it.index() + 1) =~= s@.take(it.index()).push(s@[it.index()]));
        }
    }
    proof {
        assert(s@.take(s@.len() as int) =~= s@);
    }
    v
}

/// The text made of the characters `v[from..to]`.
pub fn text_of(v: &Vec<char>, from: usize, to: usize) -> (r: String)
    requires
        from <= to <= v@.len(),
    ensures
        r@ == v@.subrange(from as int, to as int),
{
    let mut s: String = String::new();
    let mut i: usize = from;
    while i < to
        invariant
            from <= i <= to <= v@.len(),
            s@ == v@.subrange(from as int, i as int),
        decreases to - i,
    {
        s.push(v[i]);
        proof {
            assert(v@.subrange(from as int, i + 1) =~= v@.subrange(from as int, i as int).push(
                v@[i as int],
            ));
        }
        i += 1;
    }
    s
}

/// An owned copy of a text.
pub fn owned(s: &str) -> (r: String)
    ensures
        r@ == s@,
{
    s.to_owned()
}

/// A text without white space at either end.
pub fn trim(s: &str) -> (r: String)
    ensures
        r@ == trimmed(s@),
{
    let v = chars_of(s);
    let n: usize = v.len();
    let mut i: usize = 0;
    while i < n && white(v[i])
        invariant
            i <= n == v@.len(),
            forall|k: int| 0 <= k < i ==> is_white(v@[k]),
        decreases n - i,
    {
        i += 1;
    }
    let mut j: usize = n;
    while j > i && white(v[j - 1])
        invariant
            i <= j <= n == v@.len(),
            forall|k: int| j <= k < n ==> is_white(v@[k]),
        decreases j,
    {
        j -= 1;
    }
    proof {
        lemma_trim_front(v@, i as int);
        let rest = v@.skip(i as int);
        assert forall|k: int| j - i <= k < rest.len() implies is_white(rest[k]) by {
            assert(rest[k] == v@[k + i]);
        }
        lemma_trim_back(rest, j - i);
        assert(rest.take(j - i) =~= v@.subrange(i as int, j as int));
    }
    text_of(&v, i, j)
}

/// Whether two texts have the same characters.
pub fn same(a: &str, b: &str) -> (r: bool)
    ensures
        r == (a@ == b@),
{
    let x = a.to_owned();
    let y = b.to_owned();
    x == y
}

/// Whether `s` is the word `a` or the word `b`.
pub open spec fn either(s: Seq<char>, a: Seq<char>, b: Seq<char>) -> bool {
    s == a || s == b
}

/// Whether a text is one of two words.
pub fn is_either(s: &str, a: &str, b: &str) -> (r: bool)
    ensures
        r == either(s@, a@, b@),
{
    same(s, a) || same(s, b)
}

/// An ASCII letter in upper case; any other character unchanged.
pub open spec fn upper_char(c: char) -> char {
    if 'a' <= c <= 'z' {
        ((c as u32 - 32) as u32) as char
    } else {
        c
    }
}

/// Every ASCII letter of `s` in upper case, everything else unchanged.
pub open spec fn ascii_upper(s: Seq<char>) -> Seq<char> {
    Seq::new(s.len(), |i: int| upper_char(s[i]))
}

/// Whether every character is ASCII.
pub open spec fn all_ascii(s: Seq<char>) -> bool {
    forall|i: int| 0 <= i < s.len() ==> (#[trigger] s[i] as u32) < 0x80
}

fn to_upper_char(c: char) -> (r: char)
    ensures
        r == upper_char(c),
{
    if 'a' <= c && c <= 'z' {
        let n: u8 = c as u8;
        let m: u8 = n - 32;
        m as char
    } else {
        c
    }
}

/// A text with its ASCII letters in upper case.
pub fn to_ascii_upper(s: &str) -> (r: String)
    ensures
        r@ == ascii_upper(s@),
{
    let v = chars_of(s);
    let mut out: String = String::new();
    let n: usize = v.len();
    let mut i: usize = 0;
    while i < n
        invariant
            i <= n == v@.len(),
            out@ == ascii_upper(v@.take(i as int)),
        decreases n - i,
    {
        out.push(to_upper_char(v[i]));
        proof {
            assert(ascii_upper(v@.take(i + 1)) =~= ascii_upper(v@.take(i as int)).push(
                upper_char(v@[i as int]),
            ));
        }
        i += 1;
    }
    proof {
        assert(v@.take(n as int) =~= v@);
    }
    out
}

/// Whether two texts differ at most in the case of ASCII letters.
pub open spec fn same_but_case(a: Seq<char>, b: Seq<char>) -> bool {
    ascii_upper(a) == ascii_upper(b)
}

/// Compares two texts without regard to the case of ASCII letters.
pub fn equal_but_case(a: &str, b: &str) -> (r: bool)
    ensures
        r == same_but_case(a@, b@),
{
    let x = to_ascii_upper(a);
    let y = to_ascii_upper(b);
    x == y
}

/// What `str::to_uppercase` makes of a text.
pub uninterp spec fn uppercase(s: Seq<char>) -> Seq<char>;

/// `str::to_uppercase`: the text in upper case by the Unicode tables. Of an
/// ASCII text that is the text with its ASCII letters in upper case; what the
/// tables say of other characters is left to the name.
#[verifier::external_body]
pub(crate) fn to_upper(s: &str) -> (r: String)
    ensures
        r@ == uppercase(s@),
        all_ascii(s@) ==> r@ == ascii_upper(s@),
{
    s.to_uppercase()
}

/// A text trimmed and in upper case, as keywords are read.
pub open spec fn keyword_of(s: Seq<char>) -> Seq<char> {
    uppercase(trimmed(s))
}

/// Reads the keyword a typed text stands for.
pub fn keyword(s: &str) -> (r: String)
    ensures
        r@ == keyword_of(s@),
        all_ascii(trimmed(s@)) ==> r@ == ascii_upper(trimmed(s@)),
{
    let t = trim(s);
    to_upper(t.as_str())
}

/// `s` with every decimal comma turned into a point.
pub open spec fn points_for_commas(s: Seq<char>) -> Seq<char> {
    Seq::new(
        s.len(),
        |i: int|
            if s[i] == ',' {
                '.'
            } else {
                s[i]
            },
    )
}

/// Turns decimal commas into points.
pub fn decimal_text(s: &str) -> (r: String)
    ensures
        r@ == points_for_commas(s@),
{
    let v = chars_of(s);
    let mut out: String = String::new();
    let n: usize = v.len();
    let mut i: usize = 0;
    while i < n
        invariant
            i <= n == v@.len(),
            out@ == points_for_commas(v@.take(i as int)),
        decreases n - i,
    {
        let c = v[i];
        out.push(
            if c == ',' {
                '.'
            } else {
                c
            },
        );
        proof {
            assert(points_for_commas(v@.take(i + 1)) =~= points_for_commas(v@.take(i as int)).push(
                if c == ',' {
                    '.'
                } else {
                    c
                },
            ));
        }
        i += 1;
    }
    proof {
        assert(v@.take(n as int) =~= v@);
    }
    out
}

/// The value of a digit in bases up to sixteen, or -1 for any other character.
pub open spec fn digit_value(c: char) -> int {
    if '0' <= c <= '9' {
        c as int - '0' as int
    } else if 'a' <= c <= 'f' {
        c as int - 'a' as int + 10
    } else if 'A' <= c <= 'F' {
        c as int - 'A' as int + 10
    } else {
        -1
    }
}

/// Whether `s` is made of digits in base `radix` only.
pub open spec fn all_digits(s: Seq<char>, radix: int) -> bool {
    forall|i: int| 0 <= i < s.len() ==> 0 <= #[trigger] digit_value(s[i]) < radix
}

/// The number that a row of digits stands for.
pub open spec fn digits_value(s: Seq<char>, radix: int) -> int
    decreases s.len(),
{
    if s.len() == 0 {
        0
    } else {
        digits_value(s.drop_last(), radix) * radix + digit_value(s.last())
    }
}

/// Reads an unsigned number in base `radix`: an optional plus sign, then at
/// least one digit and nothing else, with a value of at most `max`.
pub open spec fn unsigned_value(s: Seq<char>, radix: int, max: int) -> Option<int> {
    let d = if s.len() > 0 && s[0] == '+' {
        s.skip(1)
    } else {
        s
    };
    if d.len() > 0 && all_digits(d, radix) && digits_value(d, radix) <= max {
        Some(digits_value(d, radix))
    } else {
        None
    }
}

/// Reads a signed decimal number: as an unsigned one, or a minus sign and at
/// least one digit, with a value from `min` to `max`.
pub open spec fn signed_value(s: Seq<char>, min: int, max: int) -> Option<int> {
    if s.len() > 0 && s[0] == '-' {
        let d = s.skip(1);
        if d.len() > 0 && all_digits(d, 10) && -digits_value(d, 10) >= min {
            Some(-digits_value(d, 10))
        } else {
            None
        }
    } else {
        unsigned_value(s, 10, max)
    }
}

proof fn lemma_digits_grow(s: Seq<char>, i: int, radix: int)
    requires
        0 <= i <= s.len(),
        radix >= 1,
        all_digits(s, radix),
    ensures
        0 <= digits_value(s.take(i), radix) <= digits_value(s, radix),
    decreases s.len(),
{
    if i == s.len() {
        assert(s.take(i) =~= s);
        if s.len() > 0 {
            let t = s.drop_last();
            assert forall|k: int| 0 <= k < t.len() implies 0 <= #[trigger] digit_value(t[k])
                < radix by {
                assert(t[k] == s[k]);
            }
            lemma_digits_grow(t, t.len() as int, radix);
            assert(t.take(t.len() as int) =~= t);
            let v = digits_value(t, radix);
            assert(v * radix >= 0) by (nonlinear_arith)
                requires
                    v >= 0,
                    radix >= 1,
            ;
            assert(0 <= digit_value(s[s.len() - 1]));
        }
    } else {
        let t = s.drop_last();
        assert forall|k: int| 0 <= k < t.len() implies 0 <= #[trigger] digit_value(t[k])
            < radix by {
            assert(t[k] == s[k]);
        }
        lemma_digits_grow(t, i, radix);
        assert(t.take(i) =~= s.take(i));
        let v = digits_value(t, radix);
        assert(v * radix >= v) by (nonlinear_arith)
            requires
                v >= 0,
                radix >= 1,
        ;
        assert(0 <= digit_value(s[s.len() - 1]));
    }
}

fn digit(c: char) -> (r: i8)
    ensures
        r == digit_value(c),
        -1 <= r < 16,
{
    let n: u32 = c as u32;
    if '0' <= c && c <= '9' {
        (n - 48) as i8
    } else if 'a' <= c && c <= 'f' {
        (n - 87) as i8
    } else if 'A' <= c && c <= 'F' {
        (n - 55) as i8
    } else {
        -1
    }
}

/// The digits `v[from..]` in base `radix`, where they make a number up to `max`.
fn read_digits(v: &Vec<char>, from: usize, radix: u64, max: u64) -> (r: Option<u64>)
    requires
        from <= v@.len(),
        2 <= radix <= 16,
        max <= 0xFFFF_FFFF_FFFF_FFFF,
    ensures
        ({
            let d = v@.skip(from as int);
            r == (if d.len() > 0 && all_digits(d, radix as int) && digits_value(d, radix as int)
                <= max {
                Some(digits_value(d, radix as int) as u64)
            } else {
                None
            })
        }),
{
    let n: usize = v.len();
    let ghost d = v@.skip(from as int);
    if from == n {
        return None;
    }
    let mut acc: u128 = 0;
    let mut i: usize = from;
    proof {
        assert(d.take(0) =~= Seq::<char>::empty());
    }
    while i < n
        invariant
            from <= i <= n == v@.len(),
            from < n,
            2 <= radix <= 16,
            d == v@.skip(from as int),
            acc == digits_value(d.take(i - from), radix as int),
            acc <= max,
            all_digits(d.take(i - from), radix as int),
        decreases n - i,
    {
        let g: i8 = digit(v[i]);
        let ghost k = i - from;
        proof {
            assert(d[k] == v@[i as int]);
            assert(d.take(k + 1).drop_last() =~= d.take(k));
            assert(d.take(k + 1).last() == d[k]);
        }
        if g < 0 || g as u64 >= radix {
            return None;
        }
        proof {
            assert(acc * radix <= 0xFFFF_FFFF_FFFF_FFFF * 16) by (nonlinear_arith)
                requires
                    acc <= 0xFFFF_FFFF_FFFF_FFFF,
                    radix <= 16,
                    acc >= 0,
                    radix >= 0,
            ;
            assert forall|q: int| 0 <= q < d.take(k + 1).len() implies 0 <= #[trigger] digit_value(
                d.take(k + 1)[q],
            ) < radix by {
                if q < k {
                    assert(d.take(k + 1)[q] == d.take(k)[q]);
                }
            }
        }
        acc = acc * (radix as u128) + (g as u128);
        if acc > max as u128 {
            proof {
                if all_digits(d, radix as int) {
                    lemma_digits_grow(d, k + 1, radix as int);
                }
            }
            return None;
        }
        i += 1;
    }
    proof {
        assert(d.take(n - from) =~= d);
    }
    Some(acc as u64)
}

/// Reads an unsigned number of at most `max` in base `radix`.
pub fn read_unsigned(s: &str, radix: u64, max: u64) -> (r: Option<u64>)
    requires
        2 <= radix <= 16,
    ensures
        match r {
            Some(n) => unsigned_value(s@, radix as int, max as int) == Some(n as int),
            None => unsigned_value(s@, radix as int, max as int) is None,
        },
{
    let v = chars_of(s);
    proof {
        assert(v@.skip(0) =~= v@);
    }
    let ghost d = if v@.len() > 0 && v@[0] == '+' {
        v@.skip(1)
    } else {
        v@
    };
    proof {
        if all_digits(d, radix as int) {
            lemma_digits_grow(d, d.len() as int, radix as int);
            assert(d.take(d.len() as int) =~= d);
        }
    }
    let start: usize = if v.len() > 0 && v[0] == '+' {
        1
    } else {
        0
    };
    read_digits(&v, start, radix, max)
}

/// Reads a signed decimal number from `min` to `max`.
pub fn read_signed(s: &str, min: i64, max: i64) -> (r: Option<i64>)
    requires
        -0x1_0000_0000 <= min <= 0,
        0 <= max,
    ensures
        match r {
            Some(n) => signed_value(s@, min as int, max as int) == Some(n as int),
            None => signed_value(s@, min as int, max as int) is None,
        },
{
    let v = chars_of(s);
    if v.len() > 0 && v[0] == '-' {
        let low: u64 = (-min) as u64;
        let ghost d = v@.skip(1);
        proof {
            if all_digits(d, 10) {
                lemma_digits_grow(d, d.len() as int, 10);
                assert(d.take(d.len() as int) =~= d);
            }
        }
        match read_digits(&v, 1, 10, low) {
            Some(n) => Some(-(n as i64)),
            None => None,
        }
    } else {
        match read_unsigned(s, 10, max as u64) {
            Some(n) => Some(n as i64),
            None => None,
        }
    }
}

/// The decimal digit of a number below ten.
pub open spec fn digit_char(n: nat) -> char {
    ((n + 48) as u8) as char
}

/// A number in decimal notation.
pub open spec fn decimal(n: nat) -> Seq<char>
    decreases n,
{
    if n < 10 {
        seq![digit_char(n)]
    } else {
        decimal(n / 10).push(digit_char(n % 10))
    }
}

/// Writes a number in decimal notation.
pub fn number(n: u64) -> (r: String)
    ensures
        r@ == decimal(n as nat),
    decreases n,
{
    if n < 10 {
        let mut s: String = String::new();
        s.push((n as u8 + 48) as char);
        proof {
            assert(s@ =~= seq![digit_char(n as nat)]);
        }
        s
    } else {
        let mut s: String = number(n / 10);
        let d: u64 = n % 10;
        s.push((d as u8 + 48) as char);
        s
    }
}

/// A signed number in decimal notation.
pub open spec fn signed_decimal(n: int) -> Seq<char> {
    if n < 0 {
        seq!['-'] + decimal((-n) as nat)
    } else {
        decimal(n as nat)
    }
}

/// Writes a signed number in decimal notation.
pub fn signed_number(n: i64) -> (r: String)
    requires
        n > i64::MIN,
    ensures
        r@ == signed_decimal(n as int),
{
    if n < 0 {
        let mut s: String = String::new();
        s.push('-');
        let d = number((-n) as u64);
        s.append(d.as_str());
        proof {
            assert(s@ =~= seq!['-'] + decimal((-n) as nat));
        }
        s
    } else {
        number(n as u64)
    }
}

/// Joins two texts.
pub fn join(a: &str, b: &str) -> (r: String)
    ensures
        r@ == a@ + b@,
{
    let mut s: String = a.to_owned();
    s.append(b);
    s
}

/// Joins three texts.
pub fn join3(a: &str, b: &str, c: &str) -> (r: String)
    ensures
        r@ == a@ + b@ + c@,
{
    let mut s: String = a.to_owned();
    s.append(b);
    s.append(c);
    s
}

/// Whether `s` begins with `p`.
pub open spec fn begins(s: Seq<char>, p: Seq<char>) -> bool {
    s.len() >= p.len() && s.take(p.len() as int) == p
}

/// What follows `p` at the beginning of a text, where it begins with it.
pub fn after_prefix(s: &str, p: &str) -> (r: Option<String>)
    ensures
        match r {
            Some(t) => begins(s@, p@) && t@ == s@.skip(p@.len() as int),
            None => !begins(s@, p@),
        },
{
    let v = chars_of(s);
    let w = chars_of(p);
    let n: usize = v.len();
    let m: usize = w.len();
    if n < m {
        return None;
    }
    let mut i: usize = 0;
    while i < m
        invariant
            i <= m == w@.len(),
            m <= n == v@.len(),
            v@ == s@,
            w@ == p@,
            v@.take(i as int) == w@.take(i as int),
        decreases m - i,
    {
        if v[i] != w[i] {
            proof {
                assert(v@.take(m as int)[i as int] != w@[i as int]);
            }
            return None;
        }
        proof {
            assert(v@.take(i + 1) =~= v@.take(i as int).push(v@[i as int]));
            assert(w@.take(i + 1) =~= w@.take(i as int).push(w@[i as int]));
        }
        i += 1;
    }
    proof {
        assert(w@.take(m as int) =~= w@);
        assert(v@.subrange(m as int, n as int) =~= v@.skip(m as int));
    }
    Some(text_of(&v, m, n))
}

/// The first position of a character of `seps` in `s`, or the length of `s`.
pub open spec fn first_of(s: Seq<char>, seps: Seq<char>) -> int
    decreases s.len(),
{
    if s.len() == 0 || seps.contains(s[0]) {
        0
    } else {
        1 + first_of(s.drop_first(), seps)
    }
}

/// The pieces of `s` between characters of `seps`.
pub open spec fn split_on(s: Seq<char>, seps: Seq<char>) -> Seq<Seq<char>>
    decreases s.len(),
    via split_on_decreases
{
    let i = first_of(s, seps);
    if i >= s.len() {
        seq![s]
    } else {
        seq![s.take(i)] + split_on(s.skip(i + 1), seps)
    }
}

#[via_fn]
proof fn split_on_decreases(s: Seq<char>, seps: Seq<char>) {
    lemma_first_of(s, seps);
}

proof fn lemma_first_of(s: Seq<char>, seps: Seq<char>)
    ensures
        0 <= first_of(s, seps) <= s.len(),
        first_of(s, seps) < s.len() ==> seps.contains(s[first_of(s, seps)]),
        forall|k: int| 0 <= k < first_of(s, seps) ==> !seps.contains(#[trigger] s[k]),
    decreases s.len(),
{
    if s.len() == 0 || seps.contains(s[0]) {
    } else {
        let t = s.drop_first();
        lemma_first_of(t, seps);
        assert forall|k: int| 0 <= k < first_of(s, seps) implies !seps.contains(
            #[trigger] s[k],
        ) by {
            if k > 0 {
                assert(s[k] == t[k - 1]);
            }
        }
    }
}

proof fn lemma_first_of_is(s: Seq<char>, seps: Seq<char>, i: int)
    requires
        0 <= i <= s.len(),
        forall|k: int| 0 <= k < i ==> !seps.contains(#[trigger] s[k]),
        i < s.len() ==> seps.contains(s[i]),
    ensures
        first_of(s, seps) == i,
{
    lemma_first_of(s, seps);
    let j = first_of(s, seps);
    if j < i {
        assert(seps.contains(s[j]));
    }
}

fn has_char(v: &Vec<char>, c: char) -> (r: bool)
    ensures
        r == v@.contains(c),
{
    let n: usize = v.len();
    let mut i: usize = 0;
    while i < n
        invariant
            i <= n == v@.len(),
            forall|k: int| 0 <= k < i ==> v@[k] != c,
        decreases n - i,
    {
        if v[i] == c {
            return true;
        }
        i += 1;
    }
    false
}

/// The characters of each text of a list.
pub open spec fn texts(v: Seq<String>) -> Seq<Seq<char>> {
    Seq::new(v.len(), |i: int| v[i]@)
}

/// Splits a text at every character of `seps`.
pub fn split(s: &str, seps: &str) -> (r: Vec<String>)
    ensures
        texts(r@) == split_on(s@, seps@),
{
    let v = chars_of(s);
    let p = chars_of(seps);
    let n: usize = v.len();
    let mut out: Vec<String> = Vec::new();
    let mut start: usize = 0;
    let mut i: usize = 0;
    proof {
        assert(v@.skip(0) =~= v@);
        assert(texts(out@) + split_on(v@, p@) =~= split_on(v@, p@));
    }
    while i < n
        invariant
            start <= i <= n == v@.len(),
            forall|k: int| start <= k < i ==> !p@.contains(#[trigger] v@[k]),
            texts(out@) + split_on(v@.skip(start as int), p@) == split_on(v@, p@),
        decreases n - i,
    {
        if has_char(&p, v[i]) {
            let ghost rest = v@.skip(start as int);
            let ghost before = out@;
            proof {
                assert forall|k: int| 0 <= k < i - start implies !p@.contains(#[trigger] rest[k]) by {
                    assert(rest[k] == v@[k + start]);
                }
                lemma_first_of_is(rest, p@, i - start);
                assert(rest.take(i - start) =~= v@.subrange(start as int, i as int));
                assert(rest.skip(i - start + 1) =~= v@.skip(i + 1));
            }
            out.push(text_of(&v, start, i));
            proof {
                assert(texts(out@) =~= texts(before).push(v@.subrange(start as int, i as int)));
                assert(texts(out@) + split_on(v@.skip(i + 1), p@) =~= texts(before) + (seq![
                    v@.subrange(start as int, i as int),
                ] + split_on(v@.skip(i + 1), p@)));
            }
            start = i + 1;
        }
        i += 1;
    }
    let ghost rest = v@.skip(start as int);
    let ghost before = out@;
    out.push(text_of(&v, start, n));
    proof {
        assert forall|k: int| 0 <= k < n - start implies !p@.contains(#[trigger] rest[k]) by {
            assert(rest[k] == v@[k + start]);
        }
        lemma_first_of_is(rest, p@, n - start);
        assert(v@.subrange(start as int, n as int) =~= rest);
        assert(texts(out@) =~= texts(before) + seq![rest]);
    }
    out
}

/// The pieces of a list that are not empty.
pub open spec fn filled(s: Seq<Seq<char>>) -> Seq<Seq<char>> {
    s.filter(|t: Seq<char>| t.len() > 0)
}

/// Splits a text at every character of `seps` and drops the empty pieces.
pub fn split_filled(s: &str, seps: &str) -> (r: Vec<String>)
    ensures
        texts(r@) == filled(split_on(s@, seps@)),
{
    let all = split(s, seps);
    let n: usize = all.len();
    let mut out: Vec<String> = Vec::new();
    let mut i: usize = 0;
    proof {
        reveal(Seq::filter);
        assert(texts(all@).take(0) =~= Seq::<Seq<char>>::empty());
        assert(texts(out@) =~= filled(texts(all@).take(0)));
    }
    while i < n
        invariant
            i <= n == all@.len(),
            texts(out@) == filled(texts(all@).take(i as int)),
        decreases n - i,
    {
        let ghost before = out@;
        proof {
            reveal(Seq::filter);
            assert(texts(all@).take(i + 1).drop_last() =~= texts(all@).take(i as int));
            assert(texts(all@).take(i + 1).last() == all@[i as int]@);
        }
        if !all[i].as_str().is_empty() {
            out.push(all[i].clone());
            proof {
                assert(texts(out@) =~= texts(before).push(all@[i as int]@));
            }
        }
        i += 1;
    }
    proof {
        assert(texts(all@).take(n as int) =~= texts(all@));
    }
    out
}

/// The position of the first white space in `s`, or the length of `s`.
pub open spec fn word_end(s: Seq<char>) -> int
    decreases s.len(),
{
    if s.len() == 0 || is_white(s[0]) {
        0
    } else {
        1 + word_end(s.drop_first())
    }
}

/// The first word of `s`, or nothing where it holds no word.
pub open spec fn first_word(s: Seq<char>) -> Seq<char> {
    let t = trim_front(s);
    t.take(word_end(t))
}

/// What follows the first word of `s`.
pub open spec fn after_word(s: Seq<char>) -> Seq<char> {
    let t = trim_front(s);
    t.skip(word_end(t))
}

proof fn lemma_word_end(s: Seq<char>, i: int)
    requires
        0 <= i <= s.len(),
        forall|k: int| 0 <= k < i ==> !is_white(s[k]),
        i < s.len() ==> is_white(s[i]),
    ensures
        word_end(s) == i,
    decreases i,
{
    if i > 0 {
        lemma_word_end(s.drop_first(), i - 1);
    }
}

/// Splits a text into its first word and the rest.
pub fn cut_word(s: &str) -> (r: (String, String))
    ensures
        r.0@ == first_word(s@),
        r.1@ == after_word(s@),
{
    let v = chars_of(s);
    let n: usize = v.len();
    let mut i: usize = 0;
    while i < n && white(v[i])
        invariant
            i <= n == v@.len(),
            forall|k: int| 0 <= k < i ==> is_white(v@[k]),
        decreases n - i,
    {
        i += 1;
    }
    let mut j: usize = i;
    while j < n && !white(v[j])
        invariant
            i <= j <= n == v@.len(),
            forall|k: int| i <= k < j ==> !is_white(v@[k]),
        decreases n - j,
    {
        j += 1;
    }
    proof {
        lemma_trim_front(v@, i as int);
        let t = v@.skip(i as int);
        assert forall|k: int| 0 <= k < j - i implies !is_white(t[k]) by {
            assert(t[k] == v@[k + i]);
        }
        lemma_word_end(t, j - i);
        assert(t.take(j - i) =~= v@.subrange(i as int, j as int));
        assert(t.skip(j - i) =~= v@.subrange(j as int, n as int));
    }
    (text_of(&v, i, j), text_of(&v, j, n))
}

/// Whether the first of two texts comes before the second when they are ordered
/// character by character, a text before its continuations.
pub open spec fn text_before(a: Seq<char>, b: Seq<char>) -> bool
    decreases a.len(),
{
    if b.len() == 0 {
        false
    } else if a.len() == 0 {
        true
    } else if a[0] == b[0] {
        text_before(a.drop_first(), b.drop_first())
    } else {
        a[0] < b[0]
    }
}

/// Whether the first of two texts comes before the second.
pub fn comes_before(a: &str, b: &str) -> (r: bool)
    ensures
        r == text_before(a@, b@),
{
    let v = chars_of(a);
    let w = chars_of(b);
    let n: usize = v.len();
    let m: usize = w.len();
    let mut i: usize = 0;
    proof {
        assert(v@.skip(0) =~= v@);
        assert(w@.skip(0) =~= w@);
    }
    while i < n && i < m
        invariant
            i <= n == v@.len(),
            i <= m == w@.len(),
            v@ == a@,
            w@ == b@,
            text_before(v@.skip(i as int), w@.skip(i as int)) == text_before(v@, w@),
        decreases n - i,
    {
        proof {
            assert(v@.skip(i as int)[0] == v@[i as int]);
            assert(w@.skip(i as int)[0] == w@[i as int]);
            assert(v@.skip(i as int).drop_first() =~= v@.skip(i + 1));
            assert(w@.skip(i as int).drop_first() =~= w@.skip(i + 1));
        }
        if v[i] != w[i] {
            return v[i] < w[i];
        }
        i += 1;
    }
    i < m
}

/// The order of texts is strict and total: of two texts exactly one comes before
/// the other, or they are the same.
pub proof fn order_is_total(a: Seq<char>, b: Seq<char>)
    ensures
        text_before(a, b) ==> !text_before(b, a),
        !text_before(a, b) && !text_before(b, a) ==> a == b,
        !text_before(a, a),
    decreases a.len(),
{
    if a.len() > 0 {
        order_is_total(a.drop_first(), a.drop_first());
    }
    if a.len() > 0 && b.len() > 0 && a[0] == b[0] {
        order_is_total(a.drop_first(), b.drop_first());
        if a.drop_first() == b.drop_first() {
            assert(a =~= seq![a[0]] + a.drop_first());
            assert(b =~= seq![b[0]] + b.drop_first());
        }
    } else if a.len() == 0 && b.len() == 0 {
        assert(a =~= b);
    }
}

/// The order of texts is transitive.
pub proof fn order_is_transitive(a: Seq<char>, b: Seq<char>, c: Seq<char>)
    requires
        text_before(a, b),
        text_before(b, c),
    ensures
        text_before(a, c),
    decreases a.len(),
{
    if a.len() > 0 && a[0] == b[0] && b[0] == c[0] {
        order_is_transitive(a.drop_first(), b.drop_first(), c.drop_first());
    }
}

} // verus!
