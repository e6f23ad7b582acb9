//! Character-level text operations used by the parsers and the report
//! builders, each specified over `Seq<char>`.

use vstd::prelude::*;

verus! {

/// `String::push` appends the character to the end of the string; vstd
/// states nothing of it, so this claim is taken as given.
pub assume_specification[ String::push ](s: &mut String, ch: char)
    ensures
        final(s)@ == old(s)@.push(ch),
;

/// Unicode `White_Space`: the characters for which `char::is_whitespace`
/// holds, and at which `str::trim` and `str::split_whitespace` cut.
pub open spec fn is_white_space(c: char) -> bool {
    ||| ('\u{9}' <= c && c <= '\u{d}')
    ||| c == ' '
    ||| c == '\u{85}'
    ||| c == '\u{a0}'
    ||| c == '\u{1680}'
    ||| ('\u{2000}' <= c && c <= '\u{200a}')
    ||| c == '\u{2028}'
    ||| c == '\u{2029}'
    ||| c == '\u{202f}'
    ||| c == '\u{205f}'
    ||| c == '\u{3000}'
}

pub fn white_space(c: char) -> (r: bool)
    ensures
        r == is_white_space(c),
{
    ('\u{9}' <= c && c <= '\u{d}') || c == ' ' || c == '\u{85}' || c == '\u{a0}' || c
        == '\u{1680}' || ('\u{2000}' <= c && c <= '\u{200a}') || c == '\u{2028}' || c
        == '\u{2029}' || c == '\u{202f}' || c == '\u{205f}' || c == '\u{3000}'
}

/// The classes of characters that the parsers search for.
#[derive(Clone, Copy, PartialEq, Eq, Structural, Debug)]
pub enum CharClass {
    /// `'0'..='9'`
    AsciiDigit,
    /// One given character.
    Exactly(char),
    /// Where a PEP 508 package name ends: `[`, a comparison character, the `@`
    /// of a URL reference, or white space.
    NameTerminator,
}

pub open spec fn in_class(cls: CharClass, c: char) -> bool {
    match cls {
        CharClass::AsciiDigit => '0' <= c && c <= '9',
        CharClass::Exactly(d) => c == d,
        CharClass::NameTerminator => c == '[' || c == '>' || c == '<' || c == '=' || c == '~'
            || c == '!' || c == '@' || is_white_space(c),
    }
}

pub fn class_contains(cls: CharClass, c: char) -> (r: bool)
    ensures
        r == in_class(cls, c),
{
    match cls {
        CharClass::AsciiDigit => '0' <= c && c <= '9',
        CharClass::Exactly(d) => c == d,
        CharClass::NameTerminator => c == '[' || c == '>' || c == '<' || c == '=' || c == '~'
            || c == '!' || c == '@' || white_space(c),
    }
}

/// The index of the first character of `s` in `cls`, or `s.len()` when there
/// is none (what `str::find` reports, counted in characters).
pub open spec fn position(s: Seq<char>, cls: CharClass) -> nat
    decreases s.len(),
{
    if s.len() == 0 {
        0
    } else if in_class(cls, s[0]) {
        0
    } else {
        1 + position(s.drop_first(), cls)
    }
}

pub proof fn lemma_position(s: Seq<char>, cls: CharClass)
    ensures
        0 <= position(s, cls) <= s.len(),
        forall|j: int| 0 <= j < position(s, cls) ==> !in_class(cls, #[trigger] s[j]),
        position(s, cls) < s.len() ==> in_class(cls, s[position(s, cls) as int]),
    decreases s.len(),
{
    if s.len() > 0 && !in_class(cls, s[0]) {
        lemma_position(s.drop_first(), cls);
        assert forall|j: int| 0 <= j < position(s, cls) implies !in_class(cls, #[trigger] s[j]) by {
            if j > 0 {
                assert(s[j] == s.drop_first()[j - 1]);
            }
        }
    }
}

/// `position` is the only index with its two defining properties.
pub proof fn lemma_position_unique(s: Seq<char>, cls: CharClass, k: int)
    requires
        0 <= k <= s.len(),
        forall|j: int| 0 <= j < k ==> !in_class(cls, #[trigger] s[j]),
        k < s.len() ==> in_class(cls, s[k]),
    ensures
        position(s, cls) == k,
{
    lemma_position(s, cls);
    let p = position(s, cls) as int;
    if p < k {
        assert(!in_class(cls, s[p]));
    }
    if k < p {
        assert(!in_class(cls, s[k]));
    }
}

pub fn find_position(v: &Vec<char>, cls: CharClass) -> (k: usize)
    ensures
        k == position(v@, cls),
{
    let mut i: usize = 0;
    while i < v.len() && !class_contains(cls, v[i])
        invariant
            i <= v.len(),
            forall|j: int| 0 <= j < i ==> !in_class(cls, #[trigger] v@[j]),
        decreases v.len() - i,
    {
        i += 1;
    }
    proof {
        lemma_position_unique(v@, cls, i as int);
    }
    i
}

/// `s` without its leading white space.
pub open spec fn trim_start(s: Seq<char>) -> Seq<char>
    decreases s.len(),
{
    if s.len() > 0 && is_white_space(s[0]) {
        trim_start(s.drop_first())
    } else {
        s
    }
}

/// `s` without its trailing white space.
pub open spec fn trim_end(s: Seq<char>) -> Seq<char>
    decreases s.len(),
{
    if s.len() > 0 && is_white_space(s.last()) {
        trim_end(s.drop_last())
    } else {
        s
    }
}

/// `s` without leading and trailing white space (`str::trim`).
pub open spec fn trim(s: Seq<char>) -> Seq<char> {
    trim_end(trim_start(s))
}

/// How many white-space characters `x` starts with.
pub open spec fn leading_white_space(x: Seq<char>) -> nat
    decreases x.len(),
{
    if x.len() > 0 && is_white_space(x[0]) {
        1 + leading_white_space(x.drop_first())
    } else {
        0
    }
}

/// How long `x` is once its trailing white space is dropped.
pub open spec fn length_without_trailing_white_space(x: Seq<char>) -> nat
    decreases x.len(),
{
    if x.len() > 0 && is_white_space(x.last()) {
        length_without_trailing_white_space(x.drop_last())
    } else {
        x.len()
    }
}

/// Where `trim(x)` lies in `x`: from the end of the leading white space up to
/// the start of the trailing white space.
pub open spec fn trim_span(x: Seq<char>) -> (int, int) {
    let a = leading_white_space(x) as int;
    (a, a + length_without_trailing_white_space(x.skip(a)) as int)
}

pub proof fn lemma_leading_white_space(x: Seq<char>)
    ensures
        leading_white_space(x) <= x.len(),
        trim_start(x) == x.skip(leading_white_space(x) as int),
        forall|j: int| 0 <= j < leading_white_space(x) ==> is_white_space(#[trigger] x[j]),
        leading_white_space(x) < x.len() ==> !is_white_space(x[leading_white_space(x) as int]),
    decreases x.len(),
{
    if x.len() > 0 && is_white_space(x[0]) {
        lemma_leading_white_space(x.drop_first());
        assert forall|j: int| 0 <= j < leading_white_space(x) implies is_white_space(#[trigger] x[j]) by {
            if j > 0 {
                assert(x[j] == x.drop_first()[j - 1]);
            }
        }
        if leading_white_space(x) < x.len() {
            assert(x[leading_white_space(x) as int] == x.drop_first()[leading_white_space(
                x.drop_first(),
            ) as int]);
        }
        assert(x.drop_first().skip(leading_white_space(x.drop_first()) as int) =~= x.skip(
            leading_white_space(x) as int,
        ));
    } else {
        assert(x.skip(0) =~= x);
    }
}

pub proof fn lemma_length_without_trailing_white_space(x: Seq<char>)
    ensures
        length_without_trailing_white_space(x) <= x.len(),
        trim_end(x) == x.take(length_without_trailing_white_space(x) as int),
        forall|j: int|
            length_without_trailing_white_space(x) <= j < x.len() ==> is_white_space(#[trigger] x[j]),
        length_without_trailing_white_space(x) > 0 ==> !is_white_space(
            x[length_without_trailing_white_space(x) - 1],
        ),
    decreases x.len(),
{
    if x.len() > 0 && is_white_space(x.last()) {
        lemma_length_without_trailing_white_space(x.drop_last());
        assert forall|j: int|
            length_without_trailing_white_space(x) <= j < x.len() implies is_white_space(
                #[trigger] x[j],
            ) by {
            if j < x.len() - 1 {
                assert(x[j] == x.drop_last()[j]);
            }
        }
        if length_without_trailing_white_space(x) > 0 {
            assert(x[length_without_trailing_white_space(x) - 1] == x.drop_last()[
                length_without_trailing_white_space(x) - 1]);
        }
        assert(x.drop_last().take(length_without_trailing_white_space(x.drop_last()) as int)
            =~= x.take(length_without_trailing_white_space(x) as int));
    } else {
        assert(x.take(x.len() as int) =~= x);
    }
}

/// `trim(x)` is the part of `x` that `trim_span` marks: white space before
/// and after it, and neither at its ends.
pub proof fn lemma_trim_span(x: Seq<char>)
    ensures
        0 <= trim_span(x).0 <= trim_span(x).1 <= x.len(),
        trim(x) == x.subrange(trim_span(x).0, trim_span(x).1),
        forall|j: int| 0 <= j < trim_span(x).0 ==> is_white_space(#[trigger] x[j]),
        forall|j: int| trim_span(x).1 <= j < x.len() ==> is_white_space(#[trigger] x[j]),
        trim_span(x).0 < trim_span(x).1 ==> !is_white_space(x[trim_span(x).0]) && !is_white_space(
            x[trim_span(x).1 - 1],
        ),
{
    lemma_leading_white_space(x);
    let a = leading_white_space(x) as int;
    let t = x.skip(a);
    lemma_length_without_trailing_white_space(t);
    assert(t.take(length_without_trailing_white_space(t) as int) =~= x.subrange(
        a,
        a + length_without_trailing_white_space(t) as int,
    ));
    let b = a + length_without_trailing_white_space(t) as int;
    assert forall|j: int| b <= j < x.len() implies is_white_space(#[trigger] x[j]) by {
        assert(x[j] == t[j - a]);
    }
    if a < b {
        assert(x[b - 1] == t[b - 1 - a]);
    }
}

/// A run of `x` with white space before and after it, and none at its ends,
/// is what `trim` keeps.
pub proof fn lemma_trim_characterised(x: Seq<char>, a: int, b: int)
    requires
        0 <= a < b <= x.len(),
        forall|j: int| 0 <= j < a ==> is_white_space(#[trigger] x[j]),
        forall|j: int| b <= j < x.len() ==> is_white_space(#[trigger] x[j]),
        !is_white_space(x[a]),
        !is_white_space(x[b - 1]),
    ensures
        trim(x) == x.subrange(a, b),
{
    lemma_trim_span(x);
    let (a2, b2) = trim_span(x);
    if a2 < a {
        if a2 == b2 {
            assert(is_white_space(x[a]));
        } else {
            assert(is_white_space(x[a2]));
        }
    }
    if a2 > a {
        assert(is_white_space(x[a]));
    }
    if b2 < b {
        assert(is_white_space(x[b - 1]));
    }
    if b2 > b {
        assert(is_white_space(x[b2 - 1]));
    }
}

pub fn leading_white_space_count(v: &Vec<char>) -> (k: usize)
    ensures
        k == leading_white_space(v@),
{
    let mut i: usize = 0;
    assert(v@.skip(0) =~= v@);
    while i < v.len() && white_space(v[i])
        invariant
            i <= v.len(),
            leading_white_space(v@) == i + leading_white_space(v@.skip(i as int)),
        decreases v.len() - i,
    {
        assert(v@.skip(i as int).drop_first() =~= v@.skip(i + 1));
        i += 1;
    }
    i
}

pub fn length_without_trailing_white_space_of(v: &Vec<char>) -> (k: usize)
    ensures
        k == length_without_trailing_white_space(v@),
{
    let mut j: usize = v.len();
    assert(v@.take(j as int) =~= v@);
    while j > 0 && white_space(v[j - 1])
        invariant
            j <= v.len(),
            length_without_trailing_white_space(v@) == length_without_trailing_white_space(
                v@.take(j as int),
            ),
        decreases j,
    {
        assert(v@.take(j as int).drop_last() =~= v@.take(j - 1));
        j -= 1;
    }
    j
}

/// Where `trim` of `v` lies in `v`.
pub fn trim_span_of(v: &Vec<char>) -> (r: (usize, usize))
    ensures
        r.0 == trim_span(v@).0,
        r.1 == trim_span(v@).1,
        r.0 <= r.1 <= v.len(),
{
    proof {
        lemma_trim_span(v@);
    }
    let a = leading_white_space_count(v);
    proof {
        lemma_leading_white_space(v@);
    }
    let rest = slice(v, a, v.len());
    assert(rest@ =~= v@.skip(a as int));
    let k = length_without_trailing_white_space_of(&rest);
    (a, a + k)
}

/// The characters of `v` from index `from` up to, not including, `to`.
pub fn slice(v: &Vec<char>, from: usize, to: usize) -> (r: Vec<char>)
    requires
        from <= to <= v.len(),
    ensures
        r@ == v@.subrange(from as int, to as int),
{
    let mut r: Vec<char> = Vec::new();
    let mut i = from;
    while i < to
        invariant
            from <= i <= to <= v.len(),
            r@ == v@.subrange(from as int, i as int),
        decreases to - i,
    {
        r.push(v[i]);
        i += 1;
        assert(r@ =~= v@.subrange(from as int, i as int));
    }
    r
}

pub fn trim_start_chars(v: &Vec<char>) -> (r: Vec<char>)
    ensures
        r@ == trim_start(v@),
{
    let mut i: usize = 0;
    assert(v@.skip(0) =~= v@);
    while i < v.len() && white_space(v[i])
        invariant
            i <= v.len(),
            trim_start(v@) == trim_start(v@.skip(i as int)),
        decreases v.len() - i,
    {
        assert(v@.skip(i as int).drop_first() =~= v@.skip(i + 1));
        i += 1;
    }
    let r = slice(v, i, v.len());
    assert(r@ =~= v@.skip(i as int));
    r
}

pub fn trim_end_chars(v: &Vec<char>) -> (r: Vec<char>)
    ensures
        r@ == trim_end(v@),
{
    let mut j: usize = v.len();
    assert(v@.take(j as int) =~= v@);
    while j > 0 && white_space(v[j - 1])
        invariant
            j <= v.len(),
            trim_end(v@) == trim_end(v@.take(j as int)),
        decreases j,
    {
        assert(v@.take(j as int).drop_last() =~= v@.take(j - 1));
        j -= 1;
    }
    let r = slice(v, 0, j);
    assert(r@ =~= v@.take(j as int));
    assert(v@.take(v@.len() as int) =~= v@);
    r
}

pub fn trim_chars(v: &Vec<char>) -> (r: Vec<char>)
    ensures
        r@ == trim(v@),
{
    let s = trim_start_chars(v);
    trim_end_chars(&s)
}

/// `s` begins with `p`.
pub open spec fn starts_with(s: Seq<char>, p: Seq<char>) -> bool {
    p.len() <= s.len() && s.subrange(0, p.len() as int) == p
}

pub fn chars_start_with(v: &Vec<char>, p: &Vec<char>) -> (r: bool)
    ensures
        r == starts_with(v@, p@),
{
    if p.len() > v.len() {
        return false;
    }
    let mut i: usize = 0;
    while i < p.len()
        invariant
            p.len() <= v.len(),
            i <= p.len(),
            forall|j: int| 0 <= j < i ==> v@[j] == p@[j],
        decreases p.len() - i,
    {
        if v[i] != p[i] {
            assert(v@.subrange(0, p@.len() as int)[i as int] != p@[i as int]);
            return false;
        }
        i += 1;
    }
    assert(v@.subrange(0, p@.len() as int) =~= p@);
    true
}

/// The characters of `s`, in order.
pub fn chars_of(s: &str) -> (r: Vec<char>)
    ensures
        r@ == s@,
{
    let mut r: Vec<char> = Vec::new();
    for c in it: s.chars()
        invariant
            r@ == it.seq().take(it.index() as int),
            it.seq() == s@,
    {
        r.push(c);
    }
    r
}

/// A `String` holding the characters of `v`.
pub fn string_of(v: &Vec<char>) -> (r: String)
    ensures
        r@ == v@,
{
    let mut r = String::new();
    let mut i: usize = 0;
    while i < v.len()
        invariant
            i <= v.len(),
            r@ == v@.take(i as int),
        decreases v.len() - i,
    {
        r.push(v[i]);
        i += 1;
        assert(r@ =~= v@.take(i as int));
    }
    assert(v@.take(i as int) =~= v@);
    r
}

/// Appends the characters of `v` to `out`.
pub fn push_chars(out: &mut String, v: &Vec<char>)
    ensures
        final(out)@ == old(out)@ + v@,
{
    let mut i: usize = 0;
    while i < v.len()
        invariant
            i <= v.len(),
            out@ == old(out)@ + v@.take(i as int),
        decreases v.len() - i,
    {
        out.push(v[i]);
        i += 1;
        assert(out@ =~= old(out)@ + v@.take(i as int));
    }
    assert(v@.take(i as int) =~= v@);
}

/// Appends the characters of `s` to `out`.
pub fn push_str(out: &mut String, s: &str)
    ensures
        final(out)@ == old(out)@ + s@,
{
    let v = chars_of(s);
    push_chars(out, &v);
}

/// The decimal digit `d` (`d < 10`) as a character.
pub open spec fn digit_char(d: nat) -> char {
    (d + 48) as char
}

/// The decimal representation of `n`, without leading zeros.
pub open spec fn decimal(n: nat) -> Seq<char>
    decreases n,
{
    if n < 10 {
        seq![digit_char(n)]
    } else {
        decimal(n / 10).push(digit_char(n % 10))
    }
}

/// The decimal representation of `n`, with a leading `-` when negative.
pub open spec fn signed_decimal(n: int) -> Seq<char> {
    if n < 0 {
        seq!['-'] + decimal((-n) as nat)
    } else {
        decimal(n as nat)
    }
}

fn digit(d: u64) -> (c: char)
    requires
        d < 10,
    ensures
        c == digit_char(d as nat),
{
    match d {
        0 => '0',
        1 => '1',
        2 => '2',
        3 => '3',
        4 => '4',
        5 => '5',
        6 => '6',
        7 => '7',
        8 => '8',
        _ => '9',
    }
}

fn push_decimal(out: &mut String, n: u64)
    ensures
        final(out)@ == old(out)@ + decimal(n as nat),
    decreases n,
{
    if n >= 10 {
        push_decimal(out, n / 10);
    }
    out.push(digit(n % 10));
    assert(decimal(n as nat) =~= if n < 10 {
        seq![digit_char(n as nat)]
    } else {
        decimal((n / 10) as nat).push(digit_char((n % 10) as nat))
    });
}

/// `n` written in decimal (what `usize::to_string` writes).
pub fn usize_text(n: usize) -> (r: String)
    ensures
        r@ == decimal(n as nat),
{
    let mut r = String::new();
    push_decimal(&mut r, n as u64);
    r
}

/// `n` written in decimal, with a leading `-` when negative (what
/// `i32::to_string` writes).
pub fn i32_text(n: i32) -> (r: String)
    ensures
        r@ == signed_decimal(n as int),
{
    let mut r = String::new();
    if n < 0 {
        r.push('-');
        let m: i64 = -(n as i64);
        push_decimal(&mut r, m as u64);
    } else {
        push_decimal(&mut r, n as u64);
    }
    r
}

/// The pieces of `s` between its `\n` characters, given that `current`
/// came just before `s` on the same line: `str::lines`, where a line's
/// terminating `\r\n` counts as its end and a last line without a
/// terminator is kept only if it is not empty.
pub open spec fn lines_from(s: Seq<char>, current: Seq<char>) -> Seq<Seq<char>>
    decreases s.len(),
{
    if s.len() == 0 {
        if current.len() > 0 {
            seq![current]
        } else {
            seq![]
        }
    } else if s[0] == '\n' {
        seq![without_carriage_return(current)] + lines_from(s.drop_first(), seq![])
    } else {
        lines_from(s.drop_first(), current.push(s[0]))
    }
}

/// `line` without one trailing `\r`.
pub open spec fn without_carriage_return(line: Seq<char>) -> Seq<char> {
    if line.len() > 0 && line.last() == '\r' {
        line.drop_last()
    } else {
        line
    }
}

/// The lines of `s` (`str::lines`).
pub open spec fn lines(s: Seq<char>) -> Seq<Seq<char>> {
    lines_from(s, seq![])
}

pub open spec fn chars_views(v: Seq<Vec<char>>) -> Seq<Seq<char>> {
    v.map_values(|p: Vec<char>| p@)
}

/// The lines of `v`.
pub fn split_lines(v: &Vec<char>) -> (r: Vec<Vec<char>>)
    ensures
        chars_views(r@) == lines(v@),
{
    let mut out: Vec<Vec<char>> = Vec::new();
    let mut current: Vec<char> = Vec::new();
    let mut i: usize = 0;
    assert(v@.skip(0) =~= v@);
    while i < v.len()
        invariant
            i <= v.len(),
            lines(v@) == chars_views(out@) + lines_from(v@.skip(i as int), current@),
        decreases v.len() - i,
    {
        assert(v@.skip(i as int).drop_first() =~= v@.skip(i + 1));
        assert(v@.skip(i as int)[0] == v@[i as int]);
        if v[i] == '\n' {
            let line = if current.len() > 0 && current[current.len() - 1] == '\r' {
                slice(&current, 0, current.len() - 1)
            } else {
                slice(&current, 0, current.len())
            };
            assert(line@ =~= without_carriage_return(current@));
            let ghost before = out@;
            out.push(line);
            assert(chars_views(out@) =~= chars_views(before).push(line@));
            current = Vec::new();
            assert(lines(v@) =~= chars_views(out@) + lines_from(v@.skip(i + 1), current@));
        } else {
            current.push(v[i]);
        }
        i += 1;
    }
    if current.len() > 0 {
        let ghost before = out@;
        let ghost last = current@;
        out.push(current);
        assert(chars_views(out@) =~= chars_views(before).push(last));
    }
    assert(lines(v@) =~= chars_views(out@)) by {
        assert(v@.skip(i as int) =~= Seq::<char>::empty());
    }
    out
}

/// The runs of non-white-space characters of `s`, given that `current` came
/// just before `s` in the same run (`str::split_whitespace`).
pub open spec fn words_from(s: Seq<char>, current: Seq<char>) -> Seq<Seq<char>>
    decreases s.len(),
{
    if s.len() == 0 {
        if current.len() > 0 {
            seq![current]
        } else {
            seq![]
        }
    } else if is_white_space(s[0]) {
        (if current.len() > 0 {
            seq![current]
        } else {
            seq![]
        }) + words_from(s.drop_first(), seq![])
    } else {
        words_from(s.drop_first(), current.push(s[0]))
    }
}

/// The white-space separated words of `s` (`str::split_whitespace`).
pub open spec fn words(s: Seq<char>) -> Seq<Seq<char>> {
    words_from(s, seq![])
}

pub open spec fn string_views(v: Seq<String>) -> Seq<Seq<char>> {
    v.map_values(|p: String| p@)
}

/// The white-space separated words of `s`.
pub fn split_words(s: &str) -> (r: Vec<String>)
    ensures
        string_views(r@) == words(s@),
{
    let v = chars_of(s);
    let mut out: Vec<String> = Vec::new();
    let mut current: Vec<char> = Vec::new();
    let mut i: usize = 0;
    assert(v@.skip(0) =~= v@);
    while i < v.len()
        invariant
            i <= v.len(),
            v@ == s@,
            words(s@) == string_views(out@) + words_from(v@.skip(i as int), current@),
        decreases v.len() - i,
    {
        assert(v@.skip(i as int).drop_first() =~= v@.skip(i + 1));
        assert(v@.skip(i as int)[0] == v@[i as int]);
        if white_space(v[i]) {
            if current.len() > 0 {
                let word = string_of(&current);
                let ghost before = out@;
                out.push(word);
                assert(string_views(out@) =~= string_views(before).push(current@));
            }
            current = Vec::new();
            assert(words(s@) =~= string_views(out@) + words_from(v@.skip(i + 1), current@));
        } else {
            current.push(v[i]);
        }
        i += 1;
    }
    if current.len() > 0 {
        let word = string_of(&current);
        let ghost before = out@;
        out.push(word);
        assert(string_views(out@) =~= string_views(before).push(current@));
    }
    assert(words(s@) =~= string_views(out@)) by {
        assert(v@.skip(i as int) =~= Seq::<char>::empty());
    }
    out
}

} // verus!
