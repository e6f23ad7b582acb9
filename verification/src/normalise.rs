//! Normalisation of package names (PEP 503) and of version strings.

use vstd::prelude::*;
use crate::text::{CharClass, position, lemma_position, find_position, slice, chars_of, string_of};

verus! {

/// What `str::to_lowercase` returns for `s`: the Unicode lowercase mapping.
pub uninterp spec fn lowercase(s: Seq<char>) -> Seq<char>;

/// `str::to_lowercase`: the result is `lowercase` of the argument.
#[verifier::external_body]
fn to_lowercase(s: &str) -> (r: String)
    ensures
        r@ == lowercase(s@),
{
    s.to_lowercase()
}

/// The characters that PEP 503 treats as interchangeable separators.
pub open spec fn is_separator(c: char) -> bool {
    c == '-' || c == '_' || c == '.'
}

/// `s` with each run of separators replaced by one `-`, where
/// `after_separator` says whether a separator came just before `s`.
pub open spec fn collapse_from(s: Seq<char>, after_separator: bool) -> Seq<char>
    decreases s.len(),
{
    if s.len() == 0 {
        seq![]
    } else if is_separator(s[0]) {
        (if after_separator {
            Seq::<char>::empty()
        } else {
            seq!['-']
        }) + collapse_from(s.drop_first(), true)
    } else {
        seq![s[0]] + collapse_from(s.drop_first(), false)
    }
}

/// `s` with each run of `-`, `_` and `.` replaced by a single `-`.
pub open spec fn collapse_separators(s: Seq<char>) -> Seq<char> {
    collapse_from(s, false)
}

/// The PEP 503 normal form of a package name.
pub open spec fn normalised_name(name: Seq<char>) -> Seq<char> {
    collapse_separators(lowercase(name))
}

/// Replaces each run of `-`, `_` and `.` in `lower` by a single `-`.
pub fn collapse_name_separators(lower: &str) -> (r: String)
    ensures
        r@ == collapse_separators(lower@),
{
    let v = chars_of(lower);
    let mut out: Vec<char> = Vec::new();
    let mut prev_was_sep = false;
    let mut i: usize = 0;
    assert(v@.skip(0) =~= v@);
    while i < v.len()
        invariant
            i <= v.len(),
            collapse_from(v@, false) == out@ + collapse_from(v@.skip(i as int), prev_was_sep),
        decreases v.len() - i,
    {
        let ch = v[i];
        assert(v@.skip(i as int).drop_first() =~= v@.skip(i + 1));
        if ch == '-' || ch == '_' || ch == '.' {
            if !prev_was_sep {
                out.push('-');
            }
            prev_was_sep = true;
        } else {
            out.push(ch);
            prev_was_sep = false;
        }
        i += 1;
        assert(collapse_from(v@, false) =~= out@ + collapse_from(v@.skip(i as int), prev_was_sep));
    }
    assert(v@.skip(i as int) =~= Seq::<char>::empty());
    assert(out@ =~= collapse_from(v@, false));
    string_of(&out)
}

/// Normalise a package name per PEP 503: lowercase it, then replace each run
/// of `-`, `_` and `.` by a single `-`.
pub fn normalise_dependency_name(name: &str) -> (r: String)
    ensures
        r@ == normalised_name(name@),
{
    let lower = to_lowercase(name);
    collapse_name_separators(lower.as_str())
}

/// `s` cut at every occurrence of `sep` (`str::split` with a character).
pub open spec fn split_on(s: Seq<char>, sep: char) -> Seq<Seq<char>>
    decreases s.len(),
    via split_on_decreases
{
    if position(s, CharClass::Exactly(sep)) < s.len() {
        seq![s.take(position(s, CharClass::Exactly(sep)) as int)] + split_on(
            s.skip(position(s, CharClass::Exactly(sep)) as int + 1),
            sep,
        )
    } else {
        seq![s]
    }
}

#[via_fn]
proof fn split_on_decreases(s: Seq<char>, sep: char) {
    lemma_position(s, CharClass::Exactly(sep));
    let k = position(s, CharClass::Exactly(sep)) as int;
    if k < s.len() {
        assert(0 <= k);
        assert(s.skip(k + 1) =~= s.subrange(k + 1, s.len() as int));
        assert(s.skip(k + 1).len() == s.len() - k - 1);
    }
}

/// The pieces of `parts` joined with `sep` between consecutive pieces.
pub open spec fn join_with(parts: Seq<Seq<char>>, sep: char) -> Seq<char>
    decreases parts.len(),
{
    if parts.len() == 0 {
        seq![]
    } else if parts.len() == 1 {
        parts[0]
    } else {
        join_with(parts.drop_last(), sep) + seq![sep] + parts.last()
    }
}

/// How many of `parts` remain once the trailing pieces equal to "0" are dropped.
pub open spec fn kept_parts(parts: Seq<Seq<char>>) -> nat
    decreases parts.len(),
{
    if parts.len() > 0 && parts.last() == seq!['0'] {
        kept_parts(parts.drop_last())
    } else {
        parts.len()
    }
}

/// A version with its trailing `.0` components dropped, keeping at least the
/// first component: "1.2.0" becomes "1.2", "1.0.0" becomes "1".
pub open spec fn normalised_version(version: Seq<char>) -> Seq<char> {
    let parts = split_on(version, '.');
    let kept = kept_parts(parts);
    join_with(parts.take(if kept == 0 { 1 } else { kept as int }), '.')
}

pub open spec fn piece_views(v: Seq<Vec<char>>) -> Seq<Seq<char>> {
    v.map_values(|p: Vec<char>| p@)
}

pub(crate) proof fn lemma_split_nonempty(s: Seq<char>, sep: char)
    ensures
        split_on(s, sep).len() >= 1,
    decreases s.len(),
{
    let k = position(s, CharClass::Exactly(sep));
    lemma_position(s, CharClass::Exactly(sep));
    if k < s.len() {
        lemma_split_nonempty(s.skip(k as int + 1), sep);
    }
}

/// The pieces of `v` between the occurrences of `sep`.
pub fn split_chars(v: &Vec<char>, sep: char) -> (r: Vec<Vec<char>>)
    ensures
        piece_views(r@) == split_on(v@, sep),
{
    let mut parts: Vec<Vec<char>> = Vec::new();
    let mut start: usize = 0;
    assert(v@.skip(0) =~= v@);
    loop
        invariant
            start <= v.len(),
            split_on(v@, sep) == piece_views(parts@) + split_on(v@.skip(start as int), sep),
        decreases v.len() - start,
    {
        let rest = slice(v, start, v.len());
        assert(rest@ =~= v@.skip(start as int));
        let k = find_position(&rest, CharClass::Exactly(sep));
        proof {
            lemma_position(rest@, CharClass::Exactly(sep));
        }
        if k == rest.len() {
            let ghost before = parts@;
            parts.push(rest);
            assert(piece_views(parts@) =~= piece_views(before).push(v@.skip(start as int)));
            assert(split_on(v@, sep) =~= piece_views(parts@));
            return parts;
        }
        let piece = slice(&rest, 0, k);
        let ghost before = parts@;
        parts.push(piece);
        assert(piece_views(parts@) =~= piece_views(before).push(rest@.take(k as int)));
        assert(rest@.skip(k + 1) =~= v@.skip(start + k + 1));
        start = start + k + 1;
        assert(split_on(v@, sep) =~= piece_views(parts@) + split_on(v@.skip(start as int), sep));
    }
}

/// The pieces of `parts` from the first up to, not including, index `n`,
/// joined with `sep`.
pub fn join_chars(parts: &Vec<Vec<char>>, n: usize, sep: char) -> (r: Vec<char>)
    requires
        n <= parts.len(),
    ensures
        r@ == join_with(piece_views(parts@).take(n as int), sep),
{
    let mut out: Vec<char> = Vec::new();
    let mut i: usize = 0;
    assert(piece_views(parts@).take(0) =~= Seq::<Seq<char>>::empty());
    while i < n
        invariant
            i <= n <= parts.len(),
            out@ == join_with(piece_views(parts@).take(i as int), sep),
        decreases n - i,
    {
        let ghost prefix = piece_views(parts@).take(i + 1);
        assert(prefix.drop_last() =~= piece_views(parts@).take(i as int));
        assert(prefix.last() == parts@[i as int]@);
        if i > 0 {
            out.push(sep);
        }
        let piece = &parts[i];
        let mut j: usize = 0;
        let ghost base = out@;
        while j < piece.len()
            invariant
                j <= piece.len(),
                out@ == base + piece@.take(j as int),
            decreases piece.len() - j,
        {
            out.push(piece[j]);
            j += 1;
            assert(out@ =~= base + piece@.take(j as int));
        }
        assert(piece@.take(j as int) =~= piece@);
        i += 1;
        assert(out@ =~= join_with(piece_views(parts@).take(i as int), sep));
    }
    out
}

/// Normalise a version string by stripping trailing `.0` components.
pub fn normalise_dependency_version(version: &str) -> (r: String)
    ensures
        r@ == normalised_version(version@),
{
    let v = chars_of(version);
    let parts = split_chars(&v, '.');
    proof {
        lemma_split_nonempty(v@, '.');
    }
    let ghost views = piece_views(parts@);
    let mut kept: usize = parts.len();
    assert(views.take(kept as int) =~= views);
    while kept > 0 && parts[kept - 1].len() == 1 && parts[kept - 1][0] == '0'
        invariant
            kept <= parts.len(),
            views == piece_views(parts@),
            kept_parts(views) == kept_parts(views.take(kept as int)),
        decreases kept,
    {
        assert(views.take(kept as int).last() =~= seq!['0']);
        assert(views.take(kept as int).drop_last() =~= views.take(kept - 1));
        kept -= 1;
    }
    if kept > 0 {
        assert(views.take(kept as int).last() != seq!['0']) by {
            if parts@[kept - 1]@.len() == 1 {
                assert(parts@[kept - 1]@[0] != seq!['0'][0]);
            }
        }
    }
    assert(kept_parts(views) == kept);
    let n = if kept == 0 { 1 } else { kept };
    let joined = join_chars(&parts, n, '.');
    string_of(&joined)
}

} // verus!
