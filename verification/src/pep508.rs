//! Parsing of PEP 508 dependency strings as `pyproject.toml` lists them.

use vstd::prelude::*;
use crate::deps::{PyprojectDependency, PyprojectDependencyView};
use crate::normalise::{normalised_name, normalise_dependency_name};
use crate::text::{
    CharClass, position, lemma_position, find_position, slice, trim, trim_chars, chars_of,
    string_of, trim_span, lemma_trim_span, trim_span_of, push_chars,
};

verus! {

/// A version constraint in a PEP 508 dependency string.
#[derive(Debug)]
pub struct VersionConstraint {
    /// The leading specifier, e.g. `>=`.
    pub operator: Option<String>,
    /// The lower-bound version, e.g. `0.110.0`.
    pub version: Option<String>,
    /// Any trailing specifiers, e.g. `,<1.0`.
    pub suffix: Option<String>,
}

pub struct VersionConstraintView {
    pub operator: Option<Seq<char>>,
    pub version: Option<Seq<char>>,
    pub suffix: Option<Seq<char>>,
}

impl View for VersionConstraint {
    type V = VersionConstraintView;

    open spec fn view(&self) -> VersionConstraintView {
        VersionConstraintView {
            operator: self.operator.deep_view(),
            version: self.version.deep_view(),
            suffix: self.suffix.deep_view(),
        }
    }
}

/// The components of a version constraint: nothing for an empty string or a
/// URL reference (`@ ...`); otherwise the operator, the text before the
/// first ASCII digit with white space trimmed off, the version from there up to the first comma (trimmed), and the
/// rest, from that comma on, as the suffix.
pub open spec fn version_constraint_spec(s: Seq<char>) -> VersionConstraintView {
    if s.len() == 0 || s[0] == '@' {
        VersionConstraintView { operator: None, version: None, suffix: None }
    } else {
        let op_end = position(s, CharClass::AsciiDigit) as int;
        let rest = s.skip(op_end);
        let version_end = position(rest, CharClass::Exactly(',')) as int;
        VersionConstraintView {
            operator: Some(trim(s.take(op_end))),
            version: Some(trim(rest.take(version_end))),
            suffix: if version_end < rest.len() {
                Some(rest.skip(version_end))
            } else {
                None
            },
        }
    }
}

/// `s` up to, not including, its first `c` (the first piece of `str::split`).
pub open spec fn before_first(s: Seq<char>, c: char) -> Seq<char> {
    s.take(position(s, CharClass::Exactly(c)) as int)
}

/// What is left of the specifier once the optional extras block `[...]` is
/// skipped: if `rest` opens a block that closes, the trimmed text after `]`.
pub open spec fn skip_extras(rest: Seq<char>) -> Seq<char> {
    if rest.len() > 0 && rest[0] == '[' {
        let close = position(rest, CharClass::Exactly(']')) as int;
        if close < rest.len() {
            trim(rest.skip(close + 1))
        } else {
            rest
        }
    } else {
        rest
    }
}

/// The dependency that a PEP 508 string `name [extras] [version_spec] [; marker]`
/// declares, with inline comments (`#`) and environment markers (`;`)
/// stripped, or nothing for a string that holds no name.
pub open spec fn pep508_spec(spec: Seq<char>, group: Option<Seq<char>>) -> Option<
    PyprojectDependencyView,
> {
    let s1 = trim(spec);
    let s2 = trim(before_first(s1, '#'));
    let s3 = trim(before_first(s2, ';'));
    let name_end = position(s3, CharClass::NameTerminator) as int;
    let raw_name = s3.take(name_end);
    if s1.len() == 0 || s2.len() == 0 || raw_name.len() == 0 {
        None
    } else {
        let constraint = version_constraint_spec(skip_extras(trim(s3.skip(name_end))));
        Some(
            PyprojectDependencyView {
                name: raw_name,
                normalised_name: normalised_name(raw_name),
                version: constraint.version,
                operator: constraint.operator,
                suffix: constraint.suffix,
                group,
            },
        )
    }
}

fn constraint_of_chars(s: &Vec<char>) -> (r: VersionConstraint)
    ensures
        r@ == version_constraint_spec(s@),
{
    if s.len() == 0 || s[0] == '@' {
        return VersionConstraint { operator: None, version: None, suffix: None };
    }
    let op_end = find_position(s, CharClass::AsciiDigit);
    proof {
        lemma_position(s@, CharClass::AsciiDigit);
    }
    let operator = trim_chars(&slice(s, 0, op_end));
    let rest = slice(s, op_end, s.len());
    assert(rest@ =~= s@.skip(op_end as int));
    let version_end = find_position(&rest, CharClass::Exactly(','));
    proof {
        lemma_position(rest@, CharClass::Exactly(','));
    }
    let version = trim_chars(&slice(&rest, 0, version_end));
    let suffix = if version_end < rest.len() {
        let tail = slice(&rest, version_end, rest.len());
        Some(string_of(&tail))
    } else {
        None
    };
    let r = VersionConstraint {
        operator: Some(string_of(&operator)),
        version: Some(string_of(&version)),
        suffix,
    };
    assert(r@.operator == Some(trim(s@.take(op_end as int))));
    assert(r@.version == Some(trim(rest@.take(version_end as int))));
    r
}

/// Parse a single version constraint string into its components: nothing for
/// an empty string or a URL/git reference (`@ git+...`); otherwise the
/// operator (e.g. `>=`), the version (e.g. `0.110.0`) and the suffix
/// (e.g. `,<1.0`).
pub fn parse_version_constraint(s: &str) -> (r: VersionConstraint)
    ensures
        r@ == version_constraint_spec(s@),
{
    let v = chars_of(s);
    constraint_of_chars(&v)
}

fn before_first_chars(v: &Vec<char>, c: char) -> (r: Vec<char>)
    ensures
        r@ == before_first(v@, c),
{
    let k = find_position(v, CharClass::Exactly(c));
    proof {
        lemma_position(v@, CharClass::Exactly(c));
    }
    slice(v, 0, k)
}

fn skip_extras_chars(rest: &Vec<char>) -> (r: Vec<char>)
    ensures
        r@ == skip_extras(rest@),
{
    if rest.len() > 0 && rest[0] == '[' {
        let close = find_position(rest, CharClass::Exactly(']'));
        proof {
            lemma_position(rest@, CharClass::Exactly(']'));
        }
        if close < rest.len() {
            let after = slice(rest, close + 1, rest.len());
            assert(after@ =~= rest@.skip(close + 1));
            return trim_chars(&after);
        }
    }
    slice(rest, 0, rest.len())
}

/// Parse a single PEP 508 dependency string, `name [extras] [version_spec] [; marker]`,
/// into a [`PyprojectDependency`] of the given group. Extras are discarded,
/// inline comments and environment markers stripped; Git/URL dependencies
/// (`@ git+...`) have no operator and no version. Nothing for a string that
/// holds no name.
pub fn parse_pep508_string(spec: &str, group: Option<String>) -> (r: Option<PyprojectDependency>)
    ensures
        match r {
            Some(d) => pep508_spec(spec@, group.deep_view()) == Some(d@),
            None => pep508_spec(spec@, group.deep_view()) is None,
        },
{
    let v = chars_of(spec);
    let s1 = trim_chars(&v);
    if s1.len() == 0 {
        return None;
    }
    let s2 = trim_chars(&before_first_chars(&s1, '#'));
    if s2.len() == 0 {
        return None;
    }
    let s3 = trim_chars(&before_first_chars(&s2, ';'));
    let name_end = find_position(&s3, CharClass::NameTerminator);
    proof {
        lemma_position(s3@, CharClass::NameTerminator);
    }
    let raw_name = slice(&s3, 0, name_end);
    if raw_name.len() == 0 {
        return None;
    }
    let name = string_of(&raw_name);
    let normalised = normalise_dependency_name(name.as_str());
    let after_name = slice(&s3, name_end, s3.len());
    assert(after_name@ =~= s3@.skip(name_end as int));
    let rest = skip_extras_chars(&trim_chars(&after_name));
    let constraint = constraint_of_chars(&rest);
    Some(
        PyprojectDependency {
            name,
            normalised_name: normalised,
            operator: constraint.operator,
            version: constraint.version,
            suffix: constraint.suffix,
            group,
        },
    )
}

/// Where the text that `skip_extras` keeps lies in `rest`.
pub open spec fn extras_window(rest: Seq<char>) -> (int, int) {
    if rest.len() > 0 && rest[0] == '[' && position(rest, CharClass::Exactly(']')) < rest.len() {
        let close = position(rest, CharClass::Exactly(']')) as int;
        let tail = rest.skip(close + 1);
        (close + 1 + trim_span(tail).0, close + 1 + trim_span(tail).1)
    } else {
        (0, rest.len() as int)
    }
}

pub(crate) proof fn lemma_extras_window(rest: Seq<char>)
    ensures
        0 <= extras_window(rest).0 <= extras_window(rest).1 <= rest.len(),
        skip_extras(rest) == rest.subrange(extras_window(rest).0, extras_window(rest).1),
{
    lemma_position(rest, CharClass::Exactly(']'));
    if rest.len() > 0 && rest[0] == '[' && position(rest, CharClass::Exactly(']')) < rest.len() {
        let close = position(rest, CharClass::Exactly(']')) as int;
        let tail = rest.skip(close + 1);
        lemma_trim_span(tail);
        assert(tail.subrange(trim_span(tail).0, trim_span(tail).1) =~= rest.subrange(
            extras_window(rest).0,
            extras_window(rest).1,
        ));
    } else {
        assert(rest.subrange(0, rest.len() as int) =~= rest);
    }
}

/// Where `trim(before_first(trim(before_first(trim(e), '#')), ';'))`, the
/// text that the parse takes the name from, lies in `e`.
#[verifier::opaque]
pub open spec fn name_window(e: Seq<char>) -> (int, int) {
    let (a1, b1) = trim_span(e);
    let h = before_first(e.subrange(a1, b1), '#');
    let (a2, b2) = trim_span(h);
    let m = before_first(h.subrange(a2, b2), ';');
    let (a3, b3) = trim_span(m);
    (a1 + a2 + a3, a1 + a2 + b3)
}

/// The text that the parse takes the name from.
pub open spec fn name_text(e: Seq<char>) -> Seq<char> {
    trim(before_first(trim(before_first(trim(e), '#')), ';'))
}

pub(crate) proof fn lemma_name_window(e: Seq<char>)
    ensures
        0 <= name_window(e).0 <= name_window(e).1 <= e.len(),
        name_text(e) == e.subrange(name_window(e).0, name_window(e).1),
{
    reveal(name_window);
    lemma_trim_span(e);
    let (a1, b1) = trim_span(e);
    let s1 = e.subrange(a1, b1);
    lemma_position(s1, CharClass::Exactly('#'));
    let c1 = position(s1, CharClass::Exactly('#')) as int;
    let h = before_first(s1, '#');
    assert(h =~= e.subrange(a1, a1 + c1));
    lemma_trim_span(h);
    let (a2, b2) = trim_span(h);
    let s2 = h.subrange(a2, b2);
    assert(s2 =~= e.subrange(a1 + a2, a1 + b2));
    lemma_position(s2, CharClass::Exactly(';'));
    let c2 = position(s2, CharClass::Exactly(';')) as int;
    let m = before_first(s2, ';');
    assert(m =~= e.subrange(a1 + a2, a1 + a2 + c2));
    lemma_trim_span(m);
    let (a3, b3) = trim_span(m);
    assert(m.subrange(a3, b3) =~= e.subrange(a1 + a2 + a3, a1 + a2 + b3));
}

/// Where the constraint text that the parse reads the operator, version and
/// suffix from lies in `e`: after the name, trimmed, past the extras.
#[verifier::opaque]
pub open spec fn constraint_window(e: Seq<char>) -> (int, int) {
    let p = name_window(e).0;
    let s3 = name_text(e);
    let ne = position(s3, CharClass::NameTerminator) as int;
    let after = s3.skip(ne);
    let (a4, b4) = trim_span(after);
    let (a5, b5) = extras_window(after.subrange(a4, b4));
    (p + ne + a4 + a5, p + ne + a4 + b5)
}

/// The constraint text that the parse reads the operator, version and
/// suffix from.
pub open spec fn constraint_text(e: Seq<char>) -> Seq<char> {
    let s3 = name_text(e);
    skip_extras(trim(s3.skip(position(s3, CharClass::NameTerminator) as int)))
}

proof fn lemma_constraint_window(e: Seq<char>)
    ensures
        0 <= constraint_window(e).0 <= constraint_window(e).1 <= e.len(),
        constraint_text(e) == e.subrange(constraint_window(e).0, constraint_window(e).1),
{
    reveal(constraint_window);
    lemma_name_window(e);
    let (p, q) = name_window(e);
    let s3 = name_text(e);
    lemma_position(s3, CharClass::NameTerminator);
    let ne = position(s3, CharClass::NameTerminator) as int;
    let after = s3.skip(ne);
    assert(after =~= e.subrange(p + ne, q));
    lemma_trim_span(after);
    let (a4, b4) = trim_span(after);
    let rest = after.subrange(a4, b4);
    assert(rest =~= e.subrange(p + ne + a4, p + ne + b4));
    lemma_extras_window(rest);
    let (a5, b5) = extras_window(rest);
    assert(rest.subrange(a5, b5) =~= e.subrange(p + ne + a4 + a5, p + ne + a4 + b5));
}

/// Where, in a dependency string, the version that `pep508_spec` reports
/// stands, counted in characters of the whole string: within the
/// constraint text, from the first digit up to the comma, trimmed. Nothing
/// where the string declares no version.
pub open spec fn version_span(e: Seq<char>) -> Option<(int, int)> {
    let rest2 = constraint_text(e);
    let c = constraint_window(e).0;
    if trim(e).len() == 0 || trim(before_first(trim(e), '#')).len() == 0 || position(
        name_text(e),
        CharClass::NameTerminator,
    ) == 0 || rest2.len() == 0 || rest2[0] == '@' {
        None
    } else {
        let op_end = position(rest2, CharClass::AsciiDigit) as int;
        let r = rest2.skip(op_end);
        let vt = r.take(position(r, CharClass::Exactly(',')) as int);
        Some((c + op_end + trim_span(vt).0, c + op_end + trim_span(vt).1))
    }
}

/// `version_span` marks exactly the version that the parse reports.
pub proof fn lemma_version_span(e: Seq<char>, group: Option<Seq<char>>)
    ensures
        version_span(e) matches Some((a, b)) ==> (0 <= a <= b <= e.len() && pep508_spec(e, group) is Some
            && pep508_spec(e, group)->0.version == Some(e.subrange(a, b))),
        version_span(e) is None ==> pep508_spec(e, group) is None || pep508_spec(e, group)->0.version is None,
{
    lemma_constraint_window(e);
    let rest2 = constraint_text(e);
    let c = constraint_window(e).0;
    if version_span(e) is Some {
        lemma_position(rest2, CharClass::AsciiDigit);
        let op_end = position(rest2, CharClass::AsciiDigit) as int;
        let r = rest2.skip(op_end);
        lemma_position(r, CharClass::Exactly(','));
        let ve = position(r, CharClass::Exactly(',')) as int;
        let vt = r.take(ve);
        assert(vt =~= e.subrange(c + op_end, c + op_end + ve));
        lemma_trim_span(vt);
        let (a6, b6) = trim_span(vt);
        assert(vt.subrange(a6, b6) =~= e.subrange(c + op_end + a6, c + op_end + b6));
        lemma_position(name_text(e), CharClass::NameTerminator);
        let ne = position(name_text(e), CharClass::NameTerminator) as int;
        assert(name_text(e).take(ne).len() == ne);
        assert(pep508_spec(e, group) is Some);
        assert(version_constraint_spec(rest2).version == Some(trim(vt)));
        assert(pep508_spec(e, group)->0.version == version_constraint_spec(rest2).version);
    }
}

/// Where the version of the dependency string `e` stands.
#[verifier::rlimit(40)]
pub fn version_span_of(e: &Vec<char>) -> (r: Option<(usize, usize)>)
    ensures
        match r {
            Some((a, b)) => version_span(e@) == Some((a as int, b as int)),
            None => version_span(e@) is None,
        },
{
    proof {
        reveal(name_window);
        reveal(constraint_window);
        lemma_name_window(e@);
        lemma_constraint_window(e@);
        lemma_trim_span(e@);
    }
    let (a1, b1) = trim_span_of(e);
    let s1 = slice(e, a1, b1);
    let h = before_first_chars(&s1, '#');
    proof {
        lemma_trim_span(h@);
    }
    let (a2, b2) = trim_span_of(&h);
    let s2 = slice(&h, a2, b2);
    let m = before_first_chars(&s2, ';');
    proof {
        lemma_trim_span(m@);
    }
    let (a3, b3) = trim_span_of(&m);
    let s3 = slice(&m, a3, b3);
    assert(s3@ == name_text(e@));
    let ne = find_position(&s3, CharClass::NameTerminator);
    proof {
        lemma_position(s3@, CharClass::NameTerminator);
    }
    let after = slice(&s3, ne, s3.len());
    assert(after@ =~= s3@.skip(ne as int));
    proof {
        lemma_trim_span(after@);
    }
    let (a4, b4) = trim_span_of(&after);
    let rest = slice(&after, a4, b4);
    proof {
        lemma_extras_window(rest@);
        lemma_position(rest@, CharClass::Exactly(']'));
    }
    let (a5, b5) = if rest.len() > 0 && rest[0] == '[' {
        let close = find_position(&rest, CharClass::Exactly(']'));
        if close < rest.len() {
            let tail = slice(&rest, close + 1, rest.len());
            assert(tail@ =~= rest@.skip(close + 1));
            proof {
                lemma_trim_span(tail@);
            }
            let (ta, tb) = trim_span_of(&tail);
            (close + 1 + ta, close + 1 + tb)
        } else {
            (0, rest.len())
        }
    } else {
        (0, rest.len())
    };
    let rest2 = slice(&rest, a5, b5);
    let start = a1 + a2 + a3 + ne + a4 + a5;
    assert(start == constraint_window(e@).0);
    assert(rest2@ == constraint_text(e@));
    if s1.len() == 0 || s2.len() == 0 || ne == 0 || rest2.len() == 0 || rest2[0] == '@' {
        return None;
    }
    let op_end = find_position(&rest2, CharClass::AsciiDigit);
    proof {
        lemma_position(rest2@, CharClass::AsciiDigit);
    }
    let r = slice(&rest2, op_end, rest2.len());
    assert(r@ =~= rest2@.skip(op_end as int));
    let ve = find_position(&r, CharClass::Exactly(','));
    proof {
        lemma_position(r@, CharClass::Exactly(','));
    }
    let vt = slice(&r, 0, ve);
    proof {
        lemma_trim_span(vt@);
    }
    let (a6, b6) = trim_span_of(&vt);
    Some((start + op_end + a6, start + op_end + b6))
}

/// A dependency string with its version replaced by `new`, every other
/// character kept; unchanged when it declares no version.
pub open spec fn rewritten_entry(e: Seq<char>, new: Seq<char>) -> Seq<char> {
    match version_span(e) {
        Some((a, b)) => e.take(a) + new + e.skip(b),
        None => e,
    }
}

/// Replaces the version of the dependency string `entry` by `new`, keeping
/// its name, extras, operator, suffix, environment marker, comment and
/// spacing; a string without a version is returned unchanged.
pub fn rewrite_version(entry: &str, new: &str) -> (r: String)
    ensures
        r@ == rewritten_entry(entry@, new@),
{
    let e = chars_of(entry);
    proof {
        lemma_version_span(e@, None);
    }
    match version_span_of(&e) {
        Some((a, b)) => {
            let head = slice(&e, 0, a);
            let tail = slice(&e, b, e.len());
            let mut out = string_of(&head);
            let n = chars_of(new);
            push_chars(&mut out, &n);
            push_chars(&mut out, &tail);
            assert(head@ =~= e@.take(a as int));
            assert(tail@ =~= e@.skip(b as int));
            out
        },
        None => string_of(&e),
    }
}

} // verus!
