//! Properties of the library as a whole, proved over the specifications that
//! the functions' contracts use.

use vstd::prelude::*;
use crate::normalise::{
    collapse_from, collapse_separators, is_separator, split_on, kept_parts, normalised_version,
    lemma_split_nonempty,
};
use crate::cli::{NextStep, next_step_spec, exit_code_spec};
use crate::deps::{
    PyprojectDependencyView, DependencyChangeView, LockDependencyView, MappedDependencyView,
    mapped_spec, lock_entry_for, changes_spec, change_for,
};
use crate::pep508::{
    pep508_spec, before_first, skip_extras, version_constraint_spec, rewritten_entry,
    version_span, lemma_version_span, name_window, constraint_window, name_text, constraint_text,
    extras_window, lemma_extras_window,
};
use crate::text::{
    CharClass, position, lemma_position, lemma_position_unique, in_class, is_white_space, trim,
    trim_span, lemma_trim_span, lemma_trim_characterised,
};

verus! {

proof fn lemma_collapse_idempotent_from(s: Seq<char>, after: bool)
    ensures
        collapse_from(collapse_from(s, after), after) == collapse_from(s, after),
    decreases s.len(),
{
    if s.len() > 0 {
        let rest = s.drop_first();
        if is_separator(s[0]) {
            lemma_collapse_idempotent_from(rest, true);
            if !after {
                let out = seq!['-'] + collapse_from(rest, true);
                assert(out[0] == '-');
                assert(out.drop_first() =~= collapse_from(rest, true));
            }
        } else {
            lemma_collapse_idempotent_from(rest, false);
            let out = seq![s[0]] + collapse_from(rest, false);
            assert(out[0] == s[0]);
            assert(out.drop_first() =~= collapse_from(rest, false));
        }
    }
}

/// Normalising a package name's separators twice changes nothing more than
/// normalising once: a normalised name is its own normal form.
pub proof fn collapse_separators_idempotent(s: Seq<char>)
    ensures
        collapse_separators(collapse_separators(s)) == collapse_separators(s),
{
    lemma_collapse_idempotent_from(s, false);
}

proof fn lemma_collapse_separator_choice_from(s1: Seq<char>, s2: Seq<char>, after: bool)
    requires
        s1.len() == s2.len(),
        forall|i: int|
            0 <= i < s1.len() ==> s1[i] == s2[i] || (is_separator(s1[i]) && is_separator(s2[i])),
    ensures
        collapse_from(s1, after) == collapse_from(s2, after),
    decreases s1.len(),
{
    if s1.len() > 0 {
        let r1 = s1.drop_first();
        let r2 = s2.drop_first();
        assert forall|i: int| 0 <= i < r1.len() implies r1[i] == r2[i] || (is_separator(r1[i])
            && is_separator(r2[i])) by {
            assert(r1[i] == s1[i + 1] && r2[i] == s2[i + 1]);
        }
        lemma_collapse_separator_choice_from(r1, r2, true);
        lemma_collapse_separator_choice_from(r1, r2, false);
    }
}

/// The separators `-`, `_` and `.` are interchangeable in package names:
/// names that differ only in which separator stands at some places have the
/// same normal form (so `my_package` and `my-package` match).
pub proof fn separators_are_interchangeable(s1: Seq<char>, s2: Seq<char>)
    requires
        s1.len() == s2.len(),
        forall|i: int|
            0 <= i < s1.len() ==> s1[i] == s2[i] || (is_separator(s1[i]) && is_separator(s2[i])),
    ensures
        collapse_separators(s1) == collapse_separators(s2),
{
    lemma_collapse_separator_choice_from(s1, s2, false);
}

proof fn lemma_position_concat(s: Seq<char>, t: Seq<char>, cls: CharClass)
    ensures
        position(s + t, cls) == if position(s, cls) < s.len() {
            position(s, cls)
        } else {
            s.len() + position(t, cls)
        },
{
    lemma_position(s, cls);
    lemma_position(t, cls);
    let st = s + t;
    let k: int = if position(s, cls) < s.len() {
        position(s, cls) as int
    } else {
        s.len() + position(t, cls) as int
    };
    assert forall|j: int| 0 <= j < k implies !in_class(cls, #[trigger] st[j]) by {
        if j < s.len() {
            assert(st[j] == s[j]);
        } else {
            assert(st[j] == t[j - s.len()]);
        }
    }
    if k < st.len() {
        if position(s, cls) < s.len() {
            assert(st[k] == s[k]);
        } else {
            assert(st[k] == t[k - s.len()]);
        }
    }
    crate::text::lemma_position_unique(st, cls, k);
}

proof fn lemma_split_concat(s: Seq<char>, t: Seq<char>, sep: char)
    ensures
        split_on(s + seq![sep] + t, sep) == split_on(s, sep) + split_on(t, sep),
    decreases s.len(),
{
    let cls = CharClass::Exactly(sep);
    let whole = s + seq![sep] + t;
    lemma_position(s, cls);
    lemma_position_concat(s, seq![sep] + t, cls);
    assert(whole =~= s + (seq![sep] + t));
    if position(s, cls) < s.len() {
        let k = position(s, cls) as int;
        let rest = s.skip(k + 1);
        assert(whole.take(k) =~= s.take(k));
        assert(whole.skip(k + 1) =~= rest + seq![sep] + t);
        lemma_split_concat(rest, t, sep);
        assert(split_on(whole, sep) =~= seq![s.take(k)] + (split_on(rest, sep) + split_on(t, sep)));
    } else {
        assert(position(seq![sep] + t, cls) == 0);
        assert(whole.take(s.len() as int) =~= s);
        assert(whole.skip(s.len() as int + 1) =~= t);
    }
}

proof fn lemma_split_single_zero()
    ensures
        split_on(seq!['0'], '.') == seq![seq!['0']],
{
    let z = seq!['0'];
    assert(!in_class(CharClass::Exactly('.'), z[0]));
    assert(z.drop_first() =~= Seq::<char>::empty());
    assert(position(z.drop_first(), CharClass::Exactly('.')) == 0);
    assert(position(z, CharClass::Exactly('.')) == 1);
}

proof fn lemma_kept_parts_bound(parts: Seq<Seq<char>>)
    ensures
        kept_parts(parts) <= parts.len(),
    decreases parts.len(),
{
    if parts.len() > 0 && parts.last() == seq!['0'] {
        lemma_kept_parts_bound(parts.drop_last());
    }
}

/// A trailing `.0` component does not change a version's normal form: "0.25"
/// and "0.25.0" are treated as the same version.
pub proof fn trailing_zero_component_ignored(version: Seq<char>)
    ensures
        normalised_version(version + seq!['.', '0']) == normalised_version(version),
{
    let parts = split_on(version, '.');
    lemma_split_concat(version, seq!['0'], '.');
    lemma_split_single_zero();
    assert(version + seq!['.', '0'] =~= version + seq!['.'] + seq!['0']);
    let longer = split_on(version + seq!['.', '0'], '.');
    assert(longer =~= parts.push(seq!['0']));
    assert(longer.drop_last() =~= parts);
    assert(kept_parts(longer) == kept_parts(parts));
    lemma_split_nonempty(version, '.');
    lemma_kept_parts_bound(parts);
    let kept = kept_parts(parts);
    let n: int = if kept == 0 { 1 } else { kept as int };
    assert(longer.take(n) =~= parts.take(n));
}

/// In `--check` mode nothing is written, and the tool exits with code 1
/// exactly when some dependency is out of sync, with 0 when all are in sync.
pub proof fn check_mode_reports_without_writing(change_count: nat, yes: bool)
    ensures
        next_step_spec(change_count, true, yes) != NextStep::Apply,
        next_step_spec(change_count, true, yes) != NextStep::Confirm,
        exit_code_spec(next_step_spec(change_count, true, yes)) == if change_count > 0 {
            1i32
        } else {
            0i32
        },
{
}

proof fn lemma_lock_entry_name(locks: Seq<LockDependencyView>, name: Seq<char>)
    ensures
        lock_entry_for(locks, name) matches Some(l) ==> l.normalised_name == name,
    decreases locks.len(),
{
    if locks.len() > 0 && locks[0].normalised_name != name {
        lemma_lock_entry_name(locks.drop_first(), name);
    }
}

/// Dependencies are paired with lock entries by normalised name: every pair
/// that the mapping makes has the same normalised name on both sides.
pub proof fn mapping_matches_normalised_names(
    deps: Seq<PyprojectDependencyView>,
    locks: Seq<LockDependencyView>,
)
    ensures
        forall|i: int|
            0 <= i < mapped_spec(deps, locks).len() ==> (#[trigger] mapped_spec(deps, locks)[i]).pyproject.normalised_name
                == mapped_spec(deps, locks)[i].lock.normalised_name,
    decreases deps.len(),
{
    if deps.len() > 0 {
        mapping_matches_normalised_names(deps.drop_last(), locks);
        lemma_lock_entry_name(locks, deps.last().normalised_name);
    }
}

/// Every recorded change is a real one: the old and new versions differ even
/// after trailing `.0` components are normalised away.
pub proof fn changes_differ_after_normalising(mapped: Seq<MappedDependencyView>)
    ensures
        forall|i: int|
            0 <= i < changes_spec(mapped).len() ==> normalised_version(
                (#[trigger] changes_spec(mapped)[i]).old,
            ) != normalised_version(changes_spec(mapped)[i].new),
    decreases mapped.len(),
{
    if mapped.len() > 0 {
        changes_differ_after_normalising(mapped.drop_last());
    }
}

/// Once every declared version agrees with the locked one (after
/// normalising), no change is recorded: aligned files stay aligned.
pub proof fn aligned_dependencies_need_no_change(mapped: Seq<MappedDependencyView>)
    requires
        forall|i: int|
            0 <= i < mapped.len() ==> match (#[trigger] mapped[i]).pyproject.version {
                Some(v) => normalised_version(v) == normalised_version(mapped[i].lock.version),
                None => true,
            },
    ensures
        changes_spec(mapped) == Seq::<DependencyChangeView>::empty(),
    decreases mapped.len(),
{
    if mapped.len() > 0 {
        let earlier = mapped.drop_last();
        assert forall|i: int| 0 <= i < earlier.len() implies match (#[trigger] earlier[i]).pyproject.version {
            Some(v) => normalised_version(v) == normalised_version(earlier[i].lock.version),
            None => true,
        } by {
            assert(earlier[i] == mapped[i]);
        }
        aligned_dependencies_need_no_change(earlier);
        assert(mapped.last() == mapped[mapped.len() - 1]);
        assert(change_for(mapped.last()) is None);
    }
}

/// No character of `x` is in `cls`.
pub open spec fn free_of(x: Seq<char>, cls: CharClass) -> bool {
    forall|i: int| 0 <= i < x.len() ==> !in_class(cls, #[trigger] x[i])
}

/// `y` with the `len` characters from `k` on replaced by `w`.
pub open spec fn replaced_at(y: Seq<char>, k: int, len: int, w: Seq<char>) -> Seq<char> {
    y.take(k) + w + y.skip(k + len)
}

/// A version as `uv.lock` records one: it starts with a digit, does not end
/// in white space, and holds no `,`, `#`, `;` or `]`.
pub open spec fn plain_version(v: Seq<char>) -> bool {
    &&& v.len() > 0
    &&& '0' <= v[0] <= '9'
    &&& !is_white_space(v.last())
    &&& free_of(v, CharClass::Exactly(','))
    &&& free_of(v, CharClass::Exactly('#'))
    &&& free_of(v, CharClass::Exactly(';'))
    &&& free_of(v, CharClass::Exactly(']'))
}

proof fn lemma_plain_version_ends(w: Seq<char>)
    requires
        plain_version(w),
    ensures
        !is_white_space(w[0]),
        !in_class(CharClass::NameTerminator, w[0]),
        w[0] != '@',
        w[0] != '[',
        in_class(CharClass::AsciiDigit, w[0]),
{
}

/// Trimming commutes with replacing a run that lies inside the trimmed part.
proof fn lemma_trim_replace(y: Seq<char>, k: int, len: int, w: Seq<char>)
    requires
        plain_version(w),
        0 <= len,
        trim_span(y).0 <= k,
        k + len <= trim_span(y).1,
    ensures
        trim(replaced_at(y, k, len, w)) == replaced_at(trim(y), k - trim_span(y).0, len, w),
        trim_span(y).0 <= k,
{
    lemma_trim_span(y);
    lemma_plain_version_ends(w);
    let (a, b) = trim_span(y);
    let y2 = replaced_at(y, k, len, w);
    let d = w.len() - len;
    assert(y2.len() == y.len() + d);
    assert forall|j: int| 0 <= j < a implies is_white_space(#[trigger] y2[j]) by {
        assert(y2[j] == y[j]);
    }
    assert forall|j: int| b + d <= j < y2.len() implies is_white_space(#[trigger] y2[j]) by {
        assert(y2[j] == y[j - d]);
    }
    if a < k {
        assert(y2[a] == y[a]);
    } else {
        assert(y2[a] == w[0]);
    }
    if k + len < b {
        assert(y2[b + d - 1] == y[b - 1]);
    } else {
        assert(y2[b + d - 1] == w[w.len() - 1]);
    }
    lemma_trim_characterised(y2, a, b + d);
    assert(y2.subrange(a, b + d) =~= replaced_at(y.subrange(a, b), k - a, len, w));
}

/// Cutting at the first `c` commutes with replacing a run before that `c`
/// by text without `c`.
proof fn lemma_cut_replace(y: Seq<char>, c: char, k: int, len: int, w: Seq<char>)
    requires
        0 <= k,
        0 <= len,
        k + len <= position(y, CharClass::Exactly(c)),
        free_of(w, CharClass::Exactly(c)),
    ensures
        before_first(replaced_at(y, k, len, w), c) == replaced_at(before_first(y, c), k, len, w),
{
    let cls = CharClass::Exactly(c);
    lemma_position(y, cls);
    let p = position(y, cls) as int;
    let y2 = replaced_at(y, k, len, w);
    let d = w.len() - len;
    assert forall|j: int| 0 <= j < p + d implies !in_class(cls, #[trigger] y2[j]) by {
        if j < k {
            assert(y2[j] == y[j]);
        } else if j < k + w.len() {
            assert(y2[j] == w[j - k]);
        } else {
            assert(y2[j] == y[j - d]);
        }
    }
    if p + d < y2.len() {
        assert(y2[p + d] == y[p]);
    }
    lemma_position_unique(y2, cls, p + d);
    assert(y2.take(p + d) =~= replaced_at(y.take(p), k, len, w));
}

/// A search that stops before the replaced run finds the same place.
proof fn lemma_prefix_position(y: Seq<char>, k: int, len: int, w: Seq<char>, cls: CharClass)
    requires
        0 <= len,
        position(y, cls) < k,
        k + len <= y.len(),
    ensures
        position(replaced_at(y, k, len, w), cls) == position(y, cls),
{
    lemma_position(y, cls);
    let p = position(y, cls) as int;
    let y2 = replaced_at(y, k, len, w);
    assert forall|j: int| 0 <= j < p implies !in_class(cls, #[trigger] y2[j]) by {
        assert(y2[j] == y[j]);
    }
    assert(y2[p] == y[p]);
    lemma_position_unique(y2, cls, p);
}

/// The parse of `x`, told through the texts it takes the name and the
/// constraint from.
spec fn parse_by_parts(x: Seq<char>, group: Option<Seq<char>>) -> Option<PyprojectDependencyView> {
    let ne = position(name_text(x), CharClass::NameTerminator) as int;
    if trim(x).len() == 0 || trim(before_first(trim(x), '#')).len() == 0 || ne == 0 {
        None
    } else {
        let name = name_text(x).take(ne);
        let c = version_constraint_spec(constraint_text(x));
        Some(
            PyprojectDependencyView {
                name,
                normalised_name: crate::normalise::normalised_name(name),
                version: c.version,
                operator: c.operator,
                suffix: c.suffix,
                group,
            },
        )
    }
}

proof fn lemma_parse_by_parts(x: Seq<char>, group: Option<Seq<char>>)
    ensures
        pep508_spec(x, group) == parse_by_parts(x, group),
{
    lemma_position(name_text(x), CharClass::NameTerminator);
}

/// The name text of an entry with a run replaced, where the run lies inside
/// the name text.
proof fn lemma_name_text_replace(e: Seq<char>, k: int, len: int, w: Seq<char>)
    requires
        plain_version(w),
        0 <= len,
        name_window(e).0 <= k,
        k + len <= name_window(e).1,
    ensures
        name_text(replaced_at(e, k, len, w)) == replaced_at(name_text(e), k - name_window(e).0, len, w),
        trim(replaced_at(e, k, len, w)).len() > 0,
        trim(before_first(trim(replaced_at(e, k, len, w)), '#')).len() > 0,
{
    reveal(name_window);
    lemma_trim_span(e);
    let (a1, b1) = trim_span(e);
    let s1 = trim(e);
    lemma_position(s1, CharClass::Exactly('#'));
    let h = before_first(s1, '#');
    lemma_trim_span(h);
    let (a2, b2) = trim_span(h);
    let s2 = trim(h);
    lemma_position(s2, CharClass::Exactly(';'));
    let m = before_first(s2, ';');
    lemma_trim_span(m);
    let (a3, b3) = trim_span(m);
    let e2 = replaced_at(e, k, len, w);
    let k1 = k - a1;
    lemma_trim_replace(e, k, len, w);
    lemma_cut_replace(s1, '#', k1, len, w);
    let hb = before_first(trim(e2), '#');
    lemma_trim_replace(h, k1, len, w);
    let k2 = k1 - a2;
    lemma_cut_replace(s2, ';', k2, len, w);
    let mb = before_first(trim(hb), ';');
    assert(mb == replaced_at(m, k2, len, w));
    lemma_trim_replace(m, k2, len, w);
}

/// The constraint text of a name text with a run replaced, where the run
/// lies inside the constraint text.
proof fn lemma_constraint_text_replace(s3: Seq<char>, k: int, len: int, w: Seq<char>)
    requires
        plain_version(w),
        0 <= len,
        ({
            let ne = position(s3, CharClass::NameTerminator) as int;
            let after = s3.skip(ne);
            let rest = trim(after);
            let k4 = k - ne - trim_span(after).0;
            &&& ne < k
            &&& 0 <= ne <= s3.len()
            &&& trim_span(after).0 + extras_window(rest).0 <= k - ne
            &&& k4 + len <= extras_window(rest).1
            &&& (rest.len() > 0 && rest[0] == '[' ==> k4 > 0)
        }),
    ensures
        ({
            let ne = position(s3, CharClass::NameTerminator) as int;
            let s3b = replaced_at(s3, k, len, w);
            let rest = trim(s3.skip(ne));
            &&& position(s3b, CharClass::NameTerminator) == ne
            &&& skip_extras(trim(s3b.skip(ne))) == replaced_at(
                skip_extras(rest),
                k - ne - trim_span(s3.skip(ne)).0 - extras_window(rest).0,
                len,
                w,
            )
        }),
{
    lemma_plain_version_ends(w);
    let ne = position(s3, CharClass::NameTerminator) as int;
    lemma_position(s3, CharClass::NameTerminator);
    let after = s3.skip(ne);
    lemma_trim_span(after);
    let (a4, b4) = trim_span(after);
    let rest = trim(after);
    lemma_extras_window(rest);
    let (a5, b5) = extras_window(rest);
    let k4 = k - ne - a4;
    lemma_prefix_position(s3, k, len, w, CharClass::NameTerminator);
    let s3b = replaced_at(s3, k, len, w);
    let afterb = s3b.skip(ne);
    assert(afterb =~= replaced_at(after, k - ne, len, w));
    lemma_trim_replace(after, k - ne, len, w);
    let restb = trim(afterb);
    assert(restb == replaced_at(rest, k4, len, w));
    lemma_position(rest, CharClass::Exactly(']'));
    let close = position(rest, CharClass::Exactly(']')) as int;
    if rest.len() > 0 && rest[0] == '[' && close < rest.len() {
        let tail = rest.skip(close + 1);
        lemma_trim_span(tail);
        assert(restb[0] == rest[0]);
        lemma_prefix_position(rest, k4, len, w, CharClass::Exactly(']'));
        let tailb = restb.skip(close + 1);
        assert(tailb =~= replaced_at(tail, k4 - close - 1, len, w));
        lemma_trim_replace(tail, k4 - close - 1, len, w);
    } else {
        if rest.len() > 0 && rest[0] == '[' {
            assert(restb[0] == rest[0]);
            lemma_cut_replace(rest, ']', k4, len, w);
            lemma_position(restb, CharClass::Exactly(']'));
            assert(before_first(restb, ']') == restb);
        } else if k4 > 0 {
            assert(restb[0] == rest[0]);
        } else {
            assert(restb[0] == w[0]);
        }
        assert(rest.subrange(0, rest.len() as int) =~= rest);
    }
}

/// The constraint of a constraint text whose version is replaced.
proof fn lemma_constraint_replace(rest2: Seq<char>, w: Seq<char>)
    requires
        plain_version(w),
        rest2.len() > 0,
        rest2[0] != '@',
    ensures
        ({
            let op_end = position(rest2, CharClass::AsciiDigit) as int;
            let r = rest2.skip(op_end);
            let vt = r.take(position(r, CharClass::Exactly(',')) as int);
            let vl = trim_span(vt).1;
            let c = version_constraint_spec(rest2);
            &&& trim_span(vt).0 == 0
            &&& op_end + vl <= rest2.len()
            &&& (vl == 0 ==> op_end == rest2.len())
            &&& (vl > 0 ==> in_class(CharClass::AsciiDigit, rest2[op_end]))
            &&& version_constraint_spec(replaced_at(rest2, op_end, vl, w)) == crate::pep508::VersionConstraintView {
                operator: c.operator,
                version: Some(w),
                suffix: c.suffix,
            }
        }),
{
    lemma_plain_version_ends(w);
    lemma_position(rest2, CharClass::AsciiDigit);
    let op_end = position(rest2, CharClass::AsciiDigit) as int;
    let r = rest2.skip(op_end);
    lemma_position(r, CharClass::Exactly(','));
    let ve = position(r, CharClass::Exactly(',')) as int;
    let vt = r.take(ve);
    lemma_trim_span(vt);
    let (a6, b6) = trim_span(vt);
    if a6 > 0 {
        assert(vt[0] == rest2[op_end]);
    }
    if r.len() > 0 {
        assert(r[0] == rest2[op_end]);
        assert(vt[0] == r[0]);
        assert(!in_class(CharClass::Exactly(','), r[0]));
        assert(b6 > 0);
    }
    let vl = b6;
    if vl > 0 {
        assert(vt[0] == rest2[op_end]);
    }
    let rest2b = replaced_at(rest2, op_end, vl, w);
    if op_end > 0 {
        assert(rest2b[0] == rest2[0]);
    } else {
        assert(rest2b[0] == w[0]);
    }
    assert forall|j: int| 0 <= j < op_end implies !in_class(CharClass::AsciiDigit, #[trigger] rest2b[j]) by {
        assert(rest2b[j] == rest2[j]);
    }
    assert(rest2b[op_end] == w[0]);
    lemma_position_unique(rest2b, CharClass::AsciiDigit, op_end);
    assert(rest2b.take(op_end) =~= rest2.take(op_end));
    let rb = rest2b.skip(op_end);
    assert(rb =~= w + r.skip(vl));
    let veb = w.len() + ve - vl;
    assert forall|j: int| 0 <= j < veb implies !in_class(CharClass::Exactly(','), #[trigger] rb[j]) by {
        if j < w.len() {
            assert(rb[j] == w[j]);
        } else {
            assert(rb[j] == r[j - w.len() + vl]);
        }
    }
    if ve < r.len() {
        assert(rb[veb] == r[ve]);
    }
    lemma_position_unique(rb, CharClass::Exactly(','), veb);
    let vtb = rb.take(veb);
    assert forall|j: int| w.len() <= j < vtb.len() implies is_white_space(#[trigger] vtb[j]) by {
        assert(vtb[j] == vt[j - w.len() + vl]);
    }
    assert(vtb[0] == w[0]);
    assert(vtb[w.len() - 1] == w[w.len() - 1]);
    lemma_trim_characterised(vtb, 0, w.len() as int);
    assert(vtb.subrange(0, w.len() as int) =~= w);
    if ve < r.len() {
        assert(rb.skip(veb) =~= r.skip(ve));
    }
}

/// The entry written back for a change reads back as the same dependency
/// with the new version: the name, extras, operator, suffix and group that
/// the parse finds are those it found before. This holds for versions as
/// `uv.lock` records them (starting with a digit, not ending in white space,
/// holding no `,`, `#`, `;` or `]`).
#[verifier::spinoff_prover]
#[verifier::rlimit(50)]
pub proof fn rewritten_entry_reads_back(e: Seq<char>, group: Option<Seq<char>>, w: Seq<char>)
    requires
        pep508_spec(e, group) matches Some(d) && d.version is Some,
        plain_version(w),
    ensures
        ({
            let d = pep508_spec(e, group)->0;
            pep508_spec(rewritten_entry(e, w), group) == Some(
                PyprojectDependencyView {
                    name: d.name,
                    normalised_name: d.normalised_name,
                    version: Some(w),
                    operator: d.operator,
                    suffix: d.suffix,
                    group: d.group,
                },
            )
        }),
{
    lemma_version_span(e, group);
    lemma_parse_by_parts(e, group);
    let s3 = name_text(e);
    let (p, q) = name_window(e);
    let ne = position(s3, CharClass::NameTerminator) as int;
    lemma_position(s3, CharClass::NameTerminator);
    let after = s3.skip(ne);
    lemma_trim_span(after);
    let a4 = trim_span(after).0;
    let rest = trim(after);
    lemma_extras_window(rest);
    let (a5, b5) = extras_window(rest);
    let rest2 = constraint_text(e);
    assert(rest2 == skip_extras(rest));
    reveal(constraint_window);
    assert(constraint_window(e).0 == p + ne + a4 + a5);
    lemma_constraint_replace(rest2, w);
    let op_end = position(rest2, CharClass::AsciiDigit) as int;
    let r = rest2.skip(op_end);
    let vt = r.take(position(r, CharClass::Exactly(',')) as int);
    let vl = trim_span(vt).1;
    let big_a = p + ne + a4 + a5 + op_end;
    assert(version_span(e) == Some((big_a, big_a + vl)));
    assert(rewritten_entry(e, w) == replaced_at(e, big_a, vl, w));
    // The version lies after the name.
    lemma_trim_span(rest);
    if a4 + a5 + op_end == 0 {
        assert(rest2[0] == rest[a5]);
        assert(rest[0] == after[a4]);
        assert(after[0] == s3[ne]);
    }
    let k3 = big_a - p;
    crate::pep508::lemma_name_window(e);
    lemma_name_text_replace(e, big_a, vl, w);
    let k4 = k3 - ne - a4;
    if rest.len() > 0 && rest[0] == '[' && k4 == 0 {
        if vl > 0 {
            assert(rest[0] == rest2[op_end]);
        }
    }
    lemma_constraint_text_replace(s3, k3, vl, w);
    let e2 = replaced_at(e, big_a, vl, w);
    assert(name_text(e2) == replaced_at(s3, k3, vl, w));
    assert(constraint_text(e2) == replaced_at(rest2, op_end, vl, w));
    lemma_parse_by_parts(e2, group);
    assert(name_text(e2).take(ne) =~= s3.take(ne));
}

} // verus!
