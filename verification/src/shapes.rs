//! Properties of what the parsers and readers produce, over all inputs.

use vstd::prelude::*;
use crate::normalise::{collapse_from, is_separator, normalised_name};
use crate::deps::{
    PyprojectDependencyView, DependencyChangeView, MappedDependencyView,
    changes_spec,
};
use crate::pep508::{pep508_spec, version_constraint_spec, name_text};
use crate::edit::text_or_empty;
use crate::text::{CharClass, position, lemma_position, in_class, is_white_space, trim, trim_span, lemma_trim_span};
use crate::toml_read::{TomlTree, lock_entries_of, lock_deps_spec};
use crate::edit::{ArrayPlace, apply_change_spec, dependency_named, has_entry, entry_index};
use crate::pep508::rewritten_entry;

verus! {

/// `r` holds no `_`, no `.` and no two `-` in a row.
pub open spec fn free_of_separator_runs(r: Seq<char>) -> bool {
    &&& forall|i: int| 0 <= i < r.len() ==> #[trigger] r[i] != '_' && r[i] != '.'
    &&& forall|i: int| 0 <= i < r.len() - 1 ==> !(#[trigger] r[i] == '-' && r[i + 1] == '-')
}

proof fn lemma_collapse_shape(s: Seq<char>, after: bool)
    ensures
        free_of_separator_runs(collapse_from(s, after)),
        after && collapse_from(s, after).len() > 0 ==> collapse_from(s, after)[0] != '-',
    decreases s.len(),
{
    if s.len() > 0 {
        let rest = s.drop_first();
        if is_separator(s[0]) {
            let t = collapse_from(rest, true);
            lemma_collapse_shape(rest, true);
            if !after {
                let r = seq!['-'] + t;
                assert(collapse_from(s, after) == r);
                assert forall|i: int| 0 <= i < r.len() implies #[trigger] r[i] != '_' && r[i] != '.' by {
                    if i > 0 {
                        assert(r[i] == t[i - 1]);
                    }
                }
                assert forall|i: int| 0 <= i < r.len() - 1 implies !(#[trigger] r[i] == '-' && r[i + 1]
                    == '-') by {
                    assert(r[i + 1] == t[i]);
                    if i > 0 {
                        assert(r[i] == t[i - 1]);
                    }
                }
            } else {
                assert(collapse_from(s, after) == t);
            }
        } else {
            let t = collapse_from(rest, false);
            lemma_collapse_shape(rest, false);
            let r = seq![s[0]] + t;
            assert(collapse_from(s, after) == r);
            assert forall|i: int| 0 <= i < r.len() implies #[trigger] r[i] != '_' && r[i] != '.' by {
                if i > 0 {
                    assert(r[i] == t[i - 1]);
                }
            }
            assert forall|i: int| 0 <= i < r.len() - 1 implies !(#[trigger] r[i] == '-' && r[i + 1]
                == '-') by {
                assert(r[i + 1] == t[i]);
                if i > 0 {
                    assert(r[i] == t[i - 1]);
                }
            }
        }
    }
}

/// A normalised package name holds no `_`, no `.` and no `--`: every run of
/// separators has become a single `-`.
pub proof fn normalised_names_hold_no_separator_runs(name: Seq<char>)
    ensures
        free_of_separator_runs(normalised_name(name)),
{
    lemma_collapse_shape(crate::normalise::lowercase(name), false);
}

/// The entries of `mapped` that declare a version, in order.
pub open spec fn with_declared_version(mapped: Seq<MappedDependencyView>) -> Seq<MappedDependencyView>
    decreases mapped.len(),
{
    if mapped.len() == 0 {
        seq![]
    } else {
        let earlier = with_declared_version(mapped.drop_last());
        if mapped.last().pyproject.version is Some {
            earlier.push(mapped.last())
        } else {
            earlier
        }
    }
}

/// Dependencies without a declared version (Git/URL references, bare names)
/// never lead to a change: dropping them changes nothing, and when no
/// dependency declares a version there is no change at all.
pub proof fn undeclared_versions_never_change(mapped: Seq<MappedDependencyView>)
    ensures
        changes_spec(mapped) == changes_spec(with_declared_version(mapped)),
        with_declared_version(mapped).len() == 0 ==> changes_spec(mapped).len() == 0,
    decreases mapped.len(),
{
    if mapped.len() > 0 {
        undeclared_versions_never_change(mapped.drop_last());
        let earlier = with_declared_version(mapped.drop_last());
        if mapped.last().pyproject.version is Some {
            let w = earlier.push(mapped.last());
            assert(w.drop_last() =~= earlier);
            assert(w.last() == mapped.last());
        }
    }
}

proof fn lemma_lock_entries_normalised(pkgs: Seq<TomlTree>)
    ensures
        forall|i: int|
            0 <= i < lock_entries_of(pkgs).len() ==> (#[trigger] lock_entries_of(pkgs)[i]).normalised_name
                == normalised_name(lock_entries_of(pkgs)[i].name),
    decreases pkgs.len(),
{
    if pkgs.len() > 0 {
        lemma_lock_entries_normalised(pkgs.drop_last());
        let earlier = lock_entries_of(pkgs.drop_last());
        match crate::toml_read::lock_entry_of(pkgs.last()) {
            Some(e) => {
                let r = earlier.push(e);
                assert forall|i: int| 0 <= i < r.len() implies (#[trigger] r[i]).normalised_name
                    == normalised_name(r[i].name) by {
                    if i < earlier.len() {
                        assert(r[i] == earlier[i]);
                    }
                }
            },
            None => {},
        }
    }
}

/// Every resolved package read from `uv.lock` carries the normal form of its
/// own name, the form that `pyproject.toml` names are matched by (so a lock
/// entry `my_package` matches a declared `my-package`).
pub proof fn lock_names_are_normalised(doc: TomlTree)
    ensures
        forall|i: int|
            0 <= i < lock_deps_spec(doc).len() ==> (#[trigger] lock_deps_spec(doc)[i]).normalised_name
                == normalised_name(lock_deps_spec(doc)[i].name),
{
    match crate::toml_read::tree_get(doc, "package"@) {
        Some(TomlTree::Array(pkgs)) => lemma_lock_entries_normalised(pkgs),
        _ => {},
    }
}

/// `s` holds no white space.
pub open spec fn free_of_white_space(s: Seq<char>) -> bool {
    forall|i: int| 0 <= i < s.len() ==> !is_white_space(#[trigger] s[i])
}

proof fn lemma_trim_without_white_space(x: Seq<char>)
    requires
        free_of_white_space(x),
    ensures
        trim(x) == x,
{
    lemma_trim_span(x);
    let (a, b) = trim_span(x);
    if a > 0 {
        assert(is_white_space(x[0]));
    }
    if b < x.len() {
        assert(is_white_space(x[b]));
    }
    assert(x.subrange(0, x.len() as int) =~= x);
}

/// The shape of a parsed version constraint: nothing at all exactly for an
/// empty string or a URL reference (`@ ...`); otherwise an operator holding
/// no digit, a version holding no comma, and a suffix that is absent or
/// starts with a comma. Without white space in `s`, the three parts joined
/// give `s` back.
pub proof fn version_constraint_parts(s: Seq<char>)
    ensures
        (s.len() == 0 || s[0] == '@') <==> version_constraint_spec(s).operator is None,
        version_constraint_spec(s).operator is None ==> version_constraint_spec(s).version is None
            && version_constraint_spec(s).suffix is None,
        version_constraint_spec(s).operator matches Some(op) ==> forall|i: int|
            0 <= i < op.len() ==> !('0' <= #[trigger] op[i] && op[i] <= '9'),
        version_constraint_spec(s).operator is Some ==> version_constraint_spec(s).version is Some,
        version_constraint_spec(s).version matches Some(v) ==> forall|i: int|
            0 <= i < v.len() ==> #[trigger] v[i] != ',',
        version_constraint_spec(s).suffix matches Some(x) ==> x.len() > 0 && x[0] == ',',
        free_of_white_space(s) && version_constraint_spec(s).operator is Some ==> version_constraint_spec(
            s,
        ).operator->0 + version_constraint_spec(s).version->0 + match version_constraint_spec(
            s,
        ).suffix {
            Some(x) => x,
            None => Seq::<char>::empty(),
        } == s,
{
    if !(s.len() == 0 || s[0] == '@') {
        lemma_position(s, CharClass::AsciiDigit);
        let op_end = position(s, CharClass::AsciiDigit) as int;
        let head = s.take(op_end);
        let rest = s.skip(op_end);
        lemma_position(rest, CharClass::Exactly(','));
        let ve = position(rest, CharClass::Exactly(',')) as int;
        let vt = rest.take(ve);
        lemma_trim_span(head);
        lemma_trim_span(vt);
        let op = trim(head);
        let v = trim(vt);
        assert forall|i: int| 0 <= i < op.len() implies !('0' <= #[trigger] op[i] && op[i] <= '9') by {
            assert(op[i] == head[trim_span(head).0 + i]);
            assert(!in_class(CharClass::AsciiDigit, s[trim_span(head).0 + i]));
        }
        assert forall|i: int| 0 <= i < v.len() implies #[trigger] v[i] != ',' by {
            assert(v[i] == vt[trim_span(vt).0 + i]);
            assert(!in_class(CharClass::Exactly(','), rest[trim_span(vt).0 + i]));
        }
        if ve < rest.len() {
            assert(rest.skip(ve)[0] == rest[ve]);
        }
        if free_of_white_space(s) {
            assert(free_of_white_space(head)) by {
                assert forall|i: int| 0 <= i < head.len() implies !is_white_space(#[trigger] head[i]) by {
                    assert(head[i] == s[i]);
                }
            }
            assert(free_of_white_space(vt)) by {
                assert forall|i: int| 0 <= i < vt.len() implies !is_white_space(#[trigger] vt[i]) by {
                    assert(vt[i] == s[op_end + i]);
                }
            }
            lemma_trim_without_white_space(head);
            lemma_trim_without_white_space(vt);
            if ve < rest.len() {
                assert(head + vt + rest.skip(ve) =~= s);
            } else {
                assert(head + vt + Seq::<char>::empty() =~= s);
            }
        }
    }
}

/// The text that the PEP 508 parse takes the name from: the string trimmed,
/// with any comment (`#`) and environment marker (`;`) cut off.
pub open spec fn requirement_text(spec: Seq<char>) -> Seq<char> {
    name_text(spec)
}

/// A PEP 508 string yields no dependency exactly when, once trimmed and cut
/// at `#` and `;`, it is empty or starts where a name cannot (`[`, a
/// comparison character, `@` or white space); otherwise the dependency's
/// name is the longest start of that text holding none of these.
pub proof fn pep508_parse_shape(spec: Seq<char>, group: Option<Seq<char>>)
    ensures
        pep508_spec(spec, group) is None <==> (requirement_text(spec).len() == 0 || in_class(
            CharClass::NameTerminator,
            requirement_text(spec)[0],
        )),
        pep508_spec(spec, group) matches Some(d) ==> d.name.len() > 0 && requirement_text(spec).take(
            d.name.len() as int,
        ) == d.name && forall|i: int|
            0 <= i < d.name.len() ==> !in_class(CharClass::NameTerminator, #[trigger] d.name[i]),
        pep508_spec(spec, group) matches Some(d) ==> d.group == group,
{
    let s1 = trim(spec);
    let s2 = trim(crate::pep508::before_first(s1, '#'));
    let s3 = name_text(spec);
    lemma_position(s3, CharClass::NameTerminator);
    lemma_position(s1, CharClass::Exactly('#'));
    lemma_trim_span(crate::pep508::before_first(s1, '#'));
    if s1.len() == 0 {
        assert(crate::pep508::before_first(s1, '#').len() == 0);
        assert(s2.len() == 0);
    }
    if s2.len() == 0 {
        lemma_position(s2, CharClass::Exactly(';'));
        lemma_trim_span(crate::pep508::before_first(s2, ';'));
        assert(crate::pep508::before_first(s2, ';').len() == 0);
        assert(s3.len() == 0);
    }
    let ne = position(s3, CharClass::NameTerminator) as int;
    if pep508_spec(spec, group) is Some {
        let d = pep508_spec(spec, group)->0;
        assert(d.name == s3.take(ne));
        assert forall|i: int| 0 <= i < d.name.len() implies !in_class(
            CharClass::NameTerminator,
            #[trigger] d.name[i],
        ) by {
            assert(d.name[i] == s3[i]);
        }
    }
}

/// The file-level rewrite of a dependency of a group that
/// `[project.optional-dependencies]` does not list: the first entry of
/// `[dependency-groups].<group>` declaring it gets the new version,
/// every other character and every other array staying as they were.
pub proof fn group_dependency_rewritten_in_dependency_groups(
    arrays: Map<ArrayPlace, Seq<Option<Seq<char>>>>,
    change: DependencyChangeView,
    deps: Seq<PyprojectDependencyView>,
    dep: PyprojectDependencyView,
    group: Seq<char>,
    entry: Seq<char>,
)
    requires
        dependency_named(deps, change.name) == Some(dep),
        dep.group == Some(group),
        !has_entry(arrays, ArrayPlace::Optional(group), dep.name),
        has_entry(arrays, ArrayPlace::Group(group), dep.name),
        arrays[ArrayPlace::Group(group)][entry_index(arrays[ArrayPlace::Group(group)], dep.name)->0 as int]
            == Some(entry),
    ensures
        apply_change_spec(arrays, change, deps) == arrays.insert(
            ArrayPlace::Group(group),
            arrays[ArrayPlace::Group(group)].update(
                entry_index(arrays[ArrayPlace::Group(group)], dep.name)->0 as int,
                Some(rewritten_entry(entry, change.new)),
            ),
        ),
{
}

/// A dependency string written without white space, comment (`#`),
/// environment marker (`;`) or extras (`[`).
pub open spec fn bare_requirement(s: Seq<char>) -> bool {
    forall|i: int|
        0 <= i < s.len() ==> !is_white_space(#[trigger] s[i]) && s[i] != '#' && s[i] != ';' && s[i]
            != '['
}

proof fn lemma_before_absent(s: Seq<char>, c: char)
    requires
        forall|i: int| 0 <= i < s.len() ==> #[trigger] s[i] != c,
    ensures
        crate::pep508::before_first(s, c) == s,
{
    assert forall|j: int| 0 <= j < s.len() implies !in_class(CharClass::Exactly(c), #[trigger] s[j]) by {}
    crate::text::lemma_position_unique(s, CharClass::Exactly(c), s.len() as int);
    assert(s.take(s.len() as int) =~= s);
}

/// A bare dependency string is its parts joined: name, operator, version and
/// suffix, in that order.
pub proof fn bare_requirement_joins_back(s: Seq<char>, group: Option<Seq<char>>)
    requires
        bare_requirement(s),
        pep508_spec(s, group) matches Some(d) && d.operator is Some,
    ensures
        ({
            let d = pep508_spec(s, group)->0;
            s == d.name + d.operator->0 + d.version->0 + text_or_empty(d.suffix)
        }),
{
    assert(free_of_white_space(s));
    lemma_trim_without_white_space(s);
    lemma_before_absent(s, '#');
    lemma_before_absent(s, ';');
    assert(name_text(s) == s);
    lemma_position(s, CharClass::NameTerminator);
    let ne = position(s, CharClass::NameTerminator) as int;
    let after = s.skip(ne);
    assert(free_of_white_space(after)) by {
        assert forall|i: int| 0 <= i < after.len() implies !is_white_space(#[trigger] after[i]) by {
            assert(after[i] == s[ne + i]);
        }
    }
    lemma_trim_without_white_space(after);
    if after.len() > 0 {
        assert(after[0] == s[ne]);
    }
    assert(crate::pep508::skip_extras(after) == after);
    version_constraint_parts(after);
    let d = pep508_spec(s, group)->0;
    assert(d.name == s.take(ne));
    let c = version_constraint_spec(after);
    assert(c.operator->0 + c.version->0 + text_or_empty(c.suffix) == after);
    assert(s =~= s.take(ne) + after);
    assert(d.name + d.operator->0 + d.version->0 + text_or_empty(d.suffix) =~= s.take(ne) + (
    c.operator->0 + c.version->0 + text_or_empty(c.suffix)));
}

/// Writing a new version into a bare dependency string `name + operator +
/// old version + suffix` gives exactly `name + operator + new version +
/// suffix`, for a version as `uv.lock` records it that is itself bare.
pub proof fn bare_requirement_rewritten(e: Seq<char>, w: Seq<char>)
    requires
        bare_requirement(e),
        bare_requirement(w),
        crate::laws::plain_version(w),
        pep508_spec(e, None) matches Some(d) && d.version is Some,
    ensures
        ({
            let d = pep508_spec(e, None)->0;
            &&& e == d.name + d.operator->0 + d.version->0 + text_or_empty(d.suffix)
            &&& rewritten_entry(e, w) == d.name + d.operator->0 + w + text_or_empty(d.suffix)
        }),
{
    let d = pep508_spec(e, None)->0;
    version_constraint_parts(crate::pep508::constraint_text(e));
    assert(d.operator is Some);
    bare_requirement_joins_back(e, None);
    crate::laws::rewritten_entry_reads_back(e, None, w);
    crate::pep508::lemma_version_span(e, None);
    let e2 = rewritten_entry(e, w);
    let (a, b) = crate::pep508::version_span(e)->0;
    assert(e2 == e.take(a) + w + e.skip(b));
    assert(bare_requirement(e2)) by {
        assert forall|i: int| 0 <= i < e2.len() implies !is_white_space(#[trigger] e2[i]) && e2[i] != '#'
            && e2[i] != ';' && e2[i] != '[' by {
            if i < a {
                assert(e2[i] == e[i]);
            } else if i < a + w.len() {
                assert(e2[i] == w[i - a]);
            } else {
                assert(e2[i] == e[i - a - w.len() + b]);
            }
        }
    }
    bare_requirement_joins_back(e2, None);
}

} // verus!
