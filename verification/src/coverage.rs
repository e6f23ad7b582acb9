//! Laws that nothing the inputs hold is lost or renamed on its way through
//! the tool: every dependency and every locked package is read, every
//! reported line is counted, and every change keeps the name the user wrote
//! so that it reaches that dependency's entry again.

use vstd::prelude::*;
use crate::deps::{
    PyprojectDependencyView, LockDependencyView, MappedDependencyView, DependencyChangeView,
    mapped_spec, changes_spec,
};
use crate::edit::dependency_named;
use crate::normalise::{normalised_name, normalised_version};
use crate::pep508::pep508_spec;
use crate::report::{UpdateKind, line_report, reported};
use crate::toml_read::{TomlTree, tree_get, deps_of_items, deps_of_groups, pyproject_deps_spec, lock_entry_of, lock_entries_of, lock_deps_spec};

verus! {

/// A change is looked up among the declared dependencies by the name as the
/// user wrote it: a dependency is found exactly when one is declared under
/// that very name, and the one found is the first so declared.
pub proof fn dependency_found_by_declared_name(deps: Seq<PyprojectDependencyView>, name: Seq<char>)
    ensures
        (exists|i: int| 0 <= i < deps.len() && (#[trigger] deps[i]).name == name) <==> dependency_named(
            deps,
            name,
        ) is Some,
        dependency_named(deps, name) matches Some(d) ==> d.name == name && exists|i: int|
            0 <= i < deps.len() && deps[i] == d && (forall|j: int| 0 <= j < i ==> (#[trigger] deps[j]).name != name),
    decreases deps.len(),
{
    if deps.len() > 0 {
        let rest = deps.drop_first();
        dependency_found_by_declared_name(rest, name);
        if deps[0].name == name {
            assert(deps[0] == dependency_named(deps, name)->0);
        } else {
            if exists|i: int| 0 <= i < deps.len() && (#[trigger] deps[i]).name == name {
                let i = choose|i: int| 0 <= i < deps.len() && (#[trigger] deps[i]).name == name;
                assert(rest[i - 1] == deps[i]);
            }
            if dependency_named(rest, name) is Some {
                let d = dependency_named(rest, name)->0;
                let i = choose|i: int|
                    0 <= i < rest.len() && rest[i] == d && (forall|j: int| 0 <= j < i ==> (#[trigger] rest[j]).name != name);
                assert(deps[i + 1] == d);
                assert forall|j: int| 0 <= j < i + 1 implies (#[trigger] deps[j]).name != name by {
                    if j > 0 {
                        assert(deps[j] == rest[j - 1]);
                    }
                }
                assert(rest[i - 1 + 1] == rest[i]);
            }
        }
    }
}

/// The change that a mapped dependency calls for, named as the user wrote
/// the dependency: its operator and suffix, its declared version as the old
/// one and the locked version as the new one.
pub open spec fn declared_change(m: MappedDependencyView) -> DependencyChangeView {
    DependencyChangeView {
        name: m.pyproject.name,
        operator: m.pyproject.operator,
        old: m.pyproject.version->0,
        new: m.lock.version,
        suffix: m.pyproject.suffix,
    }
}

/// A mapped dependency is out of sync: it declares a version that differs
/// from the locked one once trailing `.0` parts are set aside.
pub open spec fn out_of_sync(m: MappedDependencyView) -> bool {
    m.pyproject.version is Some && normalised_version(m.pyproject.version->0) != normalised_version(
        m.lock.version,
    )
}

/// The changes are exactly those of the out-of-sync dependencies, each named
/// as the user wrote the dependency (not by its normal form), in the order
/// of the dependencies.
pub proof fn changes_are_the_out_of_sync_dependencies(mapped: Seq<MappedDependencyView>)
    ensures
        forall|j: int|
            0 <= j < changes_spec(mapped).len() ==> exists|i: int|
                0 <= i < mapped.len() && out_of_sync(mapped[i]) && #[trigger] changes_spec(mapped)[j]
                    == declared_change(mapped[i]),
        forall|i: int|
            0 <= i < mapped.len() && out_of_sync(#[trigger] mapped[i]) ==> changes_spec(mapped).contains(
                declared_change(mapped[i]),
            ),
    decreases mapped.len(),
{
    if mapped.len() > 0 {
        let init = mapped.drop_last();
        changes_are_the_out_of_sync_dependencies(init);
        let earlier = changes_spec(init);
        let last = mapped.last();
        let all = changes_spec(mapped);
        assert forall|j: int| 0 <= j < all.len() implies exists|i: int|
            0 <= i < mapped.len() && out_of_sync(mapped[i]) && #[trigger] all[j] == declared_change(mapped[i]) by {
            if j < earlier.len() {
                assert(all[j] == earlier[j]);
                let i = choose|i: int|
                    0 <= i < init.len() && out_of_sync(init[i]) && #[trigger] earlier[j] == declared_change(init[i]);
                assert(mapped[i] == init[i]);
            } else {
                assert(mapped[mapped.len() - 1] == last);
            }
        }
        assert forall|i: int| 0 <= i < mapped.len() && out_of_sync(#[trigger] mapped[i]) implies all.contains(
            declared_change(mapped[i]),
        ) by {
            if i < init.len() {
                assert(mapped[i] == init[i]);
                assert(out_of_sync(init[i]));
                let k = choose|k: int| 0 <= k < earlier.len() && earlier[k] == declared_change(init[i]);
                assert(all[k] == earlier[k]);
            } else {
                assert(all[all.len() - 1] == declared_change(last));
            }
        }
    }
}

proof fn lemma_mapped_from_deps(deps: Seq<PyprojectDependencyView>, locks: Seq<LockDependencyView>)
    ensures
        forall|i: int|
            0 <= i < mapped_spec(deps, locks).len() ==> deps.contains(
                (#[trigger] mapped_spec(deps, locks)[i]).pyproject,
            ),
    decreases deps.len(),
{
    if deps.len() > 0 {
        let init = deps.drop_last();
        lemma_mapped_from_deps(init, locks);
        let earlier = mapped_spec(init, locks);
        let all = mapped_spec(deps, locks);
        assert forall|i: int| 0 <= i < all.len() implies deps.contains((#[trigger] all[i]).pyproject) by {
            if i < earlier.len() {
                assert(all[i] == earlier[i]);
                let k = choose|k: int| 0 <= k < init.len() && init[k] == earlier[i].pyproject;
                assert(deps[k] == init[k]);
            } else {
                assert(deps[deps.len() - 1] == all[i].pyproject);
            }
        }
    }
}

/// Every change computed from the declared dependencies and the lock finds
/// its dependency again when written back: the lookup by name gives a
/// dependency declared under the change's very name.
pub proof fn computed_changes_find_their_dependency(
    deps: Seq<PyprojectDependencyView>,
    locks: Seq<LockDependencyView>,
)
    ensures
        forall|j: int|
            0 <= j < changes_spec(mapped_spec(deps, locks)).len() ==> (dependency_named(
                deps,
                (#[trigger] changes_spec(mapped_spec(deps, locks))[j]).name,
            ) matches Some(d) && d.name == changes_spec(mapped_spec(deps, locks))[j].name),
{
    let mapped = mapped_spec(deps, locks);
    let cs = changes_spec(mapped);
    changes_are_the_out_of_sync_dependencies(mapped);
    lemma_mapped_from_deps(deps, locks);
    assert forall|j: int| 0 <= j < cs.len() implies (dependency_named(deps, (#[trigger] cs[j]).name) matches Some(d)
        && d.name == cs[j].name) by {
        let i = choose|i: int| 0 <= i < mapped.len() && out_of_sync(mapped[i]) && #[trigger] cs[j] == declared_change(mapped[i]);
        assert(deps.contains(mapped[i].pyproject));
        let k = choose|k: int| 0 <= k < deps.len() && deps[k] == mapped[i].pyproject;
        assert(deps[k].name == cs[j].name);
        dependency_found_by_declared_name(deps, cs[j].name);
    }
}

proof fn lemma_item_read(items: Seq<TomlTree>, group: Option<Seq<char>>, ii: int, d: PyprojectDependencyView)
    requires
        0 <= ii < items.len(),
        items[ii] matches TomlTree::Str(s) && pep508_spec(s, group) == Some(d),
    ensures
        deps_of_items(items, group).contains(d),
    decreases items.len(),
{
    let init = items.drop_last();
    if ii < items.len() - 1 {
        assert(init[ii] == items[ii]);
        lemma_item_read(init, group, ii, d);
        let earlier = deps_of_items(init, group);
        let k = choose|k: int| 0 <= k < earlier.len() && earlier[k] == d;
        let all = deps_of_items(items, group);
        assert(all[k] == earlier[k]);
    } else {
        let all = deps_of_items(items, group);
        assert(all[all.len() - 1] == d);
    }
}

proof fn lemma_group_read(
    groups: Seq<(Seq<char>, TomlTree)>,
    gi: int,
    items: Seq<TomlTree>,
    ii: int,
    d: PyprojectDependencyView,
)
    requires
        0 <= gi < groups.len(),
        groups[gi].1 == TomlTree::Array(items),
        0 <= ii < items.len(),
        items[ii] matches TomlTree::Str(s) && pep508_spec(s, Some(groups[gi].0)) == Some(d),
    ensures
        deps_of_groups(groups).contains(d),
    decreases groups.len(),
{
    let init = groups.drop_last();
    let all = deps_of_groups(groups);
    if gi < groups.len() - 1 {
        assert(init[gi] == groups[gi]);
        lemma_group_read(init, gi, items, ii, d);
        let earlier = deps_of_groups(init);
        let k = choose|k: int| 0 <= k < earlier.len() && earlier[k] == d;
        match groups.last().1 {
            TomlTree::Array(last_items) => {
                assert(all == earlier + deps_of_items(last_items, Some(groups.last().0)));
                assert(all[k] == earlier[k]);
            },
            _ => {},
        }
    } else {
        lemma_item_read(items, Some(groups[gi].0), ii, d);
        let earlier = deps_of_groups(init);
        let here = deps_of_items(items, Some(groups[gi].0));
        assert(all == earlier + here);
        let k = choose|k: int| 0 <= k < here.len() && here[k] == d;
        assert(all[earlier.len() + k] == here[k]);
    }
}

/// Every requirement string of every array under `[dependency-groups]` is
/// read, with its group's name: each one that names a package is among the
/// dependencies that `pyproject.toml` yields.
pub proof fn every_group_dependency_is_read(
    doc: TomlTree,
    groups: Seq<(Seq<char>, TomlTree)>,
    gi: int,
    items: Seq<TomlTree>,
    ii: int,
    d: PyprojectDependencyView,
)
    requires
        tree_get(doc, "dependency-groups"@) == Some(TomlTree::Table(groups)),
        0 <= gi < groups.len(),
        groups[gi].1 == TomlTree::Array(items),
        0 <= ii < items.len(),
        items[ii] matches TomlTree::Str(s) && pep508_spec(s, Some(groups[gi].0)) == Some(d),
    ensures
        pyproject_deps_spec(doc).contains(d),
{
    lemma_group_read(groups, gi, items, ii, d);
    let all = pyproject_deps_spec(doc);
    let here = deps_of_groups(groups);
    let k = choose|k: int| 0 <= k < here.len() && here[k] == d;
    let front = all.len() - here.len();
    assert(all[front + k] == here[k]);
}

/// Every requirement string of every array under
/// `[project.optional-dependencies]` is read, with its extra's name.
pub proof fn every_optional_dependency_is_read(
    doc: TomlTree,
    project: TomlTree,
    groups: Seq<(Seq<char>, TomlTree)>,
    gi: int,
    items: Seq<TomlTree>,
    ii: int,
    d: PyprojectDependencyView,
)
    requires
        tree_get(doc, "project"@) == Some(project),
        tree_get(project, "optional-dependencies"@) == Some(TomlTree::Table(groups)),
        0 <= gi < groups.len(),
        groups[gi].1 == TomlTree::Array(items),
        0 <= ii < items.len(),
        items[ii] matches TomlTree::Str(s) && pep508_spec(s, Some(groups[gi].0)) == Some(d),
    ensures
        pyproject_deps_spec(doc).contains(d),
{
    lemma_group_read(groups, gi, items, ii, d);
    let all = pyproject_deps_spec(doc);
    let here = deps_of_groups(groups);
    let k = choose|k: int| 0 <= k < here.len() && here[k] == d;
    let main = match tree_get(project, "dependencies"@) {
        Some(TomlTree::Array(m)) => deps_of_items(m, None),
        _ => seq![],
    };
    assert(all[main.len() + k] == here[k]);
}

/// Every requirement string of `[project.dependencies]` is read, with no
/// group.
pub proof fn every_main_dependency_is_read(
    doc: TomlTree,
    project: TomlTree,
    items: Seq<TomlTree>,
    ii: int,
    d: PyprojectDependencyView,
)
    requires
        tree_get(doc, "project"@) == Some(project),
        tree_get(project, "dependencies"@) == Some(TomlTree::Array(items)),
        0 <= ii < items.len(),
        items[ii] matches TomlTree::Str(s) && pep508_spec(s, None) == Some(d),
    ensures
        pyproject_deps_spec(doc).contains(d),
{
    lemma_item_read(items, None, ii, d);
    let all = pyproject_deps_spec(doc);
    let here = deps_of_items(items, None);
    let k = choose|k: int| 0 <= k < here.len() && here[k] == d;
    assert(all[k] == here[k]);
}

/// A `[[package]]` table gives a lock entry exactly when its `name` and its
/// `version` are strings, whatever other keys it holds; the entry carries
/// that name, its normal form and that version.
pub proof fn package_table_gives_entry(pkg: TomlTree)
    ensures
        lock_entry_of(pkg) is Some <==> (tree_get(pkg, "name"@) matches Some(TomlTree::Str(_)) && tree_get(
            pkg,
            "version"@,
        ) matches Some(TomlTree::Str(_))),
        lock_entry_of(pkg) matches Some(e) ==> tree_get(pkg, "name"@) == Some(TomlTree::Str(e.name))
            && tree_get(pkg, "version"@) == Some(TomlTree::Str(e.version)) && e.normalised_name
            == normalised_name(e.name),
{
}

proof fn lemma_package_read(pkgs: Seq<TomlTree>, i: int, e: LockDependencyView)
    requires
        0 <= i < pkgs.len(),
        lock_entry_of(pkgs[i]) == Some(e),
    ensures
        lock_entries_of(pkgs).contains(e),
    decreases pkgs.len(),
{
    let init = pkgs.drop_last();
    let all = lock_entries_of(pkgs);
    if i < pkgs.len() - 1 {
        assert(init[i] == pkgs[i]);
        lemma_package_read(init, i, e);
        let earlier = lock_entries_of(init);
        let k = choose|k: int| 0 <= k < earlier.len() && earlier[k] == e;
        assert(all[k] == earlier[k]);
    } else {
        assert(all[all.len() - 1] == e);
    }
}

/// Every `[[package]]` of `uv.lock` with a string name and a string version
/// is read, whatever else it holds (its `source`, its dependencies).
pub proof fn every_locked_package_is_read(
    doc: TomlTree,
    pkgs: Seq<TomlTree>,
    i: int,
    name: Seq<char>,
    version: Seq<char>,
)
    requires
        tree_get(doc, "package"@) == Some(TomlTree::Array(pkgs)),
        0 <= i < pkgs.len(),
        tree_get(pkgs[i], "name"@) == Some(TomlTree::Str(name)),
        tree_get(pkgs[i], "version"@) == Some(TomlTree::Str(version)),
    ensures
        lock_deps_spec(doc).contains(
            LockDependencyView { name, normalised_name: normalised_name(name), version },
        ),
{
    package_table_gives_entry(pkgs[i]);
    lemma_package_read(pkgs, i, LockDependencyView { name, normalised_name: normalised_name(name), version });
}

/// What one line reports of a kind: its package, when it reports that kind.
pub open spec fn line_reports(l: Seq<char>, kind: UpdateKind) -> Seq<Seq<char>> {
    match line_report(l) {
        Some((k, p)) => if k == kind {
            seq![p]
        } else {
            seq![]
        },
        None => seq![],
    }
}

/// The packages reported of a kind by consecutive pieces of output are those
/// of the first piece followed by those of the second: each line counts on
/// its own, however many lines of its kind came before it.
pub proof fn reports_concatenate(a: Seq<Seq<char>>, b: Seq<Seq<char>>, kind: UpdateKind)
    ensures
        reported(a + b, kind) == reported(a, kind) + reported(b, kind),
    decreases b.len(),
{
    if b.len() == 0 {
        assert(a + b =~= a);
        assert(reported(a, kind) + reported(b, kind) =~= reported(a, kind));
    } else {
        reports_concatenate(a, b.drop_last(), kind);
        assert((a + b).drop_last() =~= a + b.drop_last());
        assert((a + b).last() == b.last());
        assert(reported(a + b, kind) =~= reported(a, kind) + reported(b, kind));
    }
}

/// Every line that reports a package adds that package, at its rank, to the
/// list of its kind, and no other list changes.
pub proof fn each_reported_line_counts(ls: Seq<Seq<char>>, l: Seq<char>, kind: UpdateKind)
    ensures
        reported(ls.push(l), kind) == reported(ls, kind) + line_reports(l, kind),
        reported(ls, kind).len() <= reported(ls.push(l), kind).len(),
{
    reports_concatenate(ls, seq![l], kind);
    assert(ls + seq![l] =~= ls.push(l));
    let one = seq![l];
    assert(one.drop_last() =~= Seq::<Seq<char>>::empty());
    assert(one.last() == l);
    assert(reported(one.drop_last(), kind) =~= Seq::<Seq<char>>::empty());
    match line_report(l) {
        Some((k, p)) => {
            if k == kind {
                assert(Seq::<Seq<char>>::empty().push(p) =~= seq![p]);
            }
        },
        None => {},
    }
    assert(reported(one, kind) =~= line_reports(l, kind));
}

/// A line reporting a package of a kind appends that package to that kind's
/// list, whatever came before.
pub proof fn reported_line_appends(ls: Seq<Seq<char>>, l: Seq<char>, kind: UpdateKind, p: Seq<char>)
    requires
        line_report(l) == Some((kind, p)),
    ensures
        reported(ls.push(l), kind) == reported(ls, kind).push(p),
{
    each_reported_line_counts(ls, l, kind);
    assert(reported(ls, kind) + seq![p] =~= reported(ls, kind).push(p));
}

} // verus!
