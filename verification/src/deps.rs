//! The dependency records read from `pyproject.toml` and `uv.lock`, the
//! normalisation of names and versions, and the comparison of the two files.

use vstd::prelude::*;
use crate::normalise::{normalised_version, normalise_dependency_version};

verus! {

/// A dependency as read from `pyproject.toml`.
#[derive(Debug)]
pub struct PyprojectDependency {
    /// The name of the dependency as written by the user.
    pub name: String,
    /// The normalised name of the dependency (per PEP 503).
    pub normalised_name: String,
    /// The version of the dependency, if any.
    pub version: Option<String>,
    /// The operator of the dependency, if any (">=", "==", "~=", etc.).
    pub operator: Option<String>,
    /// The suffix of the dependency, if any (",<1.0" or ",!=1.0.0").
    pub suffix: Option<String>,
    /// The group of the dependency, if any.
    pub group: Option<String>,
}

pub struct PyprojectDependencyView {
    pub name: Seq<char>,
    pub normalised_name: Seq<char>,
    pub version: Option<Seq<char>>,
    pub operator: Option<Seq<char>>,
    pub suffix: Option<Seq<char>>,
    pub group: Option<Seq<char>>,
}

impl View for PyprojectDependency {
    type V = PyprojectDependencyView;

    open spec fn view(&self) -> PyprojectDependencyView {
        PyprojectDependencyView {
            name: self.name@,
            normalised_name: self.normalised_name@,
            version: self.version.deep_view(),
            operator: self.operator.deep_view(),
            suffix: self.suffix.deep_view(),
            group: self.group.deep_view(),
        }
    }
}

/// A dependency as read from `uv.lock`.
#[derive(Debug)]
pub struct LockDependency {
    /// The name of the dependency as written by uv.
    pub name: String,
    /// The normalised name of the dependency (per PEP 503).
    pub normalised_name: String,
    /// The version of the dependency.
    pub version: String,
}

pub struct LockDependencyView {
    pub name: Seq<char>,
    pub normalised_name: Seq<char>,
    pub version: Seq<char>,
}

impl View for LockDependency {
    type V = LockDependencyView;

    open spec fn view(&self) -> LockDependencyView {
        LockDependencyView {
            name: self.name@,
            normalised_name: self.normalised_name@,
            version: self.version@,
        }
    }
}

/// A dependency of `pyproject.toml` together with its entry in `uv.lock`.
#[derive(Debug)]
pub struct MappedDependency {
    /// The dependency as read from pyproject.toml.
    pub pyproject: PyprojectDependency,
    /// The dependency as read from uv.lock.
    pub lock: LockDependency,
}

pub struct MappedDependencyView {
    pub pyproject: PyprojectDependencyView,
    pub lock: LockDependencyView,
}

impl View for MappedDependency {
    type V = MappedDependencyView;

    open spec fn view(&self) -> MappedDependencyView {
        MappedDependencyView { pyproject: self.pyproject@, lock: self.lock@ }
    }
}

/// A change in a dependency's version.
#[derive(Debug)]
pub struct DependencyChange {
    /// The name of the dependency.
    pub name: String,
    /// The operator of the dependency, if any (">=", "==", "~=", etc.).
    pub operator: Option<String>,
    /// The old version number of the dependency.
    pub old: String,
    /// The new version number of the dependency.
    pub new: String,
    /// The suffix of the dependency, if any (",<1.0" or ",!=1.0.0").
    pub suffix: Option<String>,
}

pub struct DependencyChangeView {
    pub name: Seq<char>,
    pub operator: Option<Seq<char>>,
    pub old: Seq<char>,
    pub new: Seq<char>,
    pub suffix: Option<Seq<char>>,
}

impl View for DependencyChange {
    type V = DependencyChangeView;

    open spec fn view(&self) -> DependencyChangeView {
        DependencyChangeView {
            name: self.name@,
            operator: self.operator.deep_view(),
            old: self.old@,
            new: self.new@,
            suffix: self.suffix.deep_view(),
        }
    }
}

pub open spec fn pyproject_views(v: Seq<PyprojectDependency>) -> Seq<PyprojectDependencyView> {
    v.map_values(|d: PyprojectDependency| d@)
}

pub open spec fn lock_views(v: Seq<LockDependency>) -> Seq<LockDependencyView> {
    v.map_values(|d: LockDependency| d@)
}

pub open spec fn mapped_views(v: Seq<MappedDependency>) -> Seq<MappedDependencyView> {
    v.map_values(|d: MappedDependency| d@)
}

pub open spec fn change_views(v: Seq<DependencyChange>) -> Seq<DependencyChangeView> {
    v.map_values(|d: DependencyChange| d@)
}

pub fn copy_string(s: &String) -> (r: String)
    ensures
        r@ == s@,
{
    s.clone()
}

pub fn copy_optional_string(o: &Option<String>) -> (r: Option<String>)
    ensures
        r.deep_view() == o.deep_view(),
{
    match o {
        Some(s) => Some(s.clone()),
        None => None,
    }
}

impl Clone for PyprojectDependency {
    fn clone(&self) -> (r: Self)
        ensures
            r@ == self@,
    {
        PyprojectDependency {
            name: copy_string(&self.name),
            normalised_name: copy_string(&self.normalised_name),
            version: copy_optional_string(&self.version),
            operator: copy_optional_string(&self.operator),
            suffix: copy_optional_string(&self.suffix),
            group: copy_optional_string(&self.group),
        }
    }
}

impl Clone for LockDependency {
    fn clone(&self) -> (r: Self)
        ensures
            r@ == self@,
    {
        LockDependency {
            name: copy_string(&self.name),
            normalised_name: copy_string(&self.normalised_name),
            version: copy_string(&self.version),
        }
    }
}

impl Clone for MappedDependency {
    fn clone(&self) -> (r: Self)
        ensures
            r@ == self@,
    {
        MappedDependency { pyproject: self.pyproject.clone(), lock: self.lock.clone() }
    }
}

impl Clone for DependencyChange {
    fn clone(&self) -> (r: Self)
        ensures
            r@ == self@,
    {
        DependencyChange {
            name: copy_string(&self.name),
            operator: copy_optional_string(&self.operator),
            old: copy_string(&self.old),
            new: copy_string(&self.new),
            suffix: copy_optional_string(&self.suffix),
        }
    }
}

/// The first entry of `locks` whose normalised name is `name`.
pub open spec fn lock_entry_for(locks: Seq<LockDependencyView>, name: Seq<char>) -> Option<
    LockDependencyView,
>
    decreases locks.len(),
{
    if locks.len() == 0 {
        None
    } else if locks[0].normalised_name == name {
        Some(locks[0])
    } else {
        lock_entry_for(locks.drop_first(), name)
    }
}

/// Each dependency of `deps` that has an entry in `locks`, in order, paired
/// with the first such entry.
pub open spec fn mapped_spec(deps: Seq<PyprojectDependencyView>, locks: Seq<LockDependencyView>) -> Seq<
    MappedDependencyView,
>
    decreases deps.len(),
{
    if deps.len() == 0 {
        seq![]
    } else {
        let earlier = mapped_spec(deps.drop_last(), locks);
        match lock_entry_for(locks, deps.last().normalised_name) {
            Some(lock) => earlier.push(MappedDependencyView { pyproject: deps.last(), lock }),
            None => earlier,
        }
    }
}

/// The change that `m` calls for: present when the declared version, once
/// normalised, differs from the locked one.
pub open spec fn change_for(m: MappedDependencyView) -> Option<DependencyChangeView> {
    match m.pyproject.version {
        Some(declared) => if normalised_version(declared) != normalised_version(m.lock.version) {
            Some(
                DependencyChangeView {
                    name: m.pyproject.name,
                    operator: m.pyproject.operator,
                    old: declared,
                    new: m.lock.version,
                    suffix: m.pyproject.suffix,
                },
            )
        } else {
            None
        },
        None => None,
    }
}

/// The changes that the entries of `mapped` call for, in order.
pub open spec fn changes_spec(mapped: Seq<MappedDependencyView>) -> Seq<DependencyChangeView>
    decreases mapped.len(),
{
    if mapped.len() == 0 {
        seq![]
    } else {
        let earlier = changes_spec(mapped.drop_last());
        match change_for(mapped.last()) {
            Some(c) => earlier.push(c),
            None => earlier,
        }
    }
}

fn find_lock_entry(locks: &[LockDependency], name: &String) -> (r: Option<usize>)
    ensures
        match r {
            Some(k) => k < locks.len() && lock_entry_for(lock_views(locks@), name@) == Some(
                locks@[k as int]@,
            ),
            None => lock_entry_for(lock_views(locks@), name@) is None,
        },
{
    let ghost all = lock_views(locks@);
    let mut k: usize = 0;
    assert(all.skip(0) =~= all);
    while k < locks.len()
        invariant
            k <= locks.len(),
            all == lock_views(locks@),
            lock_entry_for(all, name@) == lock_entry_for(all.skip(k as int), name@),
        decreases locks.len() - k,
    {
        assert(all.skip(k as int)[0] == locks@[k as int]@);
        if locks[k].normalised_name == *name {
            return Some(k);
        }
        assert(all.skip(k as int).drop_first() =~= all.skip(k + 1));
        k += 1;
    }
    None
}

/// Map dependencies from pyproject.toml to uv.lock based on their normalised
/// names: each dependency that the lock file holds, in order, with the first
/// lock entry of the same normalised name.
pub fn map_dependencies(
    pyproject_deps: &[PyprojectDependency],
    lock_deps: &[LockDependency],
) -> (mapped: Vec<MappedDependency>)
    ensures
        mapped_views(mapped@) == mapped_spec(pyproject_views(pyproject_deps@), lock_views(lock_deps@)),
{
    let mut mapped: Vec<MappedDependency> = Vec::new();
    let ghost deps = pyproject_views(pyproject_deps@);
    let mut i: usize = 0;
    while i < pyproject_deps.len()
        invariant
            i <= pyproject_deps.len(),
            deps == pyproject_views(pyproject_deps@),
            mapped_views(mapped@) == mapped_spec(deps.take(i as int), lock_views(lock_deps@)),
        decreases pyproject_deps.len() - i,
    {
        let py_dep = &pyproject_deps[i];
        assert(deps.take(i + 1).drop_last() =~= deps.take(i as int));
        assert(deps.take(i + 1).last() == py_dep@);
        let ghost before = mapped@;
        match find_lock_entry(lock_deps, &py_dep.normalised_name) {
            Some(k) => {
                mapped.push(MappedDependency { pyproject: py_dep.clone(), lock: lock_deps[k].clone() });
                assert(mapped_views(mapped@) =~= mapped_views(before).push(
                    MappedDependencyView { pyproject: py_dep@, lock: lock_deps@[k as int]@ },
                ));
            },
            None => {},
        }
        i += 1;
    }
    assert(deps.take(i as int) =~= deps);
    mapped
}

/// Check which dependencies in pyproject.toml have different versions in
/// uv.lock and return a list of changes: one per mapped dependency that
/// declares a version whose normalised form differs from that of the locked
/// version, carrying the declared name, operator and suffix unchanged.
pub fn compute_dependency_changes(mapped_deps: &[MappedDependency]) -> (changes: Vec<DependencyChange>)
    ensures
        change_views(changes@) == changes_spec(mapped_views(mapped_deps@)),
{
    let mut changes: Vec<DependencyChange> = Vec::new();
    let ghost ms = mapped_views(mapped_deps@);
    let mut i: usize = 0;
    while i < mapped_deps.len()
        invariant
            i <= mapped_deps.len(),
            ms == mapped_views(mapped_deps@),
            change_views(changes@) == changes_spec(ms.take(i as int)),
        decreases mapped_deps.len() - i,
    {
        let mapped = &mapped_deps[i];
        assert(ms.take(i + 1).drop_last() =~= ms.take(i as int));
        assert(ms.take(i + 1).last() == mapped@);
        let ghost before = changes@;
        match &mapped.pyproject.version {
            Some(pyproject_version) => {
                let lock_version = &mapped.lock.version;
                let declared = normalise_dependency_version(pyproject_version.as_str());
                let locked = normalise_dependency_version(lock_version.as_str());
                if !(declared == locked) {
                    let change = DependencyChange {
                        name: copy_string(&mapped.pyproject.name),
                        operator: copy_optional_string(&mapped.pyproject.operator),
                        old: copy_string(pyproject_version),
                        new: copy_string(lock_version),
                        suffix: copy_optional_string(&mapped.pyproject.suffix),
                    };
                    changes.push(change);
                    assert(change_views(changes@) =~= change_views(before).push(change@));
                }
            },
            None => {},
        }
        i += 1;
    }
    assert(ms.take(i as int) =~= ms);
    changes
}

} // verus!
