//! Writing new versions back into `pyproject.toml` through `toml_edit`, which
//! keeps the document's comments, whitespace and key order.

use vstd::prelude::*;
use crate::deps::{DependencyChange, DependencyChangeView, PyprojectDependency, PyprojectDependencyView, pyproject_views, change_views};
use crate::pep508::{rewritten_entry, rewrite_version, pep508_spec, parse_pep508_string};
use crate::messages::{AlignError, error_msg, get_error_msg};
use crate::style::{bright_blue, bright_blue_text};
use crate::text::push_str;
use crate::toml_read::parse_failure_message;

verus! {

#[verifier::external_type_specification]
#[verifier::external_body]
pub struct ExDocumentMut(toml_edit::DocumentMut);

#[verifier::external_type_specification]
#[verifier::external_body]
pub struct ExTomlEditError(toml_edit::TomlError);

/// Where a dependency array stands in `pyproject.toml`.
pub enum ArrayPlace {
    /// `project.dependencies`
    Main,
    /// `project.optional-dependencies.<group>`
    Optional(Seq<char>),
    /// `dependency-groups.<group>`
    Group(Seq<char>),
}

/// The dependency arrays that a document holds, by place. Each entry is the
/// string it holds, or nothing for a value that is not a string. A place is
/// present exactly where the document has an array there.
pub uninterp spec fn dependency_arrays(doc: toml_edit::DocumentMut) -> Map<
    ArrayPlace,
    Seq<Option<Seq<char>>>,
>;

/// The dependency arrays of the document that `DocumentMut::from_str` makes
/// of `text`, or nothing where `text` is not TOML.
pub uninterp spec fn parsed_dependency_arrays(text: Seq<char>) -> Option<
    Map<ArrayPlace, Seq<Option<Seq<char>>>>,
>;

/// The text that `DocumentMut`'s `Display` writes for a document.
pub uninterp spec fn document_text(doc: toml_edit::DocumentMut) -> Seq<char>;

/// The text that `DocumentMut`'s `Display` writes for `doc` with the value of
/// each dependency-array entry at one of `spots` (a place and the entry's
/// index in the array there) written as nothing; the white space and
/// comments around such an entry, and all the rest of the document, are
/// written as they are. With no spots it is the whole text.
pub uninterp spec fn document_text_apart_from(
    doc: toml_edit::DocumentMut,
    spots: Set<(ArrayPlace, int)>,
) -> Seq<char>;

/// `document_text_apart_from` of the document that `DocumentMut::from_str`
/// makes of `text`, or nothing where `text` is not TOML.
pub uninterp spec fn parsed_text_apart_from(text: Seq<char>, spots: Set<(ArrayPlace, int)>) -> Option<
    Seq<char>,
>;

pub open spec fn entry_views(v: Seq<Option<String>>) -> Seq<Option<Seq<char>>> {
    v.map_values(|e: Option<String>| e.deep_view())
}

/// `DocumentMut::from_str`: a parsed document's dependency arrays are
/// `parsed_dependency_arrays` of the text, and its text apart from any spots
/// is `parsed_text_apart_from` of the text; it fails exactly where those are
/// nothing.
#[verifier::external_body]
fn parse_document(text: &str) -> (r: Result<toml_edit::DocumentMut, toml_edit::TomlError>)
    ensures
        match r {
            Ok(doc) => parsed_dependency_arrays(text@) == Some(dependency_arrays(doc)) && forall|
                spots: Set<(ArrayPlace, int)>,
            | #[trigger] parsed_text_apart_from(text@, spots) == Some(
                document_text_apart_from(doc, spots),
            ),
            Err(_) => parsed_dependency_arrays(text@) is None && forall|
                spots: Set<(ArrayPlace, int)>,
            | #[trigger] parsed_text_apart_from(text@, spots) is None,
        },
{
    text.parse::<toml_edit::DocumentMut>()
}

/// `DocumentMut`'s `Display`: the result is `document_text` of the document,
/// which is its text apart from no spots.
#[verifier::external_body]
fn render_document(doc: &toml_edit::DocumentMut) -> (r: String)
    ensures
        r@ == document_text(*doc),
        r@ == document_text_apart_from(*doc, Set::empty()),
{
    doc.to_string()
}

/// The `Display` text of a `toml_edit` parse error; nothing is stated of it.
#[verifier::external_body]
fn toml_edit_error_text(e: &toml_edit::TomlError) -> String {
    e.to_string()
}

/// The entries of `project.dependencies` (`Table::get`, `Item::get`,
/// `Item::as_array`, then `Value::as_str` of each entry), or nothing where
/// the document has no array there.
#[verifier::external_body]
fn project_dependency_entries(doc: &toml_edit::DocumentMut) -> (r: Option<Vec<Option<String>>>)
    ensures
        match r {
            Some(v) => dependency_arrays(*doc).contains_key(ArrayPlace::Main) && entry_views(v@)
                == dependency_arrays(*doc)[ArrayPlace::Main],
            None => !dependency_arrays(*doc).contains_key(ArrayPlace::Main),
        },
{
    let array = doc.get("project")?.get("dependencies")?.as_array()?;
    let mut entries = Vec::new();
    for value in array.iter() {
        entries.push(value.as_str().map(|s| s.to_string()));
    }
    Some(entries)
}

/// The entries of `project.optional-dependencies.<group>`, read as
/// `project_dependency_entries` reads `project.dependencies`.
#[verifier::external_body]
fn optional_dependency_entries(doc: &toml_edit::DocumentMut, group: &str) -> (r: Option<
    Vec<Option<String>>,
>)
    ensures
        match r {
            Some(v) => dependency_arrays(*doc).contains_key(ArrayPlace::Optional(group@))
                && entry_views(v@) == dependency_arrays(*doc)[ArrayPlace::Optional(group@)],
            None => !dependency_arrays(*doc).contains_key(ArrayPlace::Optional(group@)),
        },
{
    let array = doc.get("project")?.get("optional-dependencies")?.get(group)?.as_array()?;
    let mut entries = Vec::new();
    for value in array.iter() {
        entries.push(value.as_str().map(|s| s.to_string()));
    }
    Some(entries)
}

/// `Array::replace` on `project.dependencies`: the entry at `index` becomes
/// the string `spec` (keeping the old entry's decor); nothing else of the
/// dependency arrays changes, nor anything of the document's text but the
/// value at that entry.
#[verifier::external_body]
fn replace_project_dependency(doc: &mut toml_edit::DocumentMut, index: usize, spec: &str)
    requires
        dependency_arrays(*old(doc)).contains_key(ArrayPlace::Main),
        index < dependency_arrays(*old(doc))[ArrayPlace::Main].len(),
    ensures
        dependency_arrays(*final(doc)) == dependency_arrays(*old(doc)).insert(
            ArrayPlace::Main,
            dependency_arrays(*old(doc))[ArrayPlace::Main].update(index as int, Some(spec@)),
        ),
        forall|spots: Set<(ArrayPlace, int)>|
            spots.contains((ArrayPlace::Main, index as int)) ==> #[trigger] document_text_apart_from(
                *final(doc),
                spots,
            ) == document_text_apart_from(*old(doc), spots),
{
    let item = doc.get_mut("project").unwrap().get_mut("dependencies").unwrap();
    item.as_array_mut().unwrap().replace(index, spec);
}

/// `Array::replace` on `project.optional-dependencies.<group>`, as
/// `replace_project_dependency` does it on `project.dependencies`.
#[verifier::external_body]
fn replace_optional_dependency(
    doc: &mut toml_edit::DocumentMut,
    group: &str,
    index: usize,
    spec: &str,
)
    requires
        dependency_arrays(*old(doc)).contains_key(ArrayPlace::Optional(group@)),
        index < dependency_arrays(*old(doc))[ArrayPlace::Optional(group@)].len(),
    ensures
        dependency_arrays(*final(doc)) == dependency_arrays(*old(doc)).insert(
            ArrayPlace::Optional(group@),
            dependency_arrays(*old(doc))[ArrayPlace::Optional(group@)].update(
                index as int,
                Some(spec@),
            ),
        ),
        forall|spots: Set<(ArrayPlace, int)>|
            spots.contains((ArrayPlace::Optional(group@), index as int))
                ==> #[trigger] document_text_apart_from(*final(doc), spots) == document_text_apart_from(
                *old(doc),
                spots,
            ),
{
    let groups = doc.get_mut("project").unwrap().get_mut("optional-dependencies").unwrap();
    let item = groups.get_mut(group).unwrap();
    item.as_array_mut().unwrap().replace(index, spec);
}

/// The entries of `dependency-groups.<group>`, read as
/// `project_dependency_entries` reads `project.dependencies`.
#[verifier::external_body]
fn group_dependency_entries(doc: &toml_edit::DocumentMut, group: &str) -> (r: Option<
    Vec<Option<String>>,
>)
    ensures
        match r {
            Some(v) => dependency_arrays(*doc).contains_key(ArrayPlace::Group(group@))
                && entry_views(v@) == dependency_arrays(*doc)[ArrayPlace::Group(group@)],
            None => !dependency_arrays(*doc).contains_key(ArrayPlace::Group(group@)),
        },
{
    let array = doc.get("dependency-groups")?.get(group)?.as_array()?;
    let mut entries = Vec::new();
    for value in array.iter() {
        entries.push(value.as_str().map(|s| s.to_string()));
    }
    Some(entries)
}

/// `Array::replace` on `dependency-groups.<group>`, as
/// `replace_project_dependency` does it on `project.dependencies`.
#[verifier::external_body]
fn replace_group_dependency(doc: &mut toml_edit::DocumentMut, group: &str, index: usize, spec: &str)
    requires
        dependency_arrays(*old(doc)).contains_key(ArrayPlace::Group(group@)),
        index < dependency_arrays(*old(doc))[ArrayPlace::Group(group@)].len(),
    ensures
        dependency_arrays(*final(doc)) == dependency_arrays(*old(doc)).insert(
            ArrayPlace::Group(group@),
            dependency_arrays(*old(doc))[ArrayPlace::Group(group@)].update(
                index as int,
                Some(spec@),
            ),
        ),
        forall|spots: Set<(ArrayPlace, int)>|
            spots.contains((ArrayPlace::Group(group@), index as int))
                ==> #[trigger] document_text_apart_from(*final(doc), spots) == document_text_apart_from(
                *old(doc),
                spots,
            ),
{
    let groups = doc.get_mut("dependency-groups").unwrap();
    let item = groups.get_mut(group).unwrap();
    item.as_array_mut().unwrap().replace(index, spec);
}

/// The first dependency of `deps` written with exactly the name `name`.
pub open spec fn dependency_named(deps: Seq<PyprojectDependencyView>, name: Seq<char>) -> Option<
    PyprojectDependencyView,
>
    decreases deps.len(),
{
    if deps.len() == 0 {
        None
    } else if deps[0].name == name {
        Some(deps[0])
    } else {
        dependency_named(deps.drop_first(), name)
    }
}

pub open spec fn text_or_empty(o: Option<Seq<char>>) -> Seq<char> {
    match o {
        Some(s) => s,
        None => seq![],
    }
}

/// The dependency string `s` declares the package written `name`: its PEP 508
/// parse finds exactly that name.
pub open spec fn names_package(s: Seq<char>, name: Seq<char>) -> bool {
    pep508_spec(s, None) matches Some(d) && d.name == name
}

/// The index of the first entry that is a dependency string declaring the
/// package written `name`.
pub open spec fn entry_index(entries: Seq<Option<Seq<char>>>, name: Seq<char>) -> Option<nat>
    decreases entries.len(),
{
    if entries.len() == 0 {
        None
    } else if entries[0] matches Some(s) && names_package(s, name) {
        Some(0)
    } else {
        match entry_index(entries.drop_first(), name) {
            Some(i) => Some(i + 1),
            None => None,
        }
    }
}

/// Whether the array at `place` has an entry declaring `name`.
pub open spec fn has_entry(
    arrays: Map<ArrayPlace, Seq<Option<Seq<char>>>>,
    place: ArrayPlace,
    name: Seq<char>,
) -> bool {
    arrays.contains_key(place) && entry_index(arrays[place], name) is Some
}

/// The arrays with the first entry at `place` declaring `name` given the
/// version `new` in place of its old one, every other character kept;
/// unchanged without such an entry.
pub open spec fn rewrite_at(
    arrays: Map<ArrayPlace, Seq<Option<Seq<char>>>>,
    place: ArrayPlace,
    name: Seq<char>,
    new: Seq<char>,
) -> Map<ArrayPlace, Seq<Option<Seq<char>>>> {
    if has_entry(arrays, place, name) {
        let i = entry_index(arrays[place], name)->0 as int;
        match arrays[place][i] {
            Some(entry) => arrays.insert(
                place,
                arrays[place].update(i, Some(rewritten_entry(entry, new))),
            ),
            None => arrays,
        }
    } else {
        arrays
    }
}

/// The dependency arrays after one change: the dependency that the change
/// names is looked up among `deps`. Without a group, its entry is rewritten
/// in `project.dependencies`; with a group, in
/// `project.optional-dependencies.<group>` when that array has an entry
/// declaring it, and in `dependency-groups.<group>` otherwise.
pub open spec fn apply_change_spec(
    arrays: Map<ArrayPlace, Seq<Option<Seq<char>>>>,
    change: DependencyChangeView,
    deps: Seq<PyprojectDependencyView>,
) -> Map<ArrayPlace, Seq<Option<Seq<char>>>> {
    match dependency_named(deps, change.name) {
        Some(dep) => match dep.group {
            None => rewrite_at(arrays, ArrayPlace::Main, dep.name, change.new),
            Some(g) => if has_entry(arrays, ArrayPlace::Optional(g), dep.name) {
                rewrite_at(arrays, ArrayPlace::Optional(g), dep.name, change.new)
            } else {
                rewrite_at(arrays, ArrayPlace::Group(g), dep.name, change.new)
            },
        },
        None => arrays,
    }
}

/// No change names a dependency of `deps`: there is nothing to write.
pub open spec fn names_no_dependency(
    changes: Seq<DependencyChangeView>,
    deps: Seq<PyprojectDependencyView>,
) -> bool {
    forall|i: int| 0 <= i < changes.len() ==> (dependency_named(deps, #[trigger] changes[i].name) is None)
}

/// The dependency arrays after all `changes`, applied in order.
pub open spec fn apply_changes_spec(
    arrays: Map<ArrayPlace, Seq<Option<Seq<char>>>>,
    changes: Seq<DependencyChangeView>,
    deps: Seq<PyprojectDependencyView>,
) -> Map<ArrayPlace, Seq<Option<Seq<char>>>>
    decreases changes.len(),
{
    if changes.len() == 0 {
        arrays
    } else {
        apply_change_spec(apply_changes_spec(arrays, changes.drop_last(), deps), changes.last(), deps)
    }
}

/// Where the entry declaring `name` at `place` stands, when it is a string.
pub open spec fn spot_at(
    arrays: Map<ArrayPlace, Seq<Option<Seq<char>>>>,
    place: ArrayPlace,
    name: Seq<char>,
) -> Option<(ArrayPlace, int)> {
    if has_entry(arrays, place, name) && arrays[place][entry_index(arrays[place], name)->0 as int] is Some {
        Some((place, entry_index(arrays[place], name)->0 as int))
    } else {
        None
    }
}

/// The entry that one change rewrites, by place and index: the one that
/// `apply_change_spec` gives a new version, or nothing.
pub open spec fn change_spot(
    arrays: Map<ArrayPlace, Seq<Option<Seq<char>>>>,
    change: DependencyChangeView,
    deps: Seq<PyprojectDependencyView>,
) -> Option<(ArrayPlace, int)> {
    match dependency_named(deps, change.name) {
        Some(dep) => match dep.group {
            None => spot_at(arrays, ArrayPlace::Main, dep.name),
            Some(g) => if has_entry(arrays, ArrayPlace::Optional(g), dep.name) {
                spot_at(arrays, ArrayPlace::Optional(g), dep.name)
            } else {
                spot_at(arrays, ArrayPlace::Group(g), dep.name)
            },
        },
        None => None,
    }
}

/// The entries that `changes`, applied in order, rewrite.
pub open spec fn changed_spots(
    arrays: Map<ArrayPlace, Seq<Option<Seq<char>>>>,
    changes: Seq<DependencyChangeView>,
    deps: Seq<PyprojectDependencyView>,
) -> Set<(ArrayPlace, int)>
    decreases changes.len(),
{
    if changes.len() == 0 {
        Set::empty()
    } else {
        let earlier = changed_spots(arrays, changes.drop_last(), deps);
        match change_spot(apply_changes_spec(arrays, changes.drop_last(), deps), changes.last(), deps) {
            Some(p) => earlier.insert(p),
            None => earlier,
        }
    }
}

fn find_dependency(deps: &[PyprojectDependency], name: &String) -> (r: Option<usize>)
    ensures
        match r {
            Some(k) => k < deps.len() && dependency_named(pyproject_views(deps@), name@) == Some(
                deps@[k as int]@,
            ),
            None => dependency_named(pyproject_views(deps@), name@) is None,
        },
{
    let ghost all = pyproject_views(deps@);
    let mut k: usize = 0;
    assert(all.skip(0) =~= all);
    while k < deps.len()
        invariant
            k <= deps.len(),
            all == pyproject_views(deps@),
            dependency_named(all, name@) == dependency_named(all.skip(k as int), name@),
        decreases deps.len() - k,
    {
        assert(all.skip(k as int)[0] == deps@[k as int]@);
        if deps[k].name == *name {
            return Some(k);
        }
        assert(all.skip(k as int).drop_first() =~= all.skip(k + 1));
        k += 1;
    }
    None
}

fn find_entry(entries: &Vec<Option<String>>, name: &String) -> (r: Option<usize>)
    ensures
        match r {
            Some(i) => i < entries.len() && entry_index(entry_views(entries@), name@) == Some(
                i as nat,
            ),
            None => entry_index(entry_views(entries@), name@) is None,
        },
{
    let ghost all = entry_views(entries@);
    let mut i: usize = 0;
    assert(all.skip(0) =~= all);
    while i < entries.len()
        invariant
            i <= entries.len(),
            all == entry_views(entries@),
            entry_index(all, name@) == match entry_index(all.skip(i as int), name@) {
                Some(j) => Some((j + i) as nat),
                None => None,
            },
        decreases entries.len() - i,
    {
        assert(all.skip(i as int)[0] == entries@[i as int].deep_view());
        assert(all.skip(i as int).drop_first() =~= all.skip(i + 1));
        match &entries[i] {
            Some(s) => {
                if let Some(d) = parse_pep508_string(s.as_str(), None) {
                    if d.name == *name {
                        return Some(i);
                    }
                }
            },
            None => {},
        }
        i += 1;
    }
    None
}

/// The new text of the first entry declaring `name`, and its index, in
/// `entries`; nothing without such an entry.
fn rewritten_first_entry(entries: &Vec<Option<String>>, name: &String, new: &str) -> (r: Option<
    (usize, String),
>)
    ensures
        match r {
            Some((i, text)) => {
                &&& entry_index(entry_views(entries@), name@) == Some(i as nat)
                &&& i < entries.len()
                &&& entry_views(entries@)[i as int] matches Some(old)
                &&& text@ == rewritten_entry(old, new@)
            },
            None => entry_index(entry_views(entries@), name@) is None || entry_views(entries@)[
                entry_index(entry_views(entries@), name@)->0 as int] is None,
        },
{
    match find_entry(entries, name) {
        Some(i) => {
            assert(entry_views(entries@)[i as int] == entries@[i as int].deep_view());
            match &entries[i] {
                Some(entry) => Some((i, rewrite_version(entry.as_str(), new))),
                None => None,
            }
        },
        None => None,
    }
}

/// Writes one change into the document.
fn apply_change(doc: &mut toml_edit::DocumentMut, change: &DependencyChange, deps: &[PyprojectDependency])
    ensures
        dependency_arrays(*final(doc)) == apply_change_spec(
            dependency_arrays(*old(doc)),
            change@,
            pyproject_views(deps@),
        ),
        dependency_named(pyproject_views(deps@), change@.name) is None ==> *final(doc) == *old(doc),
        change_spot(dependency_arrays(*old(doc)), change@, pyproject_views(deps@)) is None ==> *final(doc)
            == *old(doc),
        forall|spots: Set<(ArrayPlace, int)>|
            (change_spot(dependency_arrays(*old(doc)), change@, pyproject_views(deps@)) matches Some(p)
                && spots.contains(p)) ==> #[trigger] document_text_apart_from(*final(doc), spots)
                == document_text_apart_from(*old(doc), spots),
{
    let k = match find_dependency(deps, &change.name) {
        Some(k) => k,
        None => return,
    };
    let dep = &deps[k];
    let name = &dep.name;
    let new = change.new.as_str();
    let ghost arrays = dependency_arrays(*doc);
    assert(dependency_named(pyproject_views(deps@), change@.name) == Some(dep@));
    match &dep.group {
        None => {
            if let Some(entries) = project_dependency_entries(doc) {
                if let Some((i, text)) = rewritten_first_entry(&entries, name, new) {
                    replace_project_dependency(doc, i, text.as_str());
                }
            }
        },
        Some(group) => {
            let g = group.as_str();
            let optional = optional_dependency_entries(doc, g);
            let in_optional = match &optional {
                Some(entries) => find_entry(entries, name).is_some(),
                None => false,
            };
            if in_optional {
                if let Some(entries) = optional {
                    if let Some((i, text)) = rewritten_first_entry(&entries, name, new) {
                        replace_optional_dependency(doc, g, i, text.as_str());
                    }
                }
            } else if let Some(entries) = group_dependency_entries(doc, g) {
                if let Some((i, text)) = rewritten_first_entry(&entries, name, new) {
                    replace_group_dependency(doc, g, i, text.as_str());
                }
            }
        },
    }
}

/// Write each change into the document, in order: the dependency that the
/// change names is looked up in `deps` to find its group (which array to
/// update: `project.dependencies` without a group; with one,
/// `project.optional-dependencies.<group>` when its entries name the
/// dependency, `dependency-groups.<group>` otherwise), and in the first entry
/// of that array declaring it the version is replaced by the new
/// one; the entry's operator, suffix, extras, environment marker and spacing
/// stay as they were. Apart from the values of the entries it rewrites
/// (`changed_spots`), the document's text stays as it was; when no change
/// names a dependency of `deps`, the document is left exactly as it was.
pub fn apply_changes_to_document(
    doc: &mut toml_edit::DocumentMut,
    changes: &[DependencyChange],
    deps: &[PyprojectDependency],
)
    ensures
        dependency_arrays(*final(doc)) == apply_changes_spec(
            dependency_arrays(*old(doc)),
            change_views(changes@),
            pyproject_views(deps@),
        ),
        forall|spots: Set<(ArrayPlace, int)>|
            changed_spots(dependency_arrays(*old(doc)), change_views(changes@), pyproject_views(deps@)).subset_of(
                spots,
            ) ==> #[trigger] document_text_apart_from(*final(doc), spots) == document_text_apart_from(
                *old(doc),
                spots,
            ),
        names_no_dependency(change_views(changes@), pyproject_views(deps@)) ==> *final(doc)
            == *old(doc),
{
    let ghost cs = change_views(changes@);
    let mut i: usize = 0;
    assert(cs.take(0) =~= Seq::<DependencyChangeView>::empty());
    while i < changes.len()
        invariant
            i <= changes.len(),
            cs == change_views(changes@),
            dependency_arrays(*doc) == apply_changes_spec(
                dependency_arrays(*old(doc)),
                cs.take(i as int),
                pyproject_views(deps@),
            ),
            names_no_dependency(cs, pyproject_views(deps@)) ==> *doc == *old(doc),
            forall|spots: Set<(ArrayPlace, int)>|
                changed_spots(dependency_arrays(*old(doc)), cs.take(i as int), pyproject_views(deps@)).subset_of(
                    spots,
                ) ==> #[trigger] document_text_apart_from(*doc, spots) == document_text_apart_from(
                    *old(doc),
                    spots,
                ),
        decreases changes.len() - i,
    {
        assert(cs[i as int] == changes@[i as int]@);
        assert(cs.take(i + 1).drop_last() =~= cs.take(i as int));
        assert(cs.take(i + 1).last() == changes@[i as int]@);
        let ghost before = *doc;
        let ghost earlier = changed_spots(dependency_arrays(*old(doc)), cs.take(i as int), pyproject_views(deps@));
        let ghost spot = change_spot(dependency_arrays(before), changes@[i as int]@, pyproject_views(deps@));
        apply_change(doc, &changes[i], deps);
        proof {
            let later = changed_spots(dependency_arrays(*old(doc)), cs.take(i + 1), pyproject_views(deps@));
            assert(later == match spot {
                Some(p) => earlier.insert(p),
                None => earlier,
            });
            assert forall|spots: Set<(ArrayPlace, int)>| later.subset_of(spots) implies #[trigger] document_text_apart_from(
                *doc,
                spots,
            ) == document_text_apart_from(*old(doc), spots) by {
                assert(earlier.subset_of(later));
                assert(earlier.subset_of(spots));
                assert(document_text_apart_from(before, spots) == document_text_apart_from(*old(doc), spots));
                match spot {
                    Some(p) => {
                        assert(later.contains(p));
                        assert(spots.contains(p));
                        assert(document_text_apart_from(*doc, spots) == document_text_apart_from(before, spots));
                    },
                    None => {},
                }
            }
        }
        i += 1;
    }
    assert(cs.take(i as int) =~= cs);
}

/// The text of `pyproject.toml` (found at `path`) with the changes written
/// in: the rendering of the document `toml_edit` parsed, with the entries
/// the changes name given their new versions (`apply_changes_spec`) and
/// everything but the values of those entries (`changed_spots`) as the
/// parsed document renders it. Fails exactly when the text is not TOML.
///
/// How the rendering of the parsed document compares with the input text is
/// `toml_edit`'s: its documentation says it keeps comments, spacing and the
/// relative order of items, and lists what it does not keep (a missing
/// trailing newline, the order of dotted keys), so nothing more is stated.
pub fn apply_changes(
    text: &str,
    changes: &[DependencyChange],
    deps: &[PyprojectDependency],
    path: &str,
) -> (r: Result<String, AlignError>)
    ensures
        match r {
            Ok(out) => parsed_dependency_arrays(text@) matches Some(arrays) && (exists|
                doc: toml_edit::DocumentMut,
            |
                dependency_arrays(doc) == apply_changes_spec(
                    arrays,
                    change_views(changes@),
                    pyproject_views(deps@),
                ) && out@ == document_text(doc) && document_text_apart_from(
                    doc,
                    changed_spots(arrays, change_views(changes@), pyproject_views(deps@)),
                ) == parsed_text_apart_from(
                    text@,
                    changed_spots(arrays, change_views(changes@), pyproject_views(deps@)),
                )->0) && (changed_spots(arrays, change_views(changes@), pyproject_views(deps@))
                == Set::<(ArrayPlace, int)>::empty() ==> out@ == parsed_text_apart_from(
                text@,
                Set::empty(),
            )->0),
            Err(e) => parsed_dependency_arrays(text@) is None && e.message_view()
                == parse_failure_message(path@) && e.cause_view() is Some,
        },
{
    match parse_document(text) {
        Ok(mut doc) => {
            let ghost parsed = doc;
            let ghost spots = changed_spots(
                dependency_arrays(doc),
                change_views(changes@),
                pyproject_views(deps@),
            );
            apply_changes_to_document(&mut doc, changes, deps);
            let out = render_document(&doc);
            proof {
                assert(spots.subset_of(spots));
                assert(document_text_apart_from(doc, spots) == document_text_apart_from(parsed, spots));
                assert(parsed_text_apart_from(text@, spots) == Some(document_text_apart_from(parsed, spots)));
                if spots == Set::<(ArrayPlace, int)>::empty() {
                    assert(parsed_text_apart_from(text@, Set::empty()) == Some(
                        document_text_apart_from(parsed, Set::empty()),
                    ));
                }
            }
            Ok(out)
        },
        Err(err) => {
            let mut msg = String::new();
            push_str(&mut msg, "Failed to parse TOML in: ");
            let blue = bright_blue(path);
            push_str(&mut msg, blue.as_str());
            Err(
                AlignError {
                    message: get_error_msg(msg.as_str()),
                    cause: Some(toml_edit_error_text(&err)),
                },
            )
        },
    }
}

/// The error for a file that could not be written: "Failed to write: " and
/// the path in bright blue, as an error message.
pub open spec fn write_failure_message(path: Seq<char>) -> Seq<char> {
    error_msg("Failed to write: "@ + bright_blue_text(path))
}

/// The error for a file that could not be written.
pub fn write_failure(path: &str) -> (e: AlignError)
    ensures
        e.message_view() == write_failure_message(path@),
        e.cause_view() is None,
{
    let mut msg = String::new();
    push_str(&mut msg, "Failed to write: ");
    let blue = bright_blue(path);
    push_str(&mut msg, blue.as_str());
    AlignError { message: get_error_msg(msg.as_str()), cause: None }
}

} // verus!
