//! Reading the dependency lists of `pyproject.toml` and the resolved packages
//! of `uv.lock`, through the `toml` crate's parser.

use vstd::prelude::*;
use crate::deps::{LockDependency, LockDependencyView, PyprojectDependency, PyprojectDependencyView, pyproject_views, lock_views};
use crate::messages::{AlignError, error_msg, get_error_msg};
use crate::normalise::{normalised_name, normalise_dependency_name};
use crate::pep508::{pep508_spec, parse_pep508_string};
use crate::style::{bright_blue, bright_blue_text};
use crate::text::{chars_of, push_str};

verus! {

#[verifier::external_type_specification]
#[verifier::external_body]
pub struct ExTomlValue(toml::Value);

#[verifier::external_type_specification]
#[verifier::external_body]
pub struct ExTomlError(toml::de::Error);

/// The content of a TOML value as the reader sees it: strings, arrays,
/// tables (their entries in the order the table yields them) and everything
/// else (numbers, booleans, dates) as `Other`.
pub enum TomlTree {
    Str(Seq<char>),
    Array(Seq<TomlTree>),
    Table(Seq<(Seq<char>, TomlTree)>),
    Other,
}

/// What a `toml::Value` holds.
pub uninterp spec fn toml_tree(v: toml::Value) -> TomlTree;

/// What `toml::from_str::<toml::Value>` yields for `text`: the tree of the
/// document, or nothing where `text` is not a TOML document.
pub uninterp spec fn toml_document(text: Seq<char>) -> Option<TomlTree>;

/// `toml::from_str::<toml::Value>`: the parsed document's content is
/// `toml_document` of the text; it fails exactly where that is nothing.
#[verifier::external_body]
fn parse_toml(text: &str) -> (r: Result<toml::Value, toml::de::Error>)
    ensures
        match r {
            Ok(v) => toml_document(text@) == Some(toml_tree(v)),
            Err(_) => toml_document(text@) is None,
        },
{
    toml::from_str::<toml::Value>(text)
}

/// The `Display` text of a `toml` parse error; nothing is stated of it.
#[verifier::external_body]
fn toml_error_text(e: &toml::de::Error) -> String {
    e.to_string()
}

/// One level of a `toml::Value`, its parts borrowed from the value.
pub enum TomlNode<'a> {
    Str(&'a str),
    Array(&'a Vec<toml::Value>),
    Table(Vec<(&'a String, &'a toml::Value)>),
    Other,
}

pub open spec fn trees_of(items: Seq<toml::Value>) -> Seq<TomlTree> {
    items.map_values(|x: toml::Value| toml_tree(x))
}

pub open spec fn entry_trees_of(entries: Seq<(&String, &toml::Value)>) -> Seq<(Seq<char>, TomlTree)> {
    entries.map_values(|e: (&String, &toml::Value)| (e.0@, toml_tree(*e.1)))
}

/// Tells the variants of `toml::Value` apart: a string (`Value::String`), an
/// array (`Value::Array`), a table (`Value::Table`, its entries as the map's
/// iterator yields them) or anything else; `toml_tree` of the value is made
/// of exactly these parts.
#[verifier::external_body]
fn toml_node(v: &toml::Value) -> (r: TomlNode<'_>)
    ensures
        match r {
            TomlNode::Str(s) => toml_tree(*v) == TomlTree::Str(s@),
            TomlNode::Array(a) => toml_tree(*v) == TomlTree::Array(trees_of(a@)),
            TomlNode::Table(t) => toml_tree(*v) == TomlTree::Table(entry_trees_of(t@)),
            TomlNode::Other => toml_tree(*v) is Other,
        },
{
    match v {
        toml::Value::String(s) => TomlNode::Str(s.as_str()),
        toml::Value::Array(a) => TomlNode::Array(a),
        toml::Value::Table(t) => TomlNode::Table(t.iter().collect()),
        _ => TomlNode::Other,
    }
}

/// The value of the first entry named `key`.
pub open spec fn entry_lookup(entries: Seq<(Seq<char>, TomlTree)>, key: Seq<char>) -> Option<TomlTree>
    decreases entries.len(),
{
    if entries.len() == 0 {
        None
    } else if entries[0].0 == key {
        Some(entries[0].1)
    } else {
        entry_lookup(entries.drop_first(), key)
    }
}

/// `Value::get` with a string key: the value under `key` of a table, nothing
/// for any other value.
pub open spec fn tree_get(t: TomlTree, key: Seq<char>) -> Option<TomlTree> {
    match t {
        TomlTree::Table(entries) => entry_lookup(entries, key),
        _ => None,
    }
}

/// The dependencies that the string items of an array declare, in order;
/// items that are not strings, or strings that hold no name, give none.
pub open spec fn deps_of_items(items: Seq<TomlTree>, group: Option<Seq<char>>) -> Seq<
    PyprojectDependencyView,
>
    decreases items.len(),
{
    if items.len() == 0 {
        seq![]
    } else {
        let earlier = deps_of_items(items.drop_last(), group);
        match items.last() {
            TomlTree::Str(s) => match pep508_spec(s, group) {
                Some(d) => earlier.push(d),
                None => earlier,
            },
            _ => earlier,
        }
    }
}

/// The dependencies of a table of groups: for each entry whose value is an
/// array, in order, the dependencies of that array in the entry's group.
pub open spec fn deps_of_groups(groups: Seq<(Seq<char>, TomlTree)>) -> Seq<PyprojectDependencyView>
    decreases groups.len(),
{
    if groups.len() == 0 {
        seq![]
    } else {
        let earlier = deps_of_groups(groups.drop_last());
        match groups.last().1 {
            TomlTree::Array(items) => earlier + deps_of_items(items, Some(groups.last().0)),
            _ => earlier,
        }
    }
}

/// The dependencies of `[project.dependencies]`, then of
/// `[project.optional-dependencies]`, then of `[dependency-groups]`.
pub open spec fn pyproject_deps_spec(doc: TomlTree) -> Seq<PyprojectDependencyView> {
    let project = tree_get(doc, "project"@);
    let main = match project {
        Some(p) => match tree_get(p, "dependencies"@) {
            Some(TomlTree::Array(items)) => deps_of_items(items, None),
            _ => seq![],
        },
        None => seq![],
    };
    let optional = match project {
        Some(p) => match tree_get(p, "optional-dependencies"@) {
            Some(TomlTree::Table(groups)) => deps_of_groups(groups),
            _ => seq![],
        },
        None => seq![],
    };
    let groups = match tree_get(doc, "dependency-groups"@) {
        Some(TomlTree::Table(groups)) => deps_of_groups(groups),
        _ => seq![],
    };
    main + optional + groups
}

/// The lock entry that a `[[package]]` table describes: its name (a string),
/// that name normalised, and its version (a string); nothing without both.
pub open spec fn lock_entry_of(pkg: TomlTree) -> Option<LockDependencyView> {
    match (tree_get(pkg, "name"@), tree_get(pkg, "version"@)) {
        (Some(TomlTree::Str(name)), Some(TomlTree::Str(version))) => Some(
            LockDependencyView { name, normalised_name: normalised_name(name), version },
        ),
        _ => None,
    }
}

pub open spec fn lock_entries_of(pkgs: Seq<TomlTree>) -> Seq<LockDependencyView>
    decreases pkgs.len(),
{
    if pkgs.len() == 0 {
        seq![]
    } else {
        let earlier = lock_entries_of(pkgs.drop_last());
        match lock_entry_of(pkgs.last()) {
            Some(e) => earlier.push(e),
            None => earlier,
        }
    }
}

/// The resolved packages of a lock document: the entries of its `package`
/// array that name a package and a version, in order.
pub open spec fn lock_deps_spec(doc: TomlTree) -> Seq<LockDependencyView> {
    match tree_get(doc, "package"@) {
        Some(TomlTree::Array(pkgs)) => lock_entries_of(pkgs),
        _ => seq![],
    }
}

/// The error for a file that is not TOML: "Failed to parse TOML in: " and the
/// path in bright blue, as an error message.
pub open spec fn parse_failure_message(path: Seq<char>) -> Seq<char> {
    error_msg("Failed to parse TOML in: "@ + bright_blue_text(path))
}

/// The error for a file that could not be read: "Failed to read: " and the
/// path in bright blue, as an error message.
pub open spec fn read_failure_message(path: Seq<char>) -> Seq<char> {
    error_msg("Failed to read: "@ + bright_blue_text(path))
}

fn same_text(a: &str, b: &str) -> (r: bool)
    ensures
        r == (a@ == b@),
{
    let x = chars_of(a);
    let y = chars_of(b);
    if x.len() != y.len() {
        return false;
    }
    let mut i: usize = 0;
    while i < x.len()
        invariant
            x.len() == y.len(),
            x@ == a@,
            y@ == b@,
            i <= x.len(),
            forall|j: int| 0 <= j < i ==> x@[j] == y@[j],
        decreases x.len() - i,
    {
        if x[i] != y[i] {
            assert(x@[i as int] != y@[i as int]);
            return false;
        }
        i += 1;
    }
    assert(x@ =~= y@);
    true
}

/// `Value::get` with a string key.
fn toml_get<'a>(v: &'a toml::Value, key: &str) -> (r: Option<&'a toml::Value>)
    ensures
        match r {
            Some(x) => tree_get(toml_tree(*v), key@) == Some(toml_tree(*x)),
            None => tree_get(toml_tree(*v), key@) is None,
        },
{
    match toml_node(v) {
        TomlNode::Table(entries) => {
            let ghost all = entry_trees_of(entries@);
            let mut k: usize = 0;
            assert(all.skip(0) =~= all);
            while k < entries.len()
                invariant
                    k <= entries.len(),
                    all == entry_trees_of(entries@),
                    toml_tree(*v) == TomlTree::Table(all),
                    entry_lookup(all, key@) == entry_lookup(all.skip(k as int), key@),
                decreases entries.len() - k,
            {
                assert(all.skip(k as int)[0] == all[k as int]);
                assert(all[k as int] == (entries@[k as int].0@, toml_tree(*entries@[k as int].1)));
                if same_text(entries[k].0.as_str(), key) {
                    return Some(entries[k].1);
                }
                assert(all.skip(k as int).drop_first() =~= all.skip(k + 1));
                k += 1;
            }
            None
        },
        _ => None,
    }
}

fn push_deps_of_items(
    deps: &mut Vec<PyprojectDependency>,
    items: &Vec<toml::Value>,
    group: &Option<String>,
)
    ensures
        pyproject_views(final(deps)@) == pyproject_views(old(deps)@) + deps_of_items(
            trees_of(items@),
            group.deep_view(),
        ),
{
    let ghost trees = trees_of(items@);
    let mut i: usize = 0;
    assert(trees.take(0) =~= Seq::<TomlTree>::empty());
    assert(pyproject_views(deps@) =~= pyproject_views(old(deps)@) + deps_of_items(trees.take(0), group.deep_view()));
    while i < items.len()
        invariant
            i <= items.len(),
            trees == trees_of(items@),
            pyproject_views(deps@) == pyproject_views(old(deps)@) + deps_of_items(
                trees.take(i as int),
                group.deep_view(),
            ),
        decreases items.len() - i,
    {
        assert(trees.take(i + 1).drop_last() =~= trees.take(i as int));
        assert(trees.take(i + 1).last() == toml_tree(items@[i as int]));
        let ghost before = deps@;
        match toml_node(&items[i]) {
            TomlNode::Str(s) => {
                let g = match group {
                    Some(g) => Some(g.clone()),
                    None => None,
                };
                match parse_pep508_string(s, g) {
                    Some(d) => {
                        deps.push(d);
                        assert(pyproject_views(deps@) =~= pyproject_views(before).push(d@));
                    },
                    None => {},
                }
            },
            _ => {},
        }
        i += 1;
    }
    assert(trees.take(i as int) =~= trees);
}

fn push_deps_of_groups(deps: &mut Vec<PyprojectDependency>, groups: &toml::Value)
    ensures
        pyproject_views(final(deps)@) == pyproject_views(old(deps)@) + match toml_tree(*groups) {
            TomlTree::Table(entries) => deps_of_groups(entries),
            _ => seq![],
        },
{
    match toml_node(groups) {
        TomlNode::Table(entries) => {
            let ghost all = entry_trees_of(entries@);
            let mut k: usize = 0;
            assert(all.take(0) =~= Seq::<(Seq<char>, TomlTree)>::empty());
            assert(pyproject_views(deps@) =~= pyproject_views(old(deps)@) + deps_of_groups(all.take(0)));
            while k < entries.len()
                invariant
                    k <= entries.len(),
                    all == entry_trees_of(entries@),
                    pyproject_views(deps@) == pyproject_views(old(deps)@) + deps_of_groups(
                        all.take(k as int),
                    ),
                decreases entries.len() - k,
            {
                assert(all.take(k + 1).drop_last() =~= all.take(k as int));
                assert(all.take(k + 1).last() == all[k as int]);
                let ghost before = deps@;
                let (name, value) = entries[k];
                match toml_node(value) {
                    TomlNode::Array(items) => {
                        let g = Some(name.clone());
                        push_deps_of_items(deps, items, &g);
                        assert(pyproject_views(deps@) =~= pyproject_views(old(deps)@)
                            + deps_of_groups(all.take(k + 1)));
                    },
                    _ => {},
                }
                k += 1;
            }
            assert(all.take(k as int) =~= all);
        },
        _ => {},
    }
}

/// The dependencies that a parsed `pyproject.toml` declares.
pub fn dependencies_of_document(doc: &toml::Value) -> (r: Vec<PyprojectDependency>)
    ensures
        pyproject_views(r@) == pyproject_deps_spec(toml_tree(*doc)),
{
    let mut deps: Vec<PyprojectDependency> = Vec::new();
    let no_group: Option<String> = None;
    let ghost start = deps@;
    match toml_get(doc, "project") {
        Some(project) => {
            match toml_get(project, "dependencies") {
                Some(d) => match toml_node(d) {
                    TomlNode::Array(items) => push_deps_of_items(&mut deps, items, &no_group),
                    _ => {},
                },
                None => {},
            }
            let ghost mid = deps@;
            match toml_get(project, "optional-dependencies") {
                Some(o) => push_deps_of_groups(&mut deps, o),
                None => {},
            }
        },
        None => {},
    }
    match toml_get(doc, "dependency-groups") {
        Some(g) => push_deps_of_groups(&mut deps, g),
        None => {},
    }
    assert(pyproject_views(deps@) =~= pyproject_deps_spec(toml_tree(*doc)));
    deps
}

/// The styled path for the messages: `path` in bright blue.
fn blue_path_message(prefix: &str, path: &str) -> (r: String)
    ensures
        r@ == error_msg(prefix@ + bright_blue_text(path@)),
{
    let mut text = String::new();
    push_str(&mut text, prefix);
    let blue = bright_blue(path);
    push_str(&mut text, blue.as_str());
    get_error_msg(text.as_str())
}

/// The error for a file that could not be read.
pub fn read_failure(path: &str) -> (e: AlignError)
    ensures
        e.message_view() == read_failure_message(path@),
        e.cause_view() is None,
{
    AlignError { message: blue_path_message("Failed to read: ", path), cause: None }
}

/// Read all dependencies across every group from the text of
/// `pyproject.toml` (found at `path`): `[project.dependencies]` with no
/// group, `[project.optional-dependencies]` and `[dependency-groups]` with
/// the group's name. Fails exactly when the text is not TOML.
pub fn read_dependencies(text: &str, path: &str) -> (r: Result<Vec<PyprojectDependency>, AlignError>)
    ensures
        match r {
            Ok(deps) => toml_document(text@) matches Some(doc) && pyproject_views(deps@)
                == pyproject_deps_spec(doc),
            Err(e) => toml_document(text@) is None && e.message_view() == parse_failure_message(
                path@,
            ) && e.cause_view() is Some,
        },
{
    match parse_toml(text) {
        Ok(doc) => Ok(dependencies_of_document(&doc)),
        Err(err) => Err(
            AlignError {
                message: blue_path_message("Failed to parse TOML in: ", path),
                cause: Some(toml_error_text(&err)),
            },
        ),
    }
}

fn lock_entry(pkg: &toml::Value) -> (r: Option<LockDependency>)
    ensures
        match r {
            Some(e) => lock_entry_of(toml_tree(*pkg)) == Some(e@),
            None => lock_entry_of(toml_tree(*pkg)) is None,
        },
{
    let name = match toml_get(pkg, "name") {
        Some(n) => match toml_node(n) {
            TomlNode::Str(s) => s,
            _ => return None,
        },
        None => return None,
    };
    let version = match toml_get(pkg, "version") {
        Some(v) => match toml_node(v) {
            TomlNode::Str(s) => s,
            _ => return None,
        },
        None => return None,
    };
    Some(
        LockDependency {
            name: name.to_owned(),
            normalised_name: normalise_dependency_name(name),
            version: version.to_owned(),
        },
    )
}

/// Read the resolved packages from the text of `uv.lock` (found at `path`):
/// each `[[package]]` entry with a string name and version, in order. Fails
/// exactly when the text is not TOML.
pub fn read_lock_versions(text: &str, path: &str) -> (r: Result<Vec<LockDependency>, AlignError>)
    ensures
        match r {
            Ok(locks) => toml_document(text@) matches Some(doc) && lock_views(locks@)
                == lock_deps_spec(doc),
            Err(e) => toml_document(text@) is None && e.message_view() == parse_failure_message(
                path@,
            ) && e.cause_view() is Some,
        },
{
    match parse_toml(text) {
        Ok(doc) => Ok(lock_versions_of_document(&doc)),
        Err(err) => Err(
            AlignError {
                message: blue_path_message("Failed to parse TOML in: ", path),
                cause: Some(toml_error_text(&err)),
            },
        ),
    }
}

/// The resolved packages that a parsed `uv.lock` lists.
pub fn lock_versions_of_document(doc: &toml::Value) -> (r: Vec<LockDependency>)
    ensures
        lock_views(r@) == lock_deps_spec(toml_tree(*doc)),
{
    let mut locks: Vec<LockDependency> = Vec::new();
    match toml_get(doc, "package") {
        Some(p) => match toml_node(p) {
            TomlNode::Array(pkgs) => {
                let ghost trees = trees_of(pkgs@);
                let mut i: usize = 0;
                assert(trees.take(0) =~= Seq::<TomlTree>::empty());
                while i < pkgs.len()
                    invariant
                        i <= pkgs.len(),
                        trees == trees_of(pkgs@),
                        lock_views(locks@) == lock_entries_of(trees.take(i as int)),
                    decreases pkgs.len() - i,
                {
                    assert(trees.take(i + 1).drop_last() =~= trees.take(i as int));
                    assert(trees.take(i + 1).last() == toml_tree(pkgs@[i as int]));
                    let ghost before = locks@;
                    match lock_entry(&pkgs[i]) {
                        Some(e) => {
                            locks.push(e);
                            assert(lock_views(locks@) =~= lock_views(before).push(e@));
                        },
                        None => {},
                    }
                    i += 1;
                }
                assert(trees.take(i as int) =~= trees);
            },
            _ => {},
        },
        None => {},
    }
    locks
}

} // verus!
