//! The text that the tool shows: the summary of `uv lock --upgrade`, the
//! diff of version changes, and the lines around them.

use vstd::prelude::*;
use vstd::utf8::{valid_utf8, decode_utf8};
use crate::deps::{DependencyChange, DependencyChangeView, change_views};
use crate::edit::text_or_empty;
use crate::messages::{success_msg, get_success_msg};
use crate::style::{
    bright_red, bright_green, bright_yellow, bright_blue, bold, underline, bright_red_text,
    bright_green_text, bright_yellow_text, bright_blue_text, bold_text, underline_text,
};
use crate::text::{
    trim, trim_start, starts_with, lines, chars_views, string_views, decimal, chars_of, string_of,
    split_lines, trim_chars, trim_start_chars, chars_start_with, slice, push_str, usize_text,
};

verus! {

/// What `String::from_utf8_lossy` makes of `bytes`.
pub uninterp spec fn lossy_utf8(bytes: Seq<u8>) -> Seq<char>;

/// `String::from_utf8_lossy`: the result is `lossy_utf8` of the bytes, and
/// the plain decoding of bytes that are valid UTF-8.
#[verifier::external_body]
fn decode_lossy(bytes: &[u8]) -> (r: String)
    ensures
        r@ == lossy_utf8(bytes@),
        valid_utf8(bytes@) ==> r@ == decode_utf8(bytes@),
{
    String::from_utf8_lossy(bytes).into_owned()
}

/// The three kinds of lines that `uv lock --upgrade` reports.
#[derive(Clone, Copy, PartialEq, Eq, Structural, Debug)]
pub enum UpdateKind {
    Updated,
    Added,
    Removed,
}

/// What a line of `uv`'s output reports: after leading white space, the
/// prefix "Updated ", "Added " or "Removed " (tried in that order), and the
/// trimmed rest as the package.
pub open spec fn line_report(line: Seq<char>) -> Option<(UpdateKind, Seq<char>)> {
    let t = trim_start(line);
    if starts_with(t, "Updated "@) {
        Some((UpdateKind::Updated, trim(t.skip("Updated "@.len() as int))))
    } else if starts_with(t, "Added "@) {
        Some((UpdateKind::Added, trim(t.skip("Added "@.len() as int))))
    } else if starts_with(t, "Removed "@) {
        Some((UpdateKind::Removed, trim(t.skip("Removed "@.len() as int))))
    } else {
        None
    }
}

/// The packages that the lines report as being of `kind`, in order.
pub open spec fn reported(ls: Seq<Seq<char>>, kind: UpdateKind) -> Seq<Seq<char>>
    decreases ls.len(),
{
    if ls.len() == 0 {
        seq![]
    } else {
        let earlier = reported(ls.drop_last(), kind);
        match line_report(ls.last()) {
            Some((k, p)) => if k == kind {
                earlier.push(p)
            } else {
                earlier
            },
            None => earlier,
        }
    }
}

/// The updated, added and removed packages that a text reports.
pub open spec fn update_lists(text: Seq<char>) -> (Seq<Seq<char>>, Seq<Seq<char>>, Seq<Seq<char>>) {
    (
        reported(lines(text), UpdateKind::Updated),
        reported(lines(text), UpdateKind::Added),
        reported(lines(text), UpdateKind::Removed),
    )
}

fn line_report_of(line: &Vec<char>, updated: &Vec<char>, added: &Vec<char>, removed: &Vec<char>) -> (r: Option<(UpdateKind, String)>)
    requires
        updated@ == "Updated "@,
        added@ == "Added "@,
        removed@ == "Removed "@,
    ensures
        match r {
            Some((k, p)) => line_report(line@) == Some((k, p@)),
            None => line_report(line@) is None,
        },
{
    let t = trim_start_chars(line);
    let (kind, n) = if chars_start_with(&t, updated) {
        (UpdateKind::Updated, updated.len())
    } else if chars_start_with(&t, added) {
        (UpdateKind::Added, added.len())
    } else if chars_start_with(&t, removed) {
        (UpdateKind::Removed, removed.len())
    } else {
        return None;
    };
    let rest = slice(&t, n, t.len());
    assert(rest@ =~= t@.skip(n as int));
    let package = trim_chars(&rest);
    Some((kind, string_of(&package)))
}

/// The packages that `uv lock --upgrade` reports as updated, added and
/// removed, from the text of its output.
pub fn parse_uv_update_text(text: &str) -> (r: (Vec<String>, Vec<String>, Vec<String>))
    ensures
        (string_views(r.0@), string_views(r.1@), string_views(r.2@)) == update_lists(text@),
{
    let v = chars_of(text);
    let ls = split_lines(&v);
    let updated_prefix = chars_of("Updated ");
    let added_prefix = chars_of("Added ");
    let removed_prefix = chars_of("Removed ");
    let ghost views = chars_views(ls@);
    let mut updated: Vec<String> = Vec::new();
    let mut added: Vec<String> = Vec::new();
    let mut removed: Vec<String> = Vec::new();
    let mut i: usize = 0;
    assert(views.take(0) =~= Seq::<Seq<char>>::empty());
    while i < ls.len()
        invariant
            i <= ls.len(),
            views == chars_views(ls@),
            updated_prefix@ == "Updated "@,
            added_prefix@ == "Added "@,
            removed_prefix@ == "Removed "@,
            string_views(updated@) == reported(views.take(i as int), UpdateKind::Updated),
            string_views(added@) == reported(views.take(i as int), UpdateKind::Added),
            string_views(removed@) == reported(views.take(i as int), UpdateKind::Removed),
        decreases ls.len() - i,
    {
        assert(views.take(i + 1).drop_last() =~= views.take(i as int));
        assert(views.take(i + 1).last() == ls@[i as int]@);
        let ghost (u0, a0, r0) = (updated@, added@, removed@);
        match line_report_of(&ls[i], &updated_prefix, &added_prefix, &removed_prefix) {
            Some((UpdateKind::Updated, p)) => {
                updated.push(p);
                assert(string_views(updated@) =~= string_views(u0).push(updated@.last()@));
            },
            Some((UpdateKind::Added, p)) => {
                added.push(p);
                assert(string_views(added@) =~= string_views(a0).push(added@.last()@));
            },
            Some((UpdateKind::Removed, p)) => {
                removed.push(p);
                assert(string_views(removed@) =~= string_views(r0).push(removed@.last()@));
            },
            None => {},
        }
        i += 1;
    }
    assert(views.take(i as int) =~= views);
    assert(views == lines(text@));
    (updated, added, removed)
}

/// Collect the modified dependencies from the error stream of
/// `uv lock --upgrade`: the updated, added and removed package names.
pub fn parse_uv_update_output(stderr: &[u8]) -> (r: (Vec<String>, Vec<String>, Vec<String>))
    ensures
        (string_views(r.0@), string_views(r.1@), string_views(r.2@)) == update_lists(
            lossy_utf8(stderr@),
        ),
        valid_utf8(stderr@) ==> (string_views(r.0@), string_views(r.1@), string_views(r.2@))
            == update_lists(decode_utf8(stderr@)),
{
    let text = decode_lossy(stderr);
    parse_uv_update_text(text.as_str())
}

/// `parts` joined with `sep` between consecutive parts.
pub open spec fn joined(parts: Seq<Seq<char>>, sep: Seq<char>) -> Seq<char>
    decreases parts.len(),
{
    if parts.len() == 0 {
        seq![]
    } else if parts.len() == 1 {
        parts[0]
    } else {
        joined(parts.drop_last(), sep) + sep + parts.last()
    }
}

/// The counts of the summary: "<n> updated", "<n> added", "<n> removed",
/// each coloured count present only when it is not zero.
pub open spec fn summary_parts(updated: nat, added: nat, removed: nat) -> Seq<Seq<char>> {
    (if updated > 0 {
        seq![bright_yellow_text(decimal(updated)) + " updated"@]
    } else {
        seq![]
    }) + (if added > 0 {
        seq![bright_green_text(decimal(added)) + " added"@]
    } else {
        seq![]
    }) + (if removed > 0 {
        seq![bright_red_text(decimal(removed)) + " removed"@]
    } else {
        seq![]
    })
}

/// One line per package: two spaces, the mark, a space, the package.
pub open spec fn item_lines(items: Seq<Seq<char>>, mark: Seq<char>) -> Seq<char>
    decreases items.len(),
{
    if items.len() == 0 {
        seq![]
    } else {
        item_lines(items.drop_last(), mark) + "  "@ + mark + " "@ + items.last() + "\n"@
    }
}

/// A titled list of packages followed by an empty line, or nothing for no
/// packages.
pub open spec fn section(title: Seq<char>, mark: Seq<char>, items: Seq<Seq<char>>) -> Seq<char> {
    if items.len() == 0 {
        seq![]
    } else {
        title + "\n"@ + item_lines(items, mark) + "\n"@
    }
}

/// What the tool prints after `uv lock --upgrade`: that everything is up to
/// date, or the verbose lists (when asked for) and a line with the counts.
pub open spec fn uv_summary_text(
    updated: Seq<Seq<char>>,
    added: Seq<Seq<char>>,
    removed: Seq<Seq<char>>,
    verbose: bool,
) -> Seq<char> {
    if updated.len() == 0 && added.len() == 0 && removed.len() == 0 {
        success_msg("Dependencies already up to date!\n"@) + "\n"@
    } else {
        (if verbose {
            "\n"@ + section("Updated:"@, bright_yellow_text("~"@), updated) + section(
                "Added:"@,
                bright_green_text("+"@),
                added,
            ) + section("Removed:"@, bright_red_text("-"@), removed)
        } else {
            seq![]
        }) + success_msg(
            "Dependencies: "@ + joined(summary_parts(updated.len(), added.len(), removed.len()), ", "@)
                + "!\n"@,
        ) + "\n"@
    }
}

fn push_section(out: &mut String, title: &str, mark: &String, items: &Vec<String>)
    ensures
        final(out)@ == old(out)@ + section(title@, mark@, string_views(items@)),
{
    if items.len() == 0 {
        return;
    }
    push_str(out, title);
    push_str(out, "\n");
    let ghost views = string_views(items@);
    let ghost base = out@;
    let mut i: usize = 0;
    assert(views.take(0) =~= Seq::<Seq<char>>::empty());
    while i < items.len()
        invariant
            i <= items.len(),
            views == string_views(items@),
            out@ == base + item_lines(views.take(i as int), mark@),
        decreases items.len() - i,
    {
        assert(views.take(i + 1).drop_last() =~= views.take(i as int));
        assert(views.take(i + 1).last() == items@[i as int]@);
        push_str(out, "  ");
        push_str(out, mark.as_str());
        push_str(out, " ");
        push_str(out, items[i].as_str());
        push_str(out, "\n");
        i += 1;
        assert(out@ =~= base + item_lines(views.take(i as int), mark@));
    }
    assert(views.take(i as int) =~= views);
    push_str(out, "\n");
    assert(out@ =~= old(out)@ + section(title@, mark@, views));
}

fn count_part(coloured: String, label: &str) -> (r: String)
    ensures
        r@ == coloured@ + label@,
{
    let mut r = coloured;
    push_str(&mut r, label);
    r
}

/// The text that the tool prints after `uv lock --upgrade`: that everything
/// is already up to date, or, when `verbose`, the lists of updated, added and
/// removed packages, then a line with their counts.
pub fn uv_modified_dependencies_text(
    updated: &Vec<String>,
    added: &Vec<String>,
    removed: &Vec<String>,
    verbose: bool,
) -> (r: String)
    ensures
        r@ == uv_summary_text(string_views(updated@), string_views(added@), string_views(removed@), verbose),
{
    let updated_count = updated.len();
    let added_count = added.len();
    let removed_count = removed.len();
    if updated_count == 0 && added_count == 0 && removed_count == 0 {
        let mut r = get_success_msg("Dependencies already up to date!\n");
        push_str(&mut r, "\n");
        return r;
    }
    let mut parts: Vec<String> = Vec::new();
    if updated_count > 0 {
        let count = usize_text(updated_count);
        parts.push(count_part(bright_yellow(count.as_str()), " updated"));
    }
    if added_count > 0 {
        let count = usize_text(added_count);
        parts.push(count_part(bright_green(count.as_str()), " added"));
    }
    if removed_count > 0 {
        let count = usize_text(removed_count);
        parts.push(count_part(bright_red(count.as_str()), " removed"));
    }
    assert(string_views(parts@) =~= summary_parts(
        updated@.len(),
        added@.len(),
        removed@.len(),
    ));
    let mut out = String::new();
    if verbose {
        push_str(&mut out, "\n");
        push_section(&mut out, "Updated:", &bright_yellow("~"), updated);
        push_section(&mut out, "Added:", &bright_green("+"), added);
        push_section(&mut out, "Removed:", &bright_red("-"), removed);
    }
    let mut summary = String::new();
    push_str(&mut summary, "Dependencies: ");
    let ghost pviews = string_views(parts@);
    let ghost base = summary@;
    let mut i: usize = 0;
    assert(pviews.take(0) =~= Seq::<Seq<char>>::empty());
    while i < parts.len()
        invariant
            i <= parts.len(),
            pviews == string_views(parts@),
            summary@ == base + joined(pviews.take(i as int), ", "@),
        decreases parts.len() - i,
    {
        assert(pviews.take(i + 1).drop_last() =~= pviews.take(i as int));
        assert(pviews.take(i + 1).last() == parts@[i as int]@);
        if i > 0 {
            push_str(&mut summary, ", ");
        }
        push_str(&mut summary, parts[i].as_str());
        i += 1;
        assert(summary@ =~= base + joined(pviews.take(i as int), ", "@));
    }
    assert(pviews.take(i as int) =~= pviews);
    push_str(&mut summary, "!\n");
    let line = get_success_msg(summary.as_str());
    push_str(&mut out, line.as_str());
    push_str(&mut out, "\n");
    out
}

/// `s` followed by spaces up to `width` characters (`{:<width}`).
pub open spec fn padded(s: Seq<char>, width: nat) -> Seq<char> {
    if s.len() < width {
        s + Seq::new((width - s.len()) as nat, |i: int| ' ')
    } else {
        s
    }
}

/// One line of the diff: the mark, a space, the name, a space, then the
/// operator, version and suffix as they stand.
pub open spec fn diff_line(
    mark: Seq<char>,
    name: Seq<char>,
    op: Seq<char>,
    version: Seq<char>,
    suffix: Seq<char>,
) -> Seq<char> {
    mark + " "@ + name + " "@ + op + version + suffix + "\n"@
}

/// The lines that show one change: the old constraint in red after a `-`,
/// the new one in green after a `+`, each version underlined, then an empty
/// line; the name is padded to 16 characters, and bold when asked for.
pub open spec fn diff_entry_text(c: DependencyChangeView, bold_names: bool) -> Seq<char> {
    let name = if bold_names {
        bold_text(padded(c.name, 16))
    } else {
        padded(c.name, 16)
    };
    let op = text_or_empty(c.operator);
    let suffix = text_or_empty(c.suffix);
    diff_line(
        bright_red_text("-"@),
        name,
        bright_red_text(op),
        underline_text(bright_red_text(c.old)),
        bright_red_text(suffix),
    ) + diff_line(
        bright_green_text("+"@),
        name,
        bright_green_text(op),
        underline_text(bright_green_text(c.new)),
        bright_green_text(suffix),
    ) + "\n"@
}

/// The lines that show all changes, in order.
pub open spec fn diff_text_spec(changes: Seq<DependencyChangeView>, bold_names: bool) -> Seq<char>
    decreases changes.len(),
{
    if changes.len() == 0 {
        seq![]
    } else {
        diff_text_spec(changes.drop_last(), bold_names) + diff_entry_text(changes.last(), bold_names)
    }
}

fn padded_name(name: &String) -> (r: String)
    ensures
        r@ == padded(name@, 16),
{
    let v = chars_of(name.as_str());
    let mut r = string_of(&v);
    if v.len() >= 16 {
        return r;
    }
    let mut n = v.len();
    assert(r@ =~= name@ + Seq::new((n - v.len()) as nat, |i: int| ' '));
    while n < 16
        invariant
            v@ == name@,
            v.len() <= n <= 16,
            r@ == name@ + Seq::new((n - v.len()) as nat, |i: int| ' '),
        decreases 16 - n,
    {
        r.push(' ');
        n += 1;
        assert(r@ =~= name@ + Seq::new((n - v.len()) as nat, |i: int| ' '));
    }
    assert(r@ =~= padded(name@, 16));
    r
}

fn push_diff_line(out: &mut String, mark: &String, name: &String, op: &String, version: &String, suffix: &String)
    ensures
        final(out)@ == old(out)@ + diff_line(mark@, name@, op@, version@, suffix@),
{
    push_str(out, mark.as_str());
    push_str(out, " ");
    push_str(out, name.as_str());
    push_str(out, " ");
    push_str(out, op.as_str());
    push_str(out, version.as_str());
    push_str(out, suffix.as_str());
    push_str(out, "\n");
    assert(out@ =~= old(out)@ + diff_line(mark@, name@, op@, version@, suffix@));
}

fn text_of(o: &Option<String>) -> (r: String)
    ensures
        r@ == text_or_empty(o.deep_view()),
{
    match o {
        Some(s) => s.clone(),
        None => String::new(),
    }
}

fn push_diff_entry(out: &mut String, change: &DependencyChange, bold_names: bool)
    ensures
        final(out)@ == old(out)@ + diff_entry_text(change@, bold_names),
{
    let plain = padded_name(&change.name);
    let name = if bold_names {
        bold(plain.as_str())
    } else {
        plain
    };
    let op = text_of(&change.operator);
    let suffix = text_of(&change.suffix);
    let red_mark = bright_red("-");
    let red_op = bright_red(op.as_str());
    let red_old = underline(bright_red(change.old.as_str()).as_str());
    let red_suffix = bright_red(suffix.as_str());
    let green_mark = bright_green("+");
    let green_op = bright_green(op.as_str());
    let green_new = underline(bright_green(change.new.as_str()).as_str());
    let green_suffix = bright_green(suffix.as_str());
    let ghost first = diff_line(red_mark@, name@, red_op@, red_old@, red_suffix@);
    let ghost second = diff_line(green_mark@, name@, green_op@, green_new@, green_suffix@);
    push_diff_line(out, &red_mark, &name, &red_op, &red_old, &red_suffix);
    push_diff_line(out, &green_mark, &name, &green_op, &green_new, &green_suffix);
    push_str(out, "\n");
    assert(diff_entry_text(change@, bold_names) == first + second + "\n"@);
    assert(out@ =~= old(out)@ + (first + second + "\n"@));
}

/// The text that shows the differences between the old and new versions of
/// the dependencies; names are bold when `bold_names` holds.
pub fn diff_text(changes: &[DependencyChange], bold_names: bool) -> (r: String)
    ensures
        r@ == diff_text_spec(change_views(changes@), bold_names),
{
    let ghost cs = change_views(changes@);
    let mut out = String::new();
    let mut i: usize = 0;
    assert(cs.take(0) =~= Seq::<DependencyChangeView>::empty());
    while i < changes.len()
        invariant
            i <= changes.len(),
            cs == change_views(changes@),
            out@ == diff_text_spec(cs.take(i as int), bold_names),
        decreases changes.len() - i,
    {
        assert(cs.take(i + 1).drop_last() =~= cs.take(i as int));
        assert(cs.take(i + 1).last() == changes@[i as int]@);
        push_diff_entry(&mut out, &changes[i], bold_names);
        i += 1;
    }
    assert(cs.take(i as int) =~= cs);
    out
}

/// The line after the diff: the count in bold, "dependency is" or
/// "dependencies are", and the file in bright blue.
pub open spec fn out_of_sync_text(count: nat, file: Seq<char>) -> Seq<char> {
    bold_text(decimal(count)) + " "@ + (if count == 1 {
        "dependency is"@
    } else {
        "dependencies are"@
    }) + " out of sync in: "@ + bright_blue_text(file)
}

/// The line that tells how many dependencies are out of sync in `file`.
pub fn out_of_sync_summary(count: usize, file: &str) -> (r: String)
    ensures
        r@ == out_of_sync_text(count as nat, file@),
{
    let number = usize_text(count);
    let mut r = bold(number.as_str());
    push_str(&mut r, " ");
    if count == 1 {
        push_str(&mut r, "dependency is");
    } else {
        push_str(&mut r, "dependencies are");
    }
    push_str(&mut r, " out of sync in: ");
    let blue = bright_blue(file);
    push_str(&mut r, blue.as_str());
    r
}

} // verus!
