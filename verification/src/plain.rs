//! What the tool's reports read like once the terminal's colour and style
//! escape sequences are taken out.

use vstd::prelude::*;
use crate::text::{CharClass, position, lemma_position_unique, decimal, digit_char};
use crate::style::{sgr, in_fg, in_style};
use crate::report::{joined, item_lines, section, summary_parts, uv_summary_text, padded, diff_line, diff_entry_text, diff_text_spec};
use crate::messages::success_msg;
use crate::deps::DependencyChangeView;
use crate::edit::text_or_empty;

verus! {

/// `s` holds no escape character.
pub open spec fn escape_free(s: Seq<char>) -> bool {
    forall|i: int| 0 <= i < s.len() ==> #[trigger] s[i] != '\u{1b}'
}

/// `s` with every escape sequence, from an escape character up to and
/// including the next `m`, taken out (an unfinished one runs to the end).
pub open spec fn without_escapes(s: Seq<char>) -> Seq<char>
    decreases s.len(),
{
    if s.len() == 0 {
        seq![]
    } else if s[0] == '\u{1b}' {
        let k = position(s, CharClass::Exactly('m'));
        if k < s.len() {
            without_escapes(s.skip(k as int + 1))
        } else {
            seq![]
        }
    } else {
        seq![s[0]] + without_escapes(s.drop_first())
    }
}

/// `x`, wherever it stands in front of other text, reads as `p` once escape
/// sequences are taken out.
pub open spec fn shows_as(x: Seq<char>, p: Seq<char>) -> bool {
    forall|rest: Seq<char>| #[trigger] without_escapes(x + rest) == p + without_escapes(rest)
}

proof fn lemma_shows_whole(x: Seq<char>, p: Seq<char>)
    requires
        shows_as(x, p),
    ensures
        without_escapes(x) == p,
{
    assert(x + Seq::<char>::empty() =~= x);
    assert(without_escapes(x + Seq::<char>::empty()) == p + without_escapes(Seq::<char>::empty()));
    assert(p + Seq::<char>::empty() =~= p);
}

proof fn lemma_shows_concat(x1: Seq<char>, p1: Seq<char>, x2: Seq<char>, p2: Seq<char>)
    requires
        shows_as(x1, p1),
        shows_as(x2, p2),
    ensures
        shows_as(x1 + x2, p1 + p2),
{
    assert forall|rest: Seq<char>| #[trigger] without_escapes((x1 + x2) + rest) == (p1 + p2)
        + without_escapes(rest) by {
        assert((x1 + x2) + rest =~= x1 + (x2 + rest));
        assert(without_escapes(x1 + (x2 + rest)) == p1 + without_escapes(x2 + rest));
        assert(without_escapes(x2 + rest) == p2 + without_escapes(rest));
        assert(p1 + (p2 + without_escapes(rest)) =~= (p1 + p2) + without_escapes(rest));
    }
}

proof fn lemma_shows_plain_rest(a: Seq<char>, rest: Seq<char>)
    requires
        escape_free(a),
    ensures
        without_escapes(a + rest) == a + without_escapes(rest),
    decreases a.len(),
{
    if a.len() == 0 {
        assert(a + rest =~= rest);
        assert(a + without_escapes(rest) =~= without_escapes(rest));
    } else {
        let s = a + rest;
        assert(s[0] == a[0]);
        assert(s.drop_first() =~= a.drop_first() + rest);
        lemma_shows_plain_rest(a.drop_first(), rest);
        assert(seq![a[0]] + (a.drop_first() + without_escapes(rest)) =~= a + without_escapes(rest));
    }
}

/// Text without escape characters shows as itself.
proof fn lemma_shows_plain(a: Seq<char>)
    requires
        escape_free(a),
    ensures
        shows_as(a, a),
{
    assert forall|rest: Seq<char>| #[trigger] without_escapes(a + rest) == a + without_escapes(rest) by {
        lemma_shows_plain_rest(a, rest);
    }
}

/// An escape sequence `ESC [ code m` shows as nothing.
proof fn lemma_shows_sgr(code: Seq<char>)
    requires
        sgr_code(code),
    ensures
        shows_as(sgr(code), seq![]),
{
    assert forall|rest: Seq<char>| #[trigger] without_escapes(sgr(code) + rest) == Seq::<char>::empty()
        + without_escapes(rest) by {
        let s = sgr(code) + rest;
        let k: int = code.len() as int + 2;
        assert(s[0] == '\u{1b}');
        assert forall|j: int| 0 <= j < k implies !crate::text::in_class(CharClass::Exactly('m'), #[trigger] s[j]) by {
            if j >= 2 {
                assert(s[j] == code[j - 2]);
            }
        }
        assert(s[k] == 'm');
        lemma_position_unique(s, CharClass::Exactly('m'), k);
        assert(s.skip(k + 1) =~= rest);
        assert(Seq::<char>::empty() + without_escapes(rest) =~= without_escapes(rest));
    }
}

/// `code` holds no `m`, so an escape sequence made of it ends at its own `m`.
pub open spec fn sgr_code(code: Seq<char>) -> bool {
    forall|i: int| 0 <= i < code.len() ==> #[trigger] code[i] != 'm'
}

proof fn lemma_code1(a: char)
    requires
        a != 'm',
    ensures
        sgr_code(seq![a]),
{
    let c = seq![a];
    assert forall|i: int| 0 <= i < c.len() implies #[trigger] c[i] != 'm' by {
        assert(i == 0);
    }
}

proof fn lemma_code2(a: char, b: char)
    requires
        a != 'm',
        b != 'm',
    ensures
        sgr_code(seq![a, b]),
{
    let c = seq![a, b];
    assert forall|i: int| 0 <= i < c.len() implies #[trigger] c[i] != 'm' by {
        if i == 0 {
        } else {
            assert(i == 1);
        }
    }
}

proof fn lemma_codes()
    ensures
        sgr_code(seq!['9', '1']),
        sgr_code(seq!['9', '2']),
        sgr_code(seq!['9', '3']),
        sgr_code(seq!['9', '4']),
        sgr_code(seq!['3', '9']),
        sgr_code(seq!['1']),
        sgr_code(seq!['4']),
        sgr_code(seq!['0']),
{
    lemma_code2('9', '1');
    lemma_code2('9', '2');
    lemma_code2('9', '3');
    lemma_code2('9', '4');
    lemma_code2('3', '9');
    lemma_code1('1');
    lemma_code1('4');
    lemma_code1('0');
}

/// Coloured text shows as the text it colours.
proof fn lemma_shows_fg(code: Seq<char>, x: Seq<char>, p: Seq<char>)
    requires
        sgr_code(code),
        shows_as(x, p),
    ensures
        shows_as(in_fg(code, x), p),
{
    lemma_codes();
    lemma_shows_sgr(code);
    lemma_shows_sgr(seq!['3', '9']);
    lemma_shows_concat(sgr(code), seq![], x, p);
    lemma_shows_concat(sgr(code) + x, Seq::<char>::empty() + p, sgr(seq!['3', '9']), seq![]);
    assert(Seq::<char>::empty() + p + Seq::<char>::empty() =~= p);
}

/// Styled text shows as the text it styles.
proof fn lemma_shows_style(code: Seq<char>, x: Seq<char>, p: Seq<char>)
    requires
        sgr_code(code),
        shows_as(x, p),
    ensures
        shows_as(in_style(code, x), p),
{
    lemma_codes();
    lemma_shows_sgr(code);
    lemma_shows_sgr(seq!['0']);
    lemma_shows_concat(sgr(code), seq![], x, p);
    lemma_shows_concat(sgr(code) + x, Seq::<char>::empty() + p, sgr(seq!['0']), seq![]);
    assert(Seq::<char>::empty() + p + Seq::<char>::empty() =~= p);
}

proof fn lemma_decimal_escape_free(n: nat)
    ensures
        escape_free(decimal(n)),
    decreases n,
{
    assert(digit_char(n % 10) != '\u{1b}');
    if n >= 10 {
        lemma_decimal_escape_free(n / 10);
        let d = decimal(n / 10);
        assert forall|i: int| 0 <= i < d.push(digit_char(n % 10)).len() implies #[trigger] d.push(
            digit_char(n % 10),
        )[i] != '\u{1b}' by {
            if i < d.len() {
                assert(d.push(digit_char(n % 10))[i] == d[i]);
            }
        }
    } else {
        assert(digit_char(n) != '\u{1b}');
    }
}

/// Every text of `items` holds no escape character.
pub open spec fn all_escape_free(items: Seq<Seq<char>>) -> bool {
    forall|i: int| 0 <= i < items.len() ==> escape_free(#[trigger] items[i])
}

proof fn lemma_shows_item_lines(items: Seq<Seq<char>>, mark: Seq<char>, plain_mark: Seq<char>)
    requires
        all_escape_free(items),
        shows_as(mark, plain_mark),
    ensures
        shows_as(item_lines(items, mark), item_lines(items, plain_mark)),
    decreases items.len(),
{
    reveal_strlit("  ");
    reveal_strlit(" ");
    reveal_strlit("\n");
    if items.len() == 0 {
        lemma_shows_plain(seq![]);
    } else {
        let init = items.drop_last();
        assert forall|i: int| 0 <= i < init.len() implies escape_free(#[trigger] init[i]) by {
            assert(init[i] == items[i]);
        }
        lemma_shows_item_lines(init, mark, plain_mark);
        assert(escape_free(items.last()));
        lemma_shows_plain("  "@);
        lemma_shows_plain(" "@);
        lemma_shows_plain("\n"@);
        lemma_shows_plain(items.last());
        lemma_shows_concat(item_lines(init, mark), item_lines(init, plain_mark), "  "@, "  "@);
        lemma_shows_concat(
            item_lines(init, mark) + "  "@,
            item_lines(init, plain_mark) + "  "@,
            mark,
            plain_mark,
        );
        lemma_shows_concat(
            item_lines(init, mark) + "  "@ + mark,
            item_lines(init, plain_mark) + "  "@ + plain_mark,
            " "@,
            " "@,
        );
        lemma_shows_concat(
            item_lines(init, mark) + "  "@ + mark + " "@,
            item_lines(init, plain_mark) + "  "@ + plain_mark + " "@,
            items.last(),
            items.last(),
        );
        lemma_shows_concat(
            item_lines(init, mark) + "  "@ + mark + " "@ + items.last(),
            item_lines(init, plain_mark) + "  "@ + plain_mark + " "@ + items.last(),
            "\n"@,
            "\n"@,
        );
    }
}

proof fn lemma_shows_section(
    title: Seq<char>,
    mark: Seq<char>,
    plain_mark: Seq<char>,
    items: Seq<Seq<char>>,
)
    requires
        escape_free(title),
        all_escape_free(items),
        shows_as(mark, plain_mark),
    ensures
        shows_as(section(title, mark, items), section(title, plain_mark, items)),
{
    reveal_strlit("\n");
    if items.len() == 0 {
        lemma_shows_plain(seq![]);
    } else {
        lemma_shows_plain(title);
        lemma_shows_plain("\n"@);
        lemma_shows_item_lines(items, mark, plain_mark);
        lemma_shows_concat(title, title, "\n"@, "\n"@);
        lemma_shows_concat(title + "\n"@, title + "\n"@, item_lines(items, mark), item_lines(items, plain_mark));
        lemma_shows_concat(
            title + "\n"@ + item_lines(items, mark),
            title + "\n"@ + item_lines(items, plain_mark),
            "\n"@,
            "\n"@,
        );
    }
}

proof fn lemma_shows_joined(parts: Seq<Seq<char>>, plain: Seq<Seq<char>>, sep: Seq<char>)
    requires
        parts.len() == plain.len(),
        forall|i: int| 0 <= i < parts.len() ==> shows_as(#[trigger] parts[i], plain[i]),
        escape_free(sep),
    ensures
        shows_as(joined(parts, sep), joined(plain, sep)),
    decreases parts.len(),
{
    if parts.len() == 0 {
        lemma_shows_plain(seq![]);
    } else if parts.len() == 1 {
        assert(shows_as(parts[0], plain[0]));
    } else {
        let ip = parts.drop_last();
        let iq = plain.drop_last();
        assert forall|i: int| 0 <= i < ip.len() implies shows_as(#[trigger] ip[i], iq[i]) by {
            assert(ip[i] == parts[i]);
            assert(iq[i] == plain[i]);
            assert(shows_as(parts[i], plain[i]));
        }
        lemma_shows_joined(ip, iq, sep);
        lemma_shows_plain(sep);
        assert(shows_as(parts[parts.len() - 1], plain[plain.len() - 1]));
        lemma_shows_concat(joined(ip, sep), joined(iq, sep), sep, sep);
        lemma_shows_concat(joined(ip, sep) + sep, joined(iq, sep) + sep, parts.last(), plain.last());
    }
}

/// The counts of the summary as they read: "<n> updated", "<n> added",
/// "<n> removed", each present only when it is not zero.
pub open spec fn plain_summary_parts(updated: nat, added: nat, removed: nat) -> Seq<Seq<char>> {
    (if updated > 0 {
        seq![decimal(updated) + " updated"@]
    } else {
        seq![]
    }) + (if added > 0 {
        seq![decimal(added) + " added"@]
    } else {
        seq![]
    }) + (if removed > 0 {
        seq![decimal(removed) + " removed"@]
    } else {
        seq![]
    })
}

/// What the report after `uv lock --upgrade` reads like without colours:
/// "✔ Dependencies already up to date!" and an empty line when nothing
/// changed; otherwise, when verbose, a titled list per kind of change with
/// one line per package, and in any case a line with the counts joined by
/// ", ". No package name appears unless verbose.
pub open spec fn plain_summary_text(
    updated: Seq<Seq<char>>,
    added: Seq<Seq<char>>,
    removed: Seq<Seq<char>>,
    verbose: bool,
) -> Seq<char> {
    if updated.len() == 0 && added.len() == 0 && removed.len() == 0 {
        seq!['\u{2714}'] + " Dependencies already up to date!\n"@ + "\n"@
    } else {
        (if verbose {
            plain_lists(updated, added, removed)
        } else {
            seq![]
        }) + seq!['\u{2714}'] + " Dependencies: "@ + joined(
            plain_summary_parts(updated.len(), added.len(), removed.len()),
            ", "@,
        ) + "!\n"@ + "\n"@
    }
}

/// The verbose lists without colours: a titled list of updated (`~`),
/// added (`+`) and removed (`-`) packages, each present only when not empty.
pub open spec fn plain_lists(
    updated: Seq<Seq<char>>,
    added: Seq<Seq<char>>,
    removed: Seq<Seq<char>>,
) -> Seq<char> {
    "\n"@ + section("Updated:"@, "~"@, updated) + section("Added:"@, "+"@, added) + section(
        "Removed:"@,
        "-"@,
        removed,
    )
}

proof fn lemma_shows_lists(updated: Seq<Seq<char>>, added: Seq<Seq<char>>, removed: Seq<Seq<char>>)
    requires
        all_escape_free(updated),
        all_escape_free(added),
        all_escape_free(removed),
    ensures
        shows_as(
            "\n"@ + section("Updated:"@, crate::style::bright_yellow_text("~"@), updated) + section(
                "Added:"@,
                crate::style::bright_green_text("+"@),
                added,
            ) + section("Removed:"@, crate::style::bright_red_text("-"@), removed),
            plain_lists(updated, added, removed),
        ),
{
    reveal_strlit("\n");
    reveal_strlit("Updated:");
    reveal_strlit("Added:");
    reveal_strlit("Removed:");
    reveal_strlit("~");
    reveal_strlit("+");
    reveal_strlit("-");
    lemma_codes();
    lemma_shows_plain("\n"@);
    lemma_shows_plain("~"@);
    lemma_shows_plain("+"@);
    lemma_shows_plain("-"@);
    lemma_shows_fg(seq!['9', '3'], "~"@, "~"@);
    lemma_shows_fg(seq!['9', '2'], "+"@, "+"@);
    lemma_shows_fg(seq!['9', '1'], "-"@, "-"@);
    lemma_shows_section("Updated:"@, crate::style::bright_yellow_text("~"@), "~"@, updated);
    lemma_shows_section("Added:"@, crate::style::bright_green_text("+"@), "+"@, added);
    lemma_shows_section("Removed:"@, crate::style::bright_red_text("-"@), "-"@, removed);
    lemma_shows_concat(
        "\n"@,
        "\n"@,
        section("Updated:"@, crate::style::bright_yellow_text("~"@), updated),
        section("Updated:"@, "~"@, updated),
    );
    lemma_shows_concat(
        "\n"@ + section("Updated:"@, crate::style::bright_yellow_text("~"@), updated),
        "\n"@ + section("Updated:"@, "~"@, updated),
        section("Added:"@, crate::style::bright_green_text("+"@), added),
        section("Added:"@, "+"@, added),
    );
    lemma_shows_concat(
        "\n"@ + section("Updated:"@, crate::style::bright_yellow_text("~"@), updated) + section(
            "Added:"@,
            crate::style::bright_green_text("+"@),
            added,
        ),
        "\n"@ + section("Updated:"@, "~"@, updated) + section("Added:"@, "+"@, added),
        section("Removed:"@, crate::style::bright_red_text("-"@), removed),
        section("Removed:"@, "-"@, removed),
    );
}

proof fn lemma_shows_count(coloured: Seq<char>, n: nat, label: Seq<char>, code: Seq<char>)
    requires
        coloured == in_fg(code, decimal(n)),
        sgr_code(code),
        escape_free(label),
    ensures
        shows_as(coloured + label, decimal(n) + label),
{
    lemma_decimal_escape_free(n);
    lemma_shows_plain(decimal(n));
    lemma_shows_fg(code, decimal(n), decimal(n));
    lemma_shows_plain(label);
    lemma_shows_concat(coloured, decimal(n), label, label);
}

proof fn lemma_shows_summary_parts(updated: nat, added: nat, removed: nat)
    ensures
        summary_parts(updated, added, removed).len() == plain_summary_parts(updated, added, removed).len(),
        forall|i: int|
            0 <= i < summary_parts(updated, added, removed).len() ==> shows_as(
                #[trigger] summary_parts(updated, added, removed)[i],
                plain_summary_parts(updated, added, removed)[i],
            ),
{
    reveal_strlit(" updated");
    reveal_strlit(" added");
    reveal_strlit(" removed");
    lemma_codes();
    let u: Seq<Seq<char>> = if updated > 0 {
        seq![crate::style::bright_yellow_text(decimal(updated)) + " updated"@]
    } else {
        seq![]
    };
    let a: Seq<Seq<char>> = if added > 0 {
        seq![crate::style::bright_green_text(decimal(added)) + " added"@]
    } else {
        seq![]
    };
    let r: Seq<Seq<char>> = if removed > 0 {
        seq![crate::style::bright_red_text(decimal(removed)) + " removed"@]
    } else {
        seq![]
    };
    let pu: Seq<Seq<char>> = if updated > 0 {
        seq![decimal(updated) + " updated"@]
    } else {
        seq![]
    };
    let pa: Seq<Seq<char>> = if added > 0 {
        seq![decimal(added) + " added"@]
    } else {
        seq![]
    };
    let pr: Seq<Seq<char>> = if removed > 0 {
        seq![decimal(removed) + " removed"@]
    } else {
        seq![]
    };
    if updated > 0 {
        lemma_shows_count(crate::style::bright_yellow_text(decimal(updated)), updated, " updated"@, seq!['9', '3']);
    }
    if added > 0 {
        lemma_shows_count(crate::style::bright_green_text(decimal(added)), added, " added"@, seq!['9', '2']);
    }
    if removed > 0 {
        lemma_shows_count(crate::style::bright_red_text(decimal(removed)), removed, " removed"@, seq!['9', '1']);
    }
    let all = u + a + r;
    let pall = pu + pa + pr;
    assert(all == summary_parts(updated, added, removed));
    assert(pall == plain_summary_parts(updated, added, removed));
    assert forall|i: int| 0 <= i < all.len() implies shows_as(#[trigger] all[i], pall[i]) by {
        if i < u.len() {
            assert(all[i] == u[i] && pall[i] == pu[i]);
        } else if i < u.len() + a.len() {
            assert(all[i] == a[i - u.len()] && pall[i] == pa[i - u.len()]);
        } else {
            assert(all[i] == r[i - u.len() - a.len()] && pall[i] == pr[i - u.len() - a.len()]);
        }
    }
}

/// Taken out of its colours, the report after `uv lock --upgrade` reads as
/// `plain_summary_text`: the counts line lists the non-zero counts of
/// updated, added and removed packages in that order, and package names
/// appear only in verbose mode. In verbose mode this holds for package names
/// without escape characters (a name holding one would lose part of itself
/// with the colours); otherwise it holds whatever the names.
pub proof fn summary_reads_plainly(
    updated: Seq<Seq<char>>,
    added: Seq<Seq<char>>,
    removed: Seq<Seq<char>>,
    verbose: bool,
)
    requires
        verbose ==> all_escape_free(updated) && all_escape_free(added) && all_escape_free(removed),
    ensures
        without_escapes(uv_summary_text(updated, added, removed, verbose)) == plain_summary_text(
            updated,
            added,
            removed,
            verbose,
        ),
{
    reveal_strlit("Dependencies already up to date!\n");
    reveal_strlit(" Dependencies already up to date!\n");
    reveal_strlit("\n");
    reveal_strlit(" ");
    reveal_strlit("Dependencies: ");
    reveal_strlit(" Dependencies: ");
    reveal_strlit("!\n");
    reveal_strlit(", ");
    lemma_codes();
    let check = seq!['\u{2714}'];
    lemma_shows_plain(check);
    lemma_shows_fg(seq!['9', '2'], check, check);
    lemma_shows_plain(seq![' ']);
    lemma_shows_plain("\n"@);
    let mark = crate::messages::success_mark();
    lemma_shows_concat(mark, check, seq![' '], seq![' ']);
    if updated.len() == 0 && added.len() == 0 && removed.len() == 0 {
        let msg = "Dependencies already up to date!\n"@;
        lemma_shows_plain(msg);
        lemma_shows_concat(mark + seq![' '], check + seq![' '], msg, msg);
        lemma_shows_concat(mark + seq![' '] + msg, check + seq![' '] + msg, "\n"@, "\n"@);
        assert(success_msg(msg) == mark + seq![' '] + msg);
        assert(check + seq![' '] + msg =~= check + " Dependencies already up to date!\n"@);
        lemma_shows_whole(uv_summary_text(updated, added, removed, verbose), plain_summary_text(
            updated,
            added,
            removed,
            verbose,
        ));
    } else {
        let head: Seq<char> = if verbose {
            "\n"@ + section("Updated:"@, crate::style::bright_yellow_text("~"@), updated) + section(
                "Added:"@,
                crate::style::bright_green_text("+"@),
                added,
            ) + section("Removed:"@, crate::style::bright_red_text("-"@), removed)
        } else {
            seq![]
        };
        let plain_head: Seq<char> = if verbose {
            plain_lists(updated, added, removed)
        } else {
            seq![]
        };
        if verbose {
            lemma_shows_lists(updated, added, removed);
        } else {
            lemma_shows_plain(seq![]);
        }
        assert(shows_as(head, plain_head));
        let parts = summary_parts(updated.len(), added.len(), removed.len());
        let pparts = plain_summary_parts(updated.len(), added.len(), removed.len());
        lemma_shows_summary_parts(updated.len(), added.len(), removed.len());
        lemma_shows_plain(", "@);
        lemma_shows_joined(parts, pparts, ", "@);
        let msg = "Dependencies: "@ + joined(parts, ", "@) + "!\n"@;
        let pmsg = "Dependencies: "@ + joined(pparts, ", "@) + "!\n"@;
        lemma_shows_plain("Dependencies: "@);
        lemma_shows_plain("!\n"@);
        lemma_shows_concat("Dependencies: "@, "Dependencies: "@, joined(parts, ", "@), joined(pparts, ", "@));
        lemma_shows_concat("Dependencies: "@ + joined(parts, ", "@), "Dependencies: "@ + joined(pparts, ", "@), "!\n"@, "!\n"@);
        lemma_shows_concat(mark + seq![' '], check + seq![' '], msg, pmsg);
        assert(success_msg(msg) == mark + seq![' '] + msg);
        lemma_shows_concat(head, plain_head, success_msg(msg), check + seq![' '] + pmsg);
        lemma_shows_concat(head + success_msg(msg), plain_head + (check + seq![' '] + pmsg), "\n"@, "\n"@);
        assert(plain_head + (check + seq![' '] + pmsg) + "\n"@ =~= plain_summary_text(
            updated,
            added,
            removed,
            verbose,
        ));
        lemma_shows_whole(uv_summary_text(updated, added, removed, verbose), plain_summary_text(
            updated,
            added,
            removed,
            verbose,
        ));
    }
}

/// One change as the diff reads without colours: "- ", the name padded to 16
/// characters, a space, the operator, old version and suffix; the same with
/// "+ " and the new version; then an empty line.
pub open spec fn plain_diff_entry(c: DependencyChangeView) -> Seq<char> {
    diff_line("-"@, padded(c.name, 16), text_or_empty(c.operator), c.old, text_or_empty(c.suffix))
        + diff_line("+"@, padded(c.name, 16), text_or_empty(c.operator), c.new, text_or_empty(c.suffix))
        + "\n"@
}

/// The whole diff without colours: the entries of the changes, in order.
pub open spec fn plain_diff_text(changes: Seq<DependencyChangeView>) -> Seq<char>
    decreases changes.len(),
{
    if changes.len() == 0 {
        seq![]
    } else {
        plain_diff_text(changes.drop_last()) + plain_diff_entry(changes.last())
    }
}

/// The texts of `c` hold no escape character.
pub open spec fn change_escape_free(c: DependencyChangeView) -> bool {
    &&& escape_free(c.name)
    &&& escape_free(text_or_empty(c.operator))
    &&& escape_free(c.old)
    &&& escape_free(c.new)
    &&& escape_free(text_or_empty(c.suffix))
}

proof fn lemma_shows_diff_line(
    mark: Seq<char>,
    pmark: Seq<char>,
    name: Seq<char>,
    pname: Seq<char>,
    op: Seq<char>,
    pop: Seq<char>,
    v: Seq<char>,
    pv: Seq<char>,
    sfx: Seq<char>,
    psfx: Seq<char>,
)
    requires
        shows_as(mark, pmark),
        shows_as(name, pname),
        shows_as(op, pop),
        shows_as(v, pv),
        shows_as(sfx, psfx),
    ensures
        shows_as(diff_line(mark, name, op, v, sfx), diff_line(pmark, pname, pop, pv, psfx)),
{
    reveal_strlit(" ");
    reveal_strlit("\n");
    lemma_shows_plain(" "@);
    lemma_shows_plain("\n"@);
    lemma_shows_concat(mark, pmark, " "@, " "@);
    lemma_shows_concat(mark + " "@, pmark + " "@, name, pname);
    lemma_shows_concat(mark + " "@ + name, pmark + " "@ + pname, " "@, " "@);
    lemma_shows_concat(mark + " "@ + name + " "@, pmark + " "@ + pname + " "@, op, pop);
    lemma_shows_concat(mark + " "@ + name + " "@ + op, pmark + " "@ + pname + " "@ + pop, v, pv);
    lemma_shows_concat(
        mark + " "@ + name + " "@ + op + v,
        pmark + " "@ + pname + " "@ + pop + pv,
        sfx,
        psfx,
    );
    lemma_shows_concat(
        mark + " "@ + name + " "@ + op + v + sfx,
        pmark + " "@ + pname + " "@ + pop + pv + psfx,
        "\n"@,
        "\n"@,
    );
}

proof fn lemma_padded_escape_free(s: Seq<char>)
    requires
        escape_free(s),
    ensures
        escape_free(padded(s, 16)),
{
    let p = padded(s, 16);
    assert forall|i: int| 0 <= i < p.len() implies #[trigger] p[i] != '\u{1b}' by {
        if i < s.len() {
            assert(p[i] == s[i]);
        }
    }
}

proof fn lemma_shows_diff_entry(c: DependencyChangeView, bold_names: bool)
    requires
        change_escape_free(c),
    ensures
        shows_as(diff_entry_text(c, bold_names), plain_diff_entry(c)),
{
    reveal_strlit("-");
    reveal_strlit("+");
    reveal_strlit("\n");
    lemma_codes();
    let pname = padded(c.name, 16);
    lemma_padded_escape_free(c.name);
    lemma_shows_plain(pname);
    let name = if bold_names {
        crate::style::bold_text(pname)
    } else {
        pname
    };
    if bold_names {
        lemma_shows_style(seq!['1'], pname, pname);
    }
    let op = text_or_empty(c.operator);
    let sfx = text_or_empty(c.suffix);
    lemma_shows_plain("-"@);
    lemma_shows_plain("+"@);
    lemma_shows_plain("\n"@);
    lemma_shows_plain(op);
    lemma_shows_plain(sfx);
    lemma_shows_plain(c.old);
    lemma_shows_plain(c.new);
    lemma_shows_fg(seq!['9', '1'], "-"@, "-"@);
    lemma_shows_fg(seq!['9', '1'], op, op);
    lemma_shows_fg(seq!['9', '1'], c.old, c.old);
    lemma_shows_style(seq!['4'], crate::style::bright_red_text(c.old), c.old);
    lemma_shows_fg(seq!['9', '1'], sfx, sfx);
    lemma_shows_fg(seq!['9', '2'], "+"@, "+"@);
    lemma_shows_fg(seq!['9', '2'], op, op);
    lemma_shows_fg(seq!['9', '2'], c.new, c.new);
    lemma_shows_style(seq!['4'], crate::style::bright_green_text(c.new), c.new);
    lemma_shows_fg(seq!['9', '2'], sfx, sfx);
    let first = diff_line(
        crate::style::bright_red_text("-"@),
        name,
        crate::style::bright_red_text(op),
        crate::style::underline_text(crate::style::bright_red_text(c.old)),
        crate::style::bright_red_text(sfx),
    );
    let second = diff_line(
        crate::style::bright_green_text("+"@),
        name,
        crate::style::bright_green_text(op),
        crate::style::underline_text(crate::style::bright_green_text(c.new)),
        crate::style::bright_green_text(sfx),
    );
    lemma_shows_diff_line(
        crate::style::bright_red_text("-"@),
        "-"@,
        name,
        pname,
        crate::style::bright_red_text(op),
        op,
        crate::style::underline_text(crate::style::bright_red_text(c.old)),
        c.old,
        crate::style::bright_red_text(sfx),
        sfx,
    );
    lemma_shows_diff_line(
        crate::style::bright_green_text("+"@),
        "+"@,
        name,
        pname,
        crate::style::bright_green_text(op),
        op,
        crate::style::underline_text(crate::style::bright_green_text(c.new)),
        c.new,
        crate::style::bright_green_text(sfx),
        sfx,
    );
    let pfirst = diff_line("-"@, pname, op, c.old, sfx);
    let psecond = diff_line("+"@, pname, op, c.new, sfx);
    lemma_shows_concat(first, pfirst, second, psecond);
    lemma_shows_concat(first + second, pfirst + psecond, "\n"@, "\n"@);
}

/// Taken out of its colours, the diff reads as `plain_diff_text`: per change,
/// "- <name padded to 16> <operator><old><suffix>", then the same with "+"
/// and the new version, then an empty line; no change, no text. This holds
/// whether names are bold or not, for texts without escape characters.
pub proof fn diff_reads_plainly(changes: Seq<DependencyChangeView>, bold_names: bool)
    requires
        forall|i: int| 0 <= i < changes.len() ==> change_escape_free(#[trigger] changes[i]),
    ensures
        without_escapes(diff_text_spec(changes, bold_names)) == plain_diff_text(changes),
{
    lemma_shows_diff_text(changes, bold_names);
    lemma_shows_whole(diff_text_spec(changes, bold_names), plain_diff_text(changes));
}

proof fn lemma_shows_diff_text(changes: Seq<DependencyChangeView>, bold_names: bool)
    requires
        forall|i: int| 0 <= i < changes.len() ==> change_escape_free(#[trigger] changes[i]),
    ensures
        shows_as(diff_text_spec(changes, bold_names), plain_diff_text(changes)),
    decreases changes.len(),
{
    if changes.len() == 0 {
        lemma_shows_plain(seq![]);
    } else {
        let init = changes.drop_last();
        assert forall|i: int| 0 <= i < init.len() implies change_escape_free(#[trigger] init[i]) by {
            assert(init[i] == changes[i]);
        }
        lemma_shows_diff_text(init, bold_names);
        assert(change_escape_free(changes[changes.len() - 1]));
        lemma_shows_diff_entry(changes.last(), bold_names);
        lemma_shows_concat(
            diff_text_spec(init, bold_names),
            plain_diff_text(init),
            diff_entry_text(changes.last(), bold_names),
            plain_diff_entry(changes.last()),
        );
    }
}

} // verus!
