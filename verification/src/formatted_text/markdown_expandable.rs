//! The block directives of the Markdown dialect: cards and expandable
//! blocks, rewritten into HTML wrappers before the Markdown engine runs.

use crate::pattern::{
    first_group, first_group_of, found_view, gaps_of, group, matches_of, scan, weave, whole,
    woven, Found, Groups,
};
use crate::text::{
    begins_with, chars_of, copy_of, decimal, decimal_chars, lines_of, parts_view, push_all,
    push_str, split_lines, starts_with, string_of, trim, trim_start, trimmed, trimmed_start,
};
use vstd::prelude::*;

verus! {

/// The pattern of the class behind a card fence: what stands in square
/// brackets.
pub const CLASS_PATTERN: &'static str = r#"\[([^"]+)\]"#;

/// The pattern of the link text in the heading of an expandable block.
pub const LINK_PATTERN: &'static str = r"\[([^\]]+)\]";

/// `line` is a fence that begins with `marker`, leading whitespace aside.
pub open spec fn is_fence(line: Seq<char>, marker: Seq<char>) -> bool {
    starts_with(trim_start(line), marker)
}

/// The class named on the fence `line`, if it names one.
pub open spec fn class_of(line: Seq<char>) -> Option<Seq<char>> {
    first_group(matches_of(CLASS_PATTERN@, line))
}

/// The place of the first fence at or behind `from`, or the number of
/// lines where there is none.
pub open spec fn body_end(lines: Seq<Seq<char>>, from: int) -> int
    decreases lines.len() - from,
{
    if from < 0 || from >= lines.len() {
        lines.len() as int
    } else if is_fence(lines[from], ":::"@) {
        from
    } else {
        body_end(lines, from + 1)
    }
}

/// The lines from `from` up to `to`, each with a line feed behind it.
pub open spec fn body(lines: Seq<Seq<char>>, from: int, to: int) -> Seq<char>
    decreases to - from,
{
    if to <= from || from < 0 || to > lines.len() {
        Seq::empty()
    } else {
        body(lines, from, to - 1) + lines[to - 1] + "\n"@
    }
}

/// The place behind the fence at `end` that closes a block, or the number
/// of lines where the block runs to the end.
pub open spec fn behind(lines: Seq<Seq<char>>, end: int) -> int {
    if end < lines.len() {
        end + 1
    } else {
        lines.len() as int
    }
}

/// The opening of the wrapper of a card with the class `class`.
pub open spec fn card_open(class: Option<Seq<char>>) -> Seq<char> {
    "<div class=\"card "@ + (match class {
        Some(c) => c,
        None => Seq::empty(),
    }) + "\">"@ + "\n"@ + "\n"@
}

/// The lines from `i` on with the cards among them rewritten. A card runs
/// from its fence to the next fence, which closes it whatever its kind.
pub open spec fn cards_from(lines: Seq<Seq<char>>, i: int) -> Seq<char>
    decreases lines.len() - i,
{
    if i < 0 || i >= lines.len() {
        Seq::empty()
    } else if is_fence(lines[i], ":::card"@) {
        let end = body_end(lines, i + 1);
        proof {
            body_end_bounds(lines, i + 1);
        }
        card_open(class_of(lines[i])) + body(lines, i + 1, end) + "  </div>\n\n"@ + cards_from(
            lines,
            behind(lines, end),
        )
    } else {
        lines[i] + "\n"@ + cards_from(lines, i + 1)
    }
}

/// The identifier of the `n`th expandable block.
pub open spec fn expand_id(n: nat) -> Seq<char> {
    "expand-"@ + decimal(n)
}

/// The toggle link that takes the place of the bracketed text `m` in a
/// heading; a match without its group stays as it is.
pub open spec fn toggle_link(id: Seq<char>, m: Groups) -> Seq<char> {
    match group(m, 1) {
        Some(text) => "<a class=\"expand-link\" data-bs-toggle=\"collapse\" href='#"@ + id + "'>"@
            + text + "</a>"@,
        None => whole(m),
    }
}

/// The toggle link for every match in `ms`.
pub open spec fn toggle_links(id: Seq<char>, ms: Seq<Groups>) -> Seq<Seq<char>> {
    ms.map_values(|m: Groups| toggle_link(id, m))
}

/// The heading with each bracketed text turned into a toggle link.
pub open spec fn linked_heading(heading: Seq<char>, id: Seq<char>) -> Seq<char> {
    let ms = matches_of(LINK_PATTERN@, heading);
    woven(gaps_of(LINK_PATTERN@, heading), toggle_links(id, ms), ms.len() as int)
}

/// The line at `i`, or nothing where the lines have ended.
pub open spec fn line_at(lines: Seq<Seq<char>>, i: int) -> Seq<char> {
    if 0 <= i < lines.len() {
        lines[i]
    } else {
        Seq::empty()
    }
}

/// The opening of the wrappers of the expandable block with the
/// identifier `id`, behind its heading.
pub open spec fn expandable_open(id: Seq<char>) -> Seq<char> {
    "\n\n<div class=\"collapse\" id=\""@ + id + "\">\n  <div class=\"card card-body\">\n"@
}

/// The expandable block whose fence is line `i`, as the block number
/// `number`: its heading with the toggle link, the opening of its wrappers,
/// its body up to the next fence, and the closing of its wrappers.
pub open spec fn expandable_text(lines: Seq<Seq<char>>, i: int, number: nat) -> Seq<char> {
    let id = expand_id(number);
    linked_heading(trim(line_at(lines, i + 1)), id) + expandable_open(id) + body(
        lines,
        i + 2,
        body_end(lines, i + 2),
    ) + "  </div>\n</div>\n"@
}

/// The lines from `i` on with the expandable blocks among them rewritten,
/// `count` blocks having come before. The line behind the fence is the
/// heading; the block runs from there to the next fence.
pub open spec fn expandables_from(lines: Seq<Seq<char>>, i: int, count: nat) -> Seq<char>
    decreases lines.len() - i,
{
    if i < 0 || i >= lines.len() {
        Seq::empty()
    } else if is_fence(lines[i], ":::expandable"@) {
        proof {
            body_end_bounds(lines, i + 2);
        }
        expandable_text(lines, i, count + 1) + expandables_from(
            lines,
            behind(lines, body_end(lines, i + 2)),
            count + 1,
        )
    } else {
        lines[i] + "\n"@ + expandables_from(lines, i + 1, count)
    }
}

/// The place of the closing fence is not before the place the search for
/// it started at, and not behind the last line.
pub proof fn body_end_bounds(lines: Seq<Seq<char>>, from: int)
    ensures
        from <= lines.len() ==> from <= body_end(lines, from) <= lines.len(),
        from > lines.len() ==> body_end(lines, from) == lines.len(),
    decreases lines.len() - from,
{
    if 0 <= from < lines.len() && !is_fence(lines[from], ":::"@) {
        body_end_bounds(lines, from + 1);
    }
}

/// Whether `line` is a fence that begins with `marker`.
pub fn line_is_fence(line: &Vec<char>, marker: &str) -> (r: bool)
    ensures
        r == is_fence(line@, marker@),
{
    let front = trimmed_start(line);
    begins_with(&front, marker)
}

/// The class named in square brackets on `line`.
pub fn extract_class(line: &str) -> (r: Option<String>)
    ensures
        match r {
            Some(c) => class_of(line@) == Some(c@),
            None => class_of(line@) is None,
        },
{
    let text = chars_of(line);
    let scanned = scan(CLASS_PATTERN, &text);
    match first_group_of(&scanned.found) {
        Some(c) => Some(string_of(&c)),
        None => None,
    }
}

/// Copies the lines from `from` up to the next fence into `out`, and
/// returns the place of that fence.
fn copy_body(lines: &Vec<Vec<char>>, from: usize, out: &mut Vec<char>) -> (end: usize)
    requires
        from <= lines.len(),
    ensures
        end == body_end(parts_view(lines@), from as int),
        from <= end <= lines.len(),
        final(out)@ == old(out)@ + body(parts_view(lines@), from as int, end as int),
{
    let ghost ls = parts_view(lines@);
    let mut j: usize = from;
    assert(out@ + body(ls, from as int, from as int) == out@);
    loop
        invariant
            from <= j <= lines.len(),
            ls == parts_view(lines@),
            body_end(ls, from as int) == body_end(ls, j as int),
            out@ == old(out)@ + body(ls, from as int, j as int),
        ensures
            from <= j <= lines.len(),
            j == body_end(ls, from as int),
            out@ == old(out)@ + body(ls, from as int, j as int),
        decreases lines.len() - j,
    {
        if j >= lines.len() {
            break ;
        }
        assert(ls[j as int] == lines[j as int]@);
        if line_is_fence(&lines[j], ":::") {
            break ;
        }
        let ghost before = out@;
        push_all(out, &lines[j]);
        push_str(out, "\n");
        j += 1;
        assert(out@ == old(out)@ + (body(ls, from as int, j - 1) + ls[j - 1] + "\n"@));
    }
    j
}

/// Rewrites the cards of `markdown` into wrappers of the class `card`.
pub fn preprocess_cards(markdown: &str) -> (r: String)
    ensures
        r@ == cards_from(lines_of(markdown@), 0),
{
    let text = chars_of(markdown);
    let lines = split_lines(&text);
    let ghost ls = parts_view(lines@);
    let mut out: Vec<char> = Vec::new();
    let mut i: usize = 0;
    assert(out@ + cards_from(ls, 0) == cards_from(ls, 0));
    while i < lines.len()
        invariant
            i <= lines.len(),
            ls == parts_view(lines@),
            cards_from(ls, 0) == out@ + cards_from(ls, i as int),
        decreases lines.len() - i,
    {
        let ghost before = out@;
        let line = &lines[i];
        assert(ls[i as int] == line@);
        if line_is_fence(line, ":::card") {
            let scanned = scan(CLASS_PATTERN, line);
            let class = first_group_of(&scanned.found);
            push_str(&mut out, "<div class=\"card ");
            match &class {
                Some(c) => {
                    push_all(&mut out, c);
                },
                None => {
                    assert(out@ + Seq::<char>::empty() == out@);
                },
            }
            push_str(&mut out, "\">");
            push_str(&mut out, "\n");
            push_str(&mut out, "\n");
            assert(out@ == before + card_open(class_of(line@)));
            let end = copy_body(&lines, i + 1, &mut out);
            push_str(&mut out, "  </div>\n\n");
            let ghost written = card_open(class_of(line@)) + body(ls, i + 1, end as int)
                + "  </div>\n\n"@;
            assert(out@ == before + written);
            i = if end < lines.len() {
                end + 1
            } else {
                lines.len()
            };
            assert(before + (written + cards_from(ls, i as int)) == out@ + cards_from(
                ls,
                i as int,
            ));
        } else {
            push_all(&mut out, line);
            push_str(&mut out, "\n");
            i += 1;
            assert(before + (line@ + "\n"@ + cards_from(ls, i as int)) == out@ + cards_from(
                ls,
                i as int,
            ));
        }
    }
    assert(out@ + Seq::<char>::empty() == out@);
    string_of(&out)
}

/// Turns each match in `found`, which were found in a heading with `gaps`
/// around them, into the toggle link of the block `id`.
pub fn link_heading(found: &Vec<Found>, gaps: &Vec<Vec<char>>, id: &Vec<char>) -> (r: Vec<char>)
    ensures
        r@ == woven(parts_view(gaps@), toggle_links(id@, found_view(found@)), found.len() as int),
{
    let mut parts: Vec<Vec<char>> = Vec::new();
    let mut i: usize = 0;
    while i < found.len()
        invariant
            i <= found.len(),
            parts.len() == i,
            forall|j: int| 0 <= j < i ==> (#[trigger] parts[j])@ == toggle_link(id@, found[j]@),
        decreases found.len() - i,
    {
        let groups = &found[i].groups;
        let ghost m = found[i as int]@;
        let part = if groups.len() > 1 && groups[1].is_some() {
            let mut link = chars_of(
                "<a class=\"expand-link\" data-bs-toggle=\"collapse\" href='#",
            );
            push_all(&mut link, id);
            push_str(&mut link, "'>");
            match &groups[1] {
                Some(text) => {
                    push_all(&mut link, text);
                },
                None => {},
            }
            push_str(&mut link, "</a>");
            link
        } else if groups.len() > 0 {
            match &groups[0] {
                Some(t) => copy_of(t),
                None => Vec::new(),
            }
        } else {
            Vec::new()
        };
        assert(part@ == toggle_link(id@, m));
        parts.push(part);
        i += 1;
    }
    assert(parts_view(parts@) =~= toggle_links(id@, found_view(found@)));
    weave(gaps, &parts)
}

/// Writes the expandable block whose fence is line `i` into `out`, as the
/// block number `number`, and returns the place behind the block.
fn write_expandable(lines: &Vec<Vec<char>>, i: usize, number: usize, out: &mut Vec<char>) -> (next:
    usize)
    requires
        i < lines.len(),
    ensures
        i < body_end(parts_view(lines@), i + 2),
        next == behind(parts_view(lines@), body_end(parts_view(lines@), i + 2)),
        i < next <= lines.len(),
        final(out)@ == old(out)@ + expandable_text(parts_view(lines@), i as int, number as nat),
{
    let ghost ls = parts_view(lines@);
    let heading = if i + 1 < lines.len() {
        assert(ls[i + 1] == lines[i + 1]@);
        trimmed(&lines[i + 1])
    } else {
        let empty: Vec<char> = Vec::new();
        trimmed(&empty)
    };
    assert(heading@ == trim(line_at(ls, i + 1)));
    let mut id = chars_of("expand-");
    let number_text = decimal_chars(number);
    push_all(&mut id, &number_text);
    let scanned = scan(LINK_PATTERN, &heading);
    assert(scanned.found.len() == found_view(scanned.found@).len());
    let linked = link_heading(&scanned.found, &scanned.gaps, &id);
    assert(linked@ == linked_heading(heading@, id@));
    push_all(out, &linked);
    push_str(out, "\n\n<div class=\"collapse\" id=\"");
    push_all(out, &id);
    push_str(out, "\">\n  <div class=\"card card-body\">\n");
    assert(out@ == old(out)@ + linked@ + expandable_open(id@));
    let from = if lines.len() - i >= 2 {
        i + 2
    } else {
        lines.len()
    };
    proof {
        body_end_bounds(ls, i + 2);
        body_end_bounds(ls, from as int);
        if i + 2 > lines.len() {
            assert(body(ls, from as int, from as int) == body(ls, i + 2, from as int));
        }
    }
    let end = copy_body(lines, from, out);
    push_str(out, "  </div>\n</div>\n");
    assert(out@ == old(out)@ + (linked@ + expandable_open(id@) + body(ls, i + 2, end as int)
        + "  </div>\n</div>\n"@));
    if end < lines.len() {
        end + 1
    } else {
        lines.len()
    }
}

/// Rewrites the expandable blocks of `markdown` into collapsible wrappers,
/// numbering them from one in the order in which they stand.
pub fn preprocess_expandables(markdown: &str) -> (r: String)
    ensures
        r@ == expandables_from(lines_of(markdown@), 0, 0),
{
    let text = chars_of(markdown);
    let lines = split_lines(&text);
    let ghost ls = parts_view(lines@);
    let mut out: Vec<char> = Vec::new();
    let mut count: usize = 0;
    let mut i: usize = 0;
    assert(out@ + expandables_from(ls, 0, 0) == expandables_from(ls, 0, 0));
    while i < lines.len()
        invariant
            i <= lines.len(),
            count <= i,
            ls == parts_view(lines@),
            expandables_from(ls, 0, 0) == out@ + expandables_from(ls, i as int, count as nat),
        decreases lines.len() - i,
    {
        let ghost before = out@;
        let ghost at = i as int;
        let line = &lines[i];
        assert(ls[i as int] == line@);
        if line_is_fence(line, ":::expandable") {
            count += 1;
            i = write_expandable(&lines, i, count, &mut out);
            let ghost written = expandable_text(ls, at, count as nat);
            assert(before + (written + expandables_from(ls, i as int, count as nat)) == out@
                + expandables_from(ls, i as int, count as nat));
        } else {
            push_all(&mut out, line);
            push_str(&mut out, "\n");
            i += 1;
            assert(before + (line@ + "\n"@ + expandables_from(ls, i as int, count as nat)) == out@
                + expandables_from(ls, i as int, count as nat));
        }
    }
    assert(out@ + Seq::<char>::empty() == out@);
    string_of(&out)
}

} // verus!
