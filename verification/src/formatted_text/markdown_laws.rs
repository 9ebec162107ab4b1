//! What holds of every Markdown text.

use super::markdown_expandable::{body, cards_from, expandables_from, is_fence};
use super::math_segments::{
    closing_bounds, delimiter_at, extracted, math_span, opens_at, placeholder,
    placeholder_at, placeholder_begins_with_word, placeholder_found, placeholder_word,
    restored_from, with_segments,
};
use crate::text::{occurs_at, starts_with};
use vstd::prelude::*;

verus! {

/// None of the lines from `from` on is a fence that begins with `marker`.
pub open spec fn no_fence_from(lines: Seq<Seq<char>>, marker: Seq<char>, from: int) -> bool {
    forall|i: int| from <= i < lines.len() ==> !is_fence(#[trigger] lines[i], marker)
}

/// The lines of a body, put together one after the other.
proof fn body_grows_at_the_front(lines: Seq<Seq<char>>, from: int, to: int)
    requires
        0 <= from < to <= lines.len(),
    ensures
        body(lines, from, to) == lines[from] + "\n"@ + body(lines, from + 1, to),
    decreases to - from,
{
    if from + 1 < to {
        body_grows_at_the_front(lines, from, to - 1);
        assert(body(lines, from, to) == lines[from] + "\n"@ + (body(lines, from + 1, to - 1)
            + lines[to - 1] + "\n"@));
    } else {
        assert(body(lines, from, from) =~= Seq::<char>::empty());
        assert(body(lines, from + 1, to) =~= Seq::<char>::empty());
        assert(body(lines, from, to) =~= lines[from] + "\n"@ + Seq::<char>::empty());
    }
}

/// Lines that hold no card come out as they went in, each with a line feed
/// behind it.
pub proof fn lines_without_cards_pass(lines: Seq<Seq<char>>, from: int)
    requires
        0 <= from <= lines.len(),
        no_fence_from(lines, ":::card"@, from),
    ensures
        cards_from(lines, from) == body(lines, from, lines.len() as int),
    decreases lines.len() - from,
{
    if from < lines.len() {
        lines_without_cards_pass(lines, from + 1);
        body_grows_at_the_front(lines, from, lines.len() as int);
    }
}

/// Lines that hold no expandable block come out as they went in, each with
/// a line feed behind it.
pub proof fn lines_without_expandables_pass(lines: Seq<Seq<char>>, from: int, count: nat)
    requires
        0 <= from <= lines.len(),
        no_fence_from(lines, ":::expandable"@, from),
    ensures
        expandables_from(lines, from, count) == body(lines, from, lines.len() as int),
    decreases lines.len() - from,
{
    if from < lines.len() {
        lines_without_expandables_pass(lines, from + 1, count);
        body_grows_at_the_front(lines, from, lines.len() as int);
    }
}

/// A text in which no math span opens is left whole, and nothing is taken
/// out of it.
pub proof fn text_without_math_passes(s: Seq<char>, from: int, n: nat)
    requires
        0 <= from <= s.len(),
        forall|i: int| from <= i < s.len() ==> !opens_at(s, i),
    ensures
        extracted(s, from, n) == (s.skip(from), Seq::<Seq<char>>::empty()),
    decreases s.len() - from,
{
    if from < s.len() {
        text_without_math_passes(s, from + 1, n);
        assert(math_span(s, from) is None);
        assert(seq![s[from]] + s.skip(from + 1) =~= s.skip(from));
    } else {
        assert(s.skip(from) =~= Seq::<char>::empty());
    }
}

/// `s` holds the placeholder word somewhere.
pub open spec fn holds_placeholder_word(s: Seq<char>) -> bool {
    exists|i: int| #[trigger] occurs_at(s, i, placeholder_word())
}

/// The first place at or behind `i` at which a closed math span opens, or
/// the length of the text where there is none.
spec fn next_span(s: Seq<char>, i: int) -> int
    decreases s.len() - i,
{
    if i < 0 || i >= s.len() {
        s.len() as int
    } else if math_span(s, i) is Some {
        i
    } else {
        next_span(s, i + 1)
    }
}

/// Up to the next math span the text is copied as it stands, and at that
/// span stands a placeholder.
proof fn copied_until_span(s: Seq<char>, i: int, n: nat)
    requires
        0 <= i <= s.len(),
    ensures
        i <= next_span(s, i) <= s.len(),
        extracted(s, i, n).0.len() >= next_span(s, i) - i,
        forall|t: int|
            0 <= t < next_span(s, i) - i ==> extracted(s, i, n).0[t] == #[trigger] s[i + t],
        next_span(s, i) < s.len() ==> extracted(s, i, n).0.len() >= next_span(s, i) - i
            + placeholder_word().len() && forall|t: int|
            0 <= t < placeholder_word().len() ==> extracted(s, i, n).0[next_span(s, i) - i + t]
                == #[trigger] placeholder_word()[t],
        next_span(s, i) == s.len() ==> extracted(s, i, n).0.len() == next_span(s, i) - i,
    decreases s.len() - i,
{
    let h = extracted(s, i, n).0;
    if i < s.len() {
        match math_span(s, i) {
            Some(end) => {
                closing_bounds(s, i + delimiter_at(s, i), delimiter_at(s, i));
                let rest = extracted(s, end, n + 1);
                assert(h == placeholder(n) + rest.0);
                assert forall|t: int| 0 <= t < placeholder_word().len() implies h[t]
                    == #[trigger] placeholder_word()[t] by {
                    assert(placeholder(n)[t] == placeholder_word()[t]);
                }
            },
            None => {
                copied_until_span(s, i + 1, n);
                let rest = extracted(s, i + 1, n).0;
                assert(h == seq![s[i]] + rest);
                let p = next_span(s, i);
                assert forall|t: int| 0 <= t < p - i implies h[t] == #[trigger] s[i + t] by {
                    if t > 0 {
                        assert(h[t] == rest[t - 1]);
                        assert(rest[t - 1] == s[(i + 1) + (t - 1)]);
                    }
                }
                if p < s.len() {
                    assert forall|t: int| 0 <= t < placeholder_word().len() implies h[p - i + t]
                        == #[trigger] placeholder_word()[t] by {
                        assert(h[p - i + t] == rest[p - (i + 1) + t]);
                    }
                }
            },
        }
    }
}

/// The letters of the placeholder word: it is 25 characters long, begins
/// with `MA`, and holds its first letter once more, in front of an `E`.
proof fn word_letters()
    ensures
        placeholder_word().len() == 25,
        placeholder_word()[0] == 'M',
        placeholder_word()[1] == 'A',
        placeholder_word()[9] == 'E',
        forall|j: int| 0 < j < 25 && placeholder_word()[j] == 'M' ==> j == 8,
{
    reveal_strlit("MATH_SEGMENT_PLACEHOLDER_");
    let w = placeholder_word();
    assert(w.len() == 25);
    assert(w[0] == 'M' && w[1] == 'A' && w[2] == 'T' && w[3] == 'H' && w[4] == '_');
    assert(w[5] == 'S' && w[6] == 'E' && w[7] == 'G' && w[8] == 'M' && w[9] == 'E');
    assert(w[10] == 'N' && w[11] == 'T' && w[12] == '_' && w[13] == 'P' && w[14] == 'L');
    assert(w[15] == 'A' && w[16] == 'C' && w[17] == 'E' && w[18] == 'H' && w[19] == 'O');
    assert(w[20] == 'L' && w[21] == 'D' && w[22] == 'E' && w[23] == 'R' && w[24] == '_');
}

/// In a text without the placeholder word, what is written for a place at
/// which no math span opens does not begin with that word.
proof fn no_word_at_a_copied_place(s: Seq<char>, i: int, n: nat)
    requires
        !holds_placeholder_word(s),
        0 <= i < s.len(),
        math_span(s, i) is None,
    ensures
        !starts_with(extracted(s, i, n).0, placeholder_word()),
{
    let h = extracted(s, i, n).0;
    let w = placeholder_word();
    let p = next_span(s, i);
    copied_until_span(s, i, n);
    copied_until_span(s, i + 1, n);
    word_letters();
    if starts_with(h, w) {
        assert(h.subrange(0, 25) == w);
        assert forall|t: int| 0 <= t < 25 implies h[t] == w[t] by {
            assert(h.subrange(0, 25)[t] == h[t]);
        }
        let j = p - i;
        assert(j >= 1);
        if j >= 25 {
            assert(s.subrange(i, i + 25) =~= w) by {
                assert forall|t: int| 0 <= t < 25 implies s.subrange(i, i + 25)[t] == w[t] by {
                    assert(h[t] == s[i + t]);
                }
            }
            assert(occurs_at(s, i, w));
        } else if p < s.len() {
            assert(h[j + 0] == w[0]);
            assert(h[j] == w[j]);
            assert(j == 8);
            assert(h[j + 1] == w[1]);
            assert(h[9] == w[9]);
        } else {
            assert(h.len() == j);
        }
    }
}

proof fn extraction_is_undone_from(s: Seq<char>, i: int, n: nat, before: Seq<Seq<char>>)
    requires
        !holds_placeholder_word(s),
        0 <= i <= s.len(),
        before.len() == n,
    ensures
        restored_from(extracted(s, i, n).0, before + extracted(s, i, n).1, n as int) == s.skip(i),
    decreases s.len() - i,
{
    let h = extracted(s, i, n).0;
    let all = before + extracted(s, i, n).1;
    if i >= s.len() {
        assert(s.skip(i) =~= Seq::<char>::empty());
    } else {
        match math_span(s, i) {
            Some(end) => {
                closing_bounds(s, i + delimiter_at(s, i), delimiter_at(s, i));
                let rest = extracted(s, end, n + 1);
                let segment = s.subrange(i, end);
                let mark = placeholder(n);
                assert(h == mark + rest.0);
                assert(all =~= before.push(segment) + rest.1);
                assert(h.subrange(0, mark.len() as int) =~= mark);
                assert(placeholder_at(h, all.len() as int, n as int) == Some(n as int));
                assert(h.skip(mark.len() as int) =~= rest.0);
                extraction_is_undone_from(s, end, n + 1, before.push(segment));
                assert(all[n as int] == segment);
                assert(segment + s.skip(end) =~= s.skip(i));
            },
            None => {
                let rest = extracted(s, i + 1, n);
                assert(h == seq![s[i]] + rest.0);
                assert(all == before + rest.1);
                no_word_at_a_copied_place(s, i, n);
                placeholder_found(h, all.len() as int, n as int);
                match placeholder_at(h, all.len() as int, n as int) {
                    Some(k) => {
                        placeholder_begins_with_word(h, k as nat);
                    },
                    None => {},
                }
                assert(h.drop_first() =~= rest.0);
                extraction_is_undone_from(s, i + 1, n, before);
                assert(seq![s[i]] + s.skip(i + 1) =~= s.skip(i));
            },
        }
    }
}

/// Restoring what was extracted gives the text back: for a text that does
/// not hold the placeholder word, every math span that was taken out is put
/// back as it stood, however many there are.
pub proof fn extraction_is_undone(s: Seq<char>)
    requires
        !holds_placeholder_word(s),
    ensures
        with_segments(extracted(s, 0, 0).0, extracted(s, 0, 0).1) == s,
{
    extraction_is_undone_from(s, 0, 0, Seq::empty());
    assert(Seq::<Seq<char>>::empty() + extracted(s, 0, 0).1 =~= extracted(s, 0, 0).1);
    assert(s.skip(0) =~= s);
}

} // verus!
