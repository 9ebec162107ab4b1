//! Math spans in Markdown: taken out before the Markdown engine runs, so
//! that it does not touch them, and put back into what it wrote.

use crate::text::{
    chars_of, decimal, decimal_chars, found_at, occurs_at, push_all, push_str, slice_of,
    starts_with, string_of, strings_view,
};
use vstd::prelude::*;

verus! {

/// The word that every placeholder begins with.
pub open spec fn placeholder_word() -> Seq<char> {
    "MATH_SEGMENT_PLACEHOLDER_"@
}

/// What stands in the text for the math span number `n`: the placeholder
/// word and the number.
pub open spec fn placeholder(n: nat) -> Seq<char> {
    placeholder_word() + decimal(n)
}

/// The place at or behind `j` of the delimiter that closes a span opened
/// with `d` dollar signs. A backslash takes the character behind it along.
pub open spec fn closing_at(s: Seq<char>, j: int, d: int) -> Option<int>
    decreases s.len() - j,
{
    if j < 0 || j >= s.len() {
        None
    } else if s[j] == '\\' && j + 1 < s.len() {
        closing_at(s, j + 2, d)
    } else if s[j] == '$' && (d <= 1 || (j + 1 < s.len() && s[j + 1] == '$')) {
        Some(j)
    } else {
        closing_at(s, j + 1, d)
    }
}

/// Whether a math span opens at `i`: a dollar sign with no backslash
/// right in front of it.
pub open spec fn opens_at(s: Seq<char>, i: int) -> bool {
    0 <= i < s.len() && s[i] == '$' && !(i > 0 && s[i - 1] == '\\')
}

/// The number of dollar signs of the delimiter at `i`: two where a second
/// one follows, else one.
pub open spec fn delimiter_at(s: Seq<char>, i: int) -> int {
    if i + 1 < s.len() && s[i + 1] == '$' {
        2
    } else {
        1
    }
}

/// The end of the math span that opens at `i`, if it is closed: the place
/// behind its closing delimiter.
pub open spec fn span_end(s: Seq<char>, i: int) -> Option<int> {
    let d = delimiter_at(s, i);
    match closing_at(s, i + d, d) {
        Some(j) => Some(j + d),
        None => None,
    }
}

/// The end of the math span at `i`, if one opens there and is closed.
pub open spec fn math_span(s: Seq<char>, i: int) -> Option<int> {
    if opens_at(s, i) {
        span_end(s, i)
    } else {
        None
    }
}

/// The text from `i` on with a placeholder for each closed math span, and
/// those spans, `n` spans having come before.
pub open spec fn extracted(s: Seq<char>, i: int, n: nat) -> (Seq<char>, Seq<Seq<char>>)
    decreases s.len() - i,
{
    if i < 0 || i >= s.len() {
        (Seq::empty(), Seq::empty())
    } else {
        match math_span(s, i) {
            Some(end) => {
                proof {
                    closing_bounds(s, i + delimiter_at(s, i), delimiter_at(s, i));
                }
                let rest = extracted(s, end, n + 1);
                (placeholder(n) + rest.0, seq![s.subrange(i, end)] + rest.1)
            },
            None => {
                let rest = extracted(s, i + 1, n);
                (seq![s[i]] + rest.0, rest.1)
            },
        }
    }
}

/// The closing delimiter lies at or behind the place the search started
/// at, and fits into the text.
pub proof fn closing_bounds(s: Seq<char>, j: int, d: int)
    requires
        0 <= j,
        1 <= d <= 2,
    ensures
        match closing_at(s, j, d) {
            Some(k) => j <= k && k + d <= s.len(),
            None => true,
        },
    decreases s.len() - j,
{
    if j < s.len() {
        if s[j] == '\\' && j + 1 < s.len() {
            closing_bounds(s, j + 2, d);
        } else if s[j] == '$' && (d <= 1 || (j + 1 < s.len() && s[j + 1] == '$')) {
        } else {
            closing_bounds(s, j + 1, d);
        }
    }
}

/// `h` begins with the placeholder of the number `k`.
pub open spec fn begins_with_placeholder(h: Seq<char>, k: int) -> bool {
    k >= 0 && starts_with(h, placeholder(k as nat))
}

/// The greatest number below `count` whose placeholder `h` begins with.
pub open spec fn last_match(h: Seq<char>, count: int) -> Option<int>
    decreases count,
{
    if count <= 0 {
        None
    } else if begins_with_placeholder(h, count - 1) {
        Some(count - 1)
    } else {
        last_match(h, count - 1)
    }
}

/// The number of the placeholder that `h` begins with, if it begins with
/// one of the `count` placeholders. Placeholders stand in the order of
/// their numbers, so where `h` begins with the placeholder `next`, that is
/// the one; else it is the one with the greatest number.
pub open spec fn placeholder_at(h: Seq<char>, count: int, next: int) -> Option<int> {
    if next < count && begins_with_placeholder(h, next) {
        Some(next)
    } else {
        last_match(h, count)
    }
}

/// `h` read from left to right, with each placeholder replaced by the
/// segment of its number; `next` is the number that is expected first.
pub open spec fn restored_from(h: Seq<char>, segments: Seq<Seq<char>>, next: int) -> Seq<char>
    decreases h.len(),
{
    if h.len() == 0 {
        Seq::empty()
    } else {
        match placeholder_at(h, segments.len() as int, next) {
            Some(k) => {
                proof {
                    placeholder_found(h, segments.len() as int, next);
                }
                segments[k] + restored_from(
                    h.skip(placeholder(k as nat).len() as int),
                    segments,
                    k + 1,
                )
            },
            None => seq![h[0]] + restored_from(h.drop_first(), segments, next),
        }
    }
}

/// `html` with each placeholder replaced by the segment of its number.
pub open spec fn with_segments(html: Seq<char>, segments: Seq<Seq<char>>) -> Seq<char> {
    restored_from(html, segments, 0)
}

/// A number written in decimal has a digit.
pub proof fn decimal_has_a_digit(n: nat)
    ensures
        decimal(n).len() > 0,
    decreases n,
{
    if n >= 10 {
        decimal_has_a_digit(n / 10);
    }
}

/// The placeholder found at the front of a text is one of those looked
/// for, the text begins with it, and it is not empty.
pub proof fn placeholder_found(h: Seq<char>, count: int, next: int)
    ensures
        match placeholder_at(h, count, next) {
            Some(k) => 0 <= k < count && starts_with(h, placeholder(k as nat)) && 0 < placeholder(
                k as nat,
            ).len() <= h.len(),
            None => forall|k: int| 0 <= k < count ==> !#[trigger] begins_with_placeholder(h, k),
        },
{
    last_match_found(h, count);
    match placeholder_at(h, count, next) {
        Some(k) => {
            decimal_has_a_digit(k as nat);
        },
        None => {},
    }
}

/// The greatest match is a match, and without it there is none.
proof fn last_match_found(h: Seq<char>, count: int)
    ensures
        match last_match(h, count) {
            Some(k) => 0 <= k < count && starts_with(h, placeholder(k as nat)),
            None => forall|k: int| 0 <= k < count ==> !#[trigger] begins_with_placeholder(h, k),
        },
    decreases count,
{
    if count > 0 {
        last_match_found(h, count - 1);
    }
}

/// A text that begins with a placeholder begins with the placeholder word.
pub proof fn placeholder_begins_with_word(h: Seq<char>, k: nat)
    requires
        starts_with(h, placeholder(k)),
    ensures
        starts_with(h, placeholder_word()),
{
    let w = placeholder_word();
    let p = placeholder(k);
    assert(h.subrange(0, w.len() as int) =~= p.subrange(0, w.len() as int)) by {
        assert(h.subrange(0, p.len() as int) == p);
        assert forall|t: int| 0 <= t < w.len() implies h.subrange(0, w.len() as int)[t]
            == p.subrange(0, w.len() as int)[t] by {
            assert(h.subrange(0, p.len() as int)[t] == h[t]);
        }
    }
    assert(p.subrange(0, w.len() as int) =~= w);
}

/// That `p` occurs in `s` at `at` is that what is left of `s` from `at` on
/// begins with `p`.
pub proof fn occurs_where_the_rest_begins(s: Seq<char>, at: int, p: Seq<char>)
    requires
        0 <= at <= s.len(),
    ensures
        occurs_at(s, at, p) == starts_with(s.skip(at), p),
{
    if at + p.len() <= s.len() {
        assert(s.skip(at).subrange(0, p.len() as int) =~= s.subrange(at, at + p.len()));
    }
}

/// Looks for the delimiter of `d` dollar signs at or behind `from`.
fn find_closing(s: &Vec<char>, from: usize, d: usize) -> (r: Option<usize>)
    requires
        1 <= d <= 2,
        from <= s.len(),
    ensures
        match r {
            Some(k) => closing_at(s@, from as int, d as int) == Some(k as int) && from <= k && k
                + d <= s.len(),
            None => closing_at(s@, from as int, d as int) is None,
        },
{
    let mut j: usize = from;
    while j < s.len()
        invariant
            from <= j <= s.len(),
            1 <= d <= 2,
            closing_at(s@, from as int, d as int) == closing_at(s@, j as int, d as int),
        decreases s.len() - j,
    {
        if s[j] == '\\' && s.len() - j > 1 {
            j += 2;
        } else if s[j] == '$' && (d == 1 || (s.len() - j > 1 && s[j + 1] == '$')) {
            return Some(j);
        } else {
            j += 1;
        }
    }
    None
}

/// The text that stands for the math span number `n`.
pub fn placeholder_text(n: usize) -> (r: Vec<char>)
    ensures
        r@ == placeholder(n as nat),
{
    let mut r = chars_of("MATH_SEGMENT_PLACEHOLDER_");
    let number = decimal_chars(n);
    push_all(&mut r, &number);
    r
}

/// Takes the math spans out of `markdown`: returns the text with a numbered
/// placeholder in place of each span, and the spans in their order. A span
/// runs from one or two dollar signs to the next such delimiter; a dollar
/// sign behind a backslash opens none, and a span that is not closed stays
/// in the text.
pub fn extract_math_segments(markdown: &str) -> (r: (String, Vec<String>))
    ensures
        r.0@ == extracted(markdown@, 0, 0).0,
        strings_view(r.1@) == extracted(markdown@, 0, 0).1,
{
    let chars = chars_of(markdown);
    let ghost s = chars@;
    let mut out: Vec<char> = Vec::new();
    let mut segments: Vec<String> = Vec::new();
    let mut i: usize = 0;
    assert(out@ + extracted(s, 0, 0).0 == extracted(s, 0, 0).0);
    assert(strings_view(segments@) + extracted(s, 0, 0).1 == extracted(s, 0, 0).1);
    while i < chars.len()
        invariant
            i <= chars.len(),
            s == chars@,
            segments.len() <= i,
            extracted(s, 0, 0).0 == out@ + extracted(s, i as int, segments.len() as nat).0,
            extracted(s, 0, 0).1 == strings_view(segments@) + extracted(
                s,
                i as int,
                segments.len() as nat,
            ).1,
        decreases chars.len() - i,
    {
        let ghost before = out@;
        let ghost found = strings_view(segments@);
        let ghost n = segments.len() as nat;
        let mut end: Option<usize> = None;
        if chars[i] == '$' && !(i > 0 && chars[i - 1] == '\\') {
            let d: usize = if chars.len() - i > 1 && chars[i + 1] == '$' {
                2
            } else {
                1
            };
            match find_closing(&chars, i + d, d) {
                Some(j) => {
                    end = Some(j + d);
                },
                None => {},
            }
        }
        match end {
            Some(end) => {
                assert(math_span(s, i as int) == Some(end as int));
                let segment = slice_of(&chars, i, end);
                let mark = placeholder_text(segments.len());
                push_all(&mut out, &mark);
                segments.push(string_of(&segment));
                let ghost at = i as int;
                i = end;
                let ghost rest = extracted(s, i as int, n + 1);
                assert(extracted(s, at, n) == (
                    placeholder(n) + rest.0,
                    seq![s.subrange(at, end as int)] + rest.1,
                ));
                assert(before + (placeholder(n) + rest.0) == out@ + rest.0);
                assert(strings_view(segments@) == found + seq![segment@]);
                assert(found + (seq![segment@] + rest.1) == found + seq![segment@] + rest.1);
            },
            None => {
                assert(math_span(s, i as int) is None);
                out.push(chars[i]);
                let ghost at = i as int;
                i += 1;
                let ghost rest = extracted(s, i as int, n);
                assert(extracted(s, at, n) == (seq![s[at]] + rest.0, rest.1));
                assert(before + (seq![s[at]] + rest.0) == out@ + rest.0);
            },
        }
    }
    assert(out@ + Seq::<char>::empty() == out@);
    assert(strings_view(segments@) + Seq::<Seq<char>>::empty() == strings_view(segments@));
    (string_of(&out), segments)
}

/// The placeholder that stands in `h` at `at`: its number and its length.
fn placeholder_here(h: &Vec<char>, at: usize, count: usize, next: usize) -> (r: Option<
    (usize, usize),
>)
    requires
        at <= h.len(),
    ensures
        match r {
            Some((k, len)) => placeholder_at(h@.skip(at as int), count as int, next as int) == Some(
                k as int,
            ) && k < count && len == placeholder(k as nat).len() && 0 < len && at + len
                <= h.len(),
            None => placeholder_at(h@.skip(at as int), count as int, next as int) is None,
        },
{
    let ghost rest = h@.skip(at as int);
    proof {
        placeholder_found(rest, count as int, next as int);
    }
    let word = chars_of("MATH_SEGMENT_PLACEHOLDER_");
    proof {
        occurs_where_the_rest_begins(h@, at as int, word@);
    }
    if !found_at(h, at, &word) {
        proof {
            match placeholder_at(rest, count as int, next as int) {
                Some(k) => {
                    placeholder_begins_with_word(rest, k as nat);
                },
                None => {},
            }
        }
        return None;
    }
    if next < count {
        let mark = placeholder_text(next);
        proof {
            occurs_where_the_rest_begins(h@, at as int, mark@);
        }
        if found_at(h, at, &mark) {
            proof {
                decimal_has_a_digit(next as nat);
            }
            return Some((next, mark.len()));
        }
    }
    let mut m: usize = count;
    while m > 0
        invariant
            m <= count,
            at <= h.len(),
            rest == h@.skip(at as int),
            placeholder_at(rest, count as int, next as int) == last_match(rest, count as int),
            last_match(rest, count as int) == last_match(rest, m as int),
        decreases m,
    {
        let mark = placeholder_text(m - 1);
        proof {
            occurs_where_the_rest_begins(h@, at as int, mark@);
        }
        if found_at(h, at, &mark) {
            proof {
                decimal_has_a_digit((m - 1) as nat);
            }
            return Some((m - 1, mark.len()));
        }
        m -= 1;
    }
    None
}

/// Puts the math spans back: reads `html` from left to right and replaces
/// each placeholder by the segment of its number.
pub fn restore_math_segments(html: &str, segments: &Vec<String>) -> (r: String)
    ensures
        r@ == with_segments(html@, strings_view(segments@)),
{
    let ghost segs = strings_view(segments@);
    let h = chars_of(html);
    let mut out: Vec<char> = Vec::new();
    let mut at: usize = 0;
    let mut next: usize = 0;
    assert(h@.skip(0) == h@);
    assert(out@ + restored_from(h@, segs, 0) == restored_from(h@, segs, 0));
    while at < h.len()
        invariant
            at <= h.len(),
            next <= segments.len(),
            segs == strings_view(segments@),
            with_segments(html@, segs) == out@ + restored_from(h@.skip(at as int), segs, next as int),
        decreases h.len() - at,
    {
        let ghost before = out@;
        let ghost rest = h@.skip(at as int);
        match placeholder_here(&h, at, segments.len(), next) {
            Some((k, len)) => {
                push_str(&mut out, segments[k].as_str());
                assert(segs[k as int] == segments[k as int]@);
                at += len;
                next = k + 1;
                assert(rest.skip(len as int) == h@.skip(at as int));
                let ghost tail = restored_from(h@.skip(at as int), segs, next as int);
                assert(before + (segs[k as int] + tail) == out@ + tail);
            },
            None => {
                out.push(h[at]);
                at += 1;
                assert(rest.drop_first() == h@.skip(at as int));
                let ghost tail = restored_from(h@.skip(at as int), segs, next as int);
                assert(before + (seq![rest[0]] + tail) == out@ + tail);
            },
        }
    }
    assert(out@ + Seq::<char>::empty() == out@);
    string_of(&out)
}

} // verus!
