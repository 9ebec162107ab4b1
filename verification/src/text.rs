//! Character sequences: the operations on text that the filters are built from.

use vstd::prelude::*;

verus! {

/// The texts held by `parts`.
pub open spec fn parts_view(parts: Seq<Vec<char>>) -> Seq<Seq<char>> {
    parts.map_values(|p: Vec<char>| p@)
}

/// The texts of `strings`.
pub open spec fn strings_view(strings: Seq<String>) -> Seq<Seq<char>> {
    strings.map_values(|s: String| s@)
}

/// `p` occurs in `s` at position `at`.
pub open spec fn occurs_at(s: Seq<char>, at: int, p: Seq<char>) -> bool {
    0 <= at && at + p.len() <= s.len() && s.subrange(at, at + p.len()) == p
}

/// `s` begins with `p`.
pub open spec fn starts_with(s: Seq<char>, p: Seq<char>) -> bool {
    occurs_at(s, 0, p)
}

/// `s` without every leading repetition of the non-empty `p`.
pub open spec fn strip_all(s: Seq<char>, p: Seq<char>) -> Seq<char>
    decreases s.len(),
{
    if p.len() > 0 && starts_with(s, p) {
        strip_all(s.skip(p.len() as int), p)
    } else {
        s
    }
}

/// `s` without every trailing `c`.
pub open spec fn trim_end_char(s: Seq<char>, c: char) -> Seq<char>
    decreases s.len(),
{
    if s.len() > 0 && s.last() == c {
        trim_end_char(s.drop_last(), c)
    } else {
        s
    }
}

/// The part of `s` before the first `c`, or all of `s` where it holds no `c`.
pub open spec fn before_first(s: Seq<char>, c: char) -> Seq<char>
    decreases s.len(),
{
    if s.len() == 0 || s[0] == c {
        Seq::empty()
    } else {
        seq![s[0]] + before_first(s.drop_first(), c)
    }
}

/// `s` with every occurrence of the non-empty `pat` replaced by `to`, the
/// occurrences taken from left to right and not overlapping. An empty `pat`
/// occurs nowhere.
pub open spec fn replaced(s: Seq<char>, pat: Seq<char>, to: Seq<char>) -> Seq<char>
    decreases s.len(),
{
    if pat.len() == 0 || s.len() == 0 {
        s
    } else if starts_with(s, pat) {
        to + replaced(s.skip(pat.len() as int), pat, to)
    } else {
        seq![s[0]] + replaced(s.drop_first(), pat, to)
    }
}

/// `c` is whitespace: one of the characters with the Unicode property
/// `White_Space`. These are the tabulator to the carriage return, the
/// space, the next line, the no-break space, the Ogham space mark, the
/// spaces from the en quad to the hair space, the line and the paragraph
/// separator, the narrow no-break space, the medium mathematical space and
/// the ideographic space.
pub open spec fn is_whitespace(c: char) -> bool {
    ||| '\u{9}' <= c <= '\u{d}'
    ||| c == ' '
    ||| c == '\u{85}'
    ||| c == '\u{a0}'
    ||| c == '\u{1680}'
    ||| '\u{2000}' <= c <= '\u{200a}'
    ||| c == '\u{2028}'
    ||| c == '\u{2029}'
    ||| c == '\u{202f}'
    ||| c == '\u{205f}'
    ||| c == '\u{3000}'
}

/// `s` without its leading whitespace.
pub open spec fn trim_start(s: Seq<char>) -> Seq<char>
    decreases s.len(),
{
    if s.len() > 0 && is_whitespace(s[0]) {
        trim_start(s.drop_first())
    } else {
        s
    }
}

/// `s` without its trailing whitespace.
pub open spec fn trim_end(s: Seq<char>) -> Seq<char>
    decreases s.len(),
{
    if s.len() > 0 && is_whitespace(s.last()) {
        trim_end(s.drop_last())
    } else {
        s
    }
}

/// `s` without its leading and trailing whitespace.
pub open spec fn trim(s: Seq<char>) -> Seq<char> {
    trim_end(trim_start(s))
}

/// `line` without a carriage return at its end.
pub open spec fn without_return(line: Seq<char>) -> Seq<char> {
    if line.len() > 0 && line.last() == '\r' {
        line.drop_last()
    } else {
        line
    }
}

/// The lines of `s`. A line ends with a line feed, or with a carriage
/// return and a line feed, neither of which belongs to the line; what
/// follows the last line feed is a line too, unless it is empty.
pub open spec fn lines_of(s: Seq<char>) -> Seq<Seq<char>>
    decreases s.len(),
{
    let k = before_first(s, '\n').len();
    if s.len() == 0 {
        Seq::empty()
    } else if k >= s.len() {
        seq![s]
    } else {
        seq![without_return(s.take(k as int))] + lines_of(s.skip(k as int + 1))
    }
}

/// What stands before the first `c` is a prefix of `s`, and its end is the
/// place of that `c`.
pub proof fn before_first_is_prefix(s: Seq<char>, c: char)
    ensures
        before_first(s, c).len() <= s.len(),
        before_first(s, c) == s.take(before_first(s, c).len() as int),
        before_first(s, c).len() < s.len() ==> s[before_first(s, c).len() as int] == c,
        forall|i: int| 0 <= i < before_first(s, c).len() ==> s[i] != c,
    decreases s.len(),
{
    if s.len() == 0 || s[0] == c {
        assert(s.take(0) == Seq::<char>::empty());
    } else {
        let rest = s.drop_first();
        before_first_is_prefix(rest, c);
        let k = before_first(rest, c).len() as int;
        assert(s.take(k + 1) == seq![s[0]] + rest.take(k));
        assert forall|i: int| 0 <= i < k + 1 implies s[i] != c by {
            if i > 0 {
                assert(s[i] == rest[i - 1]);
            }
        }
    }
}

/// The decimal digit for `d`, which is below ten.
pub open spec fn digit(d: nat) -> char {
    if d == 0 {
        '0'
    } else if d == 1 {
        '1'
    } else if d == 2 {
        '2'
    } else if d == 3 {
        '3'
    } else if d == 4 {
        '4'
    } else if d == 5 {
        '5'
    } else if d == 6 {
        '6'
    } else if d == 7 {
        '7'
    } else if d == 8 {
        '8'
    } else {
        '9'
    }
}

/// `n` written in decimal, without leading zeros.
pub open spec fn decimal(n: nat) -> Seq<char>
    decreases n,
{
    if n < 10 {
        seq![digit(n)]
    } else {
        decimal(n / 10).push(digit(n % 10))
    }
}

/// The characters of `s`, in order.
pub fn chars_of(s: &str) -> (v: Vec<char>)
    ensures
        v@ == s@,
{
    let mut v: Vec<char> = Vec::new();
    for c in it: s.chars()
        invariant
            it.seq() == s@,
            v@ == it.seq().take(it.index() as int),
    {
        v.push(c);
    }
    v
}

/// The string made of the characters of `v`. This is `String::from_iter` of
/// the standard library, of which it is believed that it keeps the characters
/// and their order.
#[verifier::external_body]
pub(crate) fn string_of(v: &Vec<char>) -> (s: String)
    ensures
        s@ == v@,
{
    v.iter().collect()
}

/// Appends `tail` to `out`.
pub fn push_all(out: &mut Vec<char>, tail: &Vec<char>)
    ensures
        final(out)@ == old(out)@ + tail@,
{
    let mut i: usize = 0;
    while i < tail.len()
        invariant
            i <= tail.len(),
            out@ == old(out)@ + tail@.take(i as int),
        decreases tail.len() - i,
    {
        out.push(tail[i]);
        i += 1;
    }
    assert(tail@.take(tail.len() as int) == tail@);
}

/// Appends the characters of `tail` to `out`.
pub fn push_str(out: &mut Vec<char>, tail: &str)
    ensures
        final(out)@ == old(out)@ + tail@,
{
    for c in it: tail.chars()
        invariant
            it.seq() == tail@,
            out@ == old(out)@ + it.seq().take(it.index() as int),
    {
        out.push(c);
    }
}

/// The characters of `s` from `from` up to `to`.
pub(crate) fn slice_of(s: &Vec<char>, from: usize, to: usize) -> (r: Vec<char>)
    requires
        from <= to <= s.len(),
    ensures
        r@ == s@.subrange(from as int, to as int),
{
    let mut r: Vec<char> = Vec::new();
    let mut i: usize = from;
    while i < to
        invariant
            from <= i <= to <= s.len(),
            r@ == s@.subrange(from as int, i as int),
        decreases to - i,
    {
        r.push(s[i]);
        i += 1;
    }
    r
}

/// Whether `a` and `b` hold the same characters.
pub fn same_chars(a: &Vec<char>, b: &Vec<char>) -> (r: bool)
    ensures
        r == (a@ == b@),
{
    if a.len() != b.len() {
        return false;
    }
    let mut i: usize = 0;
    while i < a.len()
        invariant
            i <= a.len(),
            a.len() == b.len(),
            a@.take(i as int) == b@.take(i as int),
        decreases a.len() - i,
    {
        if a[i] != b[i] {
            return false;
        }
        assert(a@.take(i + 1) == a@.take(i as int).push(a@[i as int]));
        assert(b@.take(i + 1) == b@.take(i as int).push(b@[i as int]));
        i += 1;
    }
    assert(a@.take(a.len() as int) == a@);
    assert(b@.take(b.len() as int) == b@);
    true
}

/// Whether `p` occurs in `s` at position `at`.
pub fn found_at(s: &Vec<char>, at: usize, p: &Vec<char>) -> (r: bool)
    ensures
        r == occurs_at(s@, at as int, p@),
{
    if at > s.len() || p.len() > s.len() - at {
        return false;
    }
    let mut i: usize = 0;
    while i < p.len()
        invariant
            i <= p.len(),
            at + p.len() <= s.len(),
            s@.subrange(at as int, at + i) == p@.take(i as int),
        decreases p.len() - i,
    {
        if s[at + i] != p[i] {
            assert(s@.subrange(at as int, at + p.len())[i as int] != p@[i as int]);
            return false;
        }
        assert(s@.subrange(at as int, at + i + 1) == s@.subrange(at as int, at + i).push(
            s@[at + i],
        ));
        assert(p@.take(i + 1) == p@.take(i as int).push(p@[i as int]));
        i += 1;
    }
    assert(p@.take(p.len() as int) == p@);
    true
}

/// Whether `s` begins with the characters of `p`.
pub fn begins_with(s: &Vec<char>, p: &str) -> (r: bool)
    ensures
        r == starts_with(s@, p@),
{
    let pattern = chars_of(p);
    found_at(s, 0, &pattern)
}

/// Whether `s` holds exactly the characters of `p`.
pub fn is_str(s: &Vec<char>, p: &str) -> (r: bool)
    ensures
        r == (s@ == p@),
{
    let pattern = chars_of(p);
    same_chars(s, &pattern)
}

/// Removes every leading repetition of `p` from `s`.
pub fn strip_prefixes(s: &Vec<char>, p: &str) -> (r: Vec<char>)
    ensures
        r@ == strip_all(s@, p@),
{
    let pattern = chars_of(p);
    let mut at: usize = 0;
    assert(s@.skip(0) == s@);
    if pattern.len() > 0 {
        while found_at(s, at, &pattern)
            invariant
                at <= s.len(),
                pattern@ == p@,
                pattern.len() > 0,
                strip_all(s@, p@) == strip_all(s@.skip(at as int), p@),
            decreases s.len() - at,
        {
            proof {
                let rest = s@.skip(at as int);
                assert(rest.subrange(0, pattern.len() as int) == s@.subrange(
                    at as int,
                    at + pattern.len(),
                ));
                assert(rest.skip(pattern.len() as int) == s@.skip(at + pattern.len()));
            }
            at += pattern.len();
        }
        proof {
            let rest = s@.skip(at as int);
            if starts_with(rest, p@) {
                assert(rest.subrange(0, pattern.len() as int) == s@.subrange(
                    at as int,
                    at + pattern.len(),
                ));
            }
        }
    }
    let r = slice_of(s, at, s.len());
    assert(s@.subrange(at as int, s.len() as int) == s@.skip(at as int));
    r
}

/// Removes every trailing `c` from `s`.
pub fn strip_trailing(s: &Vec<char>, c: char) -> (r: Vec<char>)
    ensures
        r@ == trim_end_char(s@, c),
{
    let mut end: usize = s.len();
    assert(s@.take(s.len() as int) == s@);
    while end > 0 && s[end - 1] == c
        invariant
            end <= s.len(),
            trim_end_char(s@, c) == trim_end_char(s@.take(end as int), c),
        decreases end,
    {
        assert(s@.take(end as int).drop_last() == s@.take(end - 1));
        end -= 1;
    }
    let r = slice_of(s, 0, end);
    assert(s@.subrange(0, end as int) == s@.take(end as int));
    r
}

/// The part of `s` before its first `c`.
pub fn up_to(s: &Vec<char>, c: char) -> (r: Vec<char>)
    ensures
        r@ == before_first(s@, c),
{
    let mut i: usize = 0;
    assert(s@.skip(0) == s@ && s@.take(0) + s@ == s@);
    while i < s.len() && s[i] != c
        invariant
            i <= s.len(),
            before_first(s@, c) == s@.take(i as int) + before_first(s@.skip(i as int), c),
        decreases s.len() - i,
    {
        proof {
            let rest = s@.skip(i as int);
            assert(rest.drop_first() == s@.skip(i + 1));
            assert(s@.take(i + 1) == s@.take(i as int) + seq![rest[0]]);
        }
        i += 1;
    }
    let r = slice_of(s, 0, i);
    assert(s@.subrange(0, i as int) == s@.take(i as int));
    r
}

/// The decimal digit for `d`.
fn digit_char(d: usize) -> (c: char)
    requires
        d < 10,
    ensures
        c == digit(d as nat),
{
    if d == 0 {
        '0'
    } else if d == 1 {
        '1'
    } else if d == 2 {
        '2'
    } else if d == 3 {
        '3'
    } else if d == 4 {
        '4'
    } else if d == 5 {
        '5'
    } else if d == 6 {
        '6'
    } else if d == 7 {
        '7'
    } else if d == 8 {
        '8'
    } else {
        '9'
    }
}

/// Writes `n` in decimal.
pub fn decimal_chars(n: usize) -> (r: Vec<char>)
    ensures
        r@ == decimal(n as nat),
    decreases n,
{
    if n < 10 {
        let mut r: Vec<char> = Vec::new();
        r.push(digit_char(n));
        r
    } else {
        let mut r = decimal_chars(n / 10);
        r.push(digit_char(n % 10));
        r
    }
}

/// A copy of `s`.
pub fn copy_of(s: &Vec<char>) -> (r: Vec<char>)
    ensures
        r@ == s@,
{
    let r = slice_of(s, 0, s.len());
    assert(s@.subrange(0, s.len() as int) == s@);
    r
}

/// Replaces every occurrence of `pat` in `s` by `to`.
pub fn replace_all(s: &Vec<char>, pat: &str, to: &str) -> (r: Vec<char>)
    ensures
        r@ == replaced(s@, pat@, to@),
{
    let pattern = chars_of(pat);
    if pattern.len() == 0 {
        return copy_of(s);
    }
    let mut out: Vec<char> = Vec::new();
    let mut i: usize = 0;
    assert(s@.skip(0) == s@);
    while i < s.len()
        invariant
            i <= s.len(),
            pattern@ == pat@,
            pattern.len() > 0,
            replaced(s@, pat@, to@) == out@ + replaced(s@.skip(i as int), pat@, to@),
        decreases s.len() - i,
    {
        let ghost rest = s@.skip(i as int);
        let ghost before = out@;
        if found_at(s, i, &pattern) {
            proof {
                assert(rest.subrange(0, pattern.len() as int) == s@.subrange(
                    i as int,
                    i + pattern.len(),
                ));
                assert(rest.skip(pattern.len() as int) == s@.skip(i + pattern.len()));
            }
            push_str(&mut out, to);
            i += pattern.len();
            assert(before + (to@ + replaced(s@.skip(i as int), pat@, to@)) == out@ + replaced(
                s@.skip(i as int),
                pat@,
                to@,
            ));
        } else {
            proof {
                if starts_with(rest, pat@) {
                    assert(rest.subrange(0, pattern.len() as int) == s@.subrange(
                        i as int,
                        i + pattern.len(),
                    ));
                }
                assert(rest.drop_first() == s@.skip(i + 1));
            }
            out.push(s[i]);
            i += 1;
            assert(before + (seq![rest[0]] + replaced(s@.skip(i as int), pat@, to@)) == out@
                + replaced(s@.skip(i as int), pat@, to@));
        }
    }
    assert(out@ + Seq::<char>::empty() == out@);
    out
}

/// Calls `char::is_whitespace` of the standard library, which is
/// documented to tell whether a character has the Unicode property
/// `White_Space`. The contract names the characters of that property.
#[verifier::external_body]
pub(crate) fn char_is_whitespace(c: char) -> (r: bool)
    ensures
        r == is_whitespace(c),
{
    c.is_whitespace()
}

/// Removes the leading whitespace of `s`.
pub fn trimmed_start(s: &Vec<char>) -> (r: Vec<char>)
    ensures
        r@ == trim_start(s@),
{
    let mut i: usize = 0;
    assert(s@.skip(0) == s@);
    while i < s.len() && char_is_whitespace(s[i])
        invariant
            i <= s.len(),
            trim_start(s@) == trim_start(s@.skip(i as int)),
        decreases s.len() - i,
    {
        assert(s@.skip(i as int).drop_first() == s@.skip(i + 1));
        i += 1;
    }
    let r = slice_of(s, i, s.len());
    assert(s@.subrange(i as int, s.len() as int) == s@.skip(i as int));
    r
}

/// Removes the trailing whitespace of `s`.
pub fn trimmed_end(s: &Vec<char>) -> (r: Vec<char>)
    ensures
        r@ == trim_end(s@),
{
    let mut end: usize = s.len();
    assert(s@.take(s.len() as int) == s@);
    while end > 0 && char_is_whitespace(s[end - 1])
        invariant
            end <= s.len(),
            trim_end(s@) == trim_end(s@.take(end as int)),
        decreases end,
    {
        assert(s@.take(end as int).drop_last() == s@.take(end - 1));
        end -= 1;
    }
    let r = slice_of(s, 0, end);
    assert(s@.subrange(0, end as int) == s@.take(end as int));
    r
}

/// Removes the leading and trailing whitespace of `s`.
pub fn trimmed(s: &Vec<char>) -> (r: Vec<char>)
    ensures
        r@ == trim(s@),
{
    let front = trimmed_start(s);
    trimmed_end(&front)
}

/// Cuts `s` into its lines.
pub fn split_lines(s: &Vec<char>) -> (r: Vec<Vec<char>>)
    ensures
        parts_view(r@) == lines_of(s@),
{
    let mut lines: Vec<Vec<char>> = Vec::new();
    let mut from: usize = 0;
    assert(s@.skip(0) == s@);
    assert(parts_view(lines@) + lines_of(s@) == lines_of(s@));
    while from < s.len()
        invariant
            from <= s.len(),
            lines_of(s@) == parts_view(lines@) + lines_of(s@.skip(from as int)),
        decreases s.len() - from,
    {
        let ghost rest = s@.skip(from as int);
        let ghost done = parts_view(lines@);
        proof {
            before_first_is_prefix(rest, '\n');
        }
        let mut to: usize = from;
        while to < s.len() && s[to] != '\n'
            invariant
                from <= to <= s.len(),
                rest == s@.skip(from as int),
                to - from <= before_first(rest, '\n').len() <= rest.len(),
                before_first(rest, '\n').len() < rest.len() ==> rest[before_first(
                    rest,
                    '\n',
                ).len() as int] == '\n',
                forall|i: int| 0 <= i < before_first(rest, '\n').len() ==> rest[i] != '\n',
            decreases s.len() - to,
        {
            assert(rest[to - from] == s@[to as int]);
            to += 1;
        }
        let ghost k = before_first(rest, '\n').len();
        assert(k == to - from) by {
            if to < s.len() {
                assert(rest[to - from] == s@[to as int]);
            }
        }
        if to == s.len() {
            let line = slice_of(s, from, to);
            assert(line@ == rest);
            lines.push(line);
            from = to;
            assert(s@.skip(from as int).len() == 0);
            assert(parts_view(lines@) == done + seq![rest]);
            assert(done + seq![rest] + Seq::<Seq<char>>::empty() == done + seq![rest]);
        } else {
            let end = if to > from && s[to - 1] == '\r' {
                to - 1
            } else {
                to
            };
            let line = slice_of(s, from, end);
            assert(rest.take(k as int) == s@.subrange(from as int, to as int));
            assert(line@ == without_return(rest.take(k as int))) by {
                if to > from && s[to - 1] == '\r' {
                    assert(s@.subrange(from as int, to as int).drop_last() == s@.subrange(
                        from as int,
                        to - 1,
                    ));
                }
            }
            lines.push(line);
            from = to + 1;
            assert(rest.skip(k as int + 1) == s@.skip(from as int));
            assert(parts_view(lines@) == done + seq![line@]);
            assert(done + (seq![line@] + lines_of(s@.skip(from as int))) == done + seq![line@]
                + lines_of(s@.skip(from as int)));
        }
    }
    assert(lines_of(s@.skip(from as int)) == Seq::<Seq<char>>::empty());
    assert(parts_view(lines@) + Seq::<Seq<char>>::empty() == parts_view(lines@));
    lines
}

} // verus!
