//! Problems: a statement with solutions and hints, each in a file of its
//! own.

use super::content::{
    file_named, find_file, formatted_file, load_formatted_file, Content, SourceFile,
};
use super::metadata::ContentMetadata;
use crate::formatted_text::conversion::{FormattedText, Fragment};
use crate::pattern::{
    escape, escaped, first_group, first_group_of, found_view, matches_of, scan,
};
use crate::text::{chars_of, push_str, string_of};
use vstd::prelude::*;

verus! {

/// The pattern of the names of the files that belong to `basename`: the
/// name itself, an optional number behind a dot, and the extension `tex`
/// or `md`.
pub open spec fn numbered_pattern(basename: Seq<char>) -> Seq<char> {
    "^"@ + escaped(basename) + r"(?:\.(\d+))?\.(tex|md)$"@
}

/// The value of the decimal digit `c`.
pub open spec fn digit_value(c: char) -> Option<nat> {
    if c == '0' {
        Some(0)
    } else if c == '1' {
        Some(1)
    } else if c == '2' {
        Some(2)
    } else if c == '3' {
        Some(3)
    } else if c == '4' {
        Some(4)
    } else if c == '5' {
        Some(5)
    } else if c == '6' {
        Some(6)
    } else if c == '7' {
        Some(7)
    } else if c == '8' {
        Some(8)
    } else if c == '9' {
        Some(9)
    } else {
        None
    }
}

/// The number that the decimal digits `s` write, if they are all digits.
pub open spec fn digits_value(s: Seq<char>) -> Option<nat>
    decreases s.len(),
{
    if s.len() == 0 {
        Some(0)
    } else {
        match (digits_value(s.drop_last()), digit_value(s.last())) {
            (Some(v), Some(d)) => Some(10 * v + d),
            _ => None,
        }
    }
}

/// The number that orders a file: the one its name holds, where that is
/// written in decimal digits and fits the machine's word, else zero.
pub open spec fn order_of(number: Option<Seq<char>>) -> nat {
    match number {
        Some(s) => match digits_value(s) {
            Some(v) => if s.len() > 0 && v <= usize::MAX {
                v
            } else {
                0
            },
            None => 0,
        },
        None => 0,
    }
}

/// Whether the text `a` comes before `b` or is `b`, character by character.
pub open spec fn text_le(a: Seq<char>, b: Seq<char>) -> bool
    decreases a.len(),
{
    if a.len() == 0 {
        true
    } else if b.len() == 0 {
        false
    } else if a[0] != b[0] {
        a[0] < b[0]
    } else {
        text_le(a.drop_first(), b.drop_first())
    }
}

/// A file that belongs to a basename: its number and its place in the
/// listing.
pub struct Numbered {
    pub order: usize,
    pub index: usize,
}

/// Whether `a` stands before `b` or beside it: by number first, by name
/// among equal numbers.
pub open spec fn stands_before(files: Seq<SourceFile>, a: Numbered, b: Numbered) -> bool {
    a.order < b.order || (a.order == b.order && text_le(
        files[a.index as int].name@,
        files[b.index as int].name@,
    ))
}

/// `sorted` with `x` put behind the last item that stands before it.
pub open spec fn inserted(files: Seq<SourceFile>, sorted: Seq<Numbered>, x: Numbered) -> Seq<
    Numbered,
>
    decreases sorted.len(),
{
    if sorted.len() == 0 {
        seq![x]
    } else if stands_before(files, sorted.last(), x) {
        sorted.push(x)
    } else {
        inserted(files, sorted.drop_last(), x).push(sorted.last())
    }
}

/// Whether the name of a file belongs to the pattern `pattern`.
pub open spec fn belongs(pattern: Seq<char>, file: SourceFile) -> bool {
    matches_of(pattern, file.name@).len() > 0
}

/// The files among the first `n` of `files` whose names belong to
/// `pattern`, in their order: by number, then by name.
pub open spec fn numbered_upto(files: Seq<SourceFile>, pattern: Seq<char>, n: int) -> Seq<Numbered>
    decreases n,
{
    if n <= 0 {
        Seq::empty()
    } else if belongs(pattern, files[n - 1]) {
        inserted(
            files,
            numbered_upto(files, pattern, n - 1),
            Numbered {
                order: order_of(first_group(matches_of(pattern, files[n - 1].name@))) as usize,
                index: (n - 1) as usize,
            },
        )
    } else {
        numbered_upto(files, pattern, n - 1)
    }
}

/// The first `n` of `items` loaded, or the error of the first that fails.
pub open spec fn loaded_upto(files: Seq<SourceFile>, items: Seq<Numbered>, n: int) -> Result<
    Seq<Fragment>,
    Seq<char>,
>
    decreases n,
{
    if n <= 0 {
        Ok(Seq::empty())
    } else {
        match loaded_upto(files, items, n - 1) {
            Err(e) => Err(e),
            Ok(done) => match formatted_file(files[items[n - 1].index as int], files) {
                Ok(fragment) => Ok(done.push(fragment)),
                Err(e) => Err(e),
            },
        }
    }
}

/// The fragments of the files that belong to `basename`, ordered by their
/// numbers and then by their names.
pub open spec fn multiple_files(files: Seq<SourceFile>, basename: Seq<char>) -> Result<
    Seq<Fragment>,
    Seq<char>,
> {
    let items = numbered_upto(files, numbered_pattern(basename), files.len() as int);
    loaded_upto(files, items, items.len() as int)
}

/// The statement of a problem: the file `problem.tex`, or else the file
/// `problem.md`.
pub open spec fn statement_of(files: Seq<SourceFile>) -> Result<Fragment, Seq<char>> {
    match find_file(files, "problem.tex"@) {
        Some(file) => formatted_file(file, files),
        None => match find_file(files, "problem.md"@) {
            Some(file) => formatted_file(file, files),
            None => Err("Problem file not found"@),
        },
    }
}

/// The fragments held by `texts`.
pub open spec fn fragments_view(texts: Seq<FormattedText>) -> Seq<Fragment> {
    texts.map_values(|t: FormattedText| t@)
}

/// Of two texts one comes before the other or is the other.
pub proof fn text_order_is_total(a: Seq<char>, b: Seq<char>)
    ensures
        text_le(a, b) || text_le(b, a),
    decreases a.len(),
{
    if a.len() > 0 && b.len() > 0 && a[0] == b[0] {
        text_order_is_total(a.drop_first(), b.drop_first());
    }
}

/// Every item of `items` stands before the one behind it.
pub open spec fn is_ordered(files: Seq<SourceFile>, items: Seq<Numbered>) -> bool {
    forall|i: int|
        0 <= i < items.len() - 1 ==> stands_before(files, #[trigger] items[i], items[i + 1])
}

/// Putting an item into ordered items leaves them ordered, and the last of
/// them is then the item or the one that was last before.
pub proof fn insertion_keeps_order(files: Seq<SourceFile>, sorted: Seq<Numbered>, x: Numbered)
    requires
        is_ordered(files, sorted),
    ensures
        is_ordered(files, inserted(files, sorted, x)),
        inserted(files, sorted, x).len() == sorted.len() + 1,
        inserted(files, sorted, x).last() == x || (sorted.len() > 0 && inserted(
            files,
            sorted,
            x,
        ).last() == sorted.last()),
    decreases sorted.len(),
{
    if sorted.len() > 0 && !stands_before(files, sorted.last(), x) {
        let shorter = sorted.drop_last();
        assert forall|i: int| 0 <= i < shorter.len() - 1 implies stands_before(
            files,
            #[trigger] shorter[i],
            shorter[i + 1],
        ) by {
            assert(shorter[i] == sorted[i] && shorter[i + 1] == sorted[i + 1]);
        }
        insertion_keeps_order(files, shorter, x);
        let front = inserted(files, shorter, x);
        let all = front.push(sorted.last());
        text_order_is_total(
            files[sorted.last().index as int].name@,
            files[x.index as int].name@,
        );
        assert forall|i: int| 0 <= i < all.len() - 1 implies stands_before(
            files,
            #[trigger] all[i],
            all[i + 1],
        ) by {
            if i < front.len() - 1 {
                assert(all[i] == front[i] && all[i + 1] == front[i + 1]);
            } else {
                assert(all[i] == front.last());
                if front.last() != x {
                    assert(shorter.last() == sorted[sorted.len() - 2]);
                }
            }
        }
    } else {
        let all = sorted.push(x);
        assert forall|i: int| 0 <= i < all.len() - 1 implies stands_before(
            files,
            #[trigger] all[i],
            all[i + 1],
        ) by {
            if i < sorted.len() - 1 {
                assert(all[i] == sorted[i] && all[i + 1] == sorted[i + 1]);
            }
        }
    }
}

/// The files that belong to a pattern come in order: each stands before
/// the next, by its number and then by its name.
pub proof fn numbered_files_are_ordered(files: Seq<SourceFile>, pattern: Seq<char>, n: int)
    ensures
        is_ordered(files, numbered_upto(files, pattern, n)),
    decreases n,
{
    if n > 0 {
        numbered_files_are_ordered(files, pattern, n - 1);
        if belongs(pattern, files[n - 1]) {
            insertion_keeps_order(
                files,
                numbered_upto(files, pattern, n - 1),
                Numbered {
                    order: order_of(first_group(matches_of(pattern, files[n - 1].name@))) as usize,
                    index: (n - 1) as usize,
                },
            );
        }
    }
}

/// The value of the decimal digit `c`.
fn digit_of(c: char) -> (r: Option<usize>)
    ensures
        match r {
            Some(d) => digit_value(c) == Some(d as nat) && d < 10,
            None => digit_value(c) is None,
        },
{
    if c == '0' {
        Some(0)
    } else if c == '1' {
        Some(1)
    } else if c == '2' {
        Some(2)
    } else if c == '3' {
        Some(3)
    } else if c == '4' {
        Some(4)
    } else if c == '5' {
        Some(5)
    } else if c == '6' {
        Some(6)
    } else if c == '7' {
        Some(7)
    } else if c == '8' {
        Some(8)
    } else if c == '9' {
        Some(9)
    } else {
        None
    }
}

/// The value of digits is at least the value of any of their prefixes.
proof fn value_grows(s: Seq<char>, k: int)
    requires
        0 <= k <= s.len(),
        digits_value(s) is Some,
    ensures
        digits_value(s.take(k)) is Some,
        digits_value(s.take(k)).unwrap() <= digits_value(s).unwrap(),
    decreases s.len() - k,
{
    if k == s.len() {
        assert(s.take(k) == s);
    } else {
        assert(s.drop_last().take(k) == s.take(k));
        value_grows(s.drop_last(), k);
    }
}

/// The number that the digits `s` write, or zero where they are not all
/// decimal digits or write a number beyond the machine's word.
fn digits_number(s: &Vec<char>) -> (r: usize)
    ensures
        r == order_of(Some(s@)),
{
    if s.len() == 0 {
        return 0;
    }
    let mut v: usize = 0;
    let mut i: usize = 0;
    assert(s@.take(0) == Seq::<char>::empty());
    while i < s.len()
        invariant
            i <= s.len(),
            s.len() > 0,
            digits_value(s@.take(i as int)) == Some(v as nat),
        decreases s.len() - i,
    {
        assert(s@.take(i + 1).drop_last() == s@.take(i as int));
        assert(s@.take(i + 1).last() == s@[i as int]);
        match digit_of(s[i]) {
            Some(d) => {
                if v > (usize::MAX - d) / 10 {
                    proof {
                        assert(10 * v + d > usize::MAX);
                        assert(digits_value(s@.take(i + 1)) == Some((10 * v + d) as nat));
                        if digits_value(s@) is Some {
                            value_grows(s@, i + 1);
                        }
                    }
                    return 0;
                }
                v = v * 10 + d;
            },
            None => {
                proof {
                    assert(digits_value(s@.take(i + 1)) is None);
                    if digits_value(s@) is Some {
                        value_grows(s@, i + 1);
                    }
                }
                return 0;
            },
        }
        i += 1;
    }
    assert(s@.take(s.len() as int) == s@);
    v
}

/// The number that orders a file whose name holds the digits `number`.
pub fn order_number(number: &Option<Vec<char>>) -> (r: usize)
    ensures
        r == order_of(
            match *number {
                Some(s) => Some(s@),
                None => None,
            },
        ),
{
    match number {
        None => 0,
        Some(s) => digits_number(s),
    }
}

/// Whether the text `a` comes before `b` or is `b`.
pub fn text_before(a: &Vec<char>, b: &Vec<char>) -> (r: bool)
    ensures
        r == text_le(a@, b@),
{
    let mut i: usize = 0;
    assert(a@.skip(0) == a@ && b@.skip(0) == b@);
    while i < a.len() && i < b.len()
        invariant
            i <= a.len(),
            i <= b.len(),
            text_le(a@, b@) == text_le(a@.skip(i as int), b@.skip(i as int)),
        decreases a.len() - i,
    {
        if a[i] != b[i] {
            return a[i] < b[i];
        }
        assert(a@.skip(i as int).drop_first() == a@.skip(i + 1));
        assert(b@.skip(i as int).drop_first() == b@.skip(i + 1));
        i += 1;
    }
    i == a.len()
}

/// Whether `a` stands before `b` or beside it.
fn comes_before(files: &Vec<SourceFile>, a: &Numbered, b: &Numbered) -> (r: bool)
    requires
        a.index < files.len(),
        b.index < files.len(),
    ensures
        r == stands_before(files@, *a, *b),
{
    if a.order != b.order {
        a.order < b.order
    } else {
        let a_name = chars_of(files[a.index].name.as_str());
        let b_name = chars_of(files[b.index].name.as_str());
        text_before(&a_name, &b_name)
    }
}

/// An item that does not stand before `x` moves behind it.
proof fn insertion_passes(files: Seq<SourceFile>, sorted: Seq<Numbered>, at: int, x: Numbered)
    requires
        0 < at <= sorted.len(),
        !stands_before(files, sorted[at - 1], x),
    ensures
        inserted(files, sorted.take(at), x) + sorted.skip(at) == inserted(
            files,
            sorted.take(at - 1),
            x,
        ) + sorted.skip(at - 1),
{
    let prefix = sorted.take(at);
    assert(prefix.last() == sorted[at - 1]);
    assert(prefix.drop_last() == sorted.take(at - 1));
    let shorter = inserted(files, sorted.take(at - 1), x);
    assert(inserted(files, prefix, x) == shorter.push(sorted[at - 1]));
    assert(shorter.push(sorted[at - 1]) + sorted.skip(at) =~= shorter + sorted.skip(at - 1));
}

/// Behind an item that stands before `x`, or at the front, `x` has found
/// its place.
proof fn insertion_lands(files: Seq<SourceFile>, sorted: Seq<Numbered>, at: int, x: Numbered)
    requires
        0 <= at <= sorted.len(),
        at == 0 || stands_before(files, sorted[at - 1], x),
    ensures
        inserted(files, sorted.take(at), x) + sorted.skip(at) == sorted.insert(at, x),
{
    let prefix = sorted.take(at);
    if at > 0 {
        assert(prefix.last() == sorted[at - 1]);
    }
    assert(inserted(files, prefix, x) =~= prefix.push(x));
    assert(prefix.push(x) + sorted.skip(at) =~= sorted.insert(at, x));
}

/// Puts `x` into `sorted` behind the last item that stands before it.
fn insert_numbered(files: &Vec<SourceFile>, sorted: &mut Vec<Numbered>, x: Numbered)
    requires
        x.index < files.len(),
        forall|i: int|
            0 <= i < old(sorted).len() ==> (#[trigger] old(sorted)[i]).index < files.len(),
    ensures
        final(sorted)@ == inserted(files@, old(sorted)@, x),
        forall|i: int| 0 <= i < final(sorted).len() ==> (#[trigger] final(sorted)[i]).index
            < files.len(),
{
    let mut at: usize = sorted.len();
    proof {
        assert(sorted@.take(at as int) == sorted@);
        assert(inserted(files@, sorted@, x) + sorted@.skip(at as int) =~= inserted(
            files@,
            sorted@,
            x,
        ));
    }
    while at > 0 && !comes_before(files, &sorted[at - 1], &x)
        invariant
            at <= sorted.len(),
            sorted@ == old(sorted)@,
            x.index < files.len(),
            forall|i: int| 0 <= i < sorted.len() ==> (#[trigger] sorted[i]).index < files.len(),
            inserted(files@, sorted@, x) == inserted(files@, sorted@.take(at as int), x)
                + sorted@.skip(at as int),
        decreases at,
    {
        proof {
            insertion_passes(files@, sorted@, at as int, x);
        }
        at -= 1;
    }
    proof {
        insertion_lands(files@, sorted@, at as int, x);
    }
    sorted.insert(at, x);
}

/// Loads the files of `files` that belong to `basename`: those named
/// `basename`, an optional number behind a dot, and `tex` or `md`. They
/// come ordered by their numbers, a missing number counting as zero, and
/// by their names among equal numbers.
pub fn load_multiple_files(files: &Vec<SourceFile>, basename: &str) -> (r: Result<
    Vec<FormattedText>,
    String,
>)
    ensures
        match multiple_files(files@, basename@) {
            Ok(fragments) => r matches Ok(texts) && fragments_view(texts@) == fragments,
            Err(e) => r matches Err(msg) && msg@ == e,
        },
{
    let mut pattern = chars_of("^");
    let escaped = escape(basename);
    push_str(&mut pattern, escaped.as_str());
    push_str(&mut pattern, r"(?:\.(\d+))?\.(tex|md)$");
    let pattern = string_of(&pattern);
    assert(pattern@ == numbered_pattern(basename@));
    let mut items: Vec<Numbered> = Vec::new();
    let mut i: usize = 0;
    while i < files.len()
        invariant
            i <= files.len(),
            pattern@ == numbered_pattern(basename@),
            items@ == numbered_upto(files@, pattern@, i as int),
            forall|k: int| 0 <= k < items.len() ==> (#[trigger] items[k]).index < files.len(),
        decreases files.len() - i,
    {
        let name = chars_of(files[i].name.as_str());
        let scanned = scan(pattern.as_str(), &name);
        assert(scanned.found.len() == found_view(scanned.found@).len());
        if scanned.found.len() > 0 {
            let number = first_group_of(&scanned.found);
            let order = order_number(&number);
            insert_numbered(files, &mut items, Numbered { order, index: i });
        }
        i += 1;
    }
    let mut texts: Vec<FormattedText> = Vec::new();
    let mut k: usize = 0;
    assert(fragments_view(texts@) =~= Seq::<Fragment>::empty());
    while k < items.len()
        invariant
            k <= items.len(),
            items@ == numbered_upto(files@, numbered_pattern(basename@), files.len() as int),
            forall|j: int| 0 <= j < items.len() ==> (#[trigger] items[j]).index < files.len(),
            loaded_upto(files@, items@, k as int) == Ok::<Seq<Fragment>, Seq<char>>(
                fragments_view(texts@),
            ),
        decreases items.len() - k,
    {
        let ghost done = fragments_view(texts@);
        match load_formatted_file(&files[items[k].index], files) {
            Ok(text) => {
                texts.push(text);
                assert(fragments_view(texts@) =~= done.push(text@));
            },
            Err(e) => {
                proof {
                    load_error_stays(files@, items@, k + 1, items.len() as int);
                }
                return Err(e);
            },
        }
        k += 1;
    }
    Ok(texts)
}

/// An error that was met stays the result.
pub proof fn load_error_stays(files: Seq<SourceFile>, items: Seq<Numbered>, m: int, n: int)
    requires
        0 <= m <= n,
        loaded_upto(files, items, m) is Err,
    ensures
        loaded_upto(files, items, n) == loaded_upto(files, items, m),
    decreases n - m,
{
    if m < n {
        load_error_stays(files, items, m, n - 1);
    }
}

/// Loads the statement of a problem.
fn load_statement(files: &Vec<SourceFile>) -> (r: Result<FormattedText, String>)
    ensures
        match statement_of(files@) {
            Ok(fragment) => r matches Ok(t) && t@ == fragment,
            Err(e) => r matches Err(msg) && msg@ == e,
        },
{
    match file_named(files, &chars_of("problem.tex")) {
        Some(i) => load_formatted_file(&files[i], files),
        None => match file_named(files, &chars_of("problem.md")) {
            Some(i) => load_formatted_file(&files[i], files),
            None => Err("Problem file not found".to_owned()),
        },
    }
}

/// `r` is what putting a problem together from `files` gives: the
/// statement, the solutions and the hints, or the error of the first of
/// them that fails, in this order.
pub open spec fn is_problem_of(
    files: Seq<SourceFile>,
    metadata: ContentMetadata,
    r: Result<Content, String>,
) -> bool {
    match statement_of(files) {
        Err(e) => r matches Err(msg) && msg@ == e,
        Ok(stated) => match multiple_files(files, "solution"@) {
            Err(e) => r matches Err(msg) && msg@ == e,
            Ok(solved) => match multiple_files(files, "hint"@) {
                Err(e) => r matches Err(msg) && msg@ == e,
                Ok(hinted) => r matches Ok(
                    Content::Problem { metadata: m, statement, solutions, hints },
                ) && m == metadata && statement@ == stated && fragments_view(solutions@) == solved
                    && fragments_view(hints@) == hinted,
            },
        },
    }
}

/// Puts a problem together from the files of its directory: the statement
/// from `problem.tex` or else `problem.md`, the solutions from the files
/// that belong to `solution`, and the hints from those that belong to
/// `hint`.
pub fn load_problem(files: &Vec<SourceFile>, metadata: ContentMetadata) -> (r: Result<
    Content,
    String,
>)
    ensures
        is_problem_of(files@, metadata, r),
{
    let statement = match load_statement(files) {
        Ok(t) => t,
        Err(e) => {
            return Err(e);
        },
    };
    let solutions = match load_multiple_files(files, "solution") {
        Ok(t) => t,
        Err(e) => {
            return Err(e);
        },
    };
    let hints = match load_multiple_files(files, "hint") {
        Ok(t) => t,
        Err(e) => {
            return Err(e);
        },
    };
    Ok(Content::Problem { metadata, statement, solutions, hints })
}

} // verus!
