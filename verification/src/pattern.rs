//! Searching text with regular expressions.
//!
//! The searching itself is done by the `regex` crate. What it finds is given
//! a name here, and the functions of this module say how the matches and the
//! text between them fit together.

use crate::text::{copy_of, parts_view, push_all};
use regex::Regex;
use vstd::prelude::*;

verus! {

/// The groups of one match: for each group of the pattern the text it
/// matched, if it took part in the match. Group 0 is the whole match.
pub type Groups = Seq<Option<Seq<char>>>;

/// What `Regex::captures_iter` yields for `pattern` on `text`: the successive
/// non-overlapping matches from left to right, each with the text of its
/// groups. `None` where `Regex::new` refuses the pattern.
pub uninterp spec fn regex_captures(pattern: Seq<char>, text: Seq<char>) -> Option<Seq<Groups>>;

/// What `Regex::split` yields for `pattern` on `text`: the parts of the text
/// that lie before, between and behind the matches. `None` where `Regex::new`
/// refuses the pattern.
pub uninterp spec fn regex_split(pattern: Seq<char>, text: Seq<char>) -> Option<Seq<Seq<char>>>;

/// Group `i` of a match, absent where the match has no such group.
pub open spec fn group(m: Groups, i: int) -> Option<Seq<char>> {
    if 0 <= i < m.len() {
        m[i]
    } else {
        None
    }
}

/// The text of the whole match.
pub open spec fn whole(m: Groups) -> Seq<char> {
    match group(m, 0) {
        Some(s) => s,
        None => Seq::empty(),
    }
}

/// The first group of the first match, if there is one.
pub open spec fn first_group(ms: Seq<Groups>) -> Option<Seq<char>> {
    if ms.len() > 0 {
        group(ms[0], 1)
    } else {
        None
    }
}

/// The whole text of each match.
pub open spec fn wholes(ms: Seq<Groups>) -> Seq<Seq<char>> {
    ms.map_values(|m: Groups| whole(m))
}

/// The text in front of part `i`, or behind the last part; empty where
/// `gaps` holds no such text.
pub open spec fn gap_at(gaps: Seq<Seq<char>>, i: int) -> Seq<char> {
    if 0 <= i < gaps.len() {
        gaps[i]
    } else {
        Seq::empty()
    }
}

/// The first `n` of `parts` woven into `gaps`:
/// `gaps[0] + parts[0] + gaps[1] + ... + parts[n - 1] + gaps[n]`.
pub open spec fn woven(gaps: Seq<Seq<char>>, parts: Seq<Seq<char>>, n: int) -> Seq<char>
    decreases n,
{
    if n <= 0 {
        gap_at(gaps, 0)
    } else {
        woven(gaps, parts, n - 1) + parts[n - 1] + gap_at(gaps, n)
    }
}

/// The matches and the parts between them make up the text: there is one
/// part more than there are matches, every match has its group 0, and parts
/// and matches taken in turn give the text back.
pub open spec fn fits(gaps: Seq<Seq<char>>, ms: Seq<Groups>, text: Seq<char>) -> bool {
    &&& gaps.len() == ms.len() + 1
    &&& forall|i: int| 0 <= i < ms.len() ==> (#[trigger] ms[i]).len() > 0 && ms[i][0] is Some
    &&& woven(gaps, wholes(ms), ms.len() as int) == text
}

/// The matches of `pattern` in `text`. A pattern that the engine refuses
/// matches nothing.
pub open spec fn matches_of(pattern: Seq<char>, text: Seq<char>) -> Seq<Groups> {
    match regex_captures(pattern, text) {
        Some(ms) => ms,
        None => Seq::empty(),
    }
}

/// The parts of `text` around the matches of `pattern`. Where the engine
/// refuses the pattern the text is one part.
pub open spec fn gaps_of(pattern: Seq<char>, text: Seq<char>) -> Seq<Seq<char>> {
    match regex_split(pattern, text) {
        Some(gaps) => gaps,
        None => seq![text],
    }
}

/// One match as the engine found it.
pub struct Found {
    /// The text of each group; group 0 is the whole match.
    pub groups: Vec<Option<Vec<char>>>,
}

impl View for Found {
    type V = Groups;

    open spec fn view(&self) -> Groups {
        self.groups@.map_values(
            |g: Option<Vec<char>>|
                match g {
                    Some(v) => Some(v@),
                    None => None,
                },
        )
    }
}

/// The matches held by `found`.
pub open spec fn found_view(found: Seq<Found>) -> Seq<Groups> {
    found.map_values(|f: Found| f@)
}

/// The result of a search: the matches, and the text around them.
pub struct Scanned {
    /// The matches from left to right.
    pub found: Vec<Found>,
    /// The text before the first match, between the matches, and behind the last.
    pub gaps: Vec<Vec<char>>,
}

/// Calls `Regex::new` on `pattern` and `Regex::captures_iter` on the result
/// and `text`. The contract gives what comes back its name, `None` standing
/// for a pattern that `Regex::new` returned an error for, and claims what the
/// crate documents of every match: that group 0, the whole match, is present.
#[verifier::external_body]
fn captures_iter(pattern: &str, text: &Vec<char>) -> (found: Option<Vec<Found>>)
    ensures
        match found {
            Some(ms) => regex_captures(pattern@, text@) == Some(found_view(ms@)),
            None => regex_captures(pattern@, text@) is None,
        },
        found matches Some(ms) ==> forall|i: int|
            0 <= i < ms.len() ==> (#[trigger] ms[i]).groups.len() > 0 && ms[i].groups[0] is Some,
{
    let haystack: String = text.iter().collect();
    match Regex::new(pattern) {
        Ok(re) => Some(
            re.captures_iter(&haystack).map(
                |c|
                    Found {
                        groups: c.iter().map(|g| g.map(|m| m.as_str().chars().collect())).collect(),
                    },
            ).collect(),
        ),
        Err(_) => None,
    }
}

/// Calls `Regex::new` on `pattern` and `Regex::split` on the result and
/// `text`. The contract gives what comes back its name, and claims what the
/// crate's iterator shows: `split` walks the same matches as `captures_iter`
/// and yields the text from the end of one match to the start of the next,
/// first the text before the first match and last the text behind the last
/// one, so that there is one part more than there are matches and parts and
/// matches in turn are the text.
#[verifier::external_body]
fn split(pattern: &str, text: &Vec<char>) -> (parts: Option<Vec<Vec<char>>>)
    ensures
        match parts {
            Some(ps) => regex_split(pattern@, text@) == Some(parts_view(ps@)),
            None => regex_split(pattern@, text@) is None,
        },
        parts is Some <==> regex_captures(pattern@, text@) is Some,
        parts matches Some(ps) ==> parts_view(ps@).len() == regex_captures(
            pattern@,
            text@,
        ).unwrap().len() + 1,
        parts matches Some(ps) ==> woven(
            parts_view(ps@),
            wholes(regex_captures(pattern@, text@).unwrap()),
            regex_captures(pattern@, text@).unwrap().len() as int,
        ) == text@,
{
    let haystack: String = text.iter().collect();
    match Regex::new(pattern) {
        Ok(re) => Some(re.split(&haystack).map(|s| s.chars().collect()).collect()),
        Err(_) => None,
    }
}

/// `c` is one of the characters that have a meaning in a pattern.
pub open spec fn is_meta_character(c: char) -> bool {
    ||| c == '\\'
    ||| c == '.'
    ||| c == '+'
    ||| c == '*'
    ||| c == '?'
    ||| c == '('
    ||| c == ')'
    ||| c == '|'
    ||| c == '['
    ||| c == ']'
    ||| c == '{'
    ||| c == '}'
    ||| c == '^'
    ||| c == '$'
    ||| c == '#'
    ||| c == '&'
    ||| c == '-'
    ||| c == '~'
}

/// `text` with a backslash in front of every character that has a meaning
/// in a pattern, so that the whole stands for itself in a pattern.
pub open spec fn escaped(text: Seq<char>) -> Seq<char>
    decreases text.len(),
{
    if text.len() == 0 {
        Seq::empty()
    } else if is_meta_character(text.last()) {
        escaped(text.drop_last()).push('\\').push(text.last())
    } else {
        escaped(text.drop_last()).push(text.last())
    }
}

/// Calls `regex::escape`. The contract says what the crate's source shows:
/// every character of the text is written out, behind a backslash where it
/// is one of the eighteen characters that have a meaning in a pattern.
#[verifier::external_body]
pub(crate) fn escape(text: &str) -> (r: String)
    ensures
        r@ == escaped(text@),
{
    regex::escape(text)
}

/// Searches `text` for `pattern`.
pub fn scan(pattern: &str, text: &Vec<char>) -> (r: Scanned)
    ensures
        found_view(r.found@) == matches_of(pattern@, text@),
        parts_view(r.gaps@) == gaps_of(pattern@, text@),
        fits(gaps_of(pattern@, text@), matches_of(pattern@, text@), text@),
{
    let found = captures_iter(pattern, text);
    let parts = split(pattern, text);
    match (found, parts) {
        (Some(ms), Some(ps)) => {
            proof {
                let views = found_view(ms@);
                assert forall|i: int| 0 <= i < views.len() implies (#[trigger] views[i]).len() > 0
                    && views[i][0] is Some by {
                    assert(ms[i].groups.len() > 0);
                    assert(views[i] == ms[i]@);
                }
            }
            Scanned { found: ms, gaps: ps }
        },
        _ => {
            let mut gaps: Vec<Vec<char>> = Vec::new();
            gaps.push(copy_of(text));
            let found: Vec<Found> = Vec::new();
            proof {
                assert(parts_view(gaps@) == seq![text@]);
                assert(found_view(found@) == Seq::<Groups>::empty());
                assert(wholes(Seq::<Groups>::empty()).len() == 0);
            }
            Scanned { found, gaps }
        },
    }
}

/// The first group of the first match in `found`.
pub fn first_group_of(found: &Vec<Found>) -> (r: Option<Vec<char>>)
    ensures
        match r {
            Some(c) => first_group(found_view(found@)) == Some(c@),
            None => first_group(found_view(found@)) is None,
        },
{
    if found.len() > 0 && found[0].groups.len() > 1 {
        assert(found_view(found@)[0] == found[0]@);
        match &found[0].groups[1] {
            Some(c) => Some(copy_of(c)),
            None => None,
        }
    } else {
        if found.len() > 0 {
            assert(found_view(found@)[0] == found[0]@);
        }
        None
    }
}

/// Weaves `parts` into `gaps`: the first gap, the first part, the second
/// gap, and so on to the gap behind the last part. A gap that `gaps` does
/// not hold counts as empty.
pub fn weave(gaps: &Vec<Vec<char>>, parts: &Vec<Vec<char>>) -> (r: Vec<char>)
    ensures
        r@ == woven(parts_view(gaps@), parts_view(parts@), parts.len() as int),
{
    let mut out: Vec<char> = Vec::new();
    if gaps.len() > 0 {
        push_all(&mut out, &gaps[0]);
    }
    assert(out@ =~= gap_at(parts_view(gaps@), 0));
    let mut i: usize = 0;
    while i < parts.len()
        invariant
            i <= parts.len(),
            out@ == woven(parts_view(gaps@), parts_view(parts@), i as int),
        decreases parts.len() - i,
    {
        let ghost before = out@;
        push_all(&mut out, &parts[i]);
        if i + 1 < gaps.len() {
            push_all(&mut out, &gaps[i + 1]);
        }
        assert(out@ =~= before + parts_view(parts@)[i as int] + gap_at(parts_view(gaps@), i + 1));
        i += 1;
    }
    out
}

} // verus!
