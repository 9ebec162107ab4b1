//! The translations of the labels that templates show: a table read from
//! lines of the form `key,value`.

use crate::table::TextMap;
use crate::text::{
    begins_with, before_first, before_first_is_prefix, chars_of, lines_of, parts_view, slice_of,
    split_lines, starts_with, string_of, trim, trimmed, up_to,
};
use vstd::prelude::*;

verus! {

/// A line that holds no entry: an empty one, whitespace aside, or one that
/// begins with `#`.
pub open spec fn is_skipped(line: Seq<char>) -> bool {
    trim(line).len() == 0 || starts_with(line, "#"@)
}

/// The entry that `line` holds: the text in front of its first comma and
/// the text behind it, each without the whitespace around it. A line
/// without a comma holds none.
pub open spec fn entry_of(line: Seq<char>) -> Option<(Seq<char>, Seq<char>)> {
    let key = before_first(line, ',');
    if is_skipped(line) || key.len() >= line.len() {
        None
    } else {
        Some((trim(key), trim(line.skip(key.len() as int + 1))))
    }
}

/// The table that the first `n` of `lines` make: a later entry replaces an
/// earlier one with the same key.
pub open spec fn table_upto(lines: Seq<Seq<char>>, n: int) -> Map<Seq<char>, Seq<char>>
    decreases n,
{
    if n <= 0 {
        Map::empty()
    } else {
        match entry_of(lines[n - 1]) {
            Some((key, value)) => table_upto(lines, n - 1).insert(key, value),
            None => table_upto(lines, n - 1),
        }
    }
}

/// The translation of `key`: what the table holds for it, or the key
/// itself where the table holds nothing.
pub open spec fn translated(table: Map<Seq<char>, Seq<char>>, key: Seq<char>) -> Seq<char> {
    if table.contains_key(key) {
        table[key]
    } else {
        key
    }
}

/// Reads the table of translations from `text`.
pub fn load_translations(text: &str) -> (table: TextMap)
    ensures
        table@ == table_upto(lines_of(text@), lines_of(text@).len() as int),
{
    let chars = chars_of(text);
    let lines = split_lines(&chars);
    let ghost ls = parts_view(lines@);
    let mut table = TextMap::new();
    let mut i: usize = 0;
    while i < lines.len()
        invariant
            i <= lines.len(),
            ls == parts_view(lines@),
            table@ == table_upto(ls, i as int),
        decreases lines.len() - i,
    {
        let line = &lines[i];
        assert(ls[i as int] == line@);
        let bare = trimmed(line);
        if bare.len() > 0 && !begins_with(line, "#") {
            let key = up_to(line, ',');
            proof {
                before_first_is_prefix(line@, ',');
            }
            if key.len() < line.len() {
                let value = slice_of(line, key.len() + 1, line.len());
                assert(line@.subrange(key.len() + 1, line.len() as int) == line@.skip(
                    key.len() + 1,
                ));
                table.insert(trimmed(&key), trimmed(&value));
            }
        }
        i += 1;
    }
    table
}

/// The translation of `key`.
pub fn translate(table: &TextMap, key: &str) -> (r: String)
    ensures
        r@ == translated(table@, key@),
{
    let k = chars_of(key);
    match table.get(&k) {
        Some(value) => string_of(value),
        None => string_of(&k),
    }
}

} // verus!
