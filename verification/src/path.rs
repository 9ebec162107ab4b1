//! Paths as texts, with `/` between their components.

use crate::text::{
    chars_of, copy_of, found_at, is_str, push_all, push_str, same_chars, slice_of, starts_with,
};
use vstd::prelude::*;

verus! {

/// The place of the last `c` in `s`, or -1 where it holds none.
pub open spec fn last_index_of(s: Seq<char>, c: char) -> int
    decreases s.len(),
{
    if s.len() == 0 {
        -1
    } else if s.last() == c {
        s.len() - 1
    } else {
        last_index_of(s.drop_last(), c)
    }
}

/// The extension of the file name `name`: what follows its last dot, where
/// that dot is not its first character.
pub open spec fn extension_of(name: Seq<char>) -> Option<Seq<char>> {
    let dot = last_index_of(name, '.');
    if dot <= 0 {
        None
    } else {
        Some(name.skip(dot + 1))
    }
}

/// The path `path` as seen from the directory `base`, if it lies in it.
pub open spec fn relative_to(path: Seq<char>, base: Seq<char>) -> Option<Seq<char>> {
    if path == base {
        Some(Seq::empty())
    } else if base.len() > 0 && base.last() == '/' && starts_with(path, base) {
        Some(path.skip(base.len() as int))
    } else if starts_with(path, base + "/"@) {
        Some(path.skip(base.len() as int + 1))
    } else {
        None
    }
}

/// The path `name` inside the directory `dir`.
pub open spec fn joined(dir: Seq<char>, name: Seq<char>) -> Seq<char> {
    if dir.len() == 0 {
        name
    } else if dir.last() == '/' {
        dir + name
    } else {
        dir + "/"@ + name
    }
}

/// Where the last component of `path` begins.
pub open spec fn name_start(path: Seq<char>) -> int {
    last_index_of(path, '/') + 1
}

/// Where the extension of the last component of `path` begins, its dot
/// included, or the length of `path` where that component has none: a dot
/// at the front of the component begins no extension.
pub open spec fn extension_start(path: Seq<char>) -> int {
    let dot = last_index_of(path.skip(name_start(path)), '.');
    if dot <= 0 {
        path.len() as int
    } else {
        name_start(path) + dot
    }
}

/// `path` has a last component that can carry an extension: one that is
/// neither empty nor `..`.
pub open spec fn has_file_name(path: Seq<char>) -> bool {
    name_start(path) < path.len() && path.skip(name_start(path)) != ".."@
}

/// `path` with the extension of its last component replaced by
/// `extension`, or taken away where `extension` is empty. A path without
/// such a component stays as it is.
pub open spec fn with_extension(path: Seq<char>, extension: Seq<char>) -> Seq<char> {
    if !has_file_name(path) {
        path
    } else if extension.len() == 0 {
        path.take(extension_start(path))
    } else {
        path.take(extension_start(path)) + "."@ + extension
    }
}

/// `path` as seen from the root: itself where it begins at the root, else
/// put behind the working directory `cwd`.
pub open spec fn absolute(cwd: Seq<char>, path: Seq<char>) -> Seq<char> {
    if path.len() > 0 && path[0] == '/' {
        path
    } else {
        joined(cwd, path)
    }
}

/// The extension of the file name `name`.
pub fn extension(name: &Vec<char>) -> (r: Option<Vec<char>>)
    ensures
        match r {
            Some(e) => extension_of(name@) == Some(e@),
            None => extension_of(name@) is None,
        },
{
    let mut i: usize = name.len();
    assert(name@.take(i as int) == name@);
    while i > 0 && name[i - 1] != '.'
        invariant
            i <= name.len(),
            last_index_of(name@, '.') == last_index_of(name@.take(i as int), '.'),
        decreases i,
    {
        assert(name@.take(i as int).drop_last() == name@.take(i - 1));
        i -= 1;
    }
    if i <= 1 {
        None
    } else {
        let e = slice_of(name, i, name.len());
        assert(name@.subrange(i as int, name.len() as int) == name@.skip(i as int));
        Some(e)
    }
}

/// The path `path` as seen from the directory `base`.
pub fn relative_path(path: &Vec<char>, base: &Vec<char>) -> (r: Option<Vec<char>>)
    ensures
        match r {
            Some(rel) => relative_to(path@, base@) == Some(rel@),
            None => relative_to(path@, base@) is None,
        },
{
    if same_chars(path, base) {
        return Some(Vec::new());
    }
    if base.len() > 0 && base[base.len() - 1] == '/' && found_at(path, 0, base) {
        let rel = slice_of(path, base.len(), path.len());
        assert(path@.subrange(base.len() as int, path.len() as int) == path@.skip(
            base.len() as int,
        ));
        return Some(rel);
    }
    let mut with_slash = copy_of(base);
    push_str(&mut with_slash, "/");
    proof {
        reveal_strlit("/");
    }
    if found_at(path, 0, &with_slash) {
        let rel = slice_of(path, base.len() + 1, path.len());
        assert(path@.subrange(base.len() + 1, path.len() as int) == path@.skip(base.len() + 1));
        Some(rel)
    } else {
        None
    }
}

/// The path `name` inside the directory `dir`.
pub fn join(dir: &Vec<char>, name: &Vec<char>) -> (r: Vec<char>)
    ensures
        r@ == joined(dir@, name@),
{
    if dir.len() == 0 {
        return copy_of(name);
    }
    let mut r = copy_of(dir);
    if dir[dir.len() - 1] != '/' {
        push_str(&mut r, "/");
    }
    push_all(&mut r, name);
    r
}

/// The place of the last `c` in `s`, counted from one, or zero where it
/// holds none.
fn after_last(s: &Vec<char>, c: char) -> (r: usize)
    ensures
        r == last_index_of(s@, c) + 1,
        r <= s.len(),
{
    let mut i: usize = s.len();
    assert(s@.take(i as int) == s@);
    while i > 0 && s[i - 1] != c
        invariant
            i <= s.len(),
            last_index_of(s@, c) == last_index_of(s@.take(i as int), c),
        decreases i,
    {
        assert(s@.take(i as int).drop_last() == s@.take(i - 1));
        i -= 1;
    }
    i
}

/// Replaces the extension of the last component of `path`.
pub fn set_extension(path: &Vec<char>, extension: &str) -> (r: Vec<char>)
    ensures
        r@ == with_extension(path@, extension@),
{
    let start = after_last(path, '/');
    if start >= path.len() {
        return copy_of(path);
    }
    let name = slice_of(path, start, path.len());
    assert(name@ == path@.skip(start as int));
    if is_str(&name, "..") {
        return copy_of(path);
    }
    let dot = after_last(&name, '.');
    let cut = if dot <= 1 {
        path.len()
    } else {
        start + dot - 1
    };
    let mut r = slice_of(path, 0, cut);
    assert(path@.subrange(0, cut as int) == path@.take(cut as int));
    let ext = chars_of(extension);
    if ext.len() > 0 {
        push_str(&mut r, ".");
        push_all(&mut r, &ext);
    }
    r
}

/// `path` as seen from the root.
pub fn make_absolute(cwd: &Vec<char>, path: &Vec<char>) -> (r: Vec<char>)
    ensures
        r@ == absolute(cwd@, path@),
{
    if path.len() > 0 && path[0] == '/' {
        copy_of(path)
    } else {
        join(cwd, path)
    }
}

} // verus!
