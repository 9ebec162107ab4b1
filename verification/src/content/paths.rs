//! Where the page of a content item is written and under which address it
//! is found. Paths are texts with `/` between their components.

use crate::config::Config;
use crate::path::{
    absolute, join, joined, make_absolute, relative_path, relative_to, set_extension,
    with_extension,
};
use crate::text::{chars_of, push_all, push_str, replace_all, replaced, string_of};
use vstd::prelude::*;

verus! {

/// The error for a source that does not lie in the content directory.
pub open spec fn not_in_content(path: Seq<char>, content_dir: Seq<char>) -> Seq<char> {
    "Path "@ + path + " is not a subpath of content directory "@ + content_dir
}

/// The error for a page that does not lie in the build directory.
pub open spec fn not_in_build(path: Seq<char>, build_dir: Seq<char>) -> Seq<char> {
    "Path "@ + path + " is not a subpath of build directory "@ + build_dir
}

/// Where the page of the source `path` is written: at the place in the
/// build directory that the source has in the content directory, with the
/// extension `html`.
pub open spec fn output_path(
    path: Seq<char>,
    cwd: Seq<char>,
    content_dir: Seq<char>,
    build_dir: Seq<char>,
) -> Result<Seq<char>, Seq<char>> {
    let source = absolute(cwd, with_extension(path, Seq::empty()));
    let content = absolute(cwd, content_dir);
    match relative_to(source, content) {
        Some(relative) => Ok(with_extension(joined(build_dir, relative), "html"@)),
        None => Err(not_in_content(source, content)),
    }
}

/// The address of the page of the source `path`: its place in the build
/// directory, from the root of the site.
pub open spec fn url_of(
    path: Seq<char>,
    cwd: Seq<char>,
    content_dir: Seq<char>,
    build_dir: Seq<char>,
) -> Result<Seq<char>, Seq<char>> {
    match output_path(path, cwd, content_dir, build_dir) {
        Ok(page) => match relative_to(page, build_dir) {
            Some(relative) => Ok("/"@ + replaced(relative, "\\"@, "/"@)),
            None => Err(not_in_build(page, build_dir)),
        },
        Err(e) => Err(e),
    }
}

/// Where the page of the source `path` is written, `cwd` being the working
/// directory that relative paths start from.
pub fn content_output_path(path: &str, cwd: &str, config: &Config) -> (r: Result<String, String>)
    ensures
        match output_path(path@, cwd@, config.content_dir@, config.build_dir@) {
            Ok(page) => r matches Ok(p) && p@ == page,
            Err(e) => r matches Err(msg) && msg@ == e,
        },
{
    let cwd = chars_of(cwd);
    let bare = set_extension(&chars_of(path), "");
    proof {
        reveal_strlit("");
    }
    let source = make_absolute(&cwd, &bare);
    let content = make_absolute(&cwd, &chars_of(config.content_dir.as_str()));
    match relative_path(&source, &content) {
        Some(relative) => {
            let page = join(&chars_of(config.build_dir.as_str()), &relative);
            Ok(string_of(&set_extension(&page, "html")))
        },
        None => {
            let mut e = chars_of("Path ");
            push_all(&mut e, &source);
            push_str(&mut e, " is not a subpath of content directory ");
            push_all(&mut e, &content);
            Err(string_of(&e))
        },
    }
}

/// The address of the page of the source `path`.
pub fn content_url(path: &str, cwd: &str, config: &Config) -> (r: Result<String, String>)
    ensures
        match url_of(path@, cwd@, config.content_dir@, config.build_dir@) {
            Ok(url) => r matches Ok(u) && u@ == url,
            Err(e) => r matches Err(msg) && msg@ == e,
        },
{
    let page = match content_output_path(path, cwd, config) {
        Ok(page) => chars_of(page.as_str()),
        Err(e) => {
            return Err(e);
        },
    };
    let build = chars_of(config.build_dir.as_str());
    match relative_path(&page, &build) {
        Some(relative) => {
            let mut url = chars_of("/");
            let plain = replace_all(&relative, "\\", "/");
            push_all(&mut url, &plain);
            Ok(string_of(&url))
        },
        None => {
            let mut e = chars_of("Path ");
            push_all(&mut e, &page);
            push_str(&mut e, " is not a subpath of build directory ");
            push_all(&mut e, &build);
            Err(string_of(&e))
        },
    }
}

} // verus!
