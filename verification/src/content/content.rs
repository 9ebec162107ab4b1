//! Content items and the files they are loaded from.

use super::metadata::{ContentKind, ContentMetadata};
use super::problem::{is_problem_of, load_problem};
use crate::formatted_text::conversion::{FormattedText, Fragment};
use crate::path::{extension, extension_of};
use crate::text::{
    begins_with, chars_of, is_str, lines_of, parts_view, push_all, push_str, replace_all,
    replaced, split_lines, starts_with, string_of, strings_view, strip_all, strip_prefixes,
    strip_trailing, trim, trim_end_char, trim_start, trimmed, trimmed_start,
};
use vstd::prelude::*;

verus! {

/// The format of a source file, as its extension tells it.
#[derive(Debug, Clone, Copy, PartialEq, Eq, Structural)]
pub enum Format {
    Markdown,
    Latex,
    Html,
    Other,
}

/// A file of a content directory: its name inside the directory and its text.
#[derive(Debug)]
pub struct SourceFile {
    pub name: String,
    pub text: String,
}

/// A content item.
#[derive(Debug)]
pub enum Content {
    Problem {
        metadata: ContentMetadata,
        statement: FormattedText,
        solutions: Vec<FormattedText>,
        hints: Vec<FormattedText>,
    },
    Blog { metadata: ContentMetadata, body: FormattedText },
    Page { metadata: ContentMetadata, body: FormattedText },
}

/// The first of `files` that is named `name`.
pub open spec fn find_file(files: Seq<SourceFile>, name: Seq<char>) -> Option<SourceFile>
    decreases files.len(),
{
    if files.len() == 0 {
        None
    } else if files[0].name@ == name {
        Some(files[0])
    } else {
        find_file(files.drop_first(), name)
    }
}

/// `line` includes another file.
pub open spec fn is_include(line: Seq<char>) -> bool {
    starts_with(trim_start(line), "#include"@)
}

/// The file that the include directive `line` names: what follows the
/// directive, without the whitespace and the double quotes around it.
pub open spec fn include_path(line: Seq<char>) -> Seq<char> {
    trim_end_char(strip_all(trim(strip_all(trim_start(line), "#include"@)), "\""@), '"')
}

/// The files that the include directives among the first `n` of `lines`
/// name, in their order.
pub open spec fn targets_upto(lines: Seq<Seq<char>>, n: int) -> Seq<Seq<char>>
    decreases n,
{
    if n <= 0 {
        Seq::empty()
    } else if is_include(lines[n - 1]) {
        targets_upto(lines, n - 1).push(include_path(lines[n - 1]))
    } else {
        targets_upto(lines, n - 1)
    }
}

/// The error for an include directive that names no file of the directory.
pub open spec fn missing_include_message(path: Seq<char>) -> Seq<char> {
    "Included file not found: "@ + path
}

/// `text` ends with a line feed.
pub open spec fn ends_with_newline(text: Seq<char>) -> bool {
    text.len() > 0 && text.last() == '\n'
}

/// What stands behind line `i` of `lines`: a line feed, but none behind the
/// last line of a text that does not end with one.
pub open spec fn line_end(lines: Seq<Seq<char>>, i: int, final_newline: bool) -> Seq<char> {
    if i < lines.len() - 1 || final_newline {
        "\n"@
    } else {
        Seq::empty()
    }
}

/// The first `n` of `lines` with each include directive replaced by the
/// text of the file it names, or the error of the first directive that
/// names none.
pub open spec fn included_upto(
    lines: Seq<Seq<char>>,
    files: Seq<SourceFile>,
    final_newline: bool,
    n: int,
) -> Result<Seq<char>, Seq<char>>
    decreases n,
{
    if n <= 0 {
        Ok(Seq::empty())
    } else {
        match included_upto(lines, files, final_newline, n - 1) {
            Err(e) => Err(e),
            Ok(out) => {
                let line = lines[n - 1];
                if is_include(line) {
                    match find_file(files, include_path(line)) {
                        Some(file) => Ok(out + file.text@ + line_end(lines, n - 1, final_newline)),
                        None => Err(missing_include_message(include_path(line))),
                    }
                } else {
                    Ok(out + line + line_end(lines, n - 1, final_newline))
                }
            },
        }
    }
}

/// `text` with its include directives expanded. The files are looked up
/// in `files`; what is included is not expanded again.
pub open spec fn with_includes(text: Seq<char>, files: Seq<SourceFile>) -> Result<
    Seq<char>,
    Seq<char>,
> {
    included_upto(lines_of(text), files, ends_with_newline(text), lines_of(text).len() as int)
}

/// The title that the first line of a Markdown page gives it, if it is a
/// heading of the first or second level.
pub open spec fn heading_title(text: Seq<char>) -> Option<Seq<char>> {
    let lines = lines_of(text);
    if lines.len() > 0 && (starts_with(lines[0], "# "@) || starts_with(lines[0], "## "@)) {
        Some(trim(replaced(replaced(lines[0], "## "@, Seq::empty()), "# "@, Seq::empty())))
    } else {
        None
    }
}

/// The error for a page in a file of another type than Markdown, LaTeX
/// and HTML.
pub open spec fn unsupported_type_message(extension: Option<Seq<char>>) -> Seq<char> {
    match extension {
        Some(e) => "Unsupported file type: Some(\""@ + e + "\")"@,
        None => "Unsupported file type: None"@,
    }
}

/// The format that a file with the extension `extension` is written in.
pub open spec fn format_named(extension: Option<Seq<char>>) -> Format {
    if extension == Some("md"@) {
        Format::Markdown
    } else if extension == Some("tex"@) {
        Format::Latex
    } else if extension == Some("html"@) {
        Format::Html
    } else {
        Format::Other
    }
}

/// What loading the file `file` gives, by its extension: Markdown with
/// its includes expanded, or LaTeX as it stands.
pub open spec fn formatted_file(file: SourceFile, files: Seq<SourceFile>) -> Result<
    Fragment,
    Seq<char>,
> {
    match format_named(extension_of(file.name@)) {
        Format::Markdown => match with_includes(file.text@, files) {
            Ok(text) => Ok(Fragment::Markdown(text)),
            Err(e) => Err(e),
        },
        Format::Latex => Ok(Fragment::Latex(file.text@)),
        _ => Err("Unsupported file extension"@),
    }
}

/// The body of an item whose text lies in the file `basename` with one of
/// the extensions `md`, `tex` and `html`, tried in this order.
pub open spec fn single_file(files: Seq<SourceFile>, basename: Seq<char>) -> Result<
    Fragment,
    Seq<char>,
> {
    match find_file(files, basename + ".md"@) {
        Some(file) => match with_includes(file.text@, files) {
            Ok(text) => Ok(Fragment::Markdown(text)),
            Err(e) => Err(e),
        },
        None => match find_file(files, basename + ".tex"@) {
            Some(file) => Ok(Fragment::Latex(file.text@)),
            None => match find_file(files, basename + ".html"@) {
                Some(file) => Ok(Fragment::Html(file.text@)),
                None => Err("No "@ + basename + " file found"@),
            },
        },
    }
}

/// The body of a page that is a single file with the extension
/// `extension` and the text `text`.
pub open spec fn bare_body(
    extension: Option<Seq<char>>,
    text: Seq<char>,
    files: Seq<SourceFile>,
) -> Result<Fragment, Seq<char>> {
    match format_named(extension) {
        Format::Markdown => match with_includes(text, files) {
            Ok(t) => Ok(Fragment::Markdown(t)),
            Err(e) => Err(e),
        },
        Format::Latex => Ok(Fragment::Latex(text)),
        Format::Html => Ok(Fragment::Html(text)),
        Format::Other => Err(unsupported_type_message(extension)),
    }
}

/// The title of a page that is a single file: that of its first line where
/// it is Markdown and begins with a heading, else none.
pub open spec fn bare_title(body: Fragment) -> Seq<char> {
    match body {
        Fragment::Markdown(t) => match heading_title(t) {
            Some(title) => title,
            None => Seq::empty(),
        },
        _ => Seq::empty(),
    }
}

/// An error that was met stays the result.
pub proof fn include_error_stays(
    lines: Seq<Seq<char>>,
    files: Seq<SourceFile>,
    final_newline: bool,
    m: int,
    n: int,
)
    requires
        0 <= m <= n,
        included_upto(lines, files, final_newline, m) is Err,
    ensures
        included_upto(lines, files, final_newline, n) == included_upto(
            lines,
            files,
            final_newline,
            m,
        ),
    decreases n - m,
{
    if m < n {
        include_error_stays(lines, files, final_newline, m, n - 1);
    }
}

/// The place in `files` of the first file named `name`.
pub fn file_named(files: &Vec<SourceFile>, name: &Vec<char>) -> (r: Option<usize>)
    ensures
        match r {
            Some(i) => i < files.len() && find_file(files@, name@) == Some(files[i as int]),
            None => find_file(files@, name@) is None,
        },
{
    let mut i: usize = 0;
    assert(files@.skip(0) == files@);
    while i < files.len()
        invariant
            i <= files.len(),
            find_file(files@, name@) == find_file(files@.skip(i as int), name@),
        decreases files.len() - i,
    {
        assert(files@.skip(i as int).drop_first() == files@.skip(i + 1));
        if is_str(name, files[i].name.as_str()) {
            return Some(i);
        }
        i += 1;
    }
    None
}

/// The file that the include directive `line` names.
pub fn included_file(line: &Vec<char>) -> (r: Vec<char>)
    ensures
        r@ == include_path(line@),
{
    let front = trimmed_start(line);
    let rest = strip_prefixes(&front, "#include");
    let bare = trimmed(&rest);
    let open = strip_prefixes(&bare, "\"");
    strip_trailing(&open, '"')
}

/// The files that the include directives of `text` name, in their order.
pub fn include_targets(text: &str) -> (r: Vec<String>)
    ensures
        strings_view(r@) == targets_upto(lines_of(text@), lines_of(text@).len() as int),
{
    let chars = chars_of(text);
    let lines = split_lines(&chars);
    let ghost ls = parts_view(lines@);
    let mut targets: Vec<String> = Vec::new();
    let mut i: usize = 0;
    assert(strings_view(targets@) =~= targets_upto(ls, 0));
    while i < lines.len()
        invariant
            i <= lines.len(),
            ls == parts_view(lines@),
            strings_view(targets@) == targets_upto(ls, i as int),
        decreases lines.len() - i,
    {
        assert(ls[i as int] == lines[i as int]@);
        let front = trimmed_start(&lines[i]);
        if begins_with(&front, "#include") {
            let path = included_file(&lines[i]);
            let ghost before = strings_view(targets@);
            targets.push(string_of(&path));
            assert(strings_view(targets@) =~= before.push(path@));
        }
        i += 1;
    }
    targets
}

/// Expands the include directives of the Markdown text `text`: each line
/// that begins with `#include` is replaced by the text of the file it
/// names, looked up in `files`.
pub fn load_markdown_with_includes(text: &str, files: &Vec<SourceFile>) -> (r: Result<
    String,
    String,
>)
    ensures
        match with_includes(text@, files@) {
            Ok(out) => r matches Ok(s) && s@ == out,
            Err(e) => r matches Err(msg) && msg@ == e,
        },
{
    let chars = chars_of(text);
    let lines = split_lines(&chars);
    let final_newline = chars.len() > 0 && chars[chars.len() - 1] == '\n';
    let ghost ls = parts_view(lines@);
    let mut out: Vec<char> = Vec::new();
    let mut i: usize = 0;
    while i < lines.len()
        invariant
            i <= lines.len(),
            ls == parts_view(lines@),
            ls == lines_of(text@),
            final_newline == ends_with_newline(text@),
            included_upto(ls, files@, final_newline, i as int) == Ok::<Seq<char>, Seq<char>>(out@),
        decreases lines.len() - i,
    {
        let ghost before = out@;
        let line = &lines[i];
        assert(ls[i as int] == line@);
        let front = trimmed_start(line);
        if begins_with(&front, "#include") {
            let path = included_file(line);
            match file_named(files, &path) {
                Some(k) => {
                    push_str(&mut out, files[k].text.as_str());
                },
                None => {
                    let mut e = chars_of("Included file not found: ");
                    push_all(&mut e, &path);
                    proof {
                        include_error_stays(ls, files@, final_newline, i + 1, lines.len() as int);
                    }
                    return Err(string_of(&e));
                },
            }
        } else {
            push_all(&mut out, line);
        }
        if i < lines.len() - 1 || final_newline {
            push_str(&mut out, "\n");
        } else {
            assert(out@ + Seq::<char>::empty() == out@);
        }
        i += 1;
    }
    Ok(string_of(&out))
}

impl Content {
    /// The metadata of the item.
    pub fn metadata(&self) -> (m: &ContentMetadata)
        ensures
            match *self {
                Content::Problem { metadata, .. } => *m == metadata,
                Content::Blog { metadata, .. } => *m == metadata,
                Content::Page { metadata, .. } => *m == metadata,
            },
    {
        match self {
            Content::Problem { metadata, .. } => metadata,
            Content::Blog { metadata, .. } => metadata,
            Content::Page { metadata, .. } => metadata,
        }
    }

    /// Puts the item of a directory together: `metadata` is what its
    /// metadata file says, `files` are the files beside it. A problem has
    /// a statement, solutions and hints; a blog entry and a page have a
    /// body in the file `body`; an item of unknown kind is an error.
    pub fn load(metadata: ContentMetadata, files: &Vec<SourceFile>) -> (r: Result<Content, String>)
        ensures
            match metadata.kind {
                ContentKind::Problem => is_problem_of(files@, metadata, r),
                ContentKind::Blog => match single_file(files@, "body"@) {
                    Ok(fragment) => r matches Ok(Content::Blog { metadata: m, body }) && m
                        == metadata && body@ == fragment,
                    Err(e) => r matches Err(msg) && msg@ == e,
                },
                ContentKind::Page => match single_file(files@, "body"@) {
                    Ok(fragment) => r matches Ok(Content::Page { metadata: m, body }) && m
                        == metadata && body@ == fragment,
                    Err(e) => r matches Err(msg) && msg@ == e,
                },
                ContentKind::Unknown => r matches Err(msg) && msg@
                    == "Unknown content type: Unknown"@,
            },
    {
        match metadata.kind {
            ContentKind::Problem => load_problem(files, metadata),
            ContentKind::Blog => match load_single_content_file(files, "body") {
                Ok(body) => Ok(Content::Blog { metadata, body }),
                Err(e) => Err(e),
            },
            ContentKind::Page => match load_single_content_file(files, "body") {
                Ok(body) => Ok(Content::Page { metadata, body }),
                Err(e) => Err(e),
            },
            ContentKind::Unknown => Err("Unknown content type: Unknown".to_owned()),
        }
    }

    /// The template that the item is rendered with where its metadata
    /// name none.
    pub fn default_template(&self) -> (name: &'static str)
        ensures
            match *self {
                Content::Problem { .. } => name@ == "problem.html"@,
                Content::Blog { .. } => name@ == "blog.html"@,
                Content::Page { .. } => name@ == "page.html"@,
            },
    {
        match self {
            Content::Problem { .. } => "problem.html",
            Content::Blog { .. } => "blog.html",
            Content::Page { .. } => "page.html",
        }
    }

    /// The name of the item's kind.
    pub fn content_type(&self) -> (name: &'static str)
        ensures
            match *self {
                Content::Problem { .. } => name@ == "problem"@,
                Content::Blog { .. } => name@ == "blog"@,
                Content::Page { .. } => name@ == "page"@,
            },
    {
        match self {
            Content::Problem { .. } => "problem",
            Content::Blog { .. } => "blog",
            Content::Page { .. } => "page",
        }
    }
}

/// The view of an optional text.
pub open spec fn option_view(o: Option<&str>) -> Option<Seq<char>> {
    match o {
        Some(s) => Some(s@),
        None => None,
    }
}

/// The format that a file with the extension `extension` is written in.
pub fn format_of(extension: &Option<Vec<char>>) -> (f: Format)
    ensures
        f == format_named(
            match *extension {
                Some(e) => Some(e@),
                None => None,
            },
        ),
{
    match extension {
        Some(e) => if is_str(e, "md") {
            Format::Markdown
        } else if is_str(e, "tex") {
            Format::Latex
        } else if is_str(e, "html") {
            Format::Html
        } else {
            Format::Other
        },
        None => Format::Other,
    }
}

/// Loads the file `file` as a fragment, by its extension.
pub fn load_formatted_file(file: &SourceFile, files: &Vec<SourceFile>) -> (r: Result<
    FormattedText,
    String,
>)
    ensures
        match formatted_file(*file, files@) {
            Ok(fragment) => r matches Ok(t) && t@ == fragment,
            Err(e) => r matches Err(msg) && msg@ == e,
        },
{
    let name = chars_of(file.name.as_str());
    match format_of(&extension(&name)) {
        Format::Markdown => match load_markdown_with_includes(file.text.as_str(), files) {
            Ok(text) => Ok(FormattedText::Markdown(text)),
            Err(e) => Err(e),
        },
        Format::Latex => Ok(FormattedText::Latex(file.text.clone())),
        _ => Err("Unsupported file extension".to_owned()),
    }
}

/// The name `basename` with the extension `ext`, which begins with a dot.
fn with_extension(basename: &str, ext: &str) -> (r: Vec<char>)
    ensures
        r@ == basename@ + ext@,
{
    let mut name = chars_of(basename);
    push_str(&mut name, ext);
    name
}

/// Loads the body of an item from the file `basename` with the extension
/// `md`, `tex` or `html`, whichever is found first in this order.
pub fn load_single_content_file(files: &Vec<SourceFile>, basename: &str) -> (r: Result<
    FormattedText,
    String,
>)
    ensures
        match single_file(files@, basename@) {
            Ok(fragment) => r matches Ok(t) && t@ == fragment,
            Err(e) => r matches Err(msg) && msg@ == e,
        },
{
    match file_named(files, &with_extension(basename, ".md")) {
        Some(i) => {
            return match load_markdown_with_includes(files[i].text.as_str(), files) {
                Ok(text) => Ok(FormattedText::Markdown(text)),
                Err(e) => Err(e),
            };
        },
        None => {},
    }
    match file_named(files, &with_extension(basename, ".tex")) {
        Some(i) => {
            return Ok(FormattedText::Latex(files[i].text.clone()));
        },
        None => {},
    }
    match file_named(files, &with_extension(basename, ".html")) {
        Some(i) => Ok(FormattedText::Html(files[i].text.clone())),
        None => {
            let mut e = chars_of("No ");
            push_str(&mut e, basename);
            push_str(&mut e, " file found");
            Err(string_of(&e))
        },
    }
}

/// The title that the first line of the Markdown text `text` gives a page.
pub fn title_of(text: &str) -> (r: Option<String>)
    ensures
        match r {
            Some(t) => heading_title(text@) == Some(t@),
            None => heading_title(text@) is None,
        },
{
    let chars = chars_of(text);
    let lines = split_lines(&chars);
    if lines.len() > 0 {
        assert(parts_view(lines@)[0] == lines[0]@);
        if begins_with(&lines[0], "# ") || begins_with(&lines[0], "## ") {
            let a = replace_all(&lines[0], "## ", "");
            let b = replace_all(&a, "# ", "");
            proof {
                reveal_strlit("");
                assert(""@ =~= Seq::<char>::empty());
            }
            return Some(string_of(&trimmed(&b)));
        }
    }
    None
}

/// Makes the page of a single file: a file with the extension `extension`
/// and the text `text`, to be written to `output_path` and shown at `url`.
/// The includes of a Markdown file are looked up in `files`.
pub fn load_bare_page(
    extension: Option<&str>,
    text: &str,
    files: &Vec<SourceFile>,
    output_path: String,
    url: String,
) -> (r: Result<Content, String>)
    ensures
        match bare_body(option_view(extension), text@, files@) {
            Ok(fragment) => r matches Ok(Content::Page { metadata, body }) && body@ == fragment
                && metadata.kind == ContentKind::Page && metadata.title@ == bare_title(fragment)
                && metadata.output_path == output_path && metadata.url == url
                && metadata.author is None && metadata.id is None && metadata.tags is None
                && metadata.timestamp is None && metadata.language is None
                && metadata.image is None,
            Err(e) => r matches Err(msg) && msg@ == e,
        },
{
    let mut metadata = ContentMetadata::default();
    metadata.kind = ContentKind::Page;
    metadata.output_path = output_path;
    metadata.url = url;
    let named = match extension {
        Some(e) => Some(chars_of(e)),
        None => None,
    };
    match format_of(&named) {
        Format::Markdown => match load_markdown_with_includes(text, files) {
            Ok(expanded) => {
                match title_of(expanded.as_str()) {
                    Some(title) => {
                        metadata.title = title;
                    },
                    None => {},
                }
                Ok(Content::Page { metadata, body: FormattedText::Markdown(expanded) })
            },
            Err(e) => Err(e),
        },
        Format::Latex => Ok(Content::Page { metadata, body: FormattedText::Latex(text.to_owned()) }),
        Format::Html => Ok(Content::Page { metadata, body: FormattedText::Html(text.to_owned()) }),
        Format::Other => Err(unsupported_type(extension)),
    }
}

/// The error for a page in a file with the extension `extension`.
fn unsupported_type(extension: Option<&str>) -> (r: String)
    ensures
        r@ == unsupported_type_message(option_view(extension)),
{
    match extension {
        Some(x) => {
            let mut e = chars_of("Unsupported file type: Some(\"");
            push_str(&mut e, x);
            push_str(&mut e, "\")");
            string_of(&e)
        },
        None => "Unsupported file type: None".to_owned(),
    }
}

} // verus!
