//! The images of a content item: where they are copied to, and how the
//! HTML is rewritten to point there.

use crate::path::{join, joined, relative_path, relative_to};
use crate::pattern::{
    found_view, gaps_of, group, matches_of, scan, weave, whole, woven, Found, Groups,
};
use crate::text::{
    begins_with, chars_of, copy_of, found_at, is_str, parts_view, push_all, push_str,
    replace_all, replaced, same_chars, starts_with, string_of, strings_view,
};
use vstd::prelude::*;

verus! {

/// The pattern of an image tag, its source in group 1.
pub const IMG_PATTERN: &'static str = r#"<img\s+[^>]*src=["']([^"']+)["'][^>]*>"#;

/// The pattern of a `url(..)` reference of a style, its address in group 1.
pub const CSS_URL_PATTERN: &'static str = r#"url\(['"]?([^'"\)]+)['"]?\)"#;

/// `extension`, which is in lower case, is one that image files have.
pub open spec fn is_image_extension(extension: Seq<char>) -> bool {
    ||| extension == "jpg"@
    ||| extension == "jpeg"@
    ||| extension == "png"@
    ||| extension == "gif"@
    ||| extension == "bmp"@
    ||| extension == "tiff"@
    ||| extension == "svg"@
}

/// `path` with forward slashes in place of its backslashes.
pub open spec fn normalized(path: Seq<char>) -> Seq<char> {
    replaced(path, "\\"@, "/"@)
}

/// `path` is an address of its own: one with a scheme or one from the root
/// of the site.
pub open spec fn is_absolute(path: Seq<char>) -> bool {
    starts_with(path, "http://"@) || starts_with(path, "https://"@) || starts_with(path, "data:"@)
        || starts_with(path, "/"@)
}

/// `path` and the image path `image` are the same or one begins with the
/// other.
pub open spec fn related(path: Seq<char>, image: Seq<char>) -> bool {
    path == image || starts_with(path, image) || starts_with(image, path)
}

/// Whether the address `path` in the HTML is to be prefixed: it is not an
/// address of its own, and it is related to one of the images `images`.
pub open spec fn needs_prefix(path: Seq<char>, images: Seq<Seq<char>>) -> bool {
    !is_absolute(path) && exists|i: int|
        0 <= i < images.len() && related(normalized(path), #[trigger] images[i])
}

/// What becomes of an image tag: where its source is to be prefixed,
/// every occurrence of the source in the tag gets the prefix.
pub open spec fn prefixed_tag(m: Groups, images: Seq<Seq<char>>, root: Seq<char>) -> Seq<char> {
    match group(m, 1) {
        Some(src) => if needs_prefix(src, images) {
            replaced(whole(m), src, root + src)
        } else {
            whole(m)
        },
        None => whole(m),
    }
}

/// What becomes of a `url(..)` reference: where its address is to be
/// prefixed, it is written anew with the prefix and in single quotes.
pub open spec fn prefixed_reference(m: Groups, images: Seq<Seq<char>>, root: Seq<char>) -> Seq<
    char,
> {
    match group(m, 1) {
        Some(address) => if needs_prefix(address, images) {
            "url('"@ + root + address + "')"@
        } else {
            whole(m)
        },
        None => whole(m),
    }
}

/// `html` with its image tags rewritten.
pub open spec fn with_prefixed_tags(
    html: Seq<char>,
    images: Seq<Seq<char>>,
    root: Seq<char>,
) -> Seq<char> {
    let ms = matches_of(IMG_PATTERN@, html);
    woven(
        gaps_of(IMG_PATTERN@, html),
        ms.map_values(|m: Groups| prefixed_tag(m, images, root)),
        ms.len() as int,
    )
}

/// `html` with its `url(..)` references rewritten.
pub open spec fn with_prefixed_references(
    html: Seq<char>,
    images: Seq<Seq<char>>,
    root: Seq<char>,
) -> Seq<char> {
    let ms = matches_of(CSS_URL_PATTERN@, html);
    woven(
        gaps_of(CSS_URL_PATTERN@, html),
        ms.map_values(|m: Groups| prefixed_reference(m, images, root)),
        ms.len() as int,
    )
}

/// `html` with the addresses of the images `images` prefixed by `root`:
/// first in its image tags, then in its `url(..)` references.
pub open spec fn prefixed(html: Seq<char>, images: Seq<Seq<char>>, root: Seq<char>) -> Seq<char> {
    with_prefixed_references(with_prefixed_tags(html, images, root), images, root)
}

/// The address under which the images of the item at `relative` are found.
pub open spec fn asset_prefix(relative: Seq<char>) -> Seq<char> {
    "/static/assets/"@ + relative + "/"@
}

/// The error for an item that does not lie in the content directory.
pub open spec fn outside_message(path: Seq<char>, base: Seq<char>) -> Seq<char> {
    "Path "@ + path + " is not inside "@ + base
}

/// The images of one content item.
pub struct ImageProcessor {
    path: String,
    content_dir: String,
    build_dir: String,
    images: Vec<String>,
    url_prefix: Option<String>,
}

/// One file to copy.
#[derive(Debug)]
pub struct CopyStep {
    pub source: String,
    pub target: String,
}

/// Whether a file with the extension `extension`, given in lower case, is
/// an image.
pub fn has_image_extension(extension: &str) -> (r: bool)
    ensures
        r == is_image_extension(extension@),
{
    let e = chars_of(extension);
    is_str(&e, "jpg") || is_str(&e, "jpeg") || is_str(&e, "png") || is_str(&e, "gif") || is_str(
        &e,
        "bmp",
    ) || is_str(&e, "tiff") || is_str(&e, "svg")
}

/// Replaces backslashes by forward slashes.
pub fn normalize_path(path: &Vec<char>) -> (r: Vec<char>)
    ensures
        r@ == normalized(path@),
{
    replace_all(path, "\\", "/")
}

/// Whether the address `path` is to be prefixed, `normalized_paths` being
/// the paths of the images.
pub fn should_prefix(path: &Vec<char>, normalized_paths: &Vec<Vec<char>>) -> (r: bool)
    ensures
        r == needs_prefix(path@, parts_view(normalized_paths@)),
{
    if begins_with(path, "http://") || begins_with(path, "https://") || begins_with(path, "data:")
        || begins_with(path, "/") {
        return false;
    }
    let normal = normalize_path(path);
    let ghost images = parts_view(normalized_paths@);
    let mut i: usize = 0;
    while i < normalized_paths.len()
        invariant
            i <= normalized_paths.len(),
            images == parts_view(normalized_paths@),
            normal@ == normalized(path@),
            !is_absolute(path@),
            forall|j: int| 0 <= j < i ==> !related(normal@, #[trigger] images[j]),
        decreases normalized_paths.len() - i,
    {
        let p = &normalized_paths[i];
        assert(images[i as int] == p@);
        if same_chars(&normal, p) || found_at(&normal, 0, p) || found_at(
            p,
            0,
            &normal,
        ) {
            assert(related(normalized(path@), images[i as int]));
            return true;
        }
        i += 1;
    }
    false
}

/// The whole text of the match `m`.
fn whole_of(m: &Found) -> (r: Vec<char>)
    ensures
        r@ == whole(m@),
{
    if m.groups.len() > 0 {
        match &m.groups[0] {
            Some(t) => copy_of(t),
            None => Vec::new(),
        }
    } else {
        Vec::new()
    }
}

/// Rewrites the image tags in `found`, which were found in a text with
/// `gaps` around them.
pub fn prefix_tags(
    found: &Vec<Found>,
    gaps: &Vec<Vec<char>>,
    images: &Vec<Vec<char>>,
    root: &Vec<char>,
) -> (r: Vec<char>)
    ensures
        r@ == woven(
            parts_view(gaps@),
            found_view(found@).map_values(|m: Groups| prefixed_tag(m, parts_view(images@), root@)),
            found.len() as int,
        ),
{
    let mut parts: Vec<Vec<char>> = Vec::new();
    let mut i: usize = 0;
    while i < found.len()
        invariant
            i <= found.len(),
            parts.len() == i,
            forall|j: int|
                0 <= j < i ==> (#[trigger] parts[j])@ == prefixed_tag(
                    found[j]@,
                    parts_view(images@),
                    root@,
                ),
        decreases found.len() - i,
    {
        let m = &found[i];
        let all = whole_of(m);
        let part = if m.groups.len() > 1 {
            match &m.groups[1] {
                Some(src) => {
                    if should_prefix(src, images) {
                        let mut to = copy_of(root);
                        push_all(&mut to, src);
                        let src_text = string_of(src);
                        let to_text = string_of(&to);
                        replace_all(&all, src_text.as_str(), to_text.as_str())
                    } else {
                        all
                    }
                },
                None => all,
            }
        } else {
            all
        };
        parts.push(part);
        i += 1;
    }
    assert(parts_view(parts@) =~= found_view(found@).map_values(
        |m: Groups| prefixed_tag(m, parts_view(images@), root@),
    ));
    weave(gaps, &parts)
}

/// Rewrites the `url(..)` references in `found`, which were found in a
/// text with `gaps` around them.
pub fn prefix_references(
    found: &Vec<Found>,
    gaps: &Vec<Vec<char>>,
    images: &Vec<Vec<char>>,
    root: &Vec<char>,
) -> (r: Vec<char>)
    ensures
        r@ == woven(
            parts_view(gaps@),
            found_view(found@).map_values(
                |m: Groups| prefixed_reference(m, parts_view(images@), root@),
            ),
            found.len() as int,
        ),
{
    let mut parts: Vec<Vec<char>> = Vec::new();
    let mut i: usize = 0;
    while i < found.len()
        invariant
            i <= found.len(),
            parts.len() == i,
            forall|j: int|
                0 <= j < i ==> (#[trigger] parts[j])@ == prefixed_reference(
                    found[j]@,
                    parts_view(images@),
                    root@,
                ),
        decreases found.len() - i,
    {
        let m = &found[i];
        let all = whole_of(m);
        let part = if m.groups.len() > 1 {
            match &m.groups[1] {
                Some(address) => {
                    if should_prefix(address, images) {
                        let mut to = chars_of("url('");
                        push_all(&mut to, root);
                        push_all(&mut to, address);
                        push_str(&mut to, "')");
                        to
                    } else {
                        all
                    }
                },
                None => all,
            }
        } else {
            all
        };
        parts.push(part);
        i += 1;
    }
    assert(parts_view(parts@) =~= found_view(found@).map_values(
        |m: Groups| prefixed_reference(m, parts_view(images@), root@),
    ));
    weave(gaps, &parts)
}

/// Prefixes the addresses of the images `image_paths` in `html` with
/// `root_url`, in image tags and in `url(..)` references.
pub fn prefix_image_urls(html: &str, image_paths: &Vec<String>, root_url: &str) -> (r: String)
    ensures
        r@ == prefixed(html@, normalized_all(strings_view(image_paths@)), root_url@),
{
    let mut images: Vec<Vec<char>> = Vec::new();
    let mut i: usize = 0;
    while i < image_paths.len()
        invariant
            i <= image_paths.len(),
            images.len() == i,
            forall|j: int| 0 <= j < i ==> (#[trigger] images[j])@ == normalized(image_paths[j]@),
        decreases image_paths.len() - i,
    {
        let path = chars_of(image_paths[i].as_str());
        images.push(normalize_path(&path));
        i += 1;
    }
    assert(parts_view(images@) =~= normalized_all(strings_view(image_paths@)));
    let root = chars_of(root_url);
    let text = chars_of(html);
    let tags = scan(IMG_PATTERN, &text);
    assert(tags.found.len() == found_view(tags.found@).len());
    let first = prefix_tags(&tags.found, &tags.gaps, &images, &root);
    let references = scan(CSS_URL_PATTERN, &first);
    assert(references.found.len() == found_view(references.found@).len());
    let second = prefix_references(&references.found, &references.gaps, &images, &root);
    string_of(&second)
}

/// Every path of `paths` normalized.
pub open spec fn normalized_all(paths: Seq<Seq<char>>) -> Seq<Seq<char>> {
    paths.map_values(|p: Seq<char>| normalized(p))
}

/// Where the images of an item lie in the build: under `static/assets` in
/// `build_dir`, at the item's place `relative` in the content.
pub open spec fn assets_dir(build_dir: Seq<char>, relative: Seq<char>) -> Seq<char> {
    joined(joined(build_dir, "static/assets"@), relative)
}

impl ImageProcessor {
    /// The directory of the item.
    pub closed spec fn path(&self) -> Seq<char> {
        self.path@
    }

    /// The directory that holds all content.
    pub closed spec fn content_dir(&self) -> Seq<char> {
        self.content_dir@
    }

    /// The directory that the site is built in.
    pub closed spec fn build_dir(&self) -> Seq<char> {
        self.build_dir@
    }

    /// The paths of the item's images, as seen from its directory.
    pub closed spec fn images(&self) -> Seq<Seq<char>> {
        strings_view(self.images@)
    }

    /// The prefix of the images' addresses, once they have been copied.
    pub closed spec fn url_prefix(&self) -> Option<Seq<char>> {
        match self.url_prefix {
            Some(p) => Some(p@),
            None => None,
        }
    }

    /// The processor for the item in the directory `path`, whose images
    /// are `images`, given by their paths inside that directory.
    pub fn new(path: String, content_dir: String, build_dir: String, images: Vec<String>) -> (p:
        Self)
        ensures
            p.path() == path@,
            p.content_dir() == content_dir@,
            p.build_dir() == build_dir@,
            p.images() == strings_view(images@),
            p.url_prefix() is None,
    {
        ImageProcessor { path, content_dir, build_dir, images, url_prefix: None }
    }

    /// Whether the item has images.
    pub fn has_images(&self) -> (r: bool)
        ensures
            r == (self.images().len() > 0),
    {
        self.images.len() > 0
    }

    /// The number of the item's images.
    pub fn image_count(&self) -> (n: usize)
        ensures
            n == self.images().len(),
    {
        self.images.len()
    }

    /// Plans the copying of the images into the build and sets the prefix
    /// of their addresses. Returns, for each image, the file to copy and
    /// where to copy it to. An item without images needs no copying and
    /// gets no prefix; an item that does not lie in the content directory
    /// is an error.
    pub fn copy_images_to_build_dir(&mut self) -> (r: Result<Vec<CopyStep>, String>)
        ensures
            final(self).path() == old(self).path(),
            final(self).content_dir() == old(self).content_dir(),
            final(self).build_dir() == old(self).build_dir(),
            final(self).images() == old(self).images(),
            old(self).images().len() == 0 ==> (r matches Ok(steps) && steps.len() == 0
                && final(self).url_prefix() == old(self).url_prefix()),
            old(self).images().len() > 0 ==> match relative_to(
                old(self).path(),
                old(self).content_dir(),
            ) {
                None => r matches Err(msg) && msg@ == outside_message(
                    old(self).path(),
                    old(self).content_dir(),
                ) && final(self).url_prefix() == old(self).url_prefix(),
                Some(rel) => r matches Ok(steps) && steps.len() == old(self).images().len()
                    && final(self).url_prefix() == Some(asset_prefix(rel)) && forall|i: int|
                    0 <= i < steps.len() ==> (#[trigger] steps[i]).source@ == joined(
                        old(self).path(),
                        old(self).images()[i],
                    ) && steps[i].target@ == joined(
                        assets_dir(old(self).build_dir(), rel),
                        old(self).images()[i],
                    ),
            },
    {
        let mut steps: Vec<CopyStep> = Vec::new();
        if self.images.len() == 0 {
            return Ok(steps);
        }
        let path = chars_of(self.path.as_str());
        let base = chars_of(self.content_dir.as_str());
        let rel = match relative_path(&path, &base) {
            Some(rel) => rel,
            None => {
                let mut e = chars_of("Path ");
                push_all(&mut e, &path);
                push_str(&mut e, " is not inside ");
                push_all(&mut e, &base);
                return Err(string_of(&e));
            },
        };
        let build = chars_of(self.build_dir.as_str());
        let assets = join(&join(&build, &chars_of("static/assets")), &rel);
        let mut i: usize = 0;
        while i < self.images.len()
            invariant
                i <= self.images.len(),
                steps.len() == i,
                *self == *old(self),
                path@ == self.path(),
                assets@ == assets_dir(self.build_dir(), rel@),
                forall|j: int|
                    0 <= j < i ==> (#[trigger] steps[j]).source@ == joined(
                        self.path(),
                        self.images()[j],
                    ) && steps[j].target@ == joined(assets@, self.images()[j]),
            decreases self.images.len() - i,
        {
            let image = chars_of(self.images[i].as_str());
            assert(self.images()[i as int] == image@);
            steps.push(
                CopyStep {
                    source: string_of(&join(&path, &image)),
                    target: string_of(&join(&assets, &image)),
                },
            );
            i += 1;
        }
        let mut prefix = chars_of("/static/assets/");
        push_all(&mut prefix, &rel);
        push_str(&mut prefix, "/");
        self.url_prefix = Some(string_of(&prefix));
        Ok(steps)
    }

    /// Rewrites `html` so that the item's images are found where they were
    /// copied to. Before they are copied the HTML stays as it is.
    pub fn update_html_with_image_urls(&self, html: &str) -> (r: String)
        ensures
            r@ == match self.url_prefix() {
                Some(prefix) => prefixed(html@, normalized_all(self.images()), prefix),
                None => html@,
            },
    {
        match &self.url_prefix {
            Some(prefix) => prefix_image_urls(html, &self.images, prefix.as_str()),
            None => html.to_owned(),
        }
    }

    /// Rewrites each of `html_contents`.
    pub fn update_multiple_html(&self, html_contents: &Vec<String>) -> (r: Vec<String>)
        ensures
            r.len() == html_contents.len(),
            forall|i: int|
                0 <= i < r.len() ==> (#[trigger] r[i])@ == match self.url_prefix() {
                    Some(prefix) => prefixed(
                        html_contents[i]@,
                        normalized_all(self.images()),
                        prefix,
                    ),
                    None => html_contents[i]@,
                },
    {
        let mut out: Vec<String> = Vec::new();
        let mut i: usize = 0;
        while i < html_contents.len()
            invariant
                i <= html_contents.len(),
                out.len() == i,
                forall|j: int|
                    0 <= j < i ==> (#[trigger] out[j])@ == match self.url_prefix() {
                        Some(prefix) => prefixed(
                            html_contents[j]@,
                            normalized_all(self.images()),
                            prefix,
                        ),
                        None => html_contents[j]@,
                    },
            decreases html_contents.len() - i,
        {
            out.push(self.update_html_with_image_urls(html_contents[i].as_str()));
            i += 1;
        }
        out
    }
}

} // verus!
