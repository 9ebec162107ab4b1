//! What is known of a content item besides its text.

use crate::text::{chars_of, is_str};
use vstd::prelude::*;

verus! {

/// The kind of a content item.
#[derive(Debug, Clone, Copy, PartialEq, Eq, Structural)]
pub enum ContentKind {
    Problem,
    Blog,
    Page,
    Unknown,
}

impl Default for ContentKind {
    /// The kind of an item that names none.
    fn default() -> (k: ContentKind)
        ensures
            k == ContentKind::Unknown,
    {
        ContentKind::Unknown
    }
}

impl ContentKind {
    /// The kind that the metadata names `name`: the kind's name in lower
    /// case. Any other name names no kind.
    pub open spec fn named(name: Seq<char>) -> Option<ContentKind> {
        if name == "problem"@ {
            Some(ContentKind::Problem)
        } else if name == "blog"@ {
            Some(ContentKind::Blog)
        } else if name == "page"@ {
            Some(ContentKind::Page)
        } else if name == "unknown"@ {
            Some(ContentKind::Unknown)
        } else {
            None
        }
    }

    /// The kind named `name`.
    pub fn from_name(name: &str) -> (k: Option<ContentKind>)
        ensures
            k == ContentKind::named(name@),
    {
        let n = chars_of(name);
        if is_str(&n, "problem") {
            Some(ContentKind::Problem)
        } else if is_str(&n, "blog") {
            Some(ContentKind::Blog)
        } else if is_str(&n, "page") {
            Some(ContentKind::Page)
        } else if is_str(&n, "unknown") {
            Some(ContentKind::Unknown)
        } else {
            None
        }
    }
}

/// The metadata of a content item.
#[derive(Debug)]
pub struct ContentMetadata {
    pub title: String,
    pub author: Option<String>,
    pub id: Option<String>,
    pub tags: Option<Vec<String>>,
    pub timestamp: Option<String>,
    pub language: Option<String>,
    pub image: Option<String>,
    pub kind: ContentKind,
    /// Where the item's page is written.
    pub output_path: String,
    /// The address of the item's page on the site.
    pub url: String,
}

impl Default for ContentMetadata {
    /// The metadata of an item of which nothing is known.
    fn default() -> (m: ContentMetadata)
        ensures
            m.title@.len() == 0,
            m.author is None,
            m.id is None,
            m.tags is None,
            m.timestamp is None,
            m.language is None,
            m.image is None,
            m.kind == ContentKind::Unknown,
            m.output_path@.len() == 0,
            m.url@.len() == 0,
    {
        ContentMetadata {
            title: String::new(),
            author: None,
            id: None,
            tags: None,
            timestamp: None,
            language: None,
            image: None,
            kind: ContentKind::Unknown,
            output_path: String::new(),
            url: String::new(),
        }
    }
}

} // verus!
