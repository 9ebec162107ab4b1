//! Content items: what a page, a blog entry or a problem is made of, and
//! how one is put together from the files of its directory.

pub mod content;
pub mod metadata;
pub mod paths;
pub mod problem;

pub use content::{Content, SourceFile};
pub use metadata::{ContentKind, ContentMetadata};
pub use paths::{content_output_path, content_url};
pub use problem::load_problem;
