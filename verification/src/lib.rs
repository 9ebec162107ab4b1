//! Conversion of LaTeX and Markdown document fragments to HTML.
//!
//! The crate holds the text transformations and the decisions of the
//! conversion pipeline. Reading files, spawning the external renderer and
//! filling templates are left to the program that uses it.

pub mod config;
pub mod content;
pub mod formatted_text;
pub mod path;
pub mod pattern;
pub mod render;
pub mod table;
pub mod text;
