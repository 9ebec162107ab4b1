//! Document fragments and their conversion to HTML.

pub mod conversion;
pub mod latex_laws;
pub mod latex_scan;
pub mod markdown_engine;
pub mod markdown_expandable;
pub mod markdown_laws;
pub mod math_segments;
pub mod pandoc_latex_filters;
pub mod shell;
pub mod theorem;

pub use conversion::{
    latex_to_html, markdown_to_html, Conversion, FormattedText, LatexJob, RenderRequest,
};
pub use markdown_expandable::{preprocess_cards, preprocess_expandables};
pub use math_segments::{extract_math_segments, restore_math_segments};
pub use pandoc_latex_filters::{EnvFilter, PandocFilter};
pub use theorem::Theorem;
