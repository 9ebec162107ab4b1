//! The settings of a site, as far as the conversion reads them.

use crate::formatted_text::theorem::Theorem;
use vstd::prelude::*;

verus! {

/// The settings of a site.
pub struct Config {
    /// Where the pages are written.
    pub build_dir: String,
    /// Where the sources lie.
    pub content_dir: String,
    /// Where the templates lie.
    pub template_dir: String,
    /// The file of translations, if there is one.
    pub translations_csv: Option<String>,
    /// The theme that code blocks are highlighted with.
    pub syntax_highlighter_theme: String,
    /// The language of the site.
    pub language: String,
    /// The direction of its text.
    pub text_direction: String,
    /// The kinds of theorem that LaTeX fragments may use.
    pub theorems: Vec<Theorem>,
    /// Whether math in Markdown goes through the Markdown engine. Where it
    /// does not, math spans are taken out before and put back after.
    pub escape_markdown_in_math: bool,
}

/// The language of a site that names none.
pub fn default_language() -> (s: String)
    ensures
        s@ == "en"@,
{
    "en".to_owned()
}

/// The text direction of a site that names none.
pub fn default_text_direction() -> (s: String)
    ensures
        s@ == "ltr"@,
{
    "ltr".to_owned()
}

/// Math in Markdown goes through the Markdown engine unless the site says
/// otherwise.
pub fn default_escape_markdown_in_math() -> (r: bool)
    ensures
        r,
{
    true
}

/// The highlighting theme of a site that names none.
pub fn default_syntax_highlighter_theme() -> (s: String)
    ensures
        s@ == "base16-ocean.dark"@,
{
    "base16-ocean.dark".to_owned()
}

/// The template of a list page that names none.
pub fn default_template() -> (s: String)
    ensures
        s@ == "list.html"@,
{
    "list.html".to_owned()
}

impl Default for Config {
    /// The empty settings: no directory, no theme, no kind of theorem, and
    /// math taken out of the Markdown engine's way.
    fn default() -> (c: Config)
        ensures
            c.build_dir@.len() == 0,
            c.content_dir@.len() == 0,
            c.template_dir@.len() == 0,
            c.translations_csv is None,
            c.syntax_highlighter_theme@.len() == 0,
            c.language@.len() == 0,
            c.text_direction@.len() == 0,
            c.theorems@.len() == 0,
            !c.escape_markdown_in_math,
    {
        Config {
            build_dir: String::new(),
            content_dir: String::new(),
            template_dir: String::new(),
            translations_csv: None,
            syntax_highlighter_theme: String::new(),
            language: String::new(),
            text_direction: String::new(),
            theorems: Vec::new(),
            escape_markdown_in_math: false,
        }
    }
}

} // verus!
