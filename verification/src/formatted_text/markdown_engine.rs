//! The Markdown engine: the `comrak` crate, with the extensions that the
//! site's pages are written for.

use crate::text::{chars_of, is_str};
use comrak::plugins::syntect::SyntectAdapterBuilder;
use vstd::prelude::*;

verus! {

/// The switches of the Markdown engine that the conversion sets.
#[derive(Debug, Clone, Copy)]
pub struct MarkdownOptions {
    /// Task lists.
    pub tasklist: bool,
    /// Struck-through text.
    pub strikethrough: bool,
    /// Tables.
    pub table: bool,
    /// Bare addresses become links.
    pub autolink: bool,
    /// Alert blocks.
    pub alerts: bool,
    /// Typographic quotes, dashes and ellipses.
    pub smart: bool,
    /// HTML in the source is written out as it stands.
    pub raw_html: bool,
}

/// The HTML that `comrak::markdown_to_html_with_plugins` writes for
/// `markdown` with the given switches set, all other options left at their
/// defaults, and code blocks highlighted by the crate's syntect adapter
/// with the theme `theme`.
pub uninterp spec fn comrak_html(
    markdown: Seq<char>,
    theme: Seq<char>,
    tasklist: bool,
    strikethrough: bool,
    table: bool,
    autolink: bool,
    alerts: bool,
    smart: bool,
    raw_html: bool,
) -> Seq<char>;

/// `theme` is one of the themes that the highlighter brings along.
pub open spec fn known_theme(theme: Seq<char>) -> bool {
    ||| theme == "base16-ocean.dark"@
    ||| theme == "base16-eighties.dark"@
    ||| theme == "base16-mocha.dark"@
    ||| theme == "base16-ocean.light"@
    ||| theme == "InspiredGitHub"@
    ||| theme == "Solarized (dark)"@
    ||| theme == "Solarized (light)"@
}

/// The HTML that `comrak::markdown_to_html` writes for `markdown` with the
/// given switches set and all other options left at their defaults: the
/// engine without a highlighter.
pub uninterp spec fn comrak_plain_html(
    markdown: Seq<char>,
    tasklist: bool,
    strikethrough: bool,
    table: bool,
    autolink: bool,
    alerts: bool,
    smart: bool,
    raw_html: bool,
) -> Seq<char>;

/// The HTML that the engine writes for `markdown` with the options
/// `options`. Code blocks are highlighted with the theme `theme` where the
/// highlighter knows it, and are left plain where it does not.
pub open spec fn engine_html(
    markdown: Seq<char>,
    options: MarkdownOptions,
    theme: Seq<char>,
) -> Seq<char> {
    if known_theme(theme) {
        comrak_html(
            markdown,
            theme,
            options.tasklist,
            options.strikethrough,
            options.table,
            options.autolink,
            options.alerts,
            options.smart,
            options.raw_html,
        )
    } else {
        comrak_plain_html(
            markdown,
            options.tasklist,
            options.strikethrough,
            options.table,
            options.autolink,
            options.alerts,
            options.smart,
            options.raw_html,
        )
    }
}

/// Calls `comrak::markdown_to_html_with_plugins` with the switches of
/// `options` and with the adapter that `SyntectAdapterBuilder` builds for
/// `theme`, and gives what comes back its name. The adapter looks the theme
/// up among syntect's default themes when it meets a code block, and panics
/// where it is not among them: the contract asks for one of those themes.
#[verifier::external_body]
fn markdown_to_html_with_plugins(markdown: &str, options: &MarkdownOptions, theme: &str) -> (html:
    String)
    requires
        known_theme(theme@),
    ensures
        html@ == comrak_html(
            markdown@,
            theme@,
            options.tasklist,
            options.strikethrough,
            options.table,
            options.autolink,
            options.alerts,
            options.smart,
            options.raw_html,
        ),
{
    let mut o = comrak::Options::default();
    o.extension.tasklist = options.tasklist;
    o.extension.strikethrough = options.strikethrough;
    o.extension.table = options.table;
    o.extension.autolink = options.autolink;
    o.extension.alerts = options.alerts;
    o.parse.smart = options.smart;
    o.render.unsafe_ = options.raw_html;
    let adapter = SyntectAdapterBuilder::new().theme(theme).build();
    let mut plugins = comrak::Plugins::default();
    plugins.render.codefence_syntax_highlighter = Some(&adapter);
    comrak::markdown_to_html_with_plugins(markdown, &o, &plugins)
}

/// Calls `comrak::markdown_to_html` with the switches of `options`, and
/// gives what comes back its name.
#[verifier::external_body]
fn markdown_to_html(markdown: &str, options: &MarkdownOptions) -> (html: String)
    ensures
        html@ == comrak_plain_html(
            markdown@,
            options.tasklist,
            options.strikethrough,
            options.table,
            options.autolink,
            options.alerts,
            options.smart,
            options.raw_html,
        ),
{
    let mut o = comrak::Options::default();
    o.extension.tasklist = options.tasklist;
    o.extension.strikethrough = options.strikethrough;
    o.extension.table = options.table;
    o.extension.autolink = options.autolink;
    o.extension.alerts = options.alerts;
    o.parse.smart = options.smart;
    o.render.unsafe_ = options.raw_html;
    comrak::markdown_to_html(markdown, &o)
}

/// Whether `theme` is one of the themes that the highlighter brings along.
pub fn is_known_theme(theme: &str) -> (r: bool)
    ensures
        r == known_theme(theme@),
{
    let t = chars_of(theme);
    is_str(&t, "base16-ocean.dark") || is_str(&t, "base16-eighties.dark") || is_str(
        &t,
        "base16-mocha.dark",
    ) || is_str(&t, "base16-ocean.light") || is_str(&t, "InspiredGitHub") || is_str(
        &t,
        "Solarized (dark)",
    ) || is_str(&t, "Solarized (light)")
}

/// Runs the Markdown engine on `markdown`, with the highlighter where it
/// knows `theme` and without it where it does not.
pub fn render_markdown(markdown: &str, options: &MarkdownOptions, theme: &str) -> (html: String)
    ensures
        html@ == engine_html(markdown@, *options, theme@),
{
    if is_known_theme(theme) {
        markdown_to_html_with_plugins(markdown, options, theme)
    } else {
        markdown_to_html(markdown, options)
    }
}

} // verus!
