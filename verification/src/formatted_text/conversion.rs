//! The dispatcher: which pipeline a fragment goes through, and what it
//! hands to the external renderer and takes back from it.

use super::latex_scan::outcome;
use super::markdown_engine::{engine_html, render_markdown, MarkdownOptions};
use super::markdown_expandable::{
    cards_from, expandables_from, preprocess_cards, preprocess_expandables,
};
use super::math_segments::{
    extract_math_segments, extracted, restore_math_segments, with_segments,
};
use super::pandoc_latex_filters::{
    cleaned, preprocessed, restored, result_view, EnvFilter, PandocFilter,
};
use super::theorem::Theorem;
use crate::config::Config;
use crate::text::lines_of;
use vstd::prelude::*;

verus! {

/// A fragment of a document, tagged by the format it is written in.
#[derive(Debug, Clone)]
pub enum FormattedText {
    Latex(String),
    Markdown(String),
    Html(String),
}

/// A fragment as a value: its format and its text.
pub enum Fragment {
    Latex(Seq<char>),
    Markdown(Seq<char>),
    Html(Seq<char>),
}

impl View for FormattedText {
    type V = Fragment;

    open spec fn view(&self) -> Fragment {
        match *self {
            FormattedText::Latex(s) => Fragment::Latex(s@),
            FormattedText::Markdown(s) => Fragment::Markdown(s@),
            FormattedText::Html(s) => Fragment::Html(s@),
        }
    }
}

/// What the external renderer is asked to do: the command to run, its
/// arguments, the text for its standard input, and the time it may take.
#[derive(Debug)]
pub struct RenderRequest {
    pub command: String,
    pub args: Vec<String>,
    pub input: String,
    pub timeout_millis: u64,
}

/// A LaTeX fragment that has been preprocessed and waits for the external
/// renderer: the request for it, and the filter that will clean up what
/// the renderer writes.
pub struct LatexJob {
    pub request: RenderRequest,
    pub filter: EnvFilter,
}

/// How far a conversion has come.
pub enum Conversion {
    /// The HTML is ready.
    Html(String),
    /// The external renderer has to run; its outcome goes to
    /// `LatexJob::finish`.
    Latex(LatexJob),
}

/// `request` asks the renderer to read `input` as LaTeX and to write HTML
/// with the math left as LaTeX, within a second.
pub open spec fn is_latex_request(request: RenderRequest, input: Seq<char>) -> bool {
    &&& request.command@ == "pandoc"@
    &&& request.args@.len() == 3
    &&& request.args@[0]@ == "--from=latex"@
    &&& request.args@[1]@ == "--to=html"@
    &&& request.args@[2]@ == "--mathjax"@
    &&& request.input@ == input
    &&& request.timeout_millis == 1000
}

/// The options that Markdown fragments are rendered with.
pub open spec fn site_options() -> MarkdownOptions {
    MarkdownOptions {
        tasklist: true,
        strikethrough: true,
        table: true,
        autolink: true,
        alerts: true,
        smart: true,
        raw_html: true,
    }
}

/// `markdown` with its expandable blocks and then its cards rewritten.
pub open spec fn with_blocks(markdown: Seq<char>) -> Seq<char> {
    cards_from(lines_of(expandables_from(lines_of(markdown), 0, 0)), 0)
}

/// The HTML of the Markdown fragment `markdown`. Its block directives are
/// rewritten first. Where `escape_math` holds the engine sees the math;
/// else the math spans are taken out before the engine runs and put back
/// into what it wrote.
pub open spec fn markdown_html(markdown: Seq<char>, theme: Seq<char>, escape_math: bool) -> Seq<
    char,
> {
    if escape_math {
        engine_html(with_blocks(markdown), site_options(), theme)
    } else {
        let parts = extracted(with_blocks(markdown), 0, 0);
        with_segments(engine_html(parts.0, site_options(), theme), parts.1)
    }
}

/// The options that Markdown fragments are rendered with.
pub fn markdown_options() -> (o: MarkdownOptions)
    ensures
        o == site_options(),
{
    MarkdownOptions {
        tasklist: true,
        strikethrough: true,
        table: true,
        autolink: true,
        alerts: true,
        smart: true,
        raw_html: true,
    }
}

/// The request to render `input` as LaTeX.
pub fn latex_request(input: String) -> (request: RenderRequest)
    ensures
        is_latex_request(request, input@),
{
    let mut args: Vec<String> = Vec::new();
    args.push("--from=latex".to_owned());
    args.push("--to=html".to_owned());
    args.push("--mathjax".to_owned());
    RenderRequest { command: "pandoc".to_owned(), args, input, timeout_millis: 1000 }
}

impl LatexJob {
    /// The labels of theorems that preprocessing met.
    pub open spec fn labels(&self) -> Map<Seq<char>, Seq<char>> {
        self.filter.theorem_labels()
    }

    /// Takes the outcome of the external renderer. An error is handed on
    /// as it is; HTML is postprocessed: the anchors of theorem labels are
    /// cleaned, the references to equations restored and the equations
    /// unwrapped.
    pub fn finish(self, rendered: Result<String, String>) -> (r: Result<String, String>)
        ensures
            match rendered {
                Ok(html) => result_view(r) == Ok::<Seq<char>, Seq<char>>(
                    restored(cleaned(self.labels(), html@)),
                ),
                Err(e) => r == Err::<String, String>(e),
            },
    {
        match rendered {
            Ok(html) => {
                let mut filter = self.filter;
                filter.postprocess(html.as_str())
            },
            Err(e) => Err(e),
        }
    }
}

/// Starts the conversion of the LaTeX fragment `latex`, in which the kinds
/// `theorems` may occur: preprocesses it and returns the job for the
/// external renderer, or the error of an `\end` that does not fit.
pub fn latex_to_html(latex: &str, theorems: &[Theorem]) -> (r: Result<LatexJob, String>)
    ensures
        match outcome(preprocessed(theorems@, Map::empty(), Set::empty(), latex@)) {
            Ok(text) => r matches Ok(job) && is_latex_request(job.request, text) && job.labels()
                == preprocessed(theorems@, Map::empty(), Set::empty(), latex@).theorem_labels,
            Err(e) => r matches Err(msg) && msg@ == e,
        },
{
    let mut kinds: Vec<Theorem> = Vec::new();
    let mut i: usize = 0;
    while i < theorems.len()
        invariant
            i <= theorems.len(),
            kinds@ == theorems@.take(i as int),
        decreases theorems.len() - i,
    {
        kinds.push(theorems[i].duplicate());
        assert(theorems@.take(i + 1) == theorems@.take(i as int).push(theorems@[i as int]));
        i += 1;
    }
    assert(theorems@.take(theorems.len() as int) == theorems@);
    let mut filter = EnvFilter::new(kinds);
    match filter.preprocess(latex) {
        Ok(text) => Ok(LatexJob { request: latex_request(text), filter }),
        Err(e) => Err(e),
    }
}

/// Converts the Markdown fragment `markdown` to HTML.
pub fn markdown_to_html(markdown: &str, config: &Config) -> (r: Result<String, String>)
    ensures
        r matches Ok(html) && html@ == markdown_html(
            markdown@,
            config.syntax_highlighter_theme@,
            config.escape_markdown_in_math,
        ),
{
    let options = markdown_options();
    let theme = config.syntax_highlighter_theme.as_str();
    let expanded = preprocess_expandables(markdown);
    let blocks = preprocess_cards(expanded.as_str());
    if config.escape_markdown_in_math {
        Ok(render_markdown(blocks.as_str(), &options, theme))
    } else {
        let parts = extract_math_segments(blocks.as_str());
        let html = render_markdown(parts.0.as_str(), &options, theme);
        Ok(restore_math_segments(html.as_str(), &parts.1))
    }
}

impl FormattedText {
    /// Converts the fragment to HTML as far as this can be done without the
    /// external renderer. HTML is returned as it is, Markdown is converted,
    /// and LaTeX is preprocessed and comes back as the job for the renderer.
    pub fn to_html(&self, config: &Config) -> (r: Result<Conversion, String>)
        ensures
            match *self {
                FormattedText::Html(s) => r matches Ok(Conversion::Html(h)) && h@ == s@,
                FormattedText::Markdown(s) => r matches Ok(Conversion::Html(h)) && h@
                    == markdown_html(
                    s@,
                    config.syntax_highlighter_theme@,
                    config.escape_markdown_in_math,
                ),
                FormattedText::Latex(s) => match outcome(
                    preprocessed(config.theorems@, Map::empty(), Set::empty(), s@),
                ) {
                    Ok(text) => r matches Ok(Conversion::Latex(job)) && is_latex_request(
                        job.request,
                        text,
                    ) && job.labels() == preprocessed(
                        config.theorems@,
                        Map::empty(),
                        Set::empty(),
                        s@,
                    ).theorem_labels,
                    Err(e) => r matches Err(msg) && msg@ == e,
                },
            },
    {
        match self {
            FormattedText::Latex(s) => {
                match latex_to_html(s.as_str(), config.theorems.as_slice()) {
                    Ok(job) => Ok(Conversion::Latex(job)),
                    Err(e) => Err(e),
                }
            },
            FormattedText::Markdown(s) => {
                match markdown_to_html(s.as_str(), config) {
                    Ok(html) => Ok(Conversion::Html(html)),
                    Err(e) => Err(e),
                }
            },
            FormattedText::Html(s) => Ok(Conversion::Html(s.clone())),
        }
    }
}

} // verus!
