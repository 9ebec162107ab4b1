//! The filters that run around the external LaTeX renderer.

use super::latex_laws::{all_plain, plain_text_passes};
use super::latex_scan::{
    begin_step, end_step, failure_stays, find_kind, kind_of, label_step, outcome, ref_step,
    root_name, scan_all, scan_prefix, start, step, Scan, TokenKind, TOKEN_PATTERN,
};
use super::theorem::Theorem;
use crate::pattern::{
    found_view, gap_at, gaps_of, group, matches_of, scan, weave, whole, wholes, woven, Found,
    Groups,
};
use crate::table::{TextMap, TextSet};
use crate::text::{
    begins_with, chars_of, copy_of, is_str, parts_view, push_all, push_str, replace_all, replaced,
    same_chars, string_of, strip_prefixes, strip_trailing, up_to,
};
use vstd::prelude::*;

verus! {

/// A filter with two phases: one before the external renderer runs, and one
/// on what the renderer has written.
pub trait PandocFilter {
    /// Rewrites the source before it is rendered.
    fn preprocess(&mut self, input: &str) -> Result<String, String>;

    /// Rewrites what the renderer made of the preprocessed source.
    fn postprocess(&mut self, input: &str) -> Result<String, String>;
}

/// The filter for environments: theorems, equations, labels and the
/// references to them.
pub struct EnvFilter {
    theorems: Vec<Theorem>,
    theorem_labels: TextMap,
    equation_labels: TextSet,
}

/// What a scan has written and opened so far.
struct Progress {
    out: Vec<char>,
    counter: usize,
    stack: Vec<Vec<char>>,
}

/// The texts in a result.
pub open spec fn result_view(r: Result<String, String>) -> Result<Seq<char>, Seq<char>> {
    match r {
        Ok(s) => Ok(s@),
        Err(e) => Err(e@),
    }
}

/// The pattern of the spans that the renderer writes for a label: an
/// anchor that holds the label's name in square brackets.
pub const SPAN_PATTERN: &'static str = r#"<span id="([\w:-]+)" label="([\w:-]+)">\[[\w:-]+\]</span>"#;

/// The final state of preprocessing `input` with the kinds `kinds`, the
/// labels in `theorem_labels` and `equation_labels` being known from before.
pub open spec fn preprocessed(
    kinds: Seq<Theorem>,
    theorem_labels: Map<Seq<char>, Seq<char>>,
    equation_labels: Set<Seq<char>>,
    input: Seq<char>,
) -> Scan {
    scan_all(
        kinds,
        start(theorem_labels, equation_labels),
        wholes(matches_of(TOKEN_PATTERN@, input)),
        gaps_of(TOKEN_PATTERN@, input),
    )
}

/// No token of `input` opens or closes a theorem, an equation or a
/// container, and no kind is registered under the name of the root.
pub open spec fn is_plain_input(kinds: Seq<Theorem>, input: Seq<char>) -> bool {
    all_plain(kinds, wholes(matches_of(TOKEN_PATTERN@, input))) && find_kind(kinds, root_name())
        is None
}

/// What becomes of one span of the renderer: where its id is the label of
/// a theorem, the bracketed name goes and the anchor stays; any other span
/// stays whole.
pub open spec fn cleaned_span(labels: Map<Seq<char>, Seq<char>>, m: Groups) -> Seq<char> {
    match (group(m, 1), group(m, 2)) {
        (Some(id), Some(label)) => if labels.contains_key(id) {
            "<span id=\""@ + id + "\" label=\""@ + label + "\"></span>"@
        } else {
            whole(m)
        },
        _ => whole(m),
    }
}

/// Every span in `ms` cleaned.
pub open spec fn cleaned_spans(labels: Map<Seq<char>, Seq<char>>, ms: Seq<Groups>) -> Seq<
    Seq<char>,
> {
    ms.map_values(|m: Groups| cleaned_span(labels, m))
}

/// Nothing in `html` is left to clean: every span that the pattern finds in
/// it stays whole.
pub open spec fn is_clean(labels: Map<Seq<char>, Seq<char>>, html: Seq<char>) -> bool {
    forall|i: int|
        0 <= i < matches_of(SPAN_PATTERN@, html).len() ==> cleaned_span(
            labels,
            #[trigger] matches_of(SPAN_PATTERN@, html)[i],
        ) == whole(matches_of(SPAN_PATTERN@, html)[i])
}

/// `html` with the spans of theorem labels cleaned.
pub open spec fn cleaned(labels: Map<Seq<char>, Seq<char>>, html: Seq<char>) -> Seq<char> {
    let ms = matches_of(SPAN_PATTERN@, html);
    woven(gaps_of(SPAN_PATTERN@, html), cleaned_spans(labels, ms), ms.len() as int)
}

/// What postprocessing makes of cleaned HTML: the markers of references to
/// equations become references again, and the display math put around
/// equations goes.
pub open spec fn restored(html: Seq<char>) -> Seq<char> {
    replaced(
        replaced(
            replaced(replaced(html, "(EQREFBEGIN)"@, "\\ref{"@), "(EQREFEND)"@, "}"@),
            "$$\\begin{equation}"@,
            "\\begin{equation}"@,
        ),
        "\\end{equation}$$"@,
        "\\end{equation}"@,
    )
}

/// The kind of `token`.
pub fn token_kind(token: &Vec<char>) -> (k: TokenKind)
    ensures
        k == kind_of(token@),
{
    if begins_with(token, "\\begin") {
        TokenKind::Begin
    } else if begins_with(token, "\\label") {
        TokenKind::Label
    } else if begins_with(token, "\\ref") {
        TokenKind::Ref
    } else if begins_with(token, "\\end") {
        TokenKind::End
    } else {
        TokenKind::Other
    }
}

/// The whole text of each match.
pub fn whole_texts(found: &Vec<Found>) -> (r: Vec<Vec<char>>)
    ensures
        parts_view(r@) == wholes(found_view(found@)),
{
    let mut r: Vec<Vec<char>> = Vec::new();
    let mut i: usize = 0;
    while i < found.len()
        invariant
            i <= found.len(),
            r.len() == i,
            forall|j: int| 0 <= j < i ==> (#[trigger] r[j])@ == wholes(found_view(found@))[j],
        decreases found.len() - i,
    {
        let groups = &found[i].groups;
        let text = if groups.len() > 0 {
            match &groups[0] {
                Some(t) => copy_of(t),
                None => Vec::new(),
            }
        } else {
            Vec::new()
        };
        r.push(text);
        i += 1;
    }
    assert(parts_view(r@) =~= wholes(found_view(found@)));
    r
}

impl EnvFilter {
    /// The registered kinds, in the order of registration.
    pub closed spec fn kinds(&self) -> Seq<Theorem> {
        self.theorems@
    }

    /// The labels declared inside theorems so far, each with the text that
    /// a reference to it shows.
    pub closed spec fn theorem_labels(&self) -> Map<Seq<char>, Seq<char>> {
        self.theorem_labels@
    }

    /// The labels declared inside equations so far.
    pub closed spec fn equation_labels(&self) -> Set<Seq<char>> {
        self.equation_labels@
    }

    /// The state of a scan that has come as far as `p`.
    spec fn state(&self, p: &Progress) -> Scan {
        Scan {
            output: p.out@,
            counter: p.counter as nat,
            stack: parts_view(p.stack@),
            theorem_labels: self.theorem_labels@,
            equation_labels: self.equation_labels@,
            failure: None,
        }
    }

    /// A filter for the kinds `theorems` that has seen no label.
    pub fn new(theorems: Vec<Theorem>) -> (f: Self)
        ensures
            f.kinds() == theorems@,
            f.theorem_labels() == Map::<Seq<char>, Seq<char>>::empty(),
            f.equation_labels() == Set::<Seq<char>>::empty(),
    {
        EnvFilter { theorems, theorem_labels: TextMap::new(), equation_labels: TextSet::new() }
    }

    /// The place of the kind registered under `name`.
    fn find(&self, name: &Vec<char>) -> (r: Option<usize>)
        ensures
            match r {
                Some(i) => i < self.theorems.len() && find_kind(self.kinds(), name@) == Some(
                    self.theorems[i as int],
                ),
                None => find_kind(self.kinds(), name@) is None,
            },
    {
        let mut i: usize = self.theorems.len();
        assert(self.theorems@.take(i as int) == self.theorems@);
        while i > 0
            invariant
                i <= self.theorems.len(),
                find_kind(self.theorems@, name@) == find_kind(self.theorems@.take(i as int), name@),
            decreases i,
        {
            assert(self.theorems@.take(i as int).drop_last() == self.theorems@.take(i - 1));
            if is_str(name, self.theorems[i - 1].name.as_str()) {
                return Some(i - 1);
            }
            i -= 1;
        }
        None
    }

    /// Opens the environment of the `\begin` token `token`.
    fn begin(&self, p: &mut Progress, token: &Vec<char>)
        requires
            old(p).counter < usize::MAX,
        ensures
            self.state(final(p)) == begin_step(self.kinds(), self.state(old(p)), token@),
            final(p).counter <= old(p).counter + 1,
    {
        let stripped = strip_prefixes(token, "\\begin{");
        let name = up_to(&stripped, '}');
        match self.find(&name) {
            Some(i) => {
                let kind = &self.theorems[i];
                if kind.numbered {
                    p.counter += 1;
                }
                push_str(&mut p.out, "**");
                let heading = kind.label(p.counter);
                push_str(&mut p.out, heading.as_str());
                push_str(&mut p.out, "**. ");
            },
            None => {
                if is_str(&name, "equation") {
                    push_str(&mut p.out, "$$\\begin{equation}");
                } else if is_str(&name, "problem") || is_str(&name, "solution") {
                    push_str(&mut p.out, "\\begin{");
                    push_all(&mut p.out, &name);
                    push_str(&mut p.out, "}");
                } else {
                    push_all(&mut p.out, token);
                }
            },
        }
        p.stack.push(name);
        assert(parts_view(p.stack@) =~= parts_view(old(p).stack@).push(name@));
    }

    /// Records the label of the `\label` token `token`.
    fn label(&mut self, p: &mut Progress, token: &Vec<char>)
        ensures
            final(self).state(final(p)) == label_step(
                old(self).kinds(),
                old(self).state(old(p)),
                token@,
            ),
            final(self).theorems == old(self).theorems,
            final(p).counter == old(p).counter,
    {
        push_all(&mut p.out, token);
        if p.stack.len() > 0 {
            let top = &p.stack[p.stack.len() - 1];
            assert(parts_view(p.stack@).last() == top@);
            match self.find(top) {
                Some(i) => {
                    let stripped = strip_prefixes(token, "\\label{");
                    let name = strip_trailing(&stripped, '}');
                    let shown = self.theorems[i].reference(p.counter);
                    self.theorem_labels.insert(name, shown);
                },
                None => {
                    if is_str(top, "equation") {
                        let stripped = strip_prefixes(token, "\\label{");
                        let name = strip_trailing(&stripped, '}');
                        self.equation_labels.insert(name);
                    }
                },
            }
        }
    }

    /// Resolves the `\ref` token `token`.
    fn reference(&self, p: &mut Progress, token: &Vec<char>)
        ensures
            self.state(final(p)) == ref_step(self.state(old(p)), token@),
            final(p).counter == old(p).counter,
    {
        let stripped = strip_prefixes(token, "\\ref{");
        let name = strip_trailing(&stripped, '}');
        match self.theorem_labels.get(&name) {
            Some(shown) => {
                push_str(&mut p.out, "\\href{#");
                push_all(&mut p.out, &name);
                push_str(&mut p.out, "}{");
                push_all(&mut p.out, shown);
                push_str(&mut p.out, "}");
            },
            None => {
                if self.equation_labels.contains(&name) {
                    push_str(&mut p.out, "(EQREFBEGIN)");
                    push_all(&mut p.out, &name);
                    push_str(&mut p.out, "(EQREFEND)");
                } else {
                    push_all(&mut p.out, token);
                }
            },
        }
    }

    /// Closes the environment of the `\end` token `token`, or returns the
    /// error where it is not the innermost open one.
    fn end(&self, p: &mut Progress, token: &Vec<char>) -> (failure: Option<Vec<char>>)
        ensures
            final(p).counter == old(p).counter,
            match failure {
                None => self.state(final(p)) == end_step(self.kinds(), self.state(old(p)), token@),
                Some(e) => *final(p) == *old(p) && end_step(
                    self.kinds(),
                    self.state(old(p)),
                    token@,
                ) == (Scan { failure: Some(e@), ..self.state(old(p)) }),
            },
    {
        let stripped = strip_prefixes(token, "\\end{");
        let name = strip_trailing(&stripped, '}');
        if p.stack.len() == 0 {
            let mut e = chars_of("Unmatched environment tag: \\end{");
            push_all(&mut e, &name);
            push_str(&mut e, "}");
            return Some(e);
        }
        let top = &p.stack[p.stack.len() - 1];
        assert(parts_view(p.stack@).last() == top@);
        if !same_chars(top, &name) {
            let mut e = chars_of("Mismatched environment tags: \\begin{");
            push_all(&mut e, top);
            push_str(&mut e, "} and \\end{");
            push_all(&mut e, &name);
            push_str(&mut e, "}");
            return Some(e);
        }
        p.stack.pop();
        assert(parts_view(p.stack@) =~= parts_view(old(p).stack@).drop_last());
        if self.find(&name).is_some() {
            push_str(&mut p.out, "\n");
        } else if is_str(&name, "equation") {
            push_str(&mut p.out, "\\end{equation}$$");
        } else {
            push_all(&mut p.out, token);
        }
        None
    }

    /// Rewrites a text that was cut into `tokens` and the text around them:
    /// `gaps[i]` stands in front of `tokens[i]`, and the last gap behind the
    /// last token. The labels met are added to those the filter knows.
    pub fn rewrite(&mut self, tokens: &Vec<Vec<char>>, gaps: &Vec<Vec<char>>) -> (r: Result<
        String,
        String,
    >)
        ensures
            final(self).kinds() == old(self).kinds(),
            result_view(r) == outcome(
                scan_all(
                    old(self).kinds(),
                    start(old(self).theorem_labels(), old(self).equation_labels()),
                    parts_view(tokens@),
                    parts_view(gaps@),
                ),
            ),
            final(self).theorem_labels() == scan_all(
                old(self).kinds(),
                start(old(self).theorem_labels(), old(self).equation_labels()),
                parts_view(tokens@),
                parts_view(gaps@),
            ).theorem_labels,
            final(self).equation_labels() == scan_all(
                old(self).kinds(),
                start(old(self).theorem_labels(), old(self).equation_labels()),
                parts_view(tokens@),
                parts_view(gaps@),
            ).equation_labels,
    {
        let ghost kinds = self.kinds();
        let ghost init = start(self.theorem_labels(), self.equation_labels());
        let ghost tv = parts_view(tokens@);
        let ghost gv = parts_view(gaps@);
        let mut stack: Vec<Vec<char>> = Vec::new();
        stack.push(chars_of("document"));
        let mut p = Progress { out: Vec::new(), counter: 0, stack };
        assert(self.state(&p) =~= init) by {
            assert(parts_view(p.stack@) =~= seq!["document"@]);
        }
        let mut i: usize = 0;
        while i < tokens.len()
            invariant
                i <= tokens.len(),
                p.counter <= i,
                self.theorems == old(self).theorems,
                kinds == old(self).kinds(),
                init == start(old(self).theorem_labels(), old(self).equation_labels()),
                tv == parts_view(tokens@),
                gv == parts_view(gaps@),
                self.state(&p) == scan_prefix(kinds, init, tv, gv, i as int),
            decreases tokens.len() - i,
        {
            let ghost before = self.state(&p);
            if i < gaps.len() {
                push_all(&mut p.out, &gaps[i]);
            }
            assert(p.out@ =~= before.output + gap_at(gv, i as int));
            let token = &tokens[i];
            assert(tv[i as int] == token@);
            let ghost fed = self.state(&p);
            assert(fed == Scan { output: p.out@, ..before });
            assert(scan_prefix(kinds, init, tv, gv, i + 1) == step(
                kinds,
                before,
                gap_at(gv, i as int),
                token@,
            ));
            match token_kind(token) {
                TokenKind::Begin => {
                    self.begin(&mut p, token);
                },
                TokenKind::Label => {
                    self.label(&mut p, token);
                },
                TokenKind::Ref => {
                    self.reference(&mut p, token);
                },
                TokenKind::End => {
                    match self.end(&mut p, token) {
                        Some(e) => {
                            proof {
                                failure_stays(kinds, init, tv, gv, i + 1, tokens.len() as int);
                            }
                            return Err(string_of(&e));
                        },
                        None => {},
                    }
                },
                TokenKind::Other => {
                    push_all(&mut p.out, token);
                },
            }
            i += 1;
        }
        if tokens.len() < gaps.len() {
            push_all(&mut p.out, &gaps[tokens.len()]);
        }
        assert(p.out@ =~= scan_prefix(kinds, init, tv, gv, tokens.len() as int).output + gap_at(
            gv,
            tokens.len() as int,
        ));
        Ok(string_of(&p.out))
    }

    /// Cleans the spans in `found`, which were found in a text with `gaps`
    /// around them, and puts the text together again.
    pub fn clean_spans(&self, found: &Vec<Found>, gaps: &Vec<Vec<char>>) -> (r: String)
        ensures
            r@ == woven(
                parts_view(gaps@),
                cleaned_spans(self.theorem_labels(), found_view(found@)),
                found.len() as int,
            ),
    {
        let mut parts: Vec<Vec<char>> = Vec::new();
        let mut i: usize = 0;
        while i < found.len()
            invariant
                i <= found.len(),
                parts.len() == i,
                forall|j: int|
                    0 <= j < i ==> (#[trigger] parts[j])@ == cleaned_span(
                        self.theorem_labels(),
                        found[j]@,
                    ),
            decreases found.len() - i,
        {
            let part = self.clean_span(&found[i]);
            parts.push(part);
            i += 1;
        }
        assert(parts_view(parts@) =~= cleaned_spans(self.theorem_labels(), found_view(found@)));
        let out = weave(gaps, &parts);
        string_of(&out)
    }

    /// Cleans one span.
    fn clean_span(&self, m: &Found) -> (r: Vec<char>)
        ensures
            r@ == cleaned_span(self.theorem_labels(), m@),
    {
        let groups = &m.groups;
        let all = if groups.len() > 0 {
            match &groups[0] {
                Some(t) => copy_of(t),
                None => Vec::new(),
            }
        } else {
            Vec::new()
        };
        assert(all@ == whole(m@));
        if groups.len() > 2 {
            match (&groups[1], &groups[2]) {
                (Some(id), Some(label)) => {
                    if self.theorem_labels.get(id).is_some() {
                        let mut out = chars_of("<span id=\"");
                        push_all(&mut out, id);
                        push_str(&mut out, "\" label=\"");
                        push_all(&mut out, label);
                        push_str(&mut out, "\"></span>");
                        out
                    } else {
                        all
                    }
                },
                _ => all,
            }
        } else {
            all
        }
    }

    /// Removes from `input` the bracketed names that the renderer wrote
    /// into the anchors of theorem labels. A text that holds no such anchor
    /// is left as it is.
    pub fn clean_labels(&self, input: &str) -> (r: String)
        ensures
            r@ == cleaned(self.theorem_labels(), input@),
            is_clean(self.theorem_labels(), input@) ==> r@ == input@,
    {
        let text = chars_of(input);
        let scanned = scan(SPAN_PATTERN, &text);
        assert(scanned.found.len() == found_view(scanned.found@).len());
        proof {
            let ms = matches_of(SPAN_PATTERN@, input@);
            if is_clean(self.theorem_labels(), input@) {
                assert(cleaned_spans(self.theorem_labels(), ms) =~= wholes(ms));
            }
        }
        self.clean_spans(&scanned.found, &scanned.gaps)
    }
}

impl PandocFilter for EnvFilter {
    /// Rewrites the environments, labels and references of `input`.
    fn preprocess(&mut self, input: &str) -> (r: Result<String, String>)
        ensures
            final(self).kinds() == old(self).kinds(),
            result_view(r) == outcome(
                preprocessed(
                    old(self).kinds(),
                    old(self).theorem_labels(),
                    old(self).equation_labels(),
                    input@,
                ),
            ),
            final(self).theorem_labels() == preprocessed(
                old(self).kinds(),
                old(self).theorem_labels(),
                old(self).equation_labels(),
                input@,
            ).theorem_labels,
            final(self).equation_labels() == preprocessed(
                old(self).kinds(),
                old(self).theorem_labels(),
                old(self).equation_labels(),
                input@,
            ).equation_labels,
            (old(self).theorem_labels() == Map::<Seq<char>, Seq<char>>::empty() && old(
                self,
            ).equation_labels() == Set::<Seq<char>>::empty() && is_plain_input(
                old(self).kinds(),
                input@,
            )) ==> (r matches Ok(out) ==> out@ == input@),
    {
        let text = chars_of(input);
        let scanned = scan(TOKEN_PATTERN, &text);
        let tokens = whole_texts(&scanned.found);
        proof {
            let tv = wholes(matches_of(TOKEN_PATTERN@, input@));
            let gv = gaps_of(TOKEN_PATTERN@, input@);
            if self.theorem_labels() == Map::<Seq<char>, Seq<char>>::empty()
                && self.equation_labels() == Set::<Seq<char>>::empty() && is_plain_input(
                self.kinds(),
                input@,
            ) && scan_all(self.kinds(), start(Map::empty(), Set::empty()), tv, gv).failure is None {
                plain_text_passes(self.kinds(), tv, gv);
            }
        }
        self.rewrite(&tokens, &scanned.gaps)
    }

    /// Cleans the anchors of theorem labels, restores the references to
    /// equations and unwraps the equations.
    fn postprocess(&mut self, input: &str) -> (r: Result<String, String>)
        ensures
            *final(self) == *old(self),
            result_view(r) == Ok::<Seq<char>, Seq<char>>(
                restored(cleaned(old(self).theorem_labels(), input@)),
            ),
    {
        let clean = self.clean_labels(input);
        let text = chars_of(clean.as_str());
        let a = replace_all(&text, "(EQREFBEGIN)", "\\ref{");
        let b = replace_all(&a, "(EQREFEND)", "}");
        let c = replace_all(&b, "$$\\begin{equation}", "\\begin{equation}");
        let d = replace_all(&c, "\\end{equation}$$", "\\end{equation}");
        Ok(string_of(&d))
    }
}

} // verus!
