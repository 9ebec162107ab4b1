//! The scan that rewrites LaTeX environments, labels and references, as a
//! function from one state to the next.

use super::theorem::Theorem;
use crate::pattern::gap_at;
use crate::text::{before_first, starts_with, strip_all, trim_end_char};
use vstd::prelude::*;

verus! {

/// The pattern of the tokens that the scan acts on: a label, a reference,
/// the opening of an environment with the brace groups behind its name, or
/// its closing. An environment is named alike where it opens and where it
/// closes: by anything but a closing brace.
pub const TOKEN_PATTERN: &'static str =
    r"\\label\{[\w:-]+\}|\\ref\{[\w:-]+\}|\\begin\{[^}]+\}(\{[^}]*\})*|\\end\{[^}]+\}";

/// The name on the environment stack before anything was opened.
pub open spec fn root_name() -> Seq<char> {
    "document"@
}

/// The kind registered under `name`: the last one of that name.
pub open spec fn find_kind(kinds: Seq<Theorem>, name: Seq<char>) -> Option<Theorem>
    decreases kinds.len(),
{
    if kinds.len() == 0 {
        None
    } else if kinds.last().name@ == name {
        Some(kinds.last())
    } else {
        find_kind(kinds.drop_last(), name)
    }
}

/// What a token is, by the way it begins.
#[derive(PartialEq, Eq, Structural, Clone, Copy, Debug)]
pub enum TokenKind {
    Begin,
    Label,
    Ref,
    End,
    Other,
}

/// The kind of `token`.
pub open spec fn kind_of(token: Seq<char>) -> TokenKind {
    if starts_with(token, "\\begin"@) {
        TokenKind::Begin
    } else if starts_with(token, "\\label"@) {
        TokenKind::Label
    } else if starts_with(token, "\\ref"@) {
        TokenKind::Ref
    } else if starts_with(token, "\\end"@) {
        TokenKind::End
    } else {
        TokenKind::Other
    }
}

/// The environment that a `\begin` token opens: what stands between the
/// opening brace and the first closing brace.
pub open spec fn begin_name(token: Seq<char>) -> Seq<char> {
    before_first(strip_all(token, "\\begin{"@), '}')
}

/// The label that a `\label` token declares.
pub open spec fn label_name(token: Seq<char>) -> Seq<char> {
    trim_end_char(strip_all(token, "\\label{"@), '}')
}

/// The label that a `\ref` token refers to.
pub open spec fn ref_name(token: Seq<char>) -> Seq<char> {
    trim_end_char(strip_all(token, "\\ref{"@), '}')
}

/// The environment that an `\end` token closes.
pub open spec fn end_name(token: Seq<char>) -> Seq<char> {
    trim_end_char(strip_all(token, "\\end{"@), '}')
}

/// The environments that only group text: they keep their `\begin` and
/// lose its further brace groups.
pub open spec fn is_container(name: Seq<char>) -> bool {
    name == "problem"@ || name == "solution"@
}

/// The error for an `\end` that closes another environment than the
/// innermost open one.
pub open spec fn mismatch_message(opened: Seq<char>, closed: Seq<char>) -> Seq<char> {
    "Mismatched environment tags: \\begin{"@ + opened + "} and \\end{"@ + closed + "}"@
}

/// The error for an `\end` where no environment is open.
pub open spec fn unmatched_message(closed: Seq<char>) -> Seq<char> {
    "Unmatched environment tag: \\end{"@ + closed + "}"@
}

/// The state of a scan.
pub struct Scan {
    /// The text written so far.
    pub output: Seq<char>,
    /// The number given to the last numbered theorem.
    pub counter: nat,
    /// The open environments, the innermost last.
    pub stack: Seq<Seq<char>>,
    /// The labels declared inside theorems, each with the text a reference shows.
    pub theorem_labels: Map<Seq<char>, Seq<char>>,
    /// The labels declared inside equations.
    pub equation_labels: Set<Seq<char>>,
    /// The error that stopped the scan, if one did.
    pub failure: Option<Seq<char>>,
}

/// The state before the first token, with the labels known from before.
pub open spec fn start(
    theorem_labels: Map<Seq<char>, Seq<char>>,
    equation_labels: Set<Seq<char>>,
) -> Scan {
    Scan {
        output: Seq::empty(),
        counter: 0,
        stack: seq![root_name()],
        theorem_labels,
        equation_labels,
        failure: None,
    }
}

/// Opening an environment. A theorem gets its bold heading, and its number
/// first where the kind is numbered; an equation is put in display math; a
/// container loses its further brace groups; any other token stays.
pub open spec fn begin_step(kinds: Seq<Theorem>, st: Scan, token: Seq<char>) -> Scan {
    let name = begin_name(token);
    let stack = st.stack.push(name);
    match find_kind(kinds, name) {
        Some(kind) => {
            let counter = if kind.numbered {
                st.counter + 1
            } else {
                st.counter
            };
            Scan {
                output: st.output + "**"@ + kind.heading(counter) + "**. "@,
                counter,
                stack,
                ..st
            }
        },
        None => if name == "equation"@ {
            Scan { output: st.output + "$$\\begin{equation}"@, stack, ..st }
        } else if is_container(name) {
            Scan { output: st.output + "\\begin{"@ + name + "}"@, stack, ..st }
        } else {
            Scan { output: st.output + token, stack, ..st }
        },
    }
}

/// Declaring a label. Inside a theorem it is recorded with the text that a
/// reference to it shows, inside an equation by its name alone. The token
/// itself always stays.
pub open spec fn label_step(kinds: Seq<Theorem>, st: Scan, token: Seq<char>) -> Scan {
    let output = st.output + token;
    if st.stack.len() == 0 {
        Scan { output, ..st }
    } else {
        match find_kind(kinds, st.stack.last()) {
            Some(kind) => Scan {
                output,
                theorem_labels: st.theorem_labels.insert(
                    label_name(token),
                    kind.reference_text(st.counter),
                ),
                ..st
            },
            None => if st.stack.last() == "equation"@ {
                Scan { output, equation_labels: st.equation_labels.insert(label_name(token)), ..st }
            } else {
                Scan { output, ..st }
            },
        }
    }
}

/// Referring to a label. A label of a theorem seen before becomes a link
/// showing its recorded text, a label of an equation seen before a marker
/// to be restored after rendering; any other reference stays.
pub open spec fn ref_step(st: Scan, token: Seq<char>) -> Scan {
    let name = ref_name(token);
    if st.theorem_labels.contains_key(name) {
        Scan {
            output: st.output + "\\href{#"@ + name + "}{"@ + st.theorem_labels[name] + "}"@,
            ..st
        }
    } else if st.equation_labels.contains(name) {
        Scan { output: st.output + "(EQREFBEGIN)"@ + name + "(EQREFEND)"@, ..st }
    } else {
        Scan { output: st.output + token, ..st }
    }
}

/// Closing an environment. It must be the innermost open one. A theorem
/// ends in a newline, an equation closes its display math, any other token
/// stays.
pub open spec fn end_step(kinds: Seq<Theorem>, st: Scan, token: Seq<char>) -> Scan {
    let name = end_name(token);
    if st.stack.len() == 0 {
        Scan { failure: Some(unmatched_message(name)), ..st }
    } else if st.stack.last() != name {
        Scan { failure: Some(mismatch_message(st.stack.last(), name)), ..st }
    } else {
        let stack = st.stack.drop_last();
        if find_kind(kinds, name) is Some {
            Scan { output: st.output + "\n"@, stack, ..st }
        } else if name == "equation"@ {
            Scan { output: st.output + "\\end{equation}$$"@, stack, ..st }
        } else {
            Scan { output: st.output + token, stack, ..st }
        }
    }
}

/// The state after `token`, which follows the text `gap`. A scan that has
/// failed stays as it is.
pub open spec fn step(kinds: Seq<Theorem>, st: Scan, gap: Seq<char>, token: Seq<char>) -> Scan {
    if st.failure is Some {
        st
    } else {
        let st = Scan { output: st.output + gap, ..st };
        match kind_of(token) {
            TokenKind::Begin => begin_step(kinds, st, token),
            TokenKind::Label => label_step(kinds, st, token),
            TokenKind::Ref => ref_step(st, token),
            TokenKind::End => end_step(kinds, st, token),
            TokenKind::Other => Scan { output: st.output + token, ..st },
        }
    }
}

/// The state after the first `n` tokens.
pub open spec fn scan_prefix(
    kinds: Seq<Theorem>,
    init: Scan,
    tokens: Seq<Seq<char>>,
    gaps: Seq<Seq<char>>,
    n: int,
) -> Scan
    decreases n,
{
    if n <= 0 {
        init
    } else {
        step(
            kinds,
            scan_prefix(kinds, init, tokens, gaps, n - 1),
            gap_at(gaps, n - 1),
            tokens[n - 1],
        )
    }
}

/// The state at the end of the scan: after the last token and the text
/// behind it.
pub open spec fn scan_all(
    kinds: Seq<Theorem>,
    init: Scan,
    tokens: Seq<Seq<char>>,
    gaps: Seq<Seq<char>>,
) -> Scan {
    let st = scan_prefix(kinds, init, tokens, gaps, tokens.len() as int);
    if st.failure is Some {
        st
    } else {
        Scan { output: st.output + gap_at(gaps, tokens.len() as int), ..st }
    }
}

/// What a conversion returns for the final state of a scan: the text
/// written, or the error that stopped it.
pub open spec fn outcome(end: Scan) -> Result<Seq<char>, Seq<char>> {
    match end.failure {
        Some(e) => Err(e),
        None => Ok(end.output),
    }
}

/// A scan that has failed is not changed by further tokens.
pub proof fn failure_stays(
    kinds: Seq<Theorem>,
    init: Scan,
    tokens: Seq<Seq<char>>,
    gaps: Seq<Seq<char>>,
    m: int,
    n: int,
)
    requires
        0 <= m <= n,
        scan_prefix(kinds, init, tokens, gaps, m).failure is Some,
    ensures
        scan_prefix(kinds, init, tokens, gaps, n) == scan_prefix(kinds, init, tokens, gaps, m),
    decreases n - m,
{
    if m < n {
        failure_stays(kinds, init, tokens, gaps, m, n - 1);
    }
}

} // verus!
