//! What holds of every scan.

use super::latex_scan::{
    begin_name, end_name, failure_stays, find_kind, is_container, kind_of, label_name,
    mismatch_message, outcome, ref_name, root_name, scan_all, scan_prefix, start, Scan, TokenKind,
};
use super::theorem::Theorem;
use crate::pattern::{gap_at, woven};
use crate::text::decimal;
use vstd::prelude::*;

verus! {

/// A scan that has not failed after `n` tokens had not failed before.
pub proof fn success_reaches_back(
    kinds: Seq<Theorem>,
    init: Scan,
    tokens: Seq<Seq<char>>,
    gaps: Seq<Seq<char>>,
    m: int,
    n: int,
)
    requires
        0 <= m <= n,
        scan_prefix(kinds, init, tokens, gaps, n).failure is None,
    ensures
        scan_prefix(kinds, init, tokens, gaps, m).failure is None,
{
    if scan_prefix(kinds, init, tokens, gaps, m).failure is Some {
        failure_stays(kinds, init, tokens, gaps, m, n);
    }
}

/// An `\end` that names another environment than the innermost open one
/// fails the whole conversion, with an error that names both.
pub proof fn mismatch_is_reported(
    kinds: Seq<Theorem>,
    init: Scan,
    tokens: Seq<Seq<char>>,
    gaps: Seq<Seq<char>>,
    n: int,
)
    requires
        0 <= n < tokens.len(),
        scan_prefix(kinds, init, tokens, gaps, n).failure is None,
        kind_of(tokens[n]) == TokenKind::End,
        scan_prefix(kinds, init, tokens, gaps, n).stack.len() > 0,
        scan_prefix(kinds, init, tokens, gaps, n).stack.last() != end_name(tokens[n]),
    ensures
        outcome(scan_all(kinds, init, tokens, gaps)) == Err::<Seq<char>, Seq<char>>(
            mismatch_message(
                scan_prefix(kinds, init, tokens, gaps, n).stack.last(),
                end_name(tokens[n]),
            ),
        ),
{
    assert(scan_prefix(kinds, init, tokens, gaps, n + 1).failure is Some);
    failure_stays(kinds, init, tokens, gaps, n + 1, tokens.len() as int);
}

/// How many of the first `n` tokens are of the kind `kind`.
pub open spec fn count_of(tokens: Seq<Seq<char>>, kind: TokenKind, n: int) -> int
    decreases n,
{
    if n <= 0 {
        0
    } else if kind_of(tokens[n - 1]) == kind {
        count_of(tokens, kind, n - 1) + 1
    } else {
        count_of(tokens, kind, n - 1)
    }
}

/// In a scan that has not failed every `\begin` has opened one environment
/// and every `\end` has closed one: the open environments are those of
/// the start, and one more for each `\begin` and one less for each `\end`.
pub proof fn open_environments_are_counted(
    kinds: Seq<Theorem>,
    init: Scan,
    tokens: Seq<Seq<char>>,
    gaps: Seq<Seq<char>>,
    n: int,
)
    requires
        0 <= n <= tokens.len(),
        scan_prefix(kinds, init, tokens, gaps, n).failure is None,
    ensures
        scan_prefix(kinds, init, tokens, gaps, n).stack.len() == init.stack.len() + count_of(
            tokens,
            TokenKind::Begin,
            n,
        ) - count_of(tokens, TokenKind::End, n),
    decreases n,
{
    if n > 0 {
        success_reaches_back(kinds, init, tokens, gaps, n - 1, n);
        open_environments_are_counted(kinds, init, tokens, gaps, n - 1);
    }
}

/// An `\end` closes the environment that the last unclosed `\begin`
/// opened: in a scan that does not fail on it, the `\end` that is token `n`
/// names the innermost open environment, and that environment is closed.
pub proof fn end_closes_the_innermost(
    kinds: Seq<Theorem>,
    init: Scan,
    tokens: Seq<Seq<char>>,
    gaps: Seq<Seq<char>>,
    n: int,
)
    requires
        0 <= n < tokens.len(),
        kind_of(tokens[n]) == TokenKind::End,
        scan_prefix(kinds, init, tokens, gaps, n + 1).failure is None,
    ensures
        scan_prefix(kinds, init, tokens, gaps, n).stack.len() > 0,
        scan_prefix(kinds, init, tokens, gaps, n).stack.last() == end_name(tokens[n]),
        scan_prefix(kinds, init, tokens, gaps, n + 1).stack == scan_prefix(
            kinds,
            init,
            tokens,
            gaps,
            n,
        ).stack.drop_last(),
{
    success_reaches_back(kinds, init, tokens, gaps, n, n + 1);
}

/// `token` opens a theorem of a numbered kind.
pub open spec fn opens_numbered(kinds: Seq<Theorem>, token: Seq<char>) -> bool {
    kind_of(token) == TokenKind::Begin && match find_kind(kinds, begin_name(token)) {
        Some(kind) => kind.numbered,
        None => false,
    }
}

/// How many of the first `n` tokens open a theorem of a numbered kind.
pub open spec fn numbered_begins(kinds: Seq<Theorem>, tokens: Seq<Seq<char>>, n: int) -> nat
    decreases n,
{
    if n <= 0 {
        0
    } else if opens_numbered(kinds, tokens[n - 1]) {
        numbered_begins(kinds, tokens, n - 1) + 1
    } else {
        numbered_begins(kinds, tokens, n - 1)
    }
}

/// The running number advances by one with each theorem of a numbered kind
/// and with nothing else.
pub proof fn counter_counts_numbered(
    kinds: Seq<Theorem>,
    init: Scan,
    tokens: Seq<Seq<char>>,
    gaps: Seq<Seq<char>>,
    n: int,
)
    requires
        0 <= n <= tokens.len(),
        scan_prefix(kinds, init, tokens, gaps, n).failure is None,
    ensures
        scan_prefix(kinds, init, tokens, gaps, n).counter == init.counter + numbered_begins(
            kinds,
            tokens,
            n,
        ),
    decreases n,
{
    if n > 0 {
        success_reaches_back(kinds, init, tokens, gaps, n - 1, n);
        counter_counts_numbered(kinds, init, tokens, gaps, n - 1);
    }
}

/// The heading of a theorem: in a scan that starts at zero, the theorem of
/// a numbered kind shows its label and its place among the numbered
/// theorems, counted from one; that of another kind shows its bare label.
pub proof fn heading_shows_number(
    kinds: Seq<Theorem>,
    init: Scan,
    tokens: Seq<Seq<char>>,
    gaps: Seq<Seq<char>>,
    n: int,
    kind: Theorem,
)
    requires
        0 <= n < tokens.len(),
        init.counter == 0,
        scan_prefix(kinds, init, tokens, gaps, n).failure is None,
        kind_of(tokens[n]) == TokenKind::Begin,
        find_kind(kinds, begin_name(tokens[n])) == Some(kind),
    ensures
        kind.numbered ==> scan_prefix(kinds, init, tokens, gaps, n + 1).output == scan_prefix(
            kinds,
            init,
            tokens,
            gaps,
            n,
        ).output + gap_at(gaps, n) + "**"@ + (kind.label@ + seq![' '] + decimal(
            numbered_begins(kinds, tokens, n + 1),
        )) + "**. "@,
        kind.numbered ==> numbered_begins(kinds, tokens, n + 1) == numbered_begins(
            kinds,
            tokens,
            n,
        ) + 1,
        !kind.numbered ==> scan_prefix(kinds, init, tokens, gaps, n + 1).output == scan_prefix(
            kinds,
            init,
            tokens,
            gaps,
            n,
        ).output + gap_at(gaps, n) + "**"@ + kind.label@ + "**. "@,
        !kind.numbered ==> scan_prefix(kinds, init, tokens, gaps, n + 1).counter == scan_prefix(
            kinds,
            init,
            tokens,
            gaps,
            n,
        ).counter,
{
    counter_counts_numbered(kinds, init, tokens, gaps, n);
}

/// A `\label` for `name` stands among the first `n` tokens.
pub open spec fn declared_before(tokens: Seq<Seq<char>>, n: int, name: Seq<char>) -> bool {
    exists|k: int|
        0 <= k < n && kind_of(#[trigger] tokens[k]) == TokenKind::Label && label_name(tokens[k])
            == name
}

/// A label that the scan knows was known from before or declared by a
/// token that the scan has passed.
pub proof fn labels_come_from_tokens(
    kinds: Seq<Theorem>,
    init: Scan,
    tokens: Seq<Seq<char>>,
    gaps: Seq<Seq<char>>,
    n: int,
    name: Seq<char>,
)
    requires
        0 <= n <= tokens.len(),
        !init.theorem_labels.contains_key(name),
        !init.equation_labels.contains(name),
        !declared_before(tokens, n, name),
    ensures
        !scan_prefix(kinds, init, tokens, gaps, n).theorem_labels.contains_key(name),
        !scan_prefix(kinds, init, tokens, gaps, n).equation_labels.contains(name),
    decreases n,
{
    if n > 0 {
        assert(!declared_before(tokens, n - 1, name)) by {
            if declared_before(tokens, n - 1, name) {
                let k = choose|k: int|
                    0 <= k < n - 1 && kind_of(#[trigger] tokens[k]) == TokenKind::Label
                        && label_name(tokens[k]) == name;
                assert(0 <= k < n && kind_of(tokens[k]) == TokenKind::Label);
            }
        }
        labels_come_from_tokens(kinds, init, tokens, gaps, n - 1, name);
        if kind_of(tokens[n - 1]) == TokenKind::Label {
            assert(label_name(tokens[n - 1]) != name);
        }
    }
}

/// A `\ref` that comes before the `\label` it names is not resolved: it is
/// written as it stands.
pub proof fn early_reference_stays(
    kinds: Seq<Theorem>,
    init: Scan,
    tokens: Seq<Seq<char>>,
    gaps: Seq<Seq<char>>,
    n: int,
)
    requires
        0 <= n < tokens.len(),
        kind_of(tokens[n]) == TokenKind::Ref,
        !init.theorem_labels.contains_key(ref_name(tokens[n])),
        !init.equation_labels.contains(ref_name(tokens[n])),
        !declared_before(tokens, n, ref_name(tokens[n])),
        scan_prefix(kinds, init, tokens, gaps, n).failure is None,
    ensures
        scan_prefix(kinds, init, tokens, gaps, n + 1).output == scan_prefix(
            kinds,
            init,
            tokens,
            gaps,
            n,
        ).output + gap_at(gaps, n) + tokens[n],
        scan_prefix(kinds, init, tokens, gaps, n + 1).failure is None,
{
    labels_come_from_tokens(kinds, init, tokens, gaps, n, ref_name(tokens[n]));
}

/// `token` neither opens nor closes a theorem, an equation or a container.
pub open spec fn is_plain(kinds: Seq<Theorem>, token: Seq<char>) -> bool {
    match kind_of(token) {
        TokenKind::Begin => find_kind(kinds, begin_name(token)) is None && begin_name(token)
            != "equation"@ && !is_container(begin_name(token)),
        TokenKind::End => find_kind(kinds, end_name(token)) is None && end_name(token)
            != "equation"@,
        _ => true,
    }
}

/// Every one of `tokens` is plain.
pub open spec fn all_plain(kinds: Seq<Theorem>, tokens: Seq<Seq<char>>) -> bool {
    forall|i: int| 0 <= i < tokens.len() ==> is_plain(kinds, #[trigger] tokens[i])
}

/// What the plain scan keeps true.
spec fn plain_so_far(
    kinds: Seq<Theorem>,
    st: Scan,
    tokens: Seq<Seq<char>>,
    gaps: Seq<Seq<char>>,
    n: int,
) -> bool {
    &&& st.theorem_labels == Map::<Seq<char>, Seq<char>>::empty()
    &&& st.equation_labels == Set::<Seq<char>>::empty()
    &&& forall|i: int|
        0 <= i < st.stack.len() ==> find_kind(kinds, #[trigger] st.stack[i]) is None && st.stack[i]
            != "equation"@
    &&& st.output + gap_at(gaps, n) == woven(gaps, tokens, n)
}

proof fn plain_scan(
    kinds: Seq<Theorem>,
    tokens: Seq<Seq<char>>,
    gaps: Seq<Seq<char>>,
    n: int,
)
    requires
        0 <= n <= tokens.len(),
        gaps.len() == tokens.len() + 1,
        all_plain(kinds, tokens),
        find_kind(kinds, root_name()) is None,
        scan_prefix(
            kinds,
            start(Map::empty(), Set::empty()),
            tokens,
            gaps,
            n,
        ).failure is None,
    ensures
        plain_so_far(
            kinds,
            scan_prefix(kinds, start(Map::empty(), Set::empty()), tokens, gaps, n),
            tokens,
            gaps,
            n,
        ),
    decreases n,
{
    let init = start(Map::empty(), Set::empty());
    if n <= 0 {
        reveal_strlit("document");
        reveal_strlit("equation");
        assert("document"@[0] != "equation"@[0]);
        assert(init.output + gaps[0] == gaps[0]);
    } else {
        success_reaches_back(kinds, init, tokens, gaps, n - 1, n);
        plain_scan(kinds, tokens, gaps, n - 1);
        let before = scan_prefix(kinds, init, tokens, gaps, n - 1);
        let after = scan_prefix(kinds, init, tokens, gaps, n);
        let token = tokens[n - 1];
        assert(is_plain(kinds, token));
        assert(after.output == before.output + gap_at(gaps, n - 1) + token);
        assert(after.stack.len() > 0 && kind_of(token) == TokenKind::Begin ==> after.stack
            == before.stack.push(begin_name(token)));
    }
}

/// A text in which no theorem, equation or container is opened or closed
/// comes out of a fresh scan as it went in, where the scan succeeds.
pub proof fn plain_text_passes(
    kinds: Seq<Theorem>,
    tokens: Seq<Seq<char>>,
    gaps: Seq<Seq<char>>,
)
    requires
        gaps.len() == tokens.len() + 1,
        all_plain(kinds, tokens),
        find_kind(kinds, root_name()) is None,
        scan_all(kinds, start(Map::empty(), Set::empty()), tokens, gaps).failure is None,
    ensures
        scan_all(kinds, start(Map::empty(), Set::empty()), tokens, gaps).output == woven(
            gaps,
            tokens,
            tokens.len() as int,
        ),
{
    plain_scan(kinds, tokens, gaps, tokens.len() as int);
}

} // verus!
