//! Theorem kinds: the named blocks that get a bold heading and a number.

use crate::text::{chars_of, decimal, decimal_chars, push_all, string_of};
use vstd::prelude::*;

verus! {

/// A kind of theorem-like block: the environment it is written with, the
/// label its heading shows, and whether its occurrences are numbered.
#[derive(Debug, Clone)]
pub struct Theorem {
    pub name: String,
    pub label: String,
    pub numbered: bool,
}

/// Whether a kind is numbered where nothing says so.
pub fn default_numbered() -> (r: bool)
    ensures
        r,
{
    true
}

impl Theorem {
    /// The heading of an occurrence of this kind while the running number is
    /// `counter`: the label, followed by a space and the number where the
    /// kind is numbered.
    pub open spec fn heading(&self, counter: nat) -> Seq<char> {
        if self.numbered {
            self.label@ + seq![' '] + decimal(counter)
        } else {
            self.label@
        }
    }

    /// What a cross-reference to a label declared inside this kind shows:
    /// the running number, or the bare label where the kind is not numbered.
    pub open spec fn reference_text(&self, counter: nat) -> Seq<char> {
        if self.numbered {
            decimal(counter)
        } else {
            self.label@
        }
    }

    /// The heading text for the running number `counter`.
    pub fn label(&self, counter: usize) -> (s: String)
        ensures
            s@ == self.heading(counter as nat),
    {
        let mut out = chars_of(self.label.as_str());
        if self.numbered {
            out.push(' ');
            let number = decimal_chars(counter);
            push_all(&mut out, &number);
        }
        string_of(&out)
    }

    /// The text a cross-reference shows for the running number `counter`.
    pub fn reference(&self, counter: usize) -> (s: Vec<char>)
        ensures
            s@ == self.reference_text(counter as nat),
    {
        if self.numbered {
            decimal_chars(counter)
        } else {
            chars_of(self.label.as_str())
        }
    }

    /// A copy of this kind.
    pub fn duplicate(&self) -> (r: Theorem)
        ensures
            r == *self,
    {
        Theorem { name: self.name.clone(), label: self.label.clone(), numbered: self.numbered }
    }
}

} // verus!
