//! Small tables keyed by text: a map and a set, each kept as a list in the
//! order of insertion.

use crate::text::same_chars;
use vstd::prelude::*;

verus! {

/// The map that a list of entries stands for: a later entry replaces an
/// earlier one with the same key.
pub open spec fn entries_map(entries: Seq<(Vec<char>, Vec<char>)>) -> Map<Seq<char>, Seq<char>>
    decreases entries.len(),
{
    if entries.len() == 0 {
        Map::empty()
    } else {
        entries_map(entries.drop_last()).insert(entries.last().0@, entries.last().1@)
    }
}

/// The set that a list of members stands for.
pub open spec fn members_set(members: Seq<Vec<char>>) -> Set<Seq<char>> {
    Set::new(|k: Seq<char>| exists|i: int| 0 <= i < members.len() && (#[trigger] members[i])@ == k)
}

/// A map from text to text.
pub struct TextMap {
    entries: Vec<(Vec<char>, Vec<char>)>,
}

impl View for TextMap {
    type V = Map<Seq<char>, Seq<char>>;

    closed spec fn view(&self) -> Map<Seq<char>, Seq<char>> {
        entries_map(self.entries@)
    }
}

impl TextMap {
    /// The empty map.
    pub fn new() -> (m: Self)
        ensures
            m@ == Map::<Seq<char>, Seq<char>>::empty(),
    {
        TextMap { entries: Vec::new() }
    }

    /// The value stored for `key`, if there is one.
    pub fn get(&self, key: &Vec<char>) -> (r: Option<&Vec<char>>)
        ensures
            match r {
                Some(v) => self@.contains_key(key@) && self@[key@] == v@,
                None => !self@.contains_key(key@),
            },
    {
        let mut i: usize = self.entries.len();
        assert(self.entries@.take(i as int) == self.entries@);
        while i > 0
            invariant
                i <= self.entries.len(),
                self@.contains_key(key@) == entries_map(self.entries@.take(i as int)).contains_key(
                    key@,
                ),
                self@.contains_key(key@) ==> self@[key@] == entries_map(
                    self.entries@.take(i as int),
                )[key@],
            decreases i,
        {
            assert(self.entries@.take(i as int).drop_last() == self.entries@.take(i - 1));
            if same_chars(&self.entries[i - 1].0, key) {
                return Some(&self.entries[i - 1].1);
            }
            i -= 1;
        }
        None
    }

    /// Stores `value` for `key`, in place of what was stored for it before.
    pub fn insert(&mut self, key: Vec<char>, value: Vec<char>)
        ensures
            final(self)@ == old(self)@.insert(key@, value@),
    {
        self.entries.push((key, value));
        assert(self.entries@.drop_last() == old(self).entries@);
    }
}

/// A set of texts.
pub struct TextSet {
    members: Vec<Vec<char>>,
}

impl View for TextSet {
    type V = Set<Seq<char>>;

    closed spec fn view(&self) -> Set<Seq<char>> {
        members_set(self.members@)
    }
}

impl TextSet {
    /// The empty set.
    pub fn new() -> (s: Self)
        ensures
            s@ == Set::<Seq<char>>::empty(),
    {
        let s = TextSet { members: Vec::new() };
        assert(s@ =~= Set::<Seq<char>>::empty());
        s
    }

    /// Whether `key` is in the set.
    pub fn contains(&self, key: &Vec<char>) -> (r: bool)
        ensures
            r == self@.contains(key@),
    {
        let mut i: usize = 0;
        while i < self.members.len()
            invariant
                i <= self.members.len(),
                forall|j: int| 0 <= j < i ==> (#[trigger] self.members@[j])@ != key@,
            decreases self.members.len() - i,
        {
            if same_chars(&self.members[i], key) {
                return true;
            }
            i += 1;
        }
        false
    }

    /// Adds `key` to the set.
    pub fn insert(&mut self, key: Vec<char>)
        ensures
            final(self)@ == old(self)@.insert(key@),
    {
        self.members.push(key);
        proof {
            let before = old(self).members@;
            let after = self.members@;
            assert forall|k: Seq<char>| members_set(after).contains(k) == members_set(
                before,
            ).insert(key@).contains(k) by {
                if members_set(after).contains(k) {
                    let i = choose|i: int| 0 <= i < after.len() && (#[trigger] after[i])@ == k;
                    if i < before.len() {
                        assert(before[i]@ == k);
                    }
                }
                if members_set(before).contains(k) {
                    let i = choose|i: int| 0 <= i < before.len() && (#[trigger] before[i])@ == k;
                    assert(after[i]@ == k);
                }
                if k == key@ {
                    assert(after[before.len() as int]@ == k);
                }
            }
            assert(self@ =~= old(self)@.insert(key@));
        }
    }
}

} // verus!
