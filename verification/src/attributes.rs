//! The attributes of an element: names with their values.
use vstd::prelude::*;
use crate::text::same_text;

verus! {

/// The mapping that a list of pairs stands for: each name with the value of
/// the last pair that has it.
pub open spec fn map_of(entries: Seq<(String, String)>) -> Map<Seq<char>, Seq<char>>
    decreases entries.len(),
{
    if entries.len() == 0 {
        Map::empty()
    } else {
        map_of(entries.drop_last()).insert(entries.last().0@, entries.last().1@)
    }
}

/// The value that a mapping gives to a name, if it gives one.
pub open spec fn lookup(map: Map<Seq<char>, Seq<char>>, name: Seq<char>) -> Option<Seq<char>> {
    if map.contains_key(name) {
        Some(map[name])
    } else {
        None
    }
}

/// A mapping from attribute names to values. Its view is the mapping; the
/// order in which the pairs are kept is no part of it.
#[derive(Debug)]
pub struct Attributes {
    entries: Vec<(String, String)>,
}

impl View for Attributes {
    type V = Map<Seq<char>, Seq<char>>;

    closed spec fn view(&self) -> Map<Seq<char>, Seq<char>> {
        map_of(self.entries@)
    }
}

impl Attributes {
    pub fn new() -> (r: Self)
        ensures
            r@ == Map::<Seq<char>, Seq<char>>::empty(),
    {
        Attributes { entries: Vec::new() }
    }

    /// The pairs that the mapping is kept as; a later pair overrides an
    /// earlier one of the same name.
    pub fn pairs(&self) -> (r: &Vec<(String, String)>)
        ensures
            map_of(r@) == self@,
    {
        &self.entries
    }

    /// Makes a mapping of a list of pairs; a later pair overrides an earlier
    /// one of the same name.
    pub fn from_pairs(pairs: Vec<(String, String)>) -> (r: Self)
        ensures
            r@ == map_of(pairs@),
    {
        Attributes { entries: pairs }
    }

    /// The value of the attribute `name`.
    pub fn get(&self, name: &str) -> (r: Option<&String>)
        ensures
            match r {
                Some(value) => lookup(self@, name@) == Some(value@),
                None => lookup(self@, name@) is None,
            },
    {
        let mut i: usize = self.entries.len();
        assert(self.entries@.take(i as int) == self.entries@);
        while i > 0
            invariant
                i <= self.entries.len(),
                lookup(map_of(self.entries@), name@) == lookup(
                    map_of(self.entries@.take(i as int)),
                    name@,
                ),
            decreases i,
        {
            assert(self.entries@.take(i as int).drop_last() == self.entries@.take(i - 1));
            i -= 1;
            if same_text(self.entries[i].0.as_str(), name) {
                return Some(&self.entries[i].1);
            }
        }
        None
    }

    /// Gives the attribute `name` the value `value`.
    pub fn insert(&mut self, name: String, value: String)
        ensures
            final(self)@ == old(self)@.insert(name@, value@),
    {
        self.remove(name.as_str());
        let ghost before = self.entries@;
        self.entries.push((name, value));
        assert(self.entries@.drop_last() == before);
        assert(old(self)@.remove(name@).insert(name@, value@) == old(self)@.insert(name@, value@));
    }

    /// Takes the attribute `name` away.
    pub fn remove(&mut self, name: &str)
        ensures
            final(self)@ == old(self)@.remove(name@),
    {
        let mut kept: Vec<(String, String)> = Vec::new();
        let mut i: usize = 0;
        assert(map_of(kept@) == map_of(self.entries@.take(0)).remove(name@));
        while i < self.entries.len()
            invariant
                i <= self.entries.len(),
                self.entries@ == old(self).entries@,
                map_of(kept@) == map_of(self.entries@.take(i as int)).remove(name@),
            decreases self.entries.len() - i,
        {
            assert(self.entries@.take(i + 1).drop_last() == self.entries@.take(i as int));
            if !same_text(self.entries[i].0.as_str(), name) {
                let ghost before = kept@;
                let pair = (self.entries[i].0.clone(), self.entries[i].1.clone());
                kept.push(pair);
                assert(kept@.drop_last() == before);
                assert(map_of(kept@) == map_of(self.entries@.take(i + 1)).remove(name@));
            } else {
                assert(map_of(kept@) == map_of(self.entries@.take(i + 1)).remove(name@));
            }
            i += 1;
        }
        assert(self.entries@.take(i as int) == self.entries@);
        self.entries = kept;
    }

    /// A copy of the mapping.
    pub fn copy(&self) -> (r: Self)
        ensures
            r@ == self@,
    {
        let mut entries: Vec<(String, String)> = Vec::new();
        let mut i: usize = 0;
        while i < self.entries.len()
            invariant
                i <= self.entries.len(),
                map_of(entries@) == map_of(self.entries@.take(i as int)),
            decreases self.entries.len() - i,
        {
            assert(self.entries@.take(i + 1).drop_last() == self.entries@.take(i as int));
            let ghost before = entries@;
            let pair = (self.entries[i].0.clone(), self.entries[i].1.clone());
            entries.push(pair);
            assert(entries@.drop_last() == before);
            i += 1;
        }
        assert(self.entries@.take(i as int) == self.entries@);
        Attributes { entries }
    }
}

} // verus!
