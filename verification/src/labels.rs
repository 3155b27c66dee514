//! The label table: each label's name and the position it marks.

use vstd::hash_map::StringHashMap;
use vstd::prelude::*;

verus! {

/// Labels by name. A label marks a position in the instruction list, and once
/// defined it keeps that position.
pub struct Labels {
    table: StringHashMap<usize>,
}

impl View for Labels {
    type V = Map<Seq<char>, usize>;

    /// The position of each label that is defined.
    closed spec fn view(&self) -> Map<Seq<char>, usize> {
        self.table@
    }
}

impl Labels {
    /// A table without labels.
    pub fn new() -> (labels: Labels)
        ensures
            labels@ == Map::<Seq<char>, usize>::empty(),
    {
        Labels { table: StringHashMap::new() }
    }

    /// Defines a label, unless one of that name exists: then the table stays
    /// as it is. Returns whether the label was defined.
    pub fn define(&mut self, name: String, position: usize) -> (defined: bool)
        ensures
            defined == !old(self)@.contains_key(name@),
            defined ==> final(self)@ == old(self)@.insert(name@, position),
            !defined ==> final(self)@ == old(self)@,
    {
        if self.table.contains_key(name.as_str()) {
            false
        } else {
            self.table.insert(name, position);
            true
        }
    }

    /// Returns whether a label of that name is defined.
    pub fn contains(&self, name: &str) -> (found: bool)
        ensures
            found == self@.contains_key(name@),
    {
        self.table.contains_key(name)
    }

    /// Returns the position that the label marks, or `None` where no label of
    /// that name is defined.
    pub fn get(&self, name: &str) -> (position: Option<usize>)
        ensures
            position == (if self@.contains_key(name@) {
                Some(self@[name@])
            } else {
                None
            }),
    {
        match self.table.get(name) {
            Some(position) => Some(*position),
            None => None,
        }
    }
}

} // verus!
