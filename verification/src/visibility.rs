//! Visibility of named elements.

use vstd::prelude::*;

use crate::keyed::KeyedMap;

verus! {

/// The elements that a view shows and hides.
pub struct NoesisVisibility {
    /// Whether an element is visible, by name; else it is collapsed.
    pub set: KeyedMap<String, bool>,
}

impl Default for NoesisVisibility {
    fn default() -> (v: NoesisVisibility)
        ensures
            v.set@ == Map::<Seq<char>, bool>::empty(),
    {
        NoesisVisibility { set: KeyedMap::new() }
    }
}

impl NoesisVisibility {
    /// Changes nothing.
    pub fn new() -> (v: NoesisVisibility)
        ensures
            v.set@ == Map::<Seq<char>, bool>::empty(),
    {
        NoesisVisibility::default()
    }

    /// Shows the element `name`.
    pub fn show(self, name: &str) -> (v: NoesisVisibility)
        ensures
            v.set@ == self.set@.insert(name@, true),
    {
        self.set(name, true)
    }

    /// Hides the element `name`.
    pub fn hide_element(self, name: &str) -> (v: NoesisVisibility)
        ensures
            v.set@ == self.set@.insert(name@, false),
    {
        self.set(name, false)
    }

    /// Shows or hides the element `name`; the last word on it counts.
    pub fn set(self, name: &str, visible: bool) -> (v: NoesisVisibility)
        ensures
            v.set@ == self.set@.insert(name@, visible),
    {
        let mut v = self;
        v.write(name, visible);
        v
    }

    /// Shows the element `name`.
    pub fn reveal_element(&mut self, name: &str)
        ensures
            final(self).set@ == old(self).set@.insert(name@, true),
    {
        self.write(name, true);
    }

    /// Hides the element `name`.
    pub fn collapse(&mut self, name: &str)
        ensures
            final(self).set@ == old(self).set@.insert(name@, false),
    {
        self.write(name, false);
    }

    /// Shows or hides the element `name`.
    pub fn write(&mut self, name: &str, visible: bool)
        ensures
            final(self).set@ == old(self).set@.insert(name@, visible),
    {
        self.set.insert(name.to_owned(), visible);
    }
}

} // verus!
