//! Text of named elements: what a view writes, and what it watches.

use vstd::prelude::*;

use crate::keyed::KeyedMap;
use crate::strings::{holds_string, texts};

verus! {

/// The text bridge of a view.
pub struct NoesisText {
    /// Text to write, by element name.
    pub set: KeyedMap<String, String>,
    /// Elements whose text is watched.
    pub watch: Vec<String>,
}

/// Texts by element name, as values.
pub open spec fn texts_of(m: Map<Seq<char>, String>) -> Map<Seq<char>, Seq<char>> {
    m.map_values(|s: String| s@)
}

/// A watch list with `name` in it.
pub open spec fn observed(watch: Seq<Seq<char>>, name: Seq<char>) -> Seq<Seq<char>> {
    if watch.contains(name) {
        watch
    } else {
        watch.push(name)
    }
}

impl Default for NoesisText {
    fn default() -> (t: NoesisText)
        ensures
            texts_of(t.set@) == Map::<Seq<char>, Seq<char>>::empty(),
            texts(t.watch@) == Seq::<Seq<char>>::empty(),
    {
        let t = NoesisText { set: KeyedMap::new(), watch: Vec::new() };
        assert(texts_of(t.set@) =~= Map::<Seq<char>, Seq<char>>::empty());
        assert(texts(t.watch@) =~= Seq::<Seq<char>>::empty());
        t
    }
}

impl NoesisText {
    /// Writes and watches nothing.
    pub fn new() -> (t: NoesisText)
        ensures
            texts_of(t.set@) == Map::<Seq<char>, Seq<char>>::empty(),
            texts(t.watch@) == Seq::<Seq<char>>::empty(),
    {
        NoesisText::default()
    }

    /// Writes `text` to the element `name`; an earlier text of it is replaced.
    pub fn with(self, name: &str, text: &str) -> (t: NoesisText)
        ensures
            texts_of(t.set@) == texts_of(self.set@).insert(name@, text@),
            t.watch == self.watch,
    {
        let mut t = self;
        t.write(name, text);
        t
    }

    /// Watches these elements too.
    pub fn watching(self, names: Vec<String>) -> (t: NoesisText)
        ensures
            t.set == self.set,
            texts(t.watch@) == texts(self.watch@) + texts(names@),
    {
        let mut t = self;
        let n: usize = names.len();
        let mut i: usize = 0;
        assert(texts(names@.take(0)) =~= Seq::<Seq<char>>::empty());
        assert(texts(t.watch@) =~= texts(self.watch@) + texts(names@.take(0)));
        while i < n
            invariant
                i <= n,
                n == names@.len(),
                t.set == self.set,
                texts(t.watch@) == texts(self.watch@) + texts(names@.take(i as int)),
            decreases n - i,
        {
            let ghost before = t.watch@;
            t.watch.push(names[i].clone());
            proof {
                assert(texts(t.watch@) =~= texts(before).push(names@[i as int]@));
                assert(texts(names@.take(i + 1)) =~= texts(names@.take(i as int)).push(
                    names@[i as int]@,
                ));
                assert(texts(self.watch@) + texts(names@.take(i + 1)) =~= (texts(
                    self.watch@,
                ) + texts(names@.take(i as int))).push(names@[i as int]@));
            }
            i = i + 1;
        }
        assert(names@.take(n as int) == names@);
        t
    }

    /// Writes `text` to the element `name`.
    pub fn write(&mut self, name: &str, text: &str)
        ensures
            texts_of(final(self).set@) == texts_of(old(self).set@).insert(name@, text@),
            final(self).watch == old(self).watch,
    {
        self.set.insert(name.to_owned(), text.to_owned());
        assert(texts_of(self.set@) =~= texts_of(old(self).set@).insert(name@, text@));
    }

    /// Watches the element `name`, unless it is watched already.
    pub fn observe(&mut self, name: &str)
        ensures
            final(self).set == old(self).set,
            texts(final(self).watch@) == observed(texts(old(self).watch@), name@),
    {
        if holds_string(&self.watch, name) {
            return;
        }
        self.watch.push(name.to_owned());
        assert(texts(self.watch@) =~= texts(old(self).watch@).push(name@));
    }
}

/// A watched element's text changed.
pub struct NoesisTextChanged {
    pub view: u64,
    pub name: String,
    pub text: String,
}

/// To watch an element twice is to watch it once.
pub proof fn law_observing_twice_is_once(watch: Seq<Seq<char>>, name: Seq<char>)
    ensures
        observed(observed(watch, name), name) == observed(watch, name),
{
    if !watch.contains(name) {
        assert(watch.push(name)[watch.len() as int] == name);
    }
}

/// Observing a name puts it behind those that are observed, which stay in their
/// places, and adds nothing where it is there.
pub proof fn law_observing_adds_one_name(watch: Seq<Seq<char>>, name: Seq<char>, i: int)
    ensures
        observed(watch, name).contains(name),
        watch.contains(name) ==> observed(watch, name) == watch,
        !watch.contains(name) ==> observed(watch, name).len() == watch.len() + 1,
        0 <= i < watch.len() ==> observed(watch, name)[i] == watch[i],
{
    if !watch.contains(name) {
        assert(observed(watch, name)[watch.len() as int] == name);
    }
}

} // verus!
