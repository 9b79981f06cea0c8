//! Objects that were assigned to named elements and are read back from them.
//!
//! A read-back counts only while the element still holds the very object that
//! was assigned; an element that never took one reports nothing.

use vstd::prelude::*;

use crate::keyed::{distinct_keys, has_key, kept, key_index, map_of, KeyedMap, KeyedSet};
use crate::scalar::SameValue;
use crate::snapshots::{
    is_watched, law_reports_were_read, poll, poll_result, polled, readings_view, reports_view,
};

verus! {

/// What was assigned, and what was read back last.
pub struct Assigned<S: SameValue> {
    /// Names whose element took an object.
    pub names: KeyedSet<String>,
    /// What the last poll read.
    pub snapshots: KeyedMap<String, S>,
}

/// Names with an object after an assignment pass: those that are asked for no
/// more lose theirs, those whose element takes one have one.
pub open spec fn names_after(
    names: Set<Seq<char>>,
    desired: Set<Seq<char>>,
    content: bool,
    takes: Set<Seq<char>>,
) -> Set<Seq<char>> {
    names.intersect(desired).union(
        if content {
            desired.intersect(takes)
        } else {
            Set::empty()
        },
    )
}

/// The readings of names that have an object.
pub open spec fn trusted<S>(readings: Seq<(Seq<char>, Option<S>)>, names: Set<Seq<char>>) -> Seq<
    (Seq<char>, Option<S>),
> {
    readings.map_values(
        |r: (Seq<char>, Option<S>)|
            if names.contains(r.0) {
                r
            } else {
                (r.0, None)
            },
    )
}

impl<S: SameValue> Default for Assigned<S> {
    fn default() -> (a: Assigned<S>)
        ensures
            a.names@ == Set::<Seq<char>>::empty(),
            a.snapshots@ == Map::<Seq<char>, S>::empty(),
    {
        Assigned::new()
    }
}

impl<S: SameValue> Assigned<S> {
    /// Nothing assigned.
    pub fn new() -> (a: Assigned<S>)
        ensures
            a.names@ == Set::<Seq<char>>::empty(),
            a.snapshots@ == Map::<Seq<char>, S>::empty(),
    {
        Assigned { names: KeyedSet::new(), snapshots: KeyedMap::new() }
    }

    /// An assignment pass over `desired`. `content` tells whether there is a tree
    /// to look names up in, `takes` which elements take the object.
    pub fn assign(&mut self, desired: &KeyedMap<String, S>, content: bool, takes: &KeyedSet<String>)
        ensures
            final(self).names@ == names_after(
                old(self).names@,
                desired@.dom(),
                content,
                takes@,
            ),
            final(self).snapshots == old(self).snapshots,
    {
        let keep = |k: &String, _u: &()| -> (b: bool)
            ensures
                b == desired@.contains_key(k@),
            { desired.contains_key(k) };
        self.names.retain(keep, Ghost(|k: Seq<char>| desired@.contains_key(k)));
        let ghost start = self.names@;
        if content {
            let n: usize = desired.len();
            let ghost all = desired.listed();
            let mut i: usize = 0;
            while i < n
                invariant
                    i <= n,
                    n == all.len(),
                    all == desired.listed(),
                    distinct_keys(all),
                    desired@ == map_of(all),
                    self.snapshots == old(self).snapshots,
                    forall|k: Seq<char>| #[trigger]
                        self.names@.contains(k) <==> start.contains(k) || (has_key(
                            all.take(i as int),
                            k,
                        ) && takes@.contains(k)),
                decreases n - i,
            {
                let entry = desired.at(i);
                let ghost before = self.names@;
                if takes.contains(&entry.0) {
                    self.names.insert(entry.0.clone());
                }
                proof {
                    let part = all.take(i as int);
                    let next = all.take(i + 1);
                    assert(next == part.push(all[i as int]));
                    assert forall|k: Seq<char>| #[trigger] self.names@.contains(k)
                        <==> start.contains(k) || (has_key(next, k) && takes@.contains(k)) by {
                        assert(before.contains(k) <==> start.contains(k) || (has_key(part, k)
                            && takes@.contains(k)));
                        if has_key(part, k) {
                            let j = key_index(part, k);
                            assert(next[j].0@ == k);
                        }
                        if k == entry.0@ {
                            assert(next[i as int].0@ == k);
                        }
                        if has_key(next, k) {
                            let j = key_index(next, k);
                            if j < i {
                                assert(part[j].0@ == k);
                            }
                        }
                    }
                }
                i = i + 1;
            }
            assert(all.take(n as int) == all);
        }
        assert(self.names@ =~= names_after(old(self).names@, desired@.dom(), content, takes@));
    }

    /// A poll: `readings` holds what each watched element's object says, where
    /// the element holds the object that was assigned. What changed comes back.
    pub fn poll(&mut self, readings: &Vec<(String, Option<S>)>) -> (changed: Vec<(String, S)>)
        ensures
            ({
                let r = poll_result(
                    old(self).snapshots@,
                    trusted(readings_view(readings@), old(self).names@),
                );
                &&& final(self).snapshots@ == r.0
                &&& reports_view(changed@) == r.1
            }),
            final(self).names == old(self).names,
    {
        let mut seen: Vec<(String, Option<S>)> = Vec::new();
        let ghost wanted = trusted(readings_view(readings@), self.names@);
        let n: usize = readings.len();
        let mut i: usize = 0;
        while i < n
            invariant
                i <= n,
                n == readings@.len(),
                n == wanted.len(),
                wanted == trusted(readings_view(readings@), self.names@),
                seen@.len() == i,
                *self == *old(self),
                forall|j: int|
                    0 <= j < i ==> #[trigger] readings_view(seen@)[j] == wanted[j],
            decreases n - i,
        {
            let r = &readings[i];
            let ghost before = seen@;
            let value = if self.names.contains(&r.0) {
                r.1.duplicate()
            } else {
                None
            };
            seen.push((r.0.clone(), value));
            assert forall|j: int| 0 <= j < i + 1 implies #[trigger] readings_view(seen@)[j]
                == wanted[j] by {
                if j < i {
                    assert(readings_view(before)[j] == wanted[j]);
                    assert(readings_view(seen@)[j] == readings_view(before)[j]);
                }
            }
            i = i + 1;
        }
        assert(readings_view(seen@) =~= wanted);
        poll(&mut self.snapshots, &seen)
    }
}

/// An element that did not take the object reports nothing, whatever is read.
pub proof fn law_unassigned_is_silent<S: SameValue>(
    snapshots: Map<Seq<char>, S>,
    readings: Seq<(Seq<char>, Option<S>)>,
    names: Set<Seq<char>>,
    i: int,
)
    requires
        0 <= i < poll_result(snapshots, trusted(readings, names)).1.len(),
    ensures
        names.contains(poll_result(snapshots, trusted(readings, names)).1[i].0),
{
    let t = trusted(readings, names);
    let start = kept(snapshots, |k: Seq<char>| is_watched(t, k));
    law_reports_were_read(start, t, i);
    let out = polled(start, t).1;
    let j = choose|j: int|
        0 <= j < t.len() && (#[trigger] t[j]).0 == out[i].0 && t[j].1 == Some(out[i].1);
    assert(t[j] == if names.contains(readings[j].0) {
        readings[j]
    } else {
        (readings[j].0, None)
    });
}

/// A name has an object afterwards exactly when one is asked for and either it
/// had one or its element takes one now; without content no element does.
pub proof fn law_objects_are_taken_once(
    names: Set<Seq<char>>,
    desired: Set<Seq<char>>,
    content: bool,
    takes: Set<Seq<char>>,
    name: Seq<char>,
)
    ensures
        !desired.contains(name) ==> !names_after(names, desired, content, takes).contains(name),
        desired.contains(name) && names.contains(name) ==> names_after(
            names,
            desired,
            content,
            takes,
        ).contains(name),
        desired.contains(name) && !names.contains(name) ==> (names_after(
            names,
            desired,
            content,
            takes,
        ).contains(name) <==> content && takes.contains(name)),
{
}

/// What is read of an element that has an object counts as it was read.
pub proof fn law_assigned_readings_count<S>(
    readings: Seq<(Seq<char>, Option<S>)>,
    names: Set<Seq<char>>,
    i: int,
)
    requires
        0 <= i < readings.len(),
    ensures
        trusted(readings, names).len() == readings.len(),
        trusted(readings, names)[i].0 == readings[i].0,
        names.contains(readings[i].0) ==> trusted(readings, names)[i].1 == readings[i].1,
        !names.contains(readings[i].0) ==> trusted(readings, names)[i].1 is None,
{
}

} // verus!
