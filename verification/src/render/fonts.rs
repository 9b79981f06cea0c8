//! Fonts: which faces are still to be registered with the engine, and when the
//! fallback chain is installed.
//!
//! The engine scans a font folder once and caches the result, so every face is
//! handed over explicitly as soon as it has loaded.

use vstd::prelude::*;

use crate::keyed::{distinct, has_key, key_index, map_of, Key, KeyedSet};
use crate::scalar::Float32;

verus! {

/// Properties that text has by default.
#[derive(Clone, Copy, PartialEq, Eq, Debug)]
pub struct FontDefaults {
    pub size: Float32,
    pub weight: i32,
    pub stretch: i32,
    pub style: i32,
}

/// Size 12 (as bits), normal weight, stretch and style.
pub open spec fn normal_font() -> FontDefaults {
    FontDefaults { size: Float32 { bits: 0x4140_0000 }, weight: 400, stretch: 5, style: 0 }
}

/// What the engine knows of fonts.
pub struct FontState {
    /// Faces handed to the engine.
    pub registered: KeyedSet<(String, String)>,
    /// Whether the fallback chain was installed.
    pub fallbacks_installed: bool,
}

/// The faces that are there but not registered yet.
pub open spec fn pending_faces(
    registered: Set<(Seq<char>, Seq<char>)>,
    fonts: Set<(Seq<char>, Seq<char>)>,
) -> Set<(Seq<char>, Seq<char>)> {
    fonts.difference(registered)
}

/// Whether a face is in the list.
pub open spec fn lists_face(list: Seq<(String, String)>, face: (Seq<char>, Seq<char>)) -> bool {
    exists|i: int| 0 <= i < list.len() && (#[trigger] list[i])@ == face
}

spec fn face_below(
    all: Seq<((String, String), ())>,
    n: int,
    face: (Seq<char>, Seq<char>),
) -> bool {
    exists|i: int| 0 <= i < n && (#[trigger] all[i]).0@ == face
}

impl FontState {
    /// Nothing registered or installed.
    pub fn new() -> (s: FontState)
        ensures
            s.registered@ == Set::<(Seq<char>, Seq<char>)>::empty(),
            !s.fallbacks_installed,
    {
        FontState { registered: KeyedSet::new(), fallbacks_installed: false }
    }

    /// The faces that are there but not registered yet; they count as
    /// registered now.
    pub fn register_pending_fonts(&mut self, fonts: &KeyedSet<(String, String)>) -> (pending: Vec<
        (String, String),
    >)
        ensures
            forall|face: (Seq<char>, Seq<char>)| #[trigger]
                lists_face(pending@, face) <==> pending_faces(
                    old(self).registered@,
                    fonts@,
                ).contains(face),
            distinct(pending@),
            final(self).registered@ == old(self).registered@.union(fonts@),
            final(self).fallbacks_installed == old(self).fallbacks_installed,
    {
        let mut pending: Vec<(String, String)> = Vec::new();
        let n: usize = fonts.len();
        let ghost all = fonts.listed();
        let mut i: usize = 0;
        while i < n
            invariant
                i <= n,
                n == all.len(),
                all == fonts.listed(),
                fonts@ == map_of(all).dom(),
                self.fallbacks_installed == old(self).fallbacks_installed,
                forall|face: (Seq<char>, Seq<char>)| #[trigger]
                    self.registered@.contains(face) <==> old(self).registered@.contains(face)
                        || face_below(all, i as int, face),
                forall|face: (Seq<char>, Seq<char>)| #[trigger]
                    lists_face(pending@, face) <==> face_below(all, i as int, face) && !old(
                        self,
                    ).registered@.contains(face),
                distinct(pending@),
            decreases n - i,
        {
            let face = fonts.at(i);
            let ghost before = pending@;
            let ghost known = self.registered@;
            let fresh = self.registered.insert(face.copy_key());
            if fresh {
                pending.push(face.copy_key());
            }
            proof {
                let x = all[i as int].0@;
                assert forall|a: int, b: int| 0 <= a < b < pending@.len() implies (
                #[trigger] pending@[a])@ != (#[trigger] pending@[b])@ by {
                    assert(before[a] == pending@[a]);
                    assert(lists_face(before, before[a]@));
                }
                assert forall|f: (Seq<char>, Seq<char>)| #[trigger]
                    face_below(all, i + 1, f) <==> face_below(all, i as int, f) || f == x by {
                    if face_below(all, i + 1, f) {
                        let j = choose|j: int| 0 <= j < i + 1 && (#[trigger] all[j]).0@ == f;
                        if j < i {
                            assert(all[j].0@ == f);
                        }
                    }
                    if face_below(all, i as int, f) {
                        let j = choose|j: int| 0 <= j < i && (#[trigger] all[j]).0@ == f;
                        assert(all[j].0@ == f);
                    }
                    if f == x {
                        assert(all[i as int].0@ == f);
                    }
                }
                assert forall|f: (Seq<char>, Seq<char>)| #[trigger]
                    lists_face(pending@, f) <==> face_below(all, i + 1, f) && !old(
                        self,
                    ).registered@.contains(f) by {
                    if lists_face(before, f) {
                        let j = choose|j: int| 0 <= j < before.len() && (#[trigger] before[j])@ == f;
                        assert(pending@[j]@ == f);
                    }
                    if lists_face(pending@, f) && !lists_face(before, f) {
                        let j = choose|j: int|
                            0 <= j < pending@.len() && (#[trigger] pending@[j])@ == f;
                        if j < before.len() {
                            assert(before[j]@ == f);
                        }
                    }
                    if f == x && fresh {
                        assert(pending@[before.len() as int]@ == f);
                    }
                    if f == x && !fresh && !old(self).registered@.contains(f) {
                        assert(face_below(all, i as int, f));
                        assert(lists_face(before, f));
                    }
                }
            }
            i = i + 1;
        }
        proof {
            assert forall|f: (Seq<char>, Seq<char>)| face_below(all, n as int, f)
                <==> fonts@.contains(f) by {
                if face_below(all, n as int, f) {
                    assert(has_key(all, f));
                }
                if fonts@.contains(f) {
                    let j = key_index(all, f);
                    assert(all[j].0@ == f);
                }
            }
            assert(self.registered@ =~= old(self).registered@.union(fonts@));
        }
        pending
    }

    /// Whether the fallback chain is to be installed now: once, as soon as there
    /// is any font.
    pub fn install_font_fallbacks_if_needed(&mut self, fonts: &KeyedSet<(String, String)>) -> (r:
        Option<FontDefaults>)
        ensures
            r == (if !old(self).fallbacks_installed && fonts@
                != Set::<(Seq<char>, Seq<char>)>::empty() {
                Some(normal_font())
            } else {
                None
            }),
            final(self).fallbacks_installed == (old(self).fallbacks_installed || fonts@
                != Set::<(Seq<char>, Seq<char>)>::empty()),
            final(self).registered == old(self).registered,
    {
        if self.fallbacks_installed || fonts.is_empty() {
            return None;
        }
        self.fallbacks_installed = true;
        Some(
            FontDefaults {
                size: Float32 { bits: 0x4140_0000 },
                weight: 400,
                stretch: 5,
                style: 0,
            },
        )
    }
}

/// Every face is handed to the engine once: what was pending is never pending
/// again, whatever loads or goes away later.
pub proof fn law_faces_are_registered_once(
    registered: Set<(Seq<char>, Seq<char>)>,
    fonts: Set<(Seq<char>, Seq<char>)>,
    later: Set<(Seq<char>, Seq<char>)>,
)
    ensures
        pending_faces(registered.union(fonts), later).disjoint(pending_faces(registered, fonts)),
        pending_faces(registered.union(fonts), fonts) == Set::<(Seq<char>, Seq<char>)>::empty(),
{
    assert(pending_faces(registered.union(fonts), fonts) =~= Set::<
        (Seq<char>, Seq<char>),
    >::empty());
}

/// A face is pending exactly when it has loaded and was not handed over.
pub proof fn law_pending_is_loaded_and_new(
    registered: Set<(Seq<char>, Seq<char>)>,
    fonts: Set<(Seq<char>, Seq<char>)>,
    face: (Seq<char>, Seq<char>),
)
    ensures
        pending_faces(registered, fonts).contains(face) <==> fonts.contains(face)
            && !registered.contains(face),
{
}

/// A list holds each of its faces and no others.
pub proof fn law_lists_hold_their_faces(
    list: Seq<(String, String)>,
    i: int,
    face: (Seq<char>, Seq<char>),
)
    ensures
        0 <= i < list.len() ==> lists_face(list, (list[i].0@, list[i].1@)),
        lists_face(list, face) ==> exists|j: int|
            0 <= j < list.len() && (#[trigger] list[j]).0@ == face.0 && list[j].1@ == face.1,
{
    if 0 <= i < list.len() {
        assert(list[i]@ == (list[i].0@, list[i].1@));
    }
    if lists_face(list, face) {
        let j = choose|j: int| 0 <= j < list.len() && (#[trigger] list[j])@ == face;
        assert(list[j].0@ == face.0 && list[j].1@ == face.1);
    }
}

} // verus!
