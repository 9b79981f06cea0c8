//! Collections bound to list controls and bindings onto element properties.
//!
//! Each is built once, bound when its view has a scene, and bound again after a
//! rebuild. What is no longer asked for is unbound before it is dropped.

use vstd::prelude::*;

use crate::keyed::{
    distinct, distinct_keys, has_key, kept, key_index, lemma_entry_in_map, map_of, Key, KeyedMap,
};
use crate::readbacks::ItemsReadback;
use crate::render::scene::SceneState;
use crate::render::state::{bound_in, is_stamped, stamped, BindEntry, NoesisRenderState, Tables};
use crate::scalar::SameValue;
use crate::snapshots::{law_reports_were_read, polled, readings_view, reports_view, take_readings};
use crate::strings::{holds_string, lists_string};

verus! {

/// The names of `sources` that `objects` does not hold, in order.
pub open spec fn names_without(sources: Seq<String>, objects: Seq<String>) -> Seq<Seq<char>>
    decreases sources.len(),
{
    if sources.len() == 0 {
        Seq::empty()
    } else {
        let rest = names_without(sources.drop_last(), objects);
        if lists_string(objects, sources.last()@) {
            rest
        } else {
            rest.push(sources.last()@)
        }
    }
}

/// What a list control is to show.
pub struct ItemsPlan {
    /// Name of the control.
    pub name: String,
    /// Whether the items are objects; else they are primitive values.
    pub objects: bool,
    /// Index to select.
    pub select: Option<i32>,
    /// Step to take through the items, by number.
    pub navigate: Option<i32>,
}

/// The value of a key, if it has one.
pub open spec fn looked_up(m: Map<Seq<char>, i32>, k: Seq<char>) -> Option<i32> {
    if m.contains_key(k) {
        Some(m[k])
    } else {
        None
    }
}

/// Whether a plan is the one for a name.
pub open spec fn plans_for(
    p: ItemsPlan,
    name: Seq<char>,
    objects: bool,
    select: Map<Seq<char>, i32>,
    navigate: Map<Seq<char>, i32>,
) -> bool {
    &&& p.name@ == name
    &&& p.objects == objects
    &&& p.select == looked_up(select, name)
    &&& p.navigate == looked_up(navigate, name)
}

fn plan_for(
    name: &String,
    objects: bool,
    select: &KeyedMap<String, i32>,
    navigate: &KeyedMap<String, i32>,
) -> (p: ItemsPlan)
    ensures
        plans_for(p, name@, objects, select@, navigate@),
{
    let select = match select.get(name) {
        Some(i) => Some(*i),
        None => None,
    };
    let navigate = match navigate.get(name) {
        Some(op) => Some(*op),
        None => None,
    };
    ItemsPlan { name: name.clone(), objects, select, navigate }
}

/// The collections after `entity` asked for `sources` and `objects`: what it no
/// longer names is gone, what is new is there and unbound, what stays keeps its
/// binding.
pub open spec fn items_synced(
    items: Map<(u64, Seq<char>), BindEntry>,
    entity: u64,
    sources: Seq<String>,
    objects: Seq<String>,
) -> Map<(u64, Seq<char>), BindEntry> {
    Map::new(
        |k: (u64, Seq<char>)|
            if k.0 == entity {
                lists_string(sources, k.1) || lists_string(objects, k.1)
            } else {
                items.contains_key(k)
            },
        |k: (u64, Seq<char>)|
            if items.contains_key(k) {
                items[k]
            } else {
                BindEntry { bound_for: None }
            },
    )
}

/// The readings of `entity`'s list controls that count: those of a live scene's
/// controls that have a collection.
pub open spec fn item_readings(
    t: Tables,
    entity: u64,
    readings: Seq<(Seq<char>, Option<ItemsReadback>)>,
) -> Seq<((u64, Seq<char>), Option<ItemsReadback>)> {
    readings.map_values(
        |r: (Seq<char>, Option<ItemsReadback>)|
            (
                (entity, r.0),
                if t.scenes.contains_key(entity) && t.items.contains_key((entity, r.0)) {
                    r.1
                } else {
                    None
                },
            ),
    )
}

/// `bevy::ecs::entity::Entity::try_from_bits` followed by `to_bits`: every bit
/// pattern whose lower half is not zero stands for an entity and is given back
/// unchanged; no other does.
#[verifier::external_body]
fn entity_from_bits(bits: u64) -> (r: Option<u64>)
    ensures
        r == if bits % 0x1_0000_0000 != 0 {
            Some(bits)
        } else {
            None
        },
{
    match bevy::ecs::entity::Entity::try_from_bits(bits) {
        Some(e) => Some(e.to_bits()),
        None => None,
    }
}

/// A click on a row of the list `name`: the view it happened in, the row's
/// entity and the list. `bits` is what the row's data says of its entity; a row
/// without, or one that is no entity, reports nothing.
pub fn row_clicked(view: u64, name: &str, bits: Option<u64>) -> (r: Option<(u64, u64, String)>)
    ensures
        match bits {
            Some(b) if b % 0x1_0000_0000 != 0 => r matches Some(c) && c.0 == view && c.1 == b
                && c.2@ == name@,
            _ => r is None,
        },
{
    match bits {
        Some(b) => match entity_from_bits(b) {
            Some(row) => Some((view, row, name.to_owned())),
            None => None,
        },
        None => None,
    }
}

/// Whether a pair is in the list.
pub open spec fn lists_pair(pairs: Seq<(String, String)>, p: (Seq<char>, Seq<char>)) -> bool {
    exists|i: int| 0 <= i < pairs.len() && (#[trigger] pairs[i])@ == p
}

fn has_pair(pairs: &Vec<(String, String)>, p: &(String, String)) -> (r: bool)
    ensures
        r == lists_pair(pairs@, p@),
{
    let n: usize = pairs.len();
    let mut i: usize = 0;
    while i < n
        invariant
            i <= n,
            n == pairs@.len(),
            forall|j: int| 0 <= j < i ==> (#[trigger] pairs@[j])@ != p@,
        decreases n - i,
    {
        if pairs[i].same_key(p) {
            return true;
        }
        i = i + 1;
    }
    false
}

fn waits_for_bind(
    scenes: &KeyedMap<u64, SceneState>,
    entity: u64,
    e: Option<&BindEntry>,
) -> (r: bool)
    ensures
        r == (e is Some && scenes@.contains_key(entity) && !bound_in(scenes@, entity, *e->0)),
{
    match (e, scenes.get(&entity)) {
        (Some(e), Some(s)) => !is_stamped(&e.bound_for, s.built_for_uri.as_str()),
        _ => false,
    }
}

fn is_bound(scenes: &KeyedMap<u64, SceneState>, entity: u64, e: &BindEntry) -> (r: bool)
    ensures
        r == bound_in(scenes@, entity, *e),
{
    match scenes.get(&entity) {
        Some(s) => is_stamped(&e.bound_for, s.built_for_uri.as_str()),
        None => false,
    }
}

fn ensure_item(items: &mut KeyedMap<(u64, String), BindEntry>, entity: u64, name: &String)
    ensures
        final(items)@ == if old(items)@.contains_key((entity, name@)) {
            old(items)@
        } else {
            old(items)@.insert((entity, name@), BindEntry { bound_for: None })
        },
{
    let k = (entity, name.clone());
    if !items.contains_key(&k) {
        items.insert(k, BindEntry { bound_for: None });
    }
}

fn ensure_items(items: &mut KeyedMap<(u64, String), BindEntry>, entity: u64, names: &Vec<String>)
    ensures
        forall|k: (u64, Seq<char>)| #[trigger]
            final(items)@.contains_key(k) <==> old(items)@.contains_key(k) || (k.0 == entity
                && lists_string(names@, k.1)),
        forall|k: (u64, Seq<char>)| #[trigger]
            final(items)@.contains_key(k) ==> final(items)@[k] == if old(items)@.contains_key(k) {
                old(items)@[k]
            } else {
                BindEntry { bound_for: None }
            },
{
    let n: usize = names.len();
    let mut i: usize = 0;
    while i < n
        invariant
            i <= n,
            n == names@.len(),
            forall|k: (u64, Seq<char>)| #[trigger]
                items@.contains_key(k) <==> old(items)@.contains_key(k) || (k.0 == entity
                    && lists_string(names@.take(i as int), k.1)),
            forall|k: (u64, Seq<char>)| #[trigger]
                items@.contains_key(k) ==> items@[k] == if old(items)@.contains_key(k) {
                    old(items)@[k]
                } else {
                    BindEntry { bound_for: None }
                },
        decreases n - i,
    {
        ensure_item(items, entity, &names[i]);
        proof {
            lemma_lists_push(names@, i as int);
        }
        i = i + 1;
    }
    assert(names@.take(n as int) == names@);
}

proof fn lemma_lists_push(names: Seq<String>, i: int)
    requires
        0 <= i < names.len(),
    ensures
        forall|x: Seq<char>| #[trigger]
            lists_string(names.take(i + 1), x) <==> lists_string(names.take(i), x) || x == names[i]@,
{
    let a = names.take(i);
    let b = names.take(i + 1);
    assert forall|x: Seq<char>| #[trigger] lists_string(b, x) <==> lists_string(a, x) || x
        == names[i]@ by {
        if lists_string(a, x) {
            let j = choose|j: int| 0 <= j < a.len() && (#[trigger] a[j])@ == x;
            assert(b[j]@ == x);
        }
        if x == names[i]@ {
            assert(b[i]@ == x);
        }
        if lists_string(b, x) {
            let j = choose|j: int| 0 <= j < b.len() && (#[trigger] b[j])@ == x;
            if j < i {
                assert(a[j]@ == x);
            }
        }
    }
}

impl NoesisRenderState {
    /// Brings `entity`'s collections in step with what it asks for. Object items
    /// take precedence over a primitive source of the same name. What each
    /// control is to show comes back: the primitive sources first, then the
    /// objects.
    pub fn sync_items(
        &mut self,
        entity: u64,
        sources: &Vec<String>,
        objects: &Vec<String>,
        select: &KeyedMap<String, i32>,
        navigate: &KeyedMap<String, i32>,
    ) -> (r: Vec<ItemsPlan>)
        ensures
            final(self)@ == (Tables {
                items: items_synced(old(self)@.items, entity, sources@, objects@),
                item_readbacks: kept(
                    old(self)@.item_readbacks,
                    |k: (u64, Seq<char>)|
                        k.0 != entity || lists_string(sources@, k.1) || lists_string(objects@, k.1),
                ),
                ..old(self)@
            }),
            ({
                let plain = names_without(sources@, objects@);
                &&& r@.len() == plain.len() + objects@.len()
                &&& forall|i: int|
                    0 <= i < plain.len() ==> plans_for(
                        #[trigger] r@[i],
                        plain[i],
                        false,
                        select@,
                        navigate@,
                    )
                &&& forall|i: int|
                    plain.len() <= i < r@.len() ==> plans_for(
                        #[trigger] r@[i],
                        objects@[i - plain.len()]@,
                        true,
                        select@,
                        navigate@,
                    )
            }),
    {
        let keep = |k: &(u64, String), _e: &BindEntry| -> (b: bool)
            ensures
                b == (k@.0 != entity || lists_string(sources@, k@.1) || lists_string(objects@, k@.1)),
            { k.0 != entity || holds_string(sources, k.1.as_str()) || holds_string(objects, k.1.as_str()) };
        self.items.retain(
            keep,
            Ghost(
                |k: (u64, Seq<char>)|
                    k.0 != entity || lists_string(sources@, k.1) || lists_string(objects@, k.1),
            ),
        );
        let keep = |k: &(u64, String), _e: &ItemsReadback| -> (b: bool)
            ensures
                b == (k@.0 != entity || lists_string(sources@, k@.1) || lists_string(objects@, k@.1)),
            { k.0 != entity || holds_string(sources, k.1.as_str()) || holds_string(objects, k.1.as_str()) };
        self.item_readbacks.retain(
            keep,
            Ghost(
                |k: (u64, Seq<char>)|
                    k.0 != entity || lists_string(sources@, k.1) || lists_string(objects@, k.1),
            ),
        );
        ensure_items(&mut self.items, entity, sources);
        ensure_items(&mut self.items, entity, objects);
        assert(self@.items =~= items_synced(old(self)@.items, entity, sources@, objects@));
        let mut r: Vec<ItemsPlan> = Vec::new();
        let n: usize = sources.len();
        let mut i: usize = 0;
        assert(sources@.take(0) =~= Seq::<String>::empty());
        while i < n
            invariant
                i <= n,
                n == sources@.len(),
                r@.len() == names_without(sources@.take(i as int), objects@).len(),
                forall|j: int|
                    0 <= j < r@.len() ==> plans_for(
                        #[trigger] r@[j],
                        names_without(sources@.take(i as int), objects@)[j],
                        false,
                        select@,
                        navigate@,
                    ),
            decreases n - i,
        {
            proof {
                assert(sources@.take(i + 1).drop_last() == sources@.take(i as int));
            }
            if !holds_string(objects, sources[i].as_str()) {
                r.push(plan_for(&sources[i], false, select, navigate));
            }
            i = i + 1;
        }
        assert(sources@.take(n as int) == sources@);
        let ghost plain = names_without(sources@, objects@);
        let m: usize = objects.len();
        let mut k: usize = 0;
        while k < m
            invariant
                k <= m,
                m == objects@.len(),
                r@.len() == plain.len() + k,
                forall|j: int|
                    0 <= j < plain.len() ==> plans_for(
                        #[trigger] r@[j],
                        plain[j],
                        false,
                        select@,
                        navigate@,
                    ),
                forall|j: int|
                    plain.len() <= j < r@.len() ==> plans_for(
                        #[trigger] r@[j],
                        objects@[j - plain.len()]@,
                        true,
                        select@,
                        navigate@,
                    ),
            decreases m - k,
        {
            r.push(plan_for(&objects[k], true, select, navigate));
            k = k + 1;
        }
        r
    }

    /// Whether a collection is waiting to be bound.
    pub fn item_needs_bind(&self, entity: u64, name: &str) -> (r: bool)
        ensures
            r == (self@.items.contains_key((entity, name@)) && self@.scenes.contains_key(entity)
                && !bound_in(self@.scenes, entity, self@.items[(entity, name@)])),
    {
        let k = (entity, name.to_owned());
        waits_for_bind(&self.scenes, entity, self.items.get(&k))
    }

    /// Records that a collection was bound in the live scene.
    pub fn item_bound(&mut self, entity: u64, name: &str)
        requires
            old(self)@.scenes.contains_key(entity),
        ensures
            ({
                let now = final(self)@.items[(entity, name@)];
                &&& final(self)@ == (Tables {
                    items: old(self)@.items.insert((entity, name@), now),
                    ..old(self)@
                })
                &&& bound_in(old(self)@.scenes, entity, now)
            }),
    {
        let uri = match self.scenes.get(&entity) {
            Some(s) => s.built_for_uri.clone(),
            None => String::new(),
        };
        self.items.insert((entity, name.to_owned()), BindEntry { bound_for: Some(uri) });
    }

    /// Drops `entity`'s collections. The names of those bound in the live scene
    /// come back: their controls are cleared first.
    pub fn reap_items_for(&mut self, entity: u64) -> (clear: Vec<String>)
        ensures
            final(self)@ == (Tables {
                items: kept(old(self)@.items, |k: (u64, Seq<char>)| k.0 != entity),
                item_readbacks: kept(
                    old(self)@.item_readbacks,
                    |k: (u64, Seq<char>)| k.0 != entity,
                ),
                ..old(self)@
            }),
            forall|name: Seq<char>| #[trigger]
                lists_string(clear@, name) <==> (old(self)@.items.contains_key((entity, name))
                    && bound_in(old(self)@.scenes, entity, old(self)@.items[(entity, name)])),
            distinct(clear@),
    {
        let mut clear: Vec<String> = Vec::new();
        let n: usize = self.items.len();
        let ghost all = self.items.listed();
        let mut i: usize = 0;
        while i < n
            invariant
                i <= n,
                n == all.len(),
                all == self.items.listed(),
                distinct_keys(all),
                self.items@ == map_of(all),
                self@ == old(self)@,
                forall|name: Seq<char>| #[trigger]
                    lists_string(clear@, name) <==> bound_below(
                        all,
                        i as int,
                        self@.scenes,
                        entity,
                        name,
                    ),
                distinct(clear@),
            decreases n - i,
        {
            let e = self.items.at(i);
            let ghost before = clear@;
            if e.0.0 == entity && is_bound(&self.scenes, entity, &e.1) {
                clear.push(e.0.1.clone());
            }
            proof {
                assert forall|a: int, b: int| 0 <= a < b < clear@.len() implies (
                #[trigger] clear@[a])@ != (#[trigger] clear@[b])@ by {
                    assert(before[a] == clear@[a]);
                    if b == before.len() {
                        assert(lists_string(before, before[a]@));
                        let j = choose|j: int|
                            0 <= j < i && (#[trigger] all[j]).0@ == (entity, before[a]@)
                                && bound_in(self@.scenes, entity, all[j].1);
                        assert(all[j].0@ != all[i as int].0@);
                    }
                }
                assert forall|name: Seq<char>| #[trigger] lists_string(clear@, name) <==> bound_below(
                    all,
                    i + 1,
                    self@.scenes,
                    entity,
                    name,
                ) by {
                    if lists_string(before, name) {
                        let x = choose|x: int| 0 <= x < before.len() && (#[trigger] before[x])@ == name;
                        assert(clear@[x]@ == name);
                        assert(bound_below(all, i as int, self@.scenes, entity, name));
                        let j = choose|j: int|
                            0 <= j < i && (#[trigger] all[j]).0@ == (entity, name) && bound_in(
                                self@.scenes,
                                entity,
                                all[j].1,
                            );
                        assert(all[j].0@ == (entity, name));
                    }
                    if lists_string(clear@, name) && !lists_string(before, name) {
                        let x = choose|x: int| 0 <= x < clear@.len() && (#[trigger] clear@[x])@ == name;
                        if x < before.len() {
                            assert(before[x]@ == name);
                        }
                        assert(all[i as int].0@ == (entity, name));
                    }
                    if bound_below(all, i + 1, self@.scenes, entity, name) && !lists_string(
                        before,
                        name,
                    ) {
                        let j = choose|j: int|
                            0 <= j < i + 1 && (#[trigger] all[j]).0@ == (entity, name) && bound_in(
                                self@.scenes,
                                entity,
                                all[j].1,
                            );
                        if j < i {
                            assert(bound_below(all, i as int, self@.scenes, entity, name));
                        }
                        assert(clear@[before.len() as int]@ == name);
                    }
                }
            }
            i = i + 1;
        }
        proof {
            assert forall|name: Seq<char>| #[trigger] lists_string(clear@, name) <==> (
            self@.items.contains_key((entity, name)) && bound_in(
                self@.scenes,
                entity,
                self@.items[(entity, name)],
            )) by {
                let k = (entity, name);
                if bound_below(all, n as int, self@.scenes, entity, name) {
                    let j = choose|j: int|
                        0 <= j < n && (#[trigger] all[j]).0@ == k && bound_in(
                            self@.scenes,
                            entity,
                            all[j].1,
                        );
                    lemma_entry_in_map(all, j);
                }
                if self@.items.contains_key(k) && bound_in(self@.scenes, entity, self@.items[k]) {
                    let j = key_index(all, k);
                    assert(all[j].0@ == k);
                    lemma_entry_in_map(all, j);
                    assert(bound_below(all, n as int, self@.scenes, entity, name));
                }
            }
        }
        NoesisRenderState::drop_bound(&mut self.items, entity);
        NoesisRenderState::drop_bound(&mut self.item_readbacks, entity);
        clear
    }

    /// A poll of `entity`'s list controls: `readings` holds what was read of each
    /// that could be read. What differs from the last poll comes back, and is
    /// what the next poll compares with; a control without a collection is passed
    /// over. What was read last stays over a rebuild of the scene.
    pub fn poll_items_for(
        &mut self,
        entity: u64,
        readings: &Vec<(String, Option<ItemsReadback>)>,
    ) -> (changed: Vec<(String, ItemsReadback)>)
        ensures
            ({
                let r = polled(
                    old(self)@.item_readbacks,
                    item_readings(old(self)@, entity, readings_view(readings@)),
                );
                &&& final(self)@ == (Tables { item_readbacks: r.0, ..old(self)@ })
                &&& changed@.map_values(
                    |c: (String, ItemsReadback)| ((entity, c.0@), c.1),
                ) == r.1
            }),
    {
        let live = self.scenes.contains_key(&entity);
        let ghost wanted = item_readings(self@, entity, readings_view(readings@));
        let mut seen: Vec<((u64, String), Option<ItemsReadback>)> = Vec::new();
        let n: usize = readings.len();
        let mut i: usize = 0;
        while i < n
            invariant
                i <= n,
                n == readings@.len(),
                n == wanted.len(),
                live == self@.scenes.contains_key(entity),
                wanted == item_readings(self@, entity, readings_view(readings@)),
                *self == *old(self),
                seen@.len() == i,
                forall|j: int| 0 <= j < i ==> #[trigger] readings_view(seen@)[j] == wanted[j],
            decreases n - i,
        {
            let ghost before = seen@;
            let k = (entity, readings[i].0.clone());
            let value = if live && self.items.contains_key(&k) {
                readings[i].1.duplicate()
            } else {
                None
            };
            seen.push((k, value));
            assert forall|j: int| 0 <= j < i + 1 implies #[trigger] readings_view(seen@)[j]
                == wanted[j] by {
                if j < i {
                    assert(readings_view(before)[j] == wanted[j]);
                    assert(readings_view(seen@)[j] == readings_view(before)[j]);
                }
            }
            i = i + 1;
        }
        assert(readings_view(seen@) =~= wanted);
        let ghost start = self@.item_readbacks;
        let found = take_readings(&mut self.item_readbacks, &seen);
        let ghost all = reports_view(found@);
        proof {
            assert forall|j: int| 0 <= j < all.len() implies (#[trigger] all[j]).0.0 == entity by {
                law_reports_were_read(start, wanted, j);
                let x = choose|x: int|
                    0 <= x < wanted.len() && (#[trigger] wanted[x]).0 == all[j].0 && wanted[x].1
                        == Some(all[j].1);
                assert(wanted[x].0.0 == entity);
            }
        }
        let mut changed: Vec<(String, ItemsReadback)> = Vec::new();
        let m: usize = found.len();
        let mut k: usize = 0;
        while k < m
            invariant
                k <= m,
                m == found@.len(),
                all == reports_view(found@),
                changed@.len() == k,
                forall|j: int| 0 <= j < m ==> (#[trigger] all[j]).0.0 == entity,
                forall|j: int|
                    0 <= j < k ==> ((entity, (#[trigger] changed@[j]).0@), changed@[j].1) == all[j],
            decreases m - k,
        {
            changed.push((found[k].0.1.clone(), found[k].1.duplicate()));
            k = k + 1;
        }
        assert(changed@.map_values(|c: (String, ItemsReadback)| ((entity, c.0@), c.1)) =~= all);
        changed
    }

    /// Makes sure that `entity` has a list of this name.
    pub fn ensure_list(&mut self, entity: u64, name: &str)
        ensures
            final(self)@ == (Tables {
                lists: if old(self)@.lists.contains_key((entity, name@)) {
                    old(self)@.lists
                } else {
                    old(self)@.lists.insert((entity, name@), BindEntry { bound_for: None })
                },
                ..old(self)@
            }),
    {
        ensure_item(&mut self.lists, entity, &name.to_owned());
    }

    /// Whether a list is waiting to be bound.
    pub fn list_needs_bind(&self, entity: u64, name: &str) -> (r: bool)
        ensures
            r == (self@.lists.contains_key((entity, name@)) && self@.scenes.contains_key(entity)
                && !bound_in(self@.scenes, entity, self@.lists[(entity, name@)])),
    {
        let k = (entity, name.to_owned());
        waits_for_bind(&self.scenes, entity, self.lists.get(&k))
    }

    /// Records that a list was bound in the live scene. `row_clicks` tells
    /// whether the handler for clicks on its rows could be installed.
    pub fn list_bound(&mut self, entity: u64, name: &str, row_clicks: bool)
        requires
            old(self)@.scenes.contains_key(entity),
        ensures
            ({
                let now = final(self)@.lists[(entity, name@)];
                &&& final(self)@ == (Tables {
                    lists: old(self)@.lists.insert((entity, name@), now),
                    row_clicks: if row_clicks {
                        old(self)@.row_clicks.insert((entity, name@))
                    } else {
                        old(self)@.row_clicks
                    },
                    ..old(self)@
                })
                &&& bound_in(old(self)@.scenes, entity, now)
            }),
    {
        let uri = match self.scenes.get(&entity) {
            Some(s) => s.built_for_uri.clone(),
            None => String::new(),
        };
        self.lists.insert((entity, name.to_owned()), BindEntry { bound_for: Some(uri) });
        if row_clicks {
            self.row_clicks.insert((entity, name.to_owned()));
        }
    }

    /// Drops `entity`'s lists and the handlers for clicks on their rows.
    pub fn reap_list_for(&mut self, entity: u64)
        ensures
            final(self)@ == (Tables {
                lists: kept(old(self)@.lists, |k: (u64, Seq<char>)| k.0 != entity),
                row_clicks: if old(self)@.scenes.contains_key(entity) {
                    old(self)@.row_clicks.filter(|k: (u64, Seq<char>)| k.0 != entity)
                } else {
                    old(self)@.row_clicks
                },
                ..old(self)@
            }),
    {
        NoesisRenderState::drop_bound(&mut self.lists, entity);
        if self.scenes.contains_key(&entity) {
            NoesisRenderState::drop_named(&mut self.row_clicks, entity);
        }
    }

    /// Number of lists.
    pub fn live_list_count(&self) -> (n: usize)
        ensures
            self@.lists.dom().finite(),
            n == self@.lists.dom().len(),
    {
        self.lists.len()
    }

    /// Whether a binding was built.
    pub fn has_binding(&self, entity: u64, element: &str, property: &str) -> (r: bool)
        ensures
            r == self@.bindings.contains_key((entity, (element@, property@))),
    {
        let k = (entity, (element.to_owned(), property.to_owned()));
        self.bindings.contains_key(&k)
    }

    /// Records a binding that was built; it replaces one for the same property.
    pub fn insert_binding(&mut self, entity: u64, element: &str, property: &str)
        ensures
            final(self)@ == (Tables {
                bindings: old(self)@.bindings.insert(
                    (entity, (element@, property@)),
                    BindEntry { bound_for: None },
                ),
                ..old(self)@
            }),
    {
        self.bindings.insert(
            (entity, (element.to_owned(), property.to_owned())),
            BindEntry { bound_for: None },
        );
    }

    /// Whether a binding is waiting to be bound.
    pub fn binding_needs_bind(&self, entity: u64, element: &str, property: &str) -> (r: bool)
        ensures
            ({
                let k = (entity, (element@, property@));
                r == (self@.bindings.contains_key(k) && self@.scenes.contains_key(entity)
                    && !bound_in(self@.scenes, entity, self@.bindings[k]))
            }),
    {
        let k = (entity, (element.to_owned(), property.to_owned()));
        waits_for_bind(&self.scenes, entity, self.bindings.get(&k))
    }

    /// `entity`'s bindings that are waiting to be bound.
    pub fn bind_pending_for(&self, entity: u64) -> (pending: Vec<(String, String)>)
        ensures
            forall|p: (Seq<char>, Seq<char>)| #[trigger]
                lists_pair(pending@, p) <==> {
                    &&& self@.scenes.contains_key(entity)
                    &&& self@.bindings.contains_key((entity, p))
                    &&& !bound_in(self@.scenes, entity, self@.bindings[(entity, p)])
                },
            distinct(pending@),
    {
        let mut pending: Vec<(String, String)> = Vec::new();
        let n: usize = self.bindings.len();
        let ghost all = self.bindings.listed();
        let mut i: usize = 0;
        while i < n
            invariant
                i <= n,
                n == all.len(),
                all == self.bindings.listed(),
                distinct_keys(all),
                self.bindings@ == map_of(all),
                forall|p: (Seq<char>, Seq<char>)| #[trigger]
                    lists_pair(pending@, p) <==> pair_waits_below(
                        all,
                        i as int,
                        self@.scenes,
                        entity,
                        p,
                    ),
                distinct(pending@),
            decreases n - i,
        {
            let e = self.bindings.at(i);
            let ghost before = pending@;
            if e.0.0 == entity && waits_for_bind(&self.scenes, entity, Some(&e.1)) {
                pending.push(e.0.1.copy_key());
            }
            proof {
                assert forall|a: int, b: int| 0 <= a < b < pending@.len() implies (
                #[trigger] pending@[a])@ != (#[trigger] pending@[b])@ by {
                    assert(before[a] == pending@[a]);
                    if b == before.len() {
                        assert(lists_pair(before, before[a]@));
                        let j = choose|j: int|
                            0 <= j < i && (#[trigger] all[j]).0@ == (entity, before[a]@)
                                && self@.scenes.contains_key(entity) && !bound_in(
                                self@.scenes,
                                entity,
                                all[j].1,
                            );
                        assert(all[j].0@ != all[i as int].0@);
                    }
                }
                assert forall|p: (Seq<char>, Seq<char>)| #[trigger] lists_pair(pending@, p)
                    <==> pair_waits_below(all, i + 1, self@.scenes, entity, p) by {
                    if lists_pair(before, p) {
                        let x = choose|x: int| 0 <= x < before.len() && (#[trigger] before[x])@ == p;
                        assert(pending@[x]@ == p);
                        assert(pair_waits_below(all, i as int, self@.scenes, entity, p));
                        let j = choose|j: int|
                            0 <= j < i && (#[trigger] all[j]).0@ == (entity, p)
                                && self@.scenes.contains_key(entity) && !bound_in(
                                self@.scenes,
                                entity,
                                all[j].1,
                            );
                        assert(all[j].0@ == (entity, p));
                    }
                    if lists_pair(pending@, p) && !lists_pair(before, p) {
                        let x = choose|x: int|
                            0 <= x < pending@.len() && (#[trigger] pending@[x])@ == p;
                        if x < before.len() {
                            assert(before[x]@ == p);
                        }
                        assert(all[i as int].0@ == (entity, p));
                    }
                    if pair_waits_below(all, i + 1, self@.scenes, entity, p) && !lists_pair(
                        before,
                        p,
                    ) {
                        let j = choose|j: int|
                            0 <= j < i + 1 && (#[trigger] all[j]).0@ == (entity, p)
                                && self@.scenes.contains_key(entity) && !bound_in(
                                self@.scenes,
                                entity,
                                all[j].1,
                            );
                        if j < i {
                            assert(pair_waits_below(all, i as int, self@.scenes, entity, p));
                        }
                        assert(pending@[before.len() as int]@ == p);
                    }
                }
            }
            i = i + 1;
        }
        proof {
            assert forall|p: (Seq<char>, Seq<char>)| #[trigger] lists_pair(pending@, p) <==> (
            self@.scenes.contains_key(entity) && self@.bindings.contains_key((entity, p))
                && !bound_in(self@.scenes, entity, self@.bindings[(entity, p)])) by {
                let k = (entity, p);
                if pair_waits_below(all, n as int, self@.scenes, entity, p) {
                    let j = choose|j: int|
                        0 <= j < n && (#[trigger] all[j]).0@ == k && self@.scenes.contains_key(
                            entity,
                        ) && !bound_in(self@.scenes, entity, all[j].1);
                    lemma_entry_in_map(all, j);
                }
                if self@.scenes.contains_key(entity) && self@.bindings.contains_key(k)
                    && !bound_in(self@.scenes, entity, self@.bindings[k]) {
                    let j = key_index(all, k);
                    assert(all[j].0@ == k);
                    lemma_entry_in_map(all, j);
                    assert(pair_waits_below(all, n as int, self@.scenes, entity, p));
                }
            }
        }
        pending
    }

    /// Records that a binding was bound in the live scene.
    pub fn binding_bound(&mut self, entity: u64, element: &str, property: &str)
        requires
            old(self)@.scenes.contains_key(entity),
        ensures
            ({
                let k = (entity, (element@, property@));
                let now = final(self)@.bindings[k];
                &&& final(self)@ == (Tables {
                    bindings: old(self)@.bindings.insert(k, now),
                    ..old(self)@
                })
                &&& bound_in(old(self)@.scenes, entity, now)
            }),
    {
        let uri = match self.scenes.get(&entity) {
            Some(s) => s.built_for_uri.clone(),
            None => String::new(),
        };
        self.bindings.insert(
            (entity, (element.to_owned(), property.to_owned())),
            BindEntry { bound_for: Some(uri) },
        );
    }

    /// Drops a binding. The answer tells whether it is bound in the live scene:
    /// then the property is cleared first.
    pub fn reap_binding_for(&mut self, entity: u64, element: &str, property: &str) -> (clear: bool)
        ensures
            ({
                let k = (entity, (element@, property@));
                &&& final(self)@ == (Tables {
                    bindings: old(self)@.bindings.remove(k),
                    ..old(self)@
                })
                &&& clear == (old(self)@.bindings.contains_key(k) && bound_in(
                    old(self)@.scenes,
                    entity,
                    old(self)@.bindings[k],
                ))
            }),
    {
        let k = (entity, (element.to_owned(), property.to_owned()));
        let clear = match self.bindings.get(&k) {
            Some(e) => is_bound(&self.scenes, entity, e),
            None => false,
        };
        self.bindings.remove(&k);
        clear
    }

    /// Drops `entity`'s bindings that `keep` does not name. Those bound in the
    /// live scene come back: their properties are cleared first.
    pub fn prune_bindings_for(&mut self, entity: u64, keep: &Vec<(String, String)>) -> (clear: Vec<
        (String, String),
    >)
        ensures
            final(self)@ == (Tables {
                bindings: kept(
                    old(self)@.bindings,
                    |k: (u64, (Seq<char>, Seq<char>))| k.0 != entity || lists_pair(keep@, k.1),
                ),
                ..old(self)@
            }),
            forall|p: (Seq<char>, Seq<char>)| #[trigger]
                lists_pair(clear@, p) <==> {
                    &&& !lists_pair(keep@, p)
                    &&& old(self)@.bindings.contains_key((entity, p))
                    &&& bound_in(old(self)@.scenes, entity, old(self)@.bindings[(entity, p)])
                },
            distinct(clear@),
    {
        let mut clear: Vec<(String, String)> = Vec::new();
        let n: usize = self.bindings.len();
        let ghost all = self.bindings.listed();
        let mut i: usize = 0;
        while i < n
            invariant
                i <= n,
                n == all.len(),
                all == self.bindings.listed(),
                distinct_keys(all),
                self.bindings@ == map_of(all),
                self@ == old(self)@,
                forall|p: (Seq<char>, Seq<char>)| #[trigger]
                    lists_pair(clear@, p) <==> !lists_pair(keep@, p) && pair_bound_below(
                        all,
                        i as int,
                        self@.scenes,
                        entity,
                        p,
                    ),
                distinct(clear@),
            decreases n - i,
        {
            let e = self.bindings.at(i);
            let ghost before = clear@;
            if e.0.0 == entity && !has_pair(keep, &e.0.1) && is_bound(&self.scenes, entity, &e.1) {
                clear.push(e.0.1.copy_key());
            }
            proof {
                assert forall|a: int, b: int| 0 <= a < b < clear@.len() implies (
                #[trigger] clear@[a])@ != (#[trigger] clear@[b])@ by {
                    assert(before[a] == clear@[a]);
                    if b == before.len() {
                        assert(lists_pair(before, before[a]@));
                        let j = choose|j: int|
                            0 <= j < i && (#[trigger] all[j]).0@ == (entity, before[a]@)
                                && bound_in(self@.scenes, entity, all[j].1);
                        assert(all[j].0@ != all[i as int].0@);
                    }
                }
                assert forall|p: (Seq<char>, Seq<char>)| #[trigger] lists_pair(clear@, p)
                    <==> !lists_pair(keep@, p) && pair_bound_below(
                    all,
                    i + 1,
                    self@.scenes,
                    entity,
                    p,
                ) by {
                    if lists_pair(before, p) {
                        let x = choose|x: int| 0 <= x < before.len() && (#[trigger] before[x])@ == p;
                        assert(clear@[x]@ == p);
                        assert(pair_bound_below(all, i as int, self@.scenes, entity, p));
                        let j = choose|j: int|
                            0 <= j < i && (#[trigger] all[j]).0@ == (entity, p) && bound_in(
                                self@.scenes,
                                entity,
                                all[j].1,
                            );
                        assert(all[j].0@ == (entity, p));
                    }
                    if lists_pair(clear@, p) && !lists_pair(before, p) {
                        let x = choose|x: int| 0 <= x < clear@.len() && (#[trigger] clear@[x])@ == p;
                        if x < before.len() {
                            assert(before[x]@ == p);
                        }
                        assert(all[i as int].0@ == (entity, p));
                    }
                    if !lists_pair(keep@, p) && pair_bound_below(
                        all,
                        i + 1,
                        self@.scenes,
                        entity,
                        p,
                    ) && !lists_pair(before, p) {
                        let j = choose|j: int|
                            0 <= j < i + 1 && (#[trigger] all[j]).0@ == (entity, p) && bound_in(
                                self@.scenes,
                                entity,
                                all[j].1,
                            );
                        if j < i {
                            assert(pair_bound_below(all, i as int, self@.scenes, entity, p));
                        }
                        assert(clear@[before.len() as int]@ == p);
                    }
                }
            }
            i = i + 1;
        }
        proof {
            assert forall|p: (Seq<char>, Seq<char>)| #[trigger] lists_pair(clear@, p) <==> (
            !lists_pair(keep@, p) && self@.bindings.contains_key((entity, p)) && bound_in(
                self@.scenes,
                entity,
                self@.bindings[(entity, p)],
            )) by {
                let k = (entity, p);
                if pair_bound_below(all, n as int, self@.scenes, entity, p) {
                    let j = choose|j: int|
                        0 <= j < n && (#[trigger] all[j]).0@ == k && bound_in(
                            self@.scenes,
                            entity,
                            all[j].1,
                        );
                    lemma_entry_in_map(all, j);
                }
                if self@.bindings.contains_key(k) && bound_in(
                    self@.scenes,
                    entity,
                    self@.bindings[k],
                ) {
                    let j = key_index(all, k);
                    assert(all[j].0@ == k);
                    lemma_entry_in_map(all, j);
                    assert(pair_bound_below(all, n as int, self@.scenes, entity, p));
                }
            }
        }
        let wanted = |k: &(u64, (String, String)), _e: &BindEntry| -> (b: bool)
            ensures
                b == (k@.0 != entity || lists_pair(keep@, k@.1)),
            { k.0 != entity || has_pair(keep, &k.1) };
        self.bindings.retain(
            wanted,
            Ghost(|k: (u64, (Seq<char>, Seq<char>))| k.0 != entity || lists_pair(keep@, k.1)),
        );
        clear
    }
}

/// Whether one of the first `n` collections is `entity`'s of this name and
/// bound.
spec fn bound_below(
    all: Seq<((u64, String), BindEntry)>,
    n: int,
    scenes: Map<u64, SceneState>,
    entity: u64,
    name: Seq<char>,
) -> bool {
    exists|j: int|
        0 <= j < n && (#[trigger] all[j]).0@ == (entity, name) && bound_in(scenes, entity, all[j].1)
}

/// Whether one of the first `n` bindings is `entity`'s for this property and
/// bound.
spec fn pair_bound_below(
    all: Seq<((u64, (String, String)), BindEntry)>,
    n: int,
    scenes: Map<u64, SceneState>,
    entity: u64,
    p: (Seq<char>, Seq<char>),
) -> bool {
    exists|j: int|
        0 <= j < n && (#[trigger] all[j]).0@ == (entity, p) && bound_in(scenes, entity, all[j].1)
}

/// Whether one of the first `n` bindings is `entity`'s for this property and
/// waits to be bound.
spec fn pair_waits_below(
    all: Seq<((u64, (String, String)), BindEntry)>,
    n: int,
    scenes: Map<u64, SceneState>,
    entity: u64,
    p: (Seq<char>, Seq<char>),
) -> bool {
    exists|j: int|
        0 <= j < n && (#[trigger] all[j]).0@ == (entity, p) && scenes.contains_key(entity)
            && !bound_in(scenes, entity, all[j].1)
}

/// After the terminal teardown the removal of a bridge finds nothing to clear
/// and nothing to drop.
pub proof fn law_collection_reaps_after_teardown_are_idle(t: Tables, entity: u64)
    ensures
        ({
            let d = t.torn_down(entity);
            &&& kept(d.items, |k: (u64, Seq<char>)| k.0 != entity) == d.items
            &&& kept(d.lists, |k: (u64, Seq<char>)| k.0 != entity) == d.lists
            &&& forall|p: (Seq<char>, Seq<char>)| #[trigger]
                d.bindings.remove((entity, p)) == d.bindings
        }),
{
    let d = t.torn_down(entity);
    assert(kept(d.items, |k: (u64, Seq<char>)| k.0 != entity) =~= d.items);
    assert(kept(d.lists, |k: (u64, Seq<char>)| k.0 != entity) =~= d.lists);
    assert forall|p: (Seq<char>, Seq<char>)| #[trigger] d.bindings.remove((entity, p))
        == d.bindings by {
        assert(d.bindings.remove((entity, p)) =~= d.bindings);
    }
}

proof fn lemma_names_without(sources: Seq<String>, objects: Seq<String>, name: Seq<char>)
    ensures
        names_without(sources, objects).contains(name) <==> lists_string(sources, name)
            && !lists_string(objects, name),
    decreases sources.len(),
{
    if sources.len() > 0 {
        let short = sources.drop_last();
        let rest = names_without(short, objects);
        let last = sources.last()@;
        lemma_names_without(short, objects, name);
        if lists_string(short, name) {
            let i = choose|i: int| 0 <= i < short.len() && (#[trigger] short[i])@ == name;
            assert(sources[i]@ == name);
        }
        if lists_string(sources, name) && last != name {
            let i = choose|i: int| 0 <= i < sources.len() && (#[trigger] sources[i])@ == name;
            assert(short[i]@ == name);
        }
        if last == name {
            assert(sources[sources.len() - 1]@ == name);
        }
        let pushed = rest.push(last);
        assert(pushed[rest.len() as int] == last);
        if rest.contains(name) {
            let i = choose|i: int| 0 <= i < rest.len() && rest[i] == name;
            assert(pushed[i] == name);
        }
        if pushed.contains(name) && last != name {
            let i = choose|i: int| 0 <= i < pushed.len() && pushed[i] == name;
            assert(rest[i] == name);
        }
    }
}

/// A name that has objects is shown with them: the plain names are exactly the
/// sources that have none, and all of them, in order, where nothing has objects.
pub proof fn law_objects_come_before_values(
    sources: Seq<String>,
    objects: Seq<String>,
    name: Seq<char>,
)
    ensures
        names_without(sources, objects).contains(name) <==> lists_string(sources, name)
            && !lists_string(objects, name),
        objects.len() == 0 ==> names_without(sources, objects) == sources.map_values(
            |s: String| s@,
        ),
    decreases sources.len(),
{
    lemma_names_without(sources, objects, name);
    if objects.len() == 0 {
        if sources.len() > 0 {
            law_objects_come_before_values(sources.drop_last(), objects, name);
            assert(names_without(sources, objects) =~= sources.map_values(|s: String| s@));
        } else {
            assert(names_without(sources, objects) =~= sources.map_values(|s: String| s@));
        }
    }
}

/// An entity has collections for exactly the names it asks for; those it had
/// keep their binding, new ones are bound nowhere, and those of other entities
/// are left alone.
pub proof fn law_collections_follow_the_names(
    items: Map<(u64, Seq<char>), BindEntry>,
    entity: u64,
    sources: Seq<String>,
    objects: Seq<String>,
    name: Seq<char>,
    other: u64,
)
    requires
        other != entity,
    ensures
        ({
            let after = items_synced(items, entity, sources, objects);
            &&& after.contains_key((entity, name)) <==> lists_string(sources, name)
                || lists_string(objects, name)
            &&& after.contains_key((entity, name)) && items.contains_key((entity, name)) ==> after[(
                entity,
                name,
            )] == items[(entity, name)]
            &&& after.contains_key((entity, name)) && !items.contains_key((entity, name))
                ==> after[(entity, name)].bound_for is None
            &&& after.contains_key((other, name)) == items.contains_key((other, name))
            &&& items.contains_key((other, name)) ==> after[(other, name)] == items[(other, name)]
        }),
{
}

/// A plan is for its own control: it selects and navigates what is asked for
/// under its name, and nothing where nothing is asked.
pub proof fn law_plans_are_for_their_control(
    p: ItemsPlan,
    name: Seq<char>,
    objects: bool,
    select: Map<Seq<char>, i32>,
    navigate: Map<Seq<char>, i32>,
)
    requires
        plans_for(p, name, objects, select, navigate),
    ensures
        p.name@ == name,
        p.objects == objects,
        p.select is Some <==> select.contains_key(name),
        p.select matches Some(i) ==> i == select[name],
        p.navigate is Some <==> navigate.contains_key(name),
        p.navigate matches Some(i) ==> i == navigate[name],
{
}

/// A reading of a list control counts where the entity has a scene and a
/// collection for the control, and is then taken as it was read.
pub proof fn law_readings_count_in_live_scenes(
    t: Tables,
    entity: u64,
    readings: Seq<(Seq<char>, Option<ItemsReadback>)>,
    i: int,
)
    requires
        0 <= i < readings.len(),
    ensures
        item_readings(t, entity, readings).len() == readings.len(),
        item_readings(t, entity, readings)[i].0 == (entity, readings[i].0),
        t.scenes.contains_key(entity) && t.items.contains_key((entity, readings[i].0))
            ==> item_readings(t, entity, readings)[i].1 == readings[i].1,
        !(t.scenes.contains_key(entity) && t.items.contains_key((entity, readings[i].0)))
            ==> item_readings(t, entity, readings)[i].1 is None,
{
}

} // verus!
