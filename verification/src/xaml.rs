//! XAML bytes by URI: the registry that asset events keep up to date, the map
//! that the engine's provider reads, and the provider itself.
//!
//! The registry holds shared byte buffers, so copying it for the provider
//! copies handles, not markup. Replaced markup is a new buffer: a buffer's
//! identity tells whether the markup changed.

use std::sync::Arc;

use vstd::prelude::*;

use crate::keyed::{
    distinct, distinct_keys, has_key, key_index, lemma_entry_in_map, map_of, Key, KeyedMap,
};
use crate::strings::lists_string;

verus! {

/// `Arc::clone`: another handle on the same buffer, with the same contents.
#[verifier::external_body]
pub(crate) fn share(bytes: &Arc<Vec<u8>>) -> (r: Arc<Vec<u8>>)
    ensures
        r == *bytes,
{
    Arc::clone(bytes)
}

/// `Arc::ptr_eq`: whether two handles are on the same buffer. Two handles on
/// one buffer see the same contents; handles on different buffers may, too, so
/// of that answer nothing is claimed.
#[verifier::external_body]
pub(crate) fn same_buffer(a: &Arc<Vec<u8>>, b: &Arc<Vec<u8>>) -> (r: bool)
    ensures
        r ==> a@ == b@,
{
    Arc::ptr_eq(a, b)
}

/// Whether `same` is an answer to the question whether two handles are on the
/// same buffer. `Arc::ptr_eq` gives it, and there is no other way to get one.
pub closed spec fn told_same(a: Arc<Vec<u8>>, b: Arc<Vec<u8>>, same: bool) -> bool {
    call_ensures(same_buffer, (&a, &b), same)
}

/// What was answered is an answer.
pub(crate) proof fn lemma_told(a: &Arc<Vec<u8>>, b: &Arc<Vec<u8>>, same: bool)
    requires
        call_ensures(same_buffer, (a, b), same),
    ensures
        told_same(*a, *b, same),
{
}

/// Handles that are said to be on one buffer see the same contents.
pub proof fn law_one_buffer_has_one_content(a: Arc<Vec<u8>>, b: Arc<Vec<u8>>)
    requires
        told_same(a, b, true),
    ensures
        a@ == b@,
{
}

/// Copies a map of buffers, handle by handle.
fn copy_buffers(map: &KeyedMap<String, Arc<Vec<u8>>>) -> (r: KeyedMap<String, Arc<Vec<u8>>>)
    ensures
        r@ == map@,
{
    let mut r: KeyedMap<String, Arc<Vec<u8>>> = KeyedMap::new();
    let n: usize = map.len();
    let ghost all = map.listed();
    let mut i: usize = 0;
    while i < n
        invariant
            i <= n,
            n == all.len(),
            all == map.listed(),
            distinct_keys(all),
            map@ == map_of(all),
            forall|k: Seq<char>| #[trigger]
                r@.contains_key(k) <==> has_key(all.take(i as int), k),
            forall|k: Seq<char>| #[trigger] r@.contains_key(k) ==> r@[k] == map@[k],
        decreases n - i,
    {
        let entry = map.at(i);
        let ghost before = r@;
        r.insert(entry.0.clone(), share(&entry.1));
        proof {
            let part = all.take(i as int);
            let next = all.take(i + 1);
            assert(next == part.push(all[i as int]));
            assert forall|k: Seq<char>| #[trigger] r@.contains_key(k) <==> has_key(next, k) by {
                if before.contains_key(k) {
                    let j = key_index(part, k);
                    assert(next[j].0@ == k);
                }
                if k == entry.0@ {
                    assert(next[i as int].0@ == k);
                }
                if has_key(next, k) {
                    let j = key_index(next, k);
                    if j < i {
                        assert(part[j].0@ == k);
                    }
                }
            }
        }
        i = i + 1;
    }
    proof {
        assert(all.take(n as int) == all);
        assert(r@ =~= map@);
    }
    r
}

/// XAML bytes by URI. The registry is the authoritative copy.
pub struct XamlRegistry {
    pub entries: KeyedMap<String, Arc<Vec<u8>>>,
}

impl View for XamlRegistry {
    type V = Map<Seq<char>, Arc<Vec<u8>>>;

    open spec fn view(&self) -> Map<Seq<char>, Arc<Vec<u8>>> {
        self.entries@
    }
}

impl Default for XamlRegistry {
    fn default() -> (r: XamlRegistry)
        ensures
            r@ == Map::<Seq<char>, Arc<Vec<u8>>>::empty(),
    {
        XamlRegistry { entries: KeyedMap::new() }
    }
}

impl XamlRegistry {
    /// Bytes of `uri`.
    pub fn get(&self, uri: &str) -> (r: Option<&Arc<Vec<u8>>>)
        ensures
            match r {
                Some(b) => self@.contains_key(uri@) && *b == self@[uri@],
                None => !self@.contains_key(uri@),
            },
    {
        self.entries.get(uri)
    }

    /// Number of URIs.
    pub fn len(&self) -> (n: usize)
        ensures
            self@.dom().finite(),
            n == self@.dom().len(),
    {
        self.entries.len()
    }

    /// Whether nothing is registered.
    pub fn is_empty(&self) -> (r: bool)
        ensures
            r == (self@ == Map::<Seq<char>, Arc<Vec<u8>>>::empty()),
    {
        self.entries.is_empty()
    }

    /// The URIs.
    pub fn keys(&self) -> (r: Vec<String>)
        ensures
            forall|k: Seq<char>| #[trigger] lists_string(r@, k) <==> self@.contains_key(k),
            distinct(r@),
    {
        let mut r: Vec<String> = Vec::new();
        let n: usize = self.entries.len();
        let ghost all = self.entries.listed();
        let mut i: usize = 0;
        while i < n
            invariant
                i <= n,
                n == all.len(),
                all == self.entries.listed(),
                distinct_keys(all),
                self@ == map_of(all),
                r@.len() == i,
                forall|j: int| 0 <= j < i ==> (#[trigger] r@[j])@ == all[j].0@,
            decreases n - i,
        {
            r.push(self.entries.at(i).0.clone());
            i = i + 1;
        }
        proof {
            assert forall|k: Seq<char>| #[trigger]
                lists_string(r@, k) <==> self@.contains_key(k) by {
                if self@.contains_key(k) {
                    let j = key_index(all, k);
                    assert(r@[j]@ == k);
                }
                if lists_string(r@, k) {
                    let j = choose|j: int| 0 <= j < r@.len() && (#[trigger] r@[j])@ == k;
                    assert(all[j].0@ == k);
                }
            }
            assert forall|a: int, b: int| 0 <= a < b < r@.len() implies (#[trigger] r@[a])@ != (
            #[trigger] r@[b])@ by {
                assert(all[a].0@ != all[b].0@);
            }
        }
        r
    }

    /// Registers bytes for a URI.
    pub fn insert(&mut self, uri: &str, bytes: Arc<Vec<u8>>)
        ensures
            final(self)@ == old(self)@.insert(uri@, bytes),
    {
        self.entries.insert(uri.to_owned(), bytes);
    }

    /// A copy for another world, sharing the buffers.
    pub fn extract_resource(source: &XamlRegistry) -> (r: XamlRegistry)
        ensures
            r@ == source@,
    {
        XamlRegistry { entries: copy_buffers(&source.entries) }
    }
}

/// Identity of an asset.
pub type AssetKey = (u64, (u64, u64));

/// What happened to a XAML asset.
pub enum XamlEvent {
    /// It was loaded or changed. The path is missing for an asset without one,
    /// the bytes for one that is gone again.
    Loaded { id: AssetKey, path: Option<String>, bytes: Option<Arc<Vec<u8>>> },
    /// It was removed, or nothing uses it any more. Its path is not known by
    /// then.
    Removed { id: AssetKey },
    /// Something that changes no bytes.
    Other,
}

/// The registry and, for each asset in it, the URI it stands under.
#[verifier::ext_equal]
pub struct XamlState {
    pub entries: Map<Seq<char>, Arc<Vec<u8>>>,
    pub keys: Map<AssetKey, Seq<char>>,
}

/// The effect of one event.
pub open spec fn xaml_event(s: XamlState, event: XamlEvent) -> XamlState {
    match event {
        XamlEvent::Loaded { id, path: Some(path), bytes: Some(bytes) } => XamlState {
            entries: s.entries.insert(path@, bytes),
            keys: s.keys.insert(id, path@),
        },
        XamlEvent::Removed { id } if s.keys.contains_key(id) => XamlState {
            entries: s.entries.remove(s.keys[id]),
            keys: s.keys.remove(id),
        },
        _ => s,
    }
}

/// The effect of events in order.
pub open spec fn xaml_events(s: XamlState, events: Seq<XamlEvent>) -> XamlState
    decreases events.len(),
{
    if events.len() == 0 {
        s
    } else {
        xaml_event(xaml_events(s, events.drop_last()), events.last())
    }
}

/// For each asset in the registry the URI it stands under, so that a removal
/// finds the entry after the asset and its path are gone.
pub struct XamlKeys {
    keys: KeyedMap<AssetKey, String>,
}

impl View for XamlKeys {
    type V = Map<AssetKey, Seq<char>>;

    closed spec fn view(&self) -> Map<AssetKey, Seq<char>> {
        self.keys@.map_values(|s: String| s@)
    }
}

impl XamlKeys {
    /// No assets.
    pub fn new() -> (k: XamlKeys)
        ensures
            k@ == Map::<AssetKey, Seq<char>>::empty(),
    {
        let k = XamlKeys { keys: KeyedMap::new() };
        assert(k@ =~= Map::<AssetKey, Seq<char>>::empty());
        k
    }

    fn record(&mut self, id: AssetKey, path: &String)
        ensures
            final(self)@ == old(self)@.insert(id, path@),
    {
        self.keys.insert(id, path.clone());
        assert(self@ =~= old(self)@.insert(id, path@));
    }

    fn take(&mut self, id: AssetKey) -> (r: Option<String>)
        ensures
            final(self)@ == old(self)@.remove(id),
            match r {
                Some(s) => old(self)@.contains_key(id) && s@ == old(self)@[id],
                None => !old(self)@.contains_key(id),
            },
    {
        let r = self.keys.remove(&id);
        assert(self@ =~= old(self)@.remove(id));
        r
    }
}

/// Brings the registry up to date with asset events, in order.
pub fn update_xaml_registry(
    registry: &mut XamlRegistry,
    keys: &mut XamlKeys,
    events: &Vec<XamlEvent>,
)
    ensures
        (XamlState { entries: final(registry)@, keys: final(keys)@ }) == xaml_events(
            XamlState { entries: old(registry)@, keys: old(keys)@ },
            events@,
        ),
{
    let ghost start = XamlState { entries: old(registry)@, keys: old(keys)@ };
    let n: usize = events.len();
    let mut i: usize = 0;
    assert(events@.take(0) =~= Seq::<XamlEvent>::empty());
    while i < n
        invariant
            i <= n,
            n == events@.len(),
            (XamlState { entries: registry@, keys: keys@ }) == xaml_events(
                start,
                events@.take(i as int),
            ),
        decreases n - i,
    {
        assert(events@.take(i + 1).drop_last() == events@.take(i as int));
        let ghost before = XamlState { entries: registry@, keys: keys@ };
        match &events[i] {
            XamlEvent::Loaded { id, path, bytes } => match (path, bytes) {
                (Some(path), Some(bytes)) => {
                    keys.record(*id, path);
                    registry.insert(path.as_str(), share(bytes));
                },
                _ => {},
            },
            XamlEvent::Removed { id } => match keys.take(*id) {
                Some(uri) => {
                    registry.entries.remove(&uri);
                },
                None => {
                    assert(keys@ =~= before.keys);
                },
            },
            XamlEvent::Other => {},
        }
        assert((XamlState { entries: registry@, keys: keys@ }) =~= xaml_event(
            before,
            events@[i as int],
        ));
        i = i + 1;
    }
    assert(events@.take(n as int) == events@);
}

/// Loading an asset makes its bytes available under its path; removing it makes
/// them unavailable again, without the path being named.
pub proof fn law_removed_asset_is_gone(
    s: XamlState,
    id: AssetKey,
    path: String,
    bytes: Arc<Vec<u8>>,
)
    ensures
        ({
            let loaded = xaml_event(
                s,
                XamlEvent::Loaded { id, path: Some(path), bytes: Some(bytes) },
            );
            let removed = xaml_event(loaded, XamlEvent::Removed { id });
            &&& loaded.entries.contains_key(path@) && loaded.entries[path@] == bytes
            &&& !removed.entries.contains_key(path@)
            &&& !removed.keys.contains_key(id)
            &&& xaml_event(removed, XamlEvent::Removed { id }) == removed
        }),
{
}

/// The URI map that the provider reads.
pub struct SharedXamlMap {
    map: KeyedMap<String, Arc<Vec<u8>>>,
}

impl View for SharedXamlMap {
    type V = Map<Seq<char>, Arc<Vec<u8>>>;

    closed spec fn view(&self) -> Map<Seq<char>, Arc<Vec<u8>>> {
        self.map@
    }
}

impl Default for SharedXamlMap {
    fn default() -> (r: SharedXamlMap)
        ensures
            r@ == Map::<Seq<char>, Arc<Vec<u8>>>::empty(),
    {
        SharedXamlMap { map: KeyedMap::new() }
    }
}

impl SharedXamlMap {
    /// Replaces the contents by those of a registry.
    pub fn sync_from(&mut self, registry: &XamlRegistry)
        ensures
            final(self)@ == registry@,
    {
        self.map = copy_buffers(&registry.entries);
    }

    /// Bytes of `uri`.
    pub fn get(&self, uri: &str) -> (r: Option<&Arc<Vec<u8>>>)
        ensures
            match r {
                Some(b) => self@.contains_key(uri@) && *b == self@[uri@],
                None => !self@.contains_key(uri@),
            },
    {
        self.map.get(uri)
    }

    /// Whether `uri` has bytes.
    pub fn contains_key(&self, uri: &str) -> (r: bool)
        ensures
            r == self@.contains_key(uri@),
    {
        self.map.contains_key(uri)
    }
}

/// Answers the engine's lookups. The bytes handed out stay valid until the next
/// lookup that succeeds.
pub struct BevyXamlProvider {
    current: Option<Arc<Vec<u8>>>,
}

impl BevyXamlProvider {
    /// The bytes handed out last.
    pub closed spec fn current(&self) -> Option<Arc<Vec<u8>>> {
        self.current
    }

    /// A provider and a map for it to read.
    pub fn new_shared() -> (r: (BevyXamlProvider, SharedXamlMap))
        ensures
            r.0.current() is None,
            r.1@ == Map::<Seq<char>, Arc<Vec<u8>>>::empty(),
    {
        (BevyXamlProvider::from_shared(), SharedXamlMap::default())
    }

    /// A provider for a map that exists elsewhere.
    pub fn from_shared() -> (r: BevyXamlProvider)
        ensures
            r.current() is None,
    {
        BevyXamlProvider { current: None }
    }

    /// The bytes of `uri` in `map`, held until the next lookup.
    pub fn load_xaml(&mut self, map: &SharedXamlMap, uri: &str) -> (r: Option<&Vec<u8>>)
        ensures
            match r {
                Some(b) => map@.contains_key(uri@) && b@ == map@[uri@]@,
                None => !map@.contains_key(uri@),
            },
            final(self).current() == if map@.contains_key(uri@) {
                Some(map@[uri@])
            } else {
                old(self).current()
            },
    {
        match map.get(uri) {
            None => None,
            Some(bytes) => {
                self.current = Some(share(bytes));
                match &self.current {
                    Some(b) => Some(&**b),
                    None => None,
                }
            },
        }
    }
}

/// An event touches the asset it is about and no other: a load puts its bytes
/// under its path, a removal takes out what stands under the path it was loaded
/// with, and every other URI keeps its bytes. A load without a path or without
/// bytes, a removal of what was never loaded, and any other event change
/// nothing.
pub proof fn law_events_touch_one_asset(
    s: XamlState,
    id: AssetKey,
    path: String,
    bytes: Arc<Vec<u8>>,
    other: Seq<char>,
    another: AssetKey,
)
    requires
        another != id,
    ensures
        ({
            let loaded = xaml_event(
                s,
                XamlEvent::Loaded { id, path: Some(path), bytes: Some(bytes) },
            );
            let removed = xaml_event(s, XamlEvent::Removed { id });
            &&& loaded.keys.contains_key(id) && loaded.keys[id] == path@
            &&& loaded.entries.contains_key(path@) && loaded.entries[path@] == bytes
            &&& other != path@ ==> loaded.entries.contains_key(other) == s.entries.contains_key(
                other,
            )
            &&& other != path@ && s.entries.contains_key(other) ==> loaded.entries[other]
                == s.entries[other]
            &&& loaded.keys.contains_key(another) == s.keys.contains_key(another)
            &&& s.keys.contains_key(another) ==> loaded.keys[another] == s.keys[another]
                && removed.keys[another] == s.keys[another]
            &&& removed.keys.contains_key(another) == s.keys.contains_key(another)
            &&& s.keys.contains_key(id) ==> !removed.entries.contains_key(s.keys[id])
                && !removed.keys.contains_key(id)
            &&& s.keys.contains_key(id) && other != s.keys[id] ==> removed.entries.contains_key(
                other,
            ) == s.entries.contains_key(other)
            &&& s.keys.contains_key(id) && other != s.keys[id] && s.entries.contains_key(other)
                ==> removed.entries[other] == s.entries[other]
            &&& !s.keys.contains_key(id) ==> removed == s
            &&& xaml_event(s, XamlEvent::Other) == s
            &&& xaml_event(s, XamlEvent::Loaded { id, path: None, bytes: Some(bytes) }) == s
            &&& xaml_event(s, XamlEvent::Loaded { id, path: Some(path), bytes: None }) == s
        }),
{
}

/// Events take effect one after the other, each on what those before it left:
/// after all of them the last one has its effect.
pub proof fn law_events_take_effect_in_order(
    s: XamlState,
    first: Seq<XamlEvent>,
    then_last: XamlEvent,
)
    ensures
        xaml_events(s, Seq::<XamlEvent>::empty()) == s,
        xaml_events(s, first.push(then_last)) == xaml_event(xaml_events(s, first), then_last),
{
    assert(first.push(then_last).drop_last() =~= first);
}

} // verus!
