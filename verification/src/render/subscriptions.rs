//! Subscriptions of views and panels: button clicks, keys, routed events and
//! key bindings.
//!
//! A watch may sit on a view or on a mounted panel; a panel's names are looked
//! up in its own fragment, and what fires there is reported for the view that
//! hosts it. A fired event is addressed to the entry's target, by default the
//! watching entity itself.
//!
//! Whether an element could be found and subscribed is known only to the
//! engine: `works[i]` tells it of entry `i`, and `content` tells whether the
//! scene has a content tree to look names up in.

use vstd::prelude::*;

use crate::keyed::Key;
use crate::queue::Queue;
use crate::render::state::{NoesisRenderState, Tables};
use crate::routed_events::{
    EventWatchEntry, QueuedEvent, RoutedEvent, RoutedEventSnapshot, SharedRoutedEventQueue,
};
use crate::watches::{
    entries_view, law_sync_is_local, law_sync_leaves_unchanged_alone, law_sync_settles,
    lemma_walk_idle, requested, WatchTable, Watches,
};

verus! {

/// A button to watch for clicks.
#[derive(Clone)]
pub struct ClickWatchEntry {
    /// Name of the button.
    pub name: String,
    /// Entity that a click is addressed to; the watching one by default.
    pub target: Option<u64>,
}

/// An element to watch for keys.
#[derive(Clone)]
pub struct KeyDownWatchEntry {
    /// Name of the element.
    pub name: String,
    /// Keys that go no further than this element.
    pub swallow: Vec<i32>,
    /// Entity that a key is addressed to; the watching one by default.
    pub target: Option<u64>,
}

/// A key binding: element, key and modifiers.
#[derive(Clone)]
pub struct KeyBindingSpec {
    pub name: String,
    pub key: i32,
    pub modifiers: i32,
}

/// Where the names of a watch are looked up.
#[derive(Clone, Copy, PartialEq, Eq, Debug, Structural)]
pub enum WatchRoot {
    /// In the entity's own scene.
    Scene,
    /// In the entity's panel, which this view hosts.
    Panel(u64),
}

/// Where the names of `entity`'s watch are looked up.
pub open spec fn watch_root(t: Tables, entity: u64) -> Option<WatchRoot> {
    if t.scenes.contains_key(entity) {
        Some(WatchRoot::Scene)
    } else if t.panels.contains_key(entity) {
        Some(WatchRoot::Panel(t.panels[entity].host))
    } else {
        None
    }
}

impl Tables {
    /// The click subscriptions under a root: a scene and a panel of one entity
    /// have live ones of their own, and go by the same settings.
    pub open spec fn clicks_at(self, root: WatchRoot) -> Watches<Seq<char>, u64> {
        match root {
            WatchRoot::Scene => self.clicks,
            WatchRoot::Panel(_) => Watches { live: self.panel_clicks, ..self.clicks },
        }
    }

    /// With these click subscriptions under a root.
    pub open spec fn with_clicks_at(self, root: WatchRoot, w: Watches<Seq<char>, u64>) -> Tables {
        match root {
            WatchRoot::Scene => Tables { clicks: w, ..self },
            WatchRoot::Panel(_) => Tables {
                clicks: Watches { config: w.config, ..self.clicks },
                panel_clicks: w.live,
                ..self
            },
        }
    }

    /// The key subscriptions under a root.
    pub open spec fn keydowns_at(self, root: WatchRoot) -> Watches<Seq<char>, (Seq<i32>, u64)> {
        match root {
            WatchRoot::Scene => self.keydowns,
            WatchRoot::Panel(_) => Watches { live: self.panel_keydowns, ..self.keydowns },
        }
    }

    /// With these key subscriptions under a root.
    pub open spec fn with_keydowns_at(
        self,
        root: WatchRoot,
        w: Watches<Seq<char>, (Seq<i32>, u64)>,
    ) -> Tables {
        match root {
            WatchRoot::Scene => Tables { keydowns: w, ..self },
            WatchRoot::Panel(_) => Tables {
                keydowns: Watches { config: w.config, ..self.keydowns },
                panel_keydowns: w.live,
                ..self
            },
        }
    }
}

/// The view that a fired event is reported for.
pub open spec fn reported_view(root: WatchRoot, entity: u64) -> u64 {
    match root {
        WatchRoot::Scene => entity,
        WatchRoot::Panel(host) => host,
    }
}

/// The view that a fired event is reported for.
pub fn report_view(root: WatchRoot, entity: u64) -> (r: u64)
    ensures
        r == reported_view(root, entity),
{
    match root {
        WatchRoot::Scene => entity,
        WatchRoot::Panel(host) => host,
    }
}

/// The entity that a fired event is addressed to.
pub open spec fn addressee(target: Option<u64>, entity: u64) -> u64 {
    match target {
        Some(t) => t,
        None => entity,
    }
}

/// The entity that a fired event is addressed to.
pub fn event_target(target: Option<u64>, entity: u64) -> (r: u64)
    ensures
        r == addressee(target, entity),
{
    match target {
        Some(t) => t,
        None => entity,
    }
}

/// A click on its way to the drain: the view it is reported for, its target and
/// the name of the button.
pub type QueuedClick = (u64, u64, String);

/// A key press on its way to the drain: view, target, name and key.
pub type QueuedKey = (u64, u64, String, i32);

/// A key binding that fired: view, name, key and modifiers.
pub type QueuedBinding = (u64, String, i32, i32);

/// What a watched button does when it is clicked.
pub fn click_fired(
    entry: &ClickWatchEntry,
    root: WatchRoot,
    entity: u64,
    queue: &mut Queue<QueuedClick>,
)
    ensures
        final(queue)@ == old(queue)@.push(
            (reported_view(root, entity), addressee(entry.target, entity), entry.name),
        ),
{
    queue.push((report_view(root, entity), event_target(entry.target, entity), entry.name.clone()));
}

fn swallows(keys: &Vec<i32>, key: i32) -> (r: bool)
    ensures
        r == keys@.contains(key),
{
    let n: usize = keys.len();
    let mut i: usize = 0;
    while i < n
        invariant
            i <= n,
            n == keys@.len(),
            forall|j: int| 0 <= j < i ==> keys@[j] != key,
        decreases n - i,
    {
        if keys[i] == key {
            return true;
        }
        i = i + 1;
    }
    false
}

/// What a watched element does when a key is pressed on it: the press is queued,
/// and goes no further where the entry swallows that key.
pub fn key_fired(
    entry: &KeyDownWatchEntry,
    root: WatchRoot,
    entity: u64,
    key: i32,
    queue: &mut Queue<QueuedKey>,
) -> (handled: bool)
    ensures
        final(queue)@ == old(queue)@.push(
            (reported_view(root, entity), addressee(entry.target, entity), entry.name, key),
        ),
        handled == entry.swallow@.contains(key),
{
    queue.push(
        (report_view(root, entity), event_target(entry.target, entity), entry.name.clone(), key),
    );
    swallows(&entry.swallow, key)
}

/// What is queued when a watched event fires.
pub open spec fn queued_event(
    entry: EventWatchEntry,
    entity: u64,
    args: RoutedEventSnapshot,
) -> QueuedEvent {
    (entity, addressee(entry.target, entity), entry.name, entry.event, args)
}

/// What a watched element does when its event fires: the event is queued, and
/// is marked handled where the entry asks for it.
pub fn event_fired(
    entry: &EventWatchEntry,
    entity: u64,
    args: RoutedEventSnapshot,
    queue: &mut SharedRoutedEventQueue,
) -> (handled: bool)
    ensures
        final(queue)@ == old(queue)@.push(queued_event(*entry, entity, args)),
        handled == entry.mark_handled,
{
    queue.push(
        entity,
        event_target(entry.target, entity),
        entry.name.clone(),
        entry.event,
        args,
    );
    entry.mark_handled
}

/// What a key binding of `entity` does when its keys are pressed.
pub fn binding_fired(spec: &KeyBindingSpec, entity: u64, queue: &mut Queue<QueuedBinding>)
    ensures
        final(queue)@ == old(queue)@.push((entity, spec.name, spec.key, spec.modifiers)),
{
    queue.push((entity, spec.name.clone(), spec.key, spec.modifiers));
}

/// Names and targets of click entries.
pub open spec fn click_entries(entries: Seq<ClickWatchEntry>, entity: u64) -> Seq<
    (Seq<char>, u64),
> {
    entries.map_values(|e: ClickWatchEntry| (e.name@, addressee(e.target, entity)))
}

/// Names and settings of key entries.
pub open spec fn keydown_entries(entries: Seq<KeyDownWatchEntry>, entity: u64) -> Seq<
    (Seq<char>, (Seq<i32>, u64)),
> {
    entries.map_values(
        |e: KeyDownWatchEntry| (e.name@, (e.swallow@, addressee(e.target, entity))),
    )
}

/// Names and settings of routed-event entries.
pub open spec fn event_entries(entries: Seq<EventWatchEntry>, entity: u64) -> Seq<
    ((Seq<char>, RoutedEvent), ((bool, bool), u64)),
> {
    entries.map_values(
        |e: EventWatchEntry|
            ((e.name@, e.event), ((e.mark_handled, e.handled_too), addressee(e.target, entity))),
    )
}

/// Identities of key bindings.
pub open spec fn binding_entries(specs: Seq<KeyBindingSpec>) -> Seq<
    ((Seq<char>, (i32, i32)), ()),
> {
    specs.map_values(|s: KeyBindingSpec| ((s.name@, (s.key, s.modifiers)), ()))
}

fn list_clicks(entries: &Vec<ClickWatchEntry>, entity: u64) -> (r: Vec<(String, u64)>)
    ensures
        entries_view(r@) == click_entries(entries@, entity),
{
    let mut r: Vec<(String, u64)> = Vec::new();
    let n: usize = entries.len();
    let mut i: usize = 0;
    while i < n
        invariant
            i <= n,
            n == entries@.len(),
            r@.len() == i,
            forall|j: int|
                0 <= j < i ==> (#[trigger] r@[j])@ == click_entries(entries@, entity)[j],
        decreases n - i,
    {
        let e = &entries[i];
        r.push((e.name.clone(), event_target(e.target, entity)));
        i = i + 1;
    }
    assert forall|j: int| 0 <= j < n implies entries_view(r@)[j] == click_entries(
        entries@,
        entity,
    )[j] by {
        assert(r@[j]@ == click_entries(entries@, entity)[j]);
    }
    assert(entries_view(r@) =~= click_entries(entries@, entity));
    r
}

fn list_keydowns(entries: &Vec<KeyDownWatchEntry>, entity: u64) -> (r: Vec<
    (String, (Vec<i32>, u64)),
>)
    ensures
        entries_view(r@) == keydown_entries(entries@, entity),
{
    let mut r: Vec<(String, (Vec<i32>, u64))> = Vec::new();
    let n: usize = entries.len();
    let mut i: usize = 0;
    while i < n
        invariant
            i <= n,
            n == entries@.len(),
            r@.len() == i,
            forall|j: int|
                0 <= j < i ==> (#[trigger] r@[j])@ == keydown_entries(entries@, entity)[j],
        decreases n - i,
    {
        let e = &entries[i];
        r.push((e.name.clone(), (e.swallow.copy_key(), event_target(e.target, entity))));
        i = i + 1;
    }
    assert forall|j: int| 0 <= j < n implies entries_view(r@)[j] == keydown_entries(
        entries@,
        entity,
    )[j] by {
        assert(r@[j]@ == keydown_entries(entries@, entity)[j]);
    }
    assert(entries_view(r@) =~= keydown_entries(entries@, entity));
    r
}

fn list_events(entries: &Vec<EventWatchEntry>, entity: u64) -> (r: Vec<
    ((String, RoutedEvent), ((bool, bool), u64)),
>)
    ensures
        entries_view(r@) == event_entries(entries@, entity),
{
    let mut r: Vec<((String, RoutedEvent), ((bool, bool), u64))> = Vec::new();
    let n: usize = entries.len();
    let mut i: usize = 0;
    while i < n
        invariant
            i <= n,
            n == entries@.len(),
            r@.len() == i,
            forall|j: int|
                0 <= j < i ==> (#[trigger] r@[j])@ == event_entries(entries@, entity)[j],
        decreases n - i,
    {
        let e = &entries[i];
        r.push(
            (
                (e.name.clone(), e.event),
                ((e.mark_handled, e.handled_too), event_target(e.target, entity)),
            ),
        );
        i = i + 1;
    }
    assert forall|j: int| 0 <= j < n implies entries_view(r@)[j] == event_entries(
        entries@,
        entity,
    )[j] by {
        assert(r@[j]@ == event_entries(entries@, entity)[j]);
    }
    assert(entries_view(r@) =~= event_entries(entries@, entity));
    r
}

fn list_bindings(specs: &Vec<KeyBindingSpec>) -> (r: Vec<((String, (i32, i32)), ())>)
    ensures
        entries_view(r@) == binding_entries(specs@),
{
    let mut r: Vec<((String, (i32, i32)), ())> = Vec::new();
    let n: usize = specs.len();
    let mut i: usize = 0;
    while i < n
        invariant
            i <= n,
            n == specs@.len(),
            r@.len() == i,
            forall|j: int| 0 <= j < i ==> (#[trigger] r@[j])@ == binding_entries(specs@)[j],
        decreases n - i,
    {
        let s = &specs[i];
        r.push(((s.name.clone(), (s.key, s.modifiers)), ()));
        i = i + 1;
    }
    assert forall|j: int| 0 <= j < n implies entries_view(r@)[j] == binding_entries(specs@)[j] by {
        assert(r@[j]@ == binding_entries(specs@)[j]);
    }
    assert(entries_view(r@) =~= binding_entries(specs@));
    r
}

/// Whether some entry has to be subscribed.
pub open spec fn any_needed<K, C>(w: Watches<K, C>, entity: u64, entries: Seq<(K, C)>) -> bool {
    exists|i: int|
        0 <= i < entries.len() && w.needs(entity, (#[trigger] entries[i]).0, entries[i].1)
}

/// Subscriptions after a sync that ends early where nothing has to be
/// subscribed, or where there is no content to look names up in.
pub open spec fn lazily_synced<K, C>(
    w: Watches<K, C>,
    entity: u64,
    entries: Seq<(K, C)>,
    content: bool,
    works: spec_fn(int) -> bool,
) -> Watches<K, C> {
    let d = w.dropped(entity, entries);
    if any_needed(d, entity, entries) && content {
        w.synced(entity, entries, works)
    } else {
        d
    }
}

/// Subscriptions after a sync that ends early only where something has to be
/// subscribed and there is no content to look names up in.
pub open spec fn fully_synced<K, C>(
    w: Watches<K, C>,
    entity: u64,
    entries: Seq<(K, C)>,
    content: bool,
    works: spec_fn(int) -> bool,
) -> Watches<K, C> {
    let d = w.dropped(entity, entries);
    if any_needed(d, entity, entries) && !content {
        d
    } else {
        w.synced(entity, entries, works)
    }
}

/// Whether some live subscription of `entity` is asked for no more.
pub open spec fn any_dropped<K, C>(w: Watches<K, C>, entity: u64, entries: Seq<(K, C)>) -> bool {
    w.dropped(entity, entries) != w
}

/// Key bindings after a sync: nothing happens without a content tree; else what
/// is asked for no more is detached and what is missing is installed where it
/// could be.
pub open spec fn bindings_synced<K, C>(
    w: Watches<K, C>,
    entity: u64,
    entries: Seq<(K, C)>,
    content: bool,
    works: spec_fn(int) -> bool,
) -> Watches<K, C> {
    if content {
        w.dropped(entity, entries).walked(entity, entries, works, entries.len() as int)
    } else {
        w
    }
}

fn is_any_needed<K: Key, C: Key>(w: &WatchTable<K, C>, entity: u64, entries: &Vec<(K, C)>) -> (r:
    bool)
    ensures
        r == any_needed(w@, entity, entries_view(entries@)),
{
    let found = w.next_needed(entity, entries, 0);
    let ghost seen = entries_view(entries@);
    match found {
        Some(i) => {
            assert(seen[i as int] == (entries@[i as int].0@, entries@[i as int].1@));
            true
        },
        None => {
            proof {
                if any_needed(w@, entity, seen) {
                    let j = choose|j: int|
                        0 <= j < seen.len() && w@.needs(
                            entity,
                            (#[trigger] seen[j]).0,
                            seen[j].1,
                        );
                    assert(seen[j] == (entries@[j].0@, entries@[j].1@));
                    assert(!w@.needs(entity, entries@[j].0@, entries@[j].1@));
                }
            }
            false
        },
    }
}

proof fn lemma_dropped_twice<K, C>(w: Watches<K, C>, entity: u64, entries: Seq<(K, C)>)
    ensures
        w.dropped(entity, entries).dropped(entity, entries) == w.dropped(entity, entries),
{
    assert(w.dropped(entity, entries).dropped(entity, entries) =~= w.dropped(entity, entries));
}

fn sync_lazily<K: Key, C: Key>(
    w: &mut WatchTable<K, C>,
    entity: u64,
    entries: &Vec<(K, C)>,
    content: bool,
    works: &Vec<bool>,
)
    requires
        works@.len() == entries@.len(),
    ensures
        final(w)@ == lazily_synced(
            old(w)@,
            entity,
            entries_view(entries@),
            content,
            |i: int| works@[i],
        ),
{
    w.drop_unrequested(entity, entries);
    proof {
        lemma_dropped_twice(old(w)@, entity, entries_view(entries@));
    }
    if is_any_needed(w, entity, entries) && content {
        w.sync(entity, entries, works);
    }
}

fn sync_fully<K: Key, C: Key>(
    w: &mut WatchTable<K, C>,
    entity: u64,
    entries: &Vec<(K, C)>,
    content: bool,
    works: &Vec<bool>,
)
    requires
        works@.len() == entries@.len(),
    ensures
        final(w)@ == fully_synced(
            old(w)@,
            entity,
            entries_view(entries@),
            content,
            |i: int| works@[i],
        ),
{
    w.drop_unrequested(entity, entries);
    proof {
        lemma_dropped_twice(old(w)@, entity, entries_view(entries@));
    }
    if !is_any_needed(w, entity, entries) || content {
        w.sync(entity, entries, works);
    }
}

impl NoesisRenderState {
    /// Where the names of `entity`'s watch are looked up, if anywhere.
    pub fn watch_root(&self, entity: u64) -> (r: Option<WatchRoot>)
        ensures
            r == watch_root(self@, entity),
    {
        if self.scenes.contains_key(&entity) {
            return Some(WatchRoot::Scene);
        }
        match self.panels.get(&entity) {
            Some(p) => Some(WatchRoot::Panel(p.host)),
            None => None,
        }
    }

    /// Brings the click subscriptions of `entity` in step with what it watches.
    pub fn sync_click_subscriptions_for(
        &mut self,
        entity: u64,
        entries: &Vec<ClickWatchEntry>,
        content: bool,
        works: &Vec<bool>,
    )
        requires
            works@.len() == entries@.len(),
        ensures
            final(self)@ == (match watch_root(old(self)@, entity) {
                Some(root) => old(self)@.with_clicks_at(
                    root,
                    lazily_synced(
                        old(self)@.clicks_at(root),
                        entity,
                        click_entries(entries@, entity),
                        content || root is Panel,
                        |i: int| works@[i],
                    ),
                ),
                None => old(self)@,
            }),
    {
        let root = match self.watch_root(entity) {
            Some(root) => root,
            None => {
                return;
            },
        };
        let wanted = list_clicks(entries, entity);
        assert(entries_view(wanted@).len() == wanted@.len());
        assert(click_entries(entries@, entity).len() == entries@.len());
        match root {
            WatchRoot::Scene => {
                sync_lazily(&mut self.clicks, entity, &wanted, content, works);
            },
            WatchRoot::Panel(_) => {
                self.clicks.swap_live(&mut self.panel_clicks);
                sync_lazily(&mut self.clicks, entity, &wanted, true, works);
                self.clicks.swap_live(&mut self.panel_clicks);
            },
        }
    }

    /// Whether a sync has to subscribe a click entry of `entity` where its names
    /// are looked up now.
    pub fn needs_click(&self, entity: u64, entry: &ClickWatchEntry) -> (r: bool)
        ensures
            r == (watch_root(self@, entity) matches Some(root) && self@.clicks_at(root).needs(
                entity,
                entry.name@,
                addressee(entry.target, entity),
            )),
    {
        let target: u64 = event_target(entry.target, entity);
        match self.watch_root(entity) {
            Some(WatchRoot::Scene) => self.clicks.needs(entity, &entry.name, &target),
            Some(WatchRoot::Panel(_)) => self.clicks.needs_by(
                &self.panel_clicks,
                entity,
                &entry.name,
                &target,
            ),
            None => false,
        }
    }

    /// Brings the key subscriptions of `entity` in step with what it watches.
    pub fn sync_keydown_subscriptions_for(
        &mut self,
        entity: u64,
        entries: &Vec<KeyDownWatchEntry>,
        content: bool,
        works: &Vec<bool>,
    )
        requires
            works@.len() == entries@.len(),
        ensures
            final(self)@ == (match watch_root(old(self)@, entity) {
                Some(root) => old(self)@.with_keydowns_at(
                    root,
                    fully_synced(
                        old(self)@.keydowns_at(root),
                        entity,
                        keydown_entries(entries@, entity),
                        content || root is Panel,
                        |i: int| works@[i],
                    ),
                ),
                None => old(self)@,
            }),
    {
        let root = match self.watch_root(entity) {
            Some(root) => root,
            None => {
                return;
            },
        };
        let wanted = list_keydowns(entries, entity);
        assert(entries_view(wanted@).len() == wanted@.len());
        assert(keydown_entries(entries@, entity).len() == entries@.len());
        match root {
            WatchRoot::Scene => {
                sync_fully(&mut self.keydowns, entity, &wanted, content, works);
            },
            WatchRoot::Panel(_) => {
                self.keydowns.swap_live(&mut self.panel_keydowns);
                sync_fully(&mut self.keydowns, entity, &wanted, true, works);
                self.keydowns.swap_live(&mut self.panel_keydowns);
            },
        }
    }

    /// Whether a sync has to subscribe a key entry of `entity` where its names
    /// are looked up now.
    pub fn needs_keydown(&self, entity: u64, entry: &KeyDownWatchEntry) -> (r: bool)
        ensures
            r == (watch_root(self@, entity) matches Some(root) && self@.keydowns_at(root).needs(
                entity,
                entry.name@,
                (entry.swallow@, addressee(entry.target, entity)),
            )),
    {
        let config = (entry.swallow.copy_key(), event_target(entry.target, entity));
        match self.watch_root(entity) {
            Some(WatchRoot::Scene) => self.keydowns.needs(entity, &entry.name, &config),
            Some(WatchRoot::Panel(_)) => self.keydowns.needs_by(
                &self.panel_keydowns,
                entity,
                &entry.name,
                &config,
            ),
            None => false,
        }
    }

    /// Brings the routed-event subscriptions of `entity` in step with what it
    /// watches.
    pub fn sync_event_subscriptions_for(
        &mut self,
        entity: u64,
        entries: &Vec<EventWatchEntry>,
        content: bool,
        works: &Vec<bool>,
    )
        requires
            works@.len() == entries@.len(),
        ensures
            final(self)@ == (Tables {
                events: if old(self)@.scenes.contains_key(entity) {
                    fully_synced(
                        old(self)@.events,
                        entity,
                        event_entries(entries@, entity),
                        content,
                        |i: int| works@[i],
                    )
                } else {
                    old(self)@.events
                },
                ..old(self)@
            }),
    {
        if !self.scenes.contains_key(&entity) {
            return;
        }
        let wanted = list_events(entries, entity);
        assert(entries_view(wanted@).len() == wanted@.len());
        assert(event_entries(entries@, entity).len() == entries@.len());
        sync_fully(&mut self.events, entity, &wanted, content, works);
    }

    /// Brings the key bindings of `entity` in step with what it asks for. A
    /// binding that is installed already is left alone.
    pub fn sync_key_bindings_for(
        &mut self,
        entity: u64,
        specs: &Vec<KeyBindingSpec>,
        content: bool,
        works: &Vec<bool>,
    )
        requires
            works@.len() == specs@.len(),
        ensures
            final(self)@ == (Tables {
                key_bindings: if old(self)@.scenes.contains_key(entity) {
                    bindings_synced(
                        old(self)@.key_bindings,
                        entity,
                        binding_entries(specs@),
                        content,
                        |i: int| works@[i],
                    )
                } else {
                    old(self)@.key_bindings
                },
                ..old(self)@
            }),
    {
        if !self.scenes.contains_key(&entity) || !content {
            return;
        }
        let wanted = list_bindings(specs);
        let ghost seen = entries_view(wanted@);
        assert(seen.len() == wanted@.len());
        assert(binding_entries(specs@).len() == specs@.len());
        self.key_bindings.drop_unrequested(entity, &wanted);
        let ghost start = self.key_bindings@;
        let ghost w = |i: int| works@[i];
        let n: usize = wanted.len();
        let mut i: usize = 0;
        while i < n
            invariant
                i <= n,
                n == wanted@.len(),
                n == works@.len(),
                seen == entries_view(wanted@),
                w == (|i: int| works@[i]),
                self.key_bindings@ == start.walked(entity, seen, w, i as int),
                self@ == (Tables { key_bindings: self.key_bindings@, ..old(self)@ }),
            decreases n - i,
        {
            assert(seen[i as int] == (wanted@[i as int].0@, wanted@[i as int].1@));
            if self.key_bindings.needs(entity, &wanted[i].0, &wanted[i].1) && works[i] {
                self.key_bindings.subscribed(entity, &wanted[i].0, &wanted[i].1);
            }
            i = i + 1;
        }
    }

    /// Drops the click subscriptions of `entity`, in its scene and in its panel,
    /// and forgets their targets.
    pub fn reap_click_watch_for(&mut self, entity: u64)
        ensures
            final(self)@ == (Tables {
                clicks: Watches {
                    config: old(self)@.clicks.without(entity).config,
                    live: if old(self)@.scenes.contains_key(entity) {
                        old(self)@.clicks.without(entity).live
                    } else {
                        old(self)@.clicks.live
                    },
                },
                panel_clicks: if old(self)@.panels.contains_key(entity) {
                    old(self)@.panel_clicks.filter(|k: (u64, Seq<char>)| k.0 != entity)
                } else {
                    old(self)@.panel_clicks
                },
                ..old(self)@
            }),
    {
        if self.scenes.contains_key(&entity) {
            self.clicks.drop_live(entity);
        }
        if self.panels.contains_key(&entity) {
            NoesisRenderState::drop_named(&mut self.panel_clicks, entity);
        }
        self.clicks.forget_config(entity);
    }

    /// Drops the key subscriptions of `entity`, in its scene and in its panel,
    /// and forgets their settings.
    pub fn reap_keydown_watch_for(&mut self, entity: u64)
        ensures
            final(self)@ == (Tables {
                keydowns: Watches {
                    config: old(self)@.keydowns.without(entity).config,
                    live: if old(self)@.scenes.contains_key(entity) {
                        old(self)@.keydowns.without(entity).live
                    } else {
                        old(self)@.keydowns.live
                    },
                },
                panel_keydowns: if old(self)@.panels.contains_key(entity) {
                    old(self)@.panel_keydowns.filter(|k: (u64, Seq<char>)| k.0 != entity)
                } else {
                    old(self)@.panel_keydowns
                },
                ..old(self)@
            }),
    {
        if self.scenes.contains_key(&entity) {
            self.keydowns.drop_live(entity);
        }
        if self.panels.contains_key(&entity) {
            NoesisRenderState::drop_named(&mut self.panel_keydowns, entity);
        }
        self.keydowns.forget_config(entity);
    }

    /// Drops the routed-event subscriptions of `entity` and forgets their
    /// settings.
    pub fn reap_event_watch_for(&mut self, entity: u64)
        ensures
            final(self)@ == (Tables {
                events: Watches {
                    config: old(self)@.events.without(entity).config,
                    live: if old(self)@.scenes.contains_key(entity) {
                        old(self)@.events.without(entity).live
                    } else {
                        old(self)@.events.live
                    },
                },
                ..old(self)@
            }),
    {
        if self.scenes.contains_key(&entity) {
            self.events.drop_live(entity);
        }
        self.events.forget_config(entity);
    }
}

/// A sync under one root leaves what is live under the other alone, so an entity
/// with a panel that gets a scene of its own has everything subscribed there:
/// what has no live subscription in the scene is needed, whatever is live in
/// the panel.
pub proof fn law_scene_and_panel_watch_apart(
    t: Tables,
    entity: u64,
    host: u64,
    w: Watches<Seq<char>, u64>,
    keys: Watches<Seq<char>, (Seq<i32>, u64)>,
)
    ensures
        ({
            let panel = WatchRoot::Panel(host);
            let scene = WatchRoot::Scene;
            &&& t.with_clicks_at(panel, w).clicks_at(panel) == w
            &&& t.with_clicks_at(panel, w).clicks_at(scene).live == t.clicks_at(scene).live
            &&& t.with_clicks_at(scene, w).clicks_at(scene) == w
            &&& t.with_clicks_at(scene, w).clicks_at(panel).live == t.clicks_at(panel).live
            &&& t.with_keydowns_at(panel, keys).keydowns_at(panel) == keys
            &&& t.with_keydowns_at(panel, keys).keydowns_at(scene).live == t.keydowns_at(scene).live
            &&& t.with_keydowns_at(scene, keys).keydowns_at(scene) == keys
            &&& t.with_keydowns_at(scene, keys).keydowns_at(panel).live == t.keydowns_at(panel).live
            &&& forall|k: Seq<char>, c: u64|
                !t.clicks.live.contains((entity, k)) ==> #[trigger] t.with_clicks_at(
                    panel,
                    w,
                ).clicks_at(scene).needs(entity, k, c)
            &&& forall|k: Seq<char>, c: (Seq<i32>, u64)|
                !t.keydowns.live.contains((entity, k)) ==> #[trigger] t.with_keydowns_at(
                    panel,
                    keys,
                ).keydowns_at(scene).needs(entity, k, c)
        }),
{
}

/// Whether no element and event are watched twice.
pub open spec fn distinct_events(entries: Seq<EventWatchEntry>) -> bool {
    forall|i: int, j: int|
        0 <= i < j < entries.len() ==> ((#[trigger] entries[i]).name@, entries[i].event) != ((
        #[trigger] entries[j]).name@, entries[j].event)
}

/// Whether an entry watches the event on the element.
pub open spec fn watches_event(
    entries: Seq<EventWatchEntry>,
    name: Seq<char>,
    event: RoutedEvent,
) -> bool {
    exists|i: int|
        0 <= i < entries.len() && (#[trigger] entries[i]).name@ == name && entries[i].event == event
}

/// With a content tree in which every entry can be subscribed, the live
/// subscriptions of `entity` are exactly what its entries watch. An entry whose
/// settings did not change is left alone, every other one is subscribed anew, a
/// second sync does nothing, and other entities keep their subscriptions.
pub proof fn law_event_watch_follows_entries(
    w: Watches<(Seq<char>, RoutedEvent), ((bool, bool), u64)>,
    entity: u64,
    entries: Seq<EventWatchEntry>,
    works: spec_fn(int) -> bool,
    other: u64,
)
    requires
        distinct_events(entries),
        forall|i: int| 0 <= i < entries.len() ==> #[trigger] works(i),
        other != entity,
    ensures
        ({
            let seen = event_entries(entries, entity);
            let after = fully_synced(w, entity, seen, true, works);
            &&& forall|name: Seq<char>, event: RoutedEvent| #[trigger]
                after.live.contains((entity, (name, event))) <==> watches_event(
                    entries,
                    name,
                    event,
                )
            &&& forall|i: int|
                0 <= i < seen.len() ==> after.config.contains_key(
                    (entity, (#[trigger] seen[i]).0),
                ) && after.config[(entity, seen[i].0)] == seen[i].1
            &&& forall|i: int|
                0 <= i < seen.len() ==> #[trigger] w.subscribes(entity, seen, works, i) == w.needs(
                    entity,
                    seen[i].0,
                    seen[i].1,
                )
            &&& fully_synced(after, entity, seen, true, works) == after
            &&& forall|k: (Seq<char>, RoutedEvent)| #[trigger]
                after.live.contains((other, k)) == w.live.contains((other, k))
        }),
{
    let seen = event_entries(entries, entity);
    let after = w.synced(entity, seen, works);
    assert forall|i: int, j: int| 0 <= i < j < seen.len() implies (#[trigger] seen[i]).0 != (
    #[trigger] seen[j]).0 by {
        assert((entries[i].name@, entries[i].event) != (entries[j].name@, entries[j].event));
    }
    law_sync_settles(w, entity, seen, works);
    assert forall|name: Seq<char>, event: RoutedEvent| #[trigger]
        after.live.contains((entity, (name, event))) <==> watches_event(entries, name, event) by {
        let k = (name, event);
        assert(after.live.contains((entity, k)) <==> requested(seen, k));
        if requested(seen, k) {
            let i = choose|i: int| 0 <= i < seen.len() && (#[trigger] seen[i]).0 == k;
            assert(entries[i].name@ == name);
        }
        if watches_event(entries, name, event) {
            let i = choose|i: int|
                0 <= i < entries.len() && (#[trigger] entries[i]).name@ == name
                    && entries[i].event == event;
            assert(seen[i].0 == k);
        }
    }
    assert forall|i: int| 0 <= i < seen.len() implies #[trigger] w.subscribes(
        entity,
        seen,
        works,
        i,
    ) == w.needs(entity, seen[i].0, seen[i].1) by {
        law_sync_leaves_unchanged_alone(w, entity, seen, works, i);
    }
    assert forall|i: int| 0 <= i < seen.len() implies after.config.contains_key(
        (entity, (#[trigger] seen[i]).0),
    ) && after.config[(entity, seen[i].0)] == seen[i].1 by {
        assert(!after.needs(entity, seen[i].0, seen[i].1));
    }
    assert forall|k: (Seq<char>, RoutedEvent)| #[trigger]
        after.live.contains((other, k)) == w.live.contains((other, k)) by {
        law_sync_is_local(w, entity, seen, works, other, k);
    }
}

/// A watch that did not change costs nothing: with every entry live under its
/// settings and nothing else, a sync leaves the subscriptions as they are,
/// whatever the engine would have answered.
pub proof fn law_settled_watch_is_idle<K, C>(
    w: Watches<K, C>,
    entity: u64,
    entries: Seq<(K, C)>,
    content: bool,
    works: spec_fn(int) -> bool,
)
    requires
        !any_dropped(w, entity, entries),
        !any_needed(w, entity, entries),
    ensures
        lazily_synced(w, entity, entries, content, works) == w,
        bindings_synced(w, entity, entries, content, works) == w,
        fully_synced(w, entity, entries, content, works).live == w.live,
{
    assert forall|i: int| 0 <= i < entries.len() implies !w.needs(
        entity,
        (#[trigger] entries[i]).0,
        entries[i].1,
    ) by {}
    lemma_walk_idle(w, entity, entries, works, entries.len() as int);
}

/// Names are looked up in the entity's own scene where it has one, else in its
/// panel, and what fires is reported for the view on screen: the entity itself
/// or the host of its panel.
pub proof fn law_events_are_reported_for_the_view_on_screen(t: Tables, entity: u64)
    ensures
        watch_root(t, entity) is None <==> !t.scenes.contains_key(entity)
            && !t.panels.contains_key(entity),
        t.scenes.contains_key(entity) ==> watch_root(t, entity) is Some && reported_view(
            watch_root(t, entity)->0,
            entity,
        ) == entity && watch_root(t, entity)->0 is Scene,
        !t.scenes.contains_key(entity) && t.panels.contains_key(entity) ==> watch_root(
            t,
            entity,
        ) is Some && watch_root(t, entity)->0 is Panel && reported_view(
            watch_root(t, entity)->0,
            entity,
        ) == t.panels[entity].host,
{
}

/// An event goes to the target its entry names, whoever watches, and to the
/// watching entity where it names none.
pub proof fn law_events_go_to_their_target(target: u64, entity: u64)
    ensures
        addressee(Some(target), entity) == target,
        addressee(None, entity) == entity,
{
}

/// A queued event tells of its entry: the view, the target, the element, the
/// event and what the engine said of it.
pub proof fn law_queued_events_are_complete(
    entry: EventWatchEntry,
    entity: u64,
    args: RoutedEventSnapshot,
)
    ensures
        ({
            let q = queued_event(entry, entity, args);
            &&& q.0 == entity
            &&& entry.target matches Some(target) ==> q.1 == target
            &&& entry.target is None ==> q.1 == entity
            &&& q.2 == entry.name
            &&& q.3 == entry.event
            &&& q.4 == args
        }),
{
}

/// Every setting of an entry counts: two entries are subscribed alike exactly
/// when they name the same element and agree in all they ask for.
pub proof fn law_settings_count_in_full(
    entity: u64,
    a: ClickWatchEntry,
    b: ClickWatchEntry,
    c: KeyDownWatchEntry,
    d: KeyDownWatchEntry,
    e: EventWatchEntry,
    f: EventWatchEntry,
    g: KeyBindingSpec,
    h: KeyBindingSpec,
)
    ensures
        click_entries(seq![a], entity)[0] == click_entries(seq![b], entity)[0] <==> a.name@
            == b.name@ && addressee(a.target, entity) == addressee(b.target, entity),
        keydown_entries(seq![c], entity)[0] == keydown_entries(seq![d], entity)[0] <==> c.name@
            == d.name@ && c.swallow@ == d.swallow@ && addressee(c.target, entity) == addressee(
            d.target,
            entity,
        ),
        event_entries(seq![e], entity)[0] == event_entries(seq![f], entity)[0] <==> e.name@
            == f.name@ && e.event == f.event && e.mark_handled == f.mark_handled && e.handled_too
            == f.handled_too && addressee(e.target, entity) == addressee(f.target, entity),
        binding_entries(seq![g])[0] == binding_entries(seq![h])[0] <==> g.name@ == h.name@ && g.key
            == h.key && g.modifiers == h.modifiers,
{
}

/// Entries are taken one for one and in order.
pub proof fn law_entries_are_all_taken(
    entity: u64,
    clicks: Seq<ClickWatchEntry>,
    keys: Seq<KeyDownWatchEntry>,
    events: Seq<EventWatchEntry>,
    specs: Seq<KeyBindingSpec>,
)
    ensures
        click_entries(clicks, entity).len() == clicks.len(),
        forall|i: int|
            0 <= i < clicks.len() ==> (#[trigger] click_entries(clicks, entity)[i]) == (
                clicks[i].name@,
                addressee(clicks[i].target, entity),
            ),
        keydown_entries(keys, entity).len() == keys.len(),
        forall|i: int|
            0 <= i < keys.len() ==> (#[trigger] keydown_entries(keys, entity)[i]).0
                == keys[i].name@,
        event_entries(events, entity).len() == events.len(),
        forall|i: int|
            0 <= i < events.len() ==> (#[trigger] event_entries(events, entity)[i]).0 == (
                events[i].name@,
                events[i].event,
            ),
        binding_entries(specs).len() == specs.len(),
        forall|i: int|
            0 <= i < specs.len() ==> (#[trigger] binding_entries(specs)[i]).0 == (
                specs[i].name@,
                (specs[i].key, specs[i].modifiers),
            ),
{
}

/// With a content tree in which every entry can be subscribed, and no name asked
/// for twice, what is live afterwards is what is asked for, under its settings,
/// whichever of the syncs was made.
pub proof fn law_live_is_what_is_asked_for<K, C>(
    w: Watches<K, C>,
    entity: u64,
    entries: Seq<(K, C)>,
    works: spec_fn(int) -> bool,
    k: K,
)
    requires
        forall|i: int, j: int|
            0 <= i < j < entries.len() ==> (#[trigger] entries[i]).0 != (#[trigger] entries[j]).0,
        forall|i: int| 0 <= i < entries.len() ==> #[trigger] works(i),
    ensures
        lazily_synced(w, entity, entries, true, works).live.contains((entity, k)) <==> requested(
            entries,
            k,
        ),
        fully_synced(w, entity, entries, true, works).live.contains((entity, k)) <==> requested(
            entries,
            k,
        ),
        bindings_synced(w, entity, entries, true, works).live.contains((entity, k)) <==> requested(
            entries,
            k,
        ),
        !any_needed(lazily_synced(w, entity, entries, true, works), entity, entries),
        !any_needed(fully_synced(w, entity, entries, true, works), entity, entries),
{
    law_sync_settles(w, entity, entries, works);
    let d = w.dropped(entity, entries);
    let after = w.synced(entity, entries, works);
    assert(after.live.contains((entity, k)) <==> requested(entries, k));
    assert forall|i: int| 0 <= i < entries.len() implies !after.needs(
        entity,
        (#[trigger] entries[i]).0,
        entries[i].1,
    ) by {}
    if !any_needed(d, entity, entries) && requested(entries, k) {
        let i = choose|i: int| 0 <= i < entries.len() && (#[trigger] entries[i]).0 == k;
        assert(!d.needs(entity, entries[i].0, entries[i].1));
    }
}

/// Without a content tree nothing new is subscribed, and what nobody asks for
/// any more is given up all the same, but for key bindings, which stay.
pub proof fn law_nothing_is_subscribed_without_content<K, C>(
    w: Watches<K, C>,
    entity: u64,
    entries: Seq<(K, C)>,
    works: spec_fn(int) -> bool,
    k: K,
)
    ensures
        lazily_synced(w, entity, entries, false, works).live.contains((entity, k)) <==> requested(
            entries,
            k,
        ) && w.live.contains((entity, k)),
        any_needed(w, entity, entries) ==> (fully_synced(
            w,
            entity,
            entries,
            false,
            works,
        ).live.contains((entity, k)) <==> requested(entries, k) && w.live.contains((entity, k))),
        bindings_synced(w, entity, entries, false, works) == w,
{
    if any_needed(w, entity, entries) {
        let i = choose|i: int|
            0 <= i < entries.len() && w.needs(entity, (#[trigger] entries[i]).0, entries[i].1);
        let d = w.dropped(entity, entries);
        assert(d.needs(entity, entries[i].0, entries[i].1));
    }
}

} // verus!
