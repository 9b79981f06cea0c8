//! The tables of everything that is owned on behalf of an entity: scenes, hosts
//! that stand as a `DataContext`, bound collections and bindings, mounted
//! panels, subscriptions, and what was already warned about.
//!
//! A scene rebuild drops the scene and marks everything that was attached to it
//! as unattached; the owners stay and are attached to the new scene. The
//! terminal teardown drops the owners too. The removal of a single bridge drops
//! what that bridge owns and nothing else.

use std::sync::Arc;

use vstd::prelude::*;

use crate::keyed::{
    changed_where, distinct_keys, has_key, kept, key_index, lemma_entry_in_map, map_of, Key,
    KeyedMap, KeyedSet,
};
use crate::readbacks::ItemsReadback;
use crate::render::scene::SceneState;
use crate::routed_events::RoutedEvent;
use crate::watches::{WatchTable, Watches};

verus! {

/// Element that a host stands on.
#[derive(Clone)]
pub enum AttachTarget {
    /// The root of the view.
    Root,
    /// The element of this name.
    Named(String),
}

impl View for AttachTarget {
    type V = Option<Seq<char>>;

    open spec fn view(&self) -> Option<Seq<char>> {
        match self {
            AttachTarget::Root => None,
            AttachTarget::Named(name) => Some(name@),
        }
    }
}

impl Key for AttachTarget {
    fn same_key(&self, other: &Self) -> (r: bool) {
        match (self, other) {
            (AttachTarget::Root, AttachTarget::Root) => true,
            (AttachTarget::Named(a), AttachTarget::Named(b)) => *a == *b,
            _ => false,
        }
    }

    fn copy_key(&self) -> (r: Self) {
        match self {
            AttachTarget::Root => AttachTarget::Root,
            AttachTarget::Named(name) => AttachTarget::Named(name.clone()),
        }
    }
}

/// Which bridge a host belongs to.
#[derive(Clone, Copy, PartialEq, Eq, Hash, Debug, Structural)]
pub enum HostKind {
    /// A view model.
    ViewModel,
    /// A set of commands.
    Commands,
}

impl View for HostKind {
    type V = HostKind;

    open spec fn view(&self) -> HostKind {
        *self
    }
}

impl Key for HostKind {
    fn same_key(&self, other: &Self) -> (r: bool) {
        *self == *other
    }

    fn copy_key(&self) -> (r: Self) {
        *self
    }
}

/// What a host is built from: its class, its members with their kinds, and
/// where it is attached.
#[derive(Clone)]
pub struct HostDef {
    pub class_name: String,
    pub members: Vec<(String, u64)>,
    pub target: AttachTarget,
}

/// A host as a value.
#[verifier::ext_equal]
pub struct HostSpec {
    pub class_name: Seq<char>,
    pub members: Seq<(Seq<char>, u64)>,
    pub target: Option<Seq<char>>,
}

impl View for HostDef {
    type V = HostSpec;

    open spec fn view(&self) -> HostSpec {
        HostSpec {
            class_name: self.class_name@,
            members: self.members@.map_values(|m: (String, u64)| (m.0@, m.1)),
            target: self.target@,
        }
    }
}

/// A host that was built.
pub struct HostEntry {
    pub def: HostDef,
    /// URI of the scene it is attached to.
    pub attached_for: Option<String>,
}

/// A collection or binding that was built.
pub struct BindEntry {
    /// URI of the scene it is bound in.
    pub bound_for: Option<String>,
}

/// A panel that was built.
pub struct PanelEntry {
    /// View that the panel is mounted into.
    pub host: u64,
    /// Element that it is mounted under.
    pub host_name: String,
    /// URI of the scene it is mounted in.
    pub mounted_for: Option<String>,
    /// Properties of its view model, in the order of their indices.
    pub prop_names: Vec<String>,
}

/// Whether a stamp says "done in the scene of this URI".
pub open spec fn stamped(stamp: Option<String>, uri: Seq<char>) -> bool {
    stamp matches Some(s) && s@ == uri
}

/// Whether a stamp says "done in the scene of this URI".
pub fn is_stamped(stamp: &Option<String>, uri: &str) -> (r: bool)
    ensures
        r == stamped(*stamp, uri@),
{
    match stamp {
        Some(s) => crate::strings::str_eq(s.as_str(), uri),
        None => false,
    }
}

/// A host that is attached nowhere.
pub open spec fn detached(e: HostEntry) -> HostEntry {
    HostEntry { attached_for: None, ..e }
}

/// A collection or binding that is bound nowhere.
pub open spec fn unbound(e: BindEntry) -> BindEntry {
    BindEntry { bound_for: None }
}

/// A panel that is mounted nowhere, if `host` is where it was.
pub open spec fn unmounted_from(host: u64, e: PanelEntry) -> PanelEntry {
    if e.host == host {
        PanelEntry { mounted_for: None, ..e }
    } else {
        e
    }
}

/// The tables as a value.
#[verifier::ext_equal]
pub struct Tables {
    pub scenes: Map<u64, SceneState>,
    pub view_models: Map<u64, HostEntry>,
    pub command_hosts: Map<u64, HostEntry>,
    pub plain_vms: Map<(u64, u64), HostEntry>,
    pub items: Map<(u64, Seq<char>), BindEntry>,
    /// What was last read of the controls of `items`.
    pub item_readbacks: Map<(u64, Seq<char>), ItemsReadback>,
    pub lists: Map<(u64, Seq<char>), BindEntry>,
    pub bindings: Map<(u64, (Seq<char>, Seq<char>)), BindEntry>,
    pub panels: Map<u64, PanelEntry>,
    pub warned_hosts: Set<(u64, HostKind)>,
    pub warned_collisions: Set<(u64, Option<Seq<char>>)>,
    pub failed_fragments: Set<(u64, Seq<char>)>,
    pub clicks: Watches<Seq<char>, u64>,
    pub keydowns: Watches<Seq<char>, (Seq<i32>, u64)>,
    /// Live click subscriptions in panels. Those of `clicks` are in scenes; the
    /// settings there are of both.
    pub panel_clicks: Set<(u64, Seq<char>)>,
    /// Live key subscriptions in panels, likewise.
    pub panel_keydowns: Set<(u64, Seq<char>)>,
    pub events: Watches<(Seq<char>, RoutedEvent), ((bool, bool), u64)>,
    pub key_bindings: Watches<(Seq<char>, (i32, i32)), ()>,
    pub row_clicks: Set<(u64, Seq<char>)>,
    pub built_this_frame: Set<u64>,
    pub mounted_this_frame: Set<u64>,
    pub published: Set<u64>,
}

/// The tables.
pub struct NoesisRenderState {
    pub scenes: KeyedMap<u64, SceneState>,
    pub view_models: KeyedMap<u64, HostEntry>,
    pub command_hosts: KeyedMap<u64, HostEntry>,
    pub plain_vms: KeyedMap<(u64, u64), HostEntry>,
    pub items: KeyedMap<(u64, String), BindEntry>,
    pub item_readbacks: KeyedMap<(u64, String), ItemsReadback>,
    pub lists: KeyedMap<(u64, String), BindEntry>,
    pub bindings: KeyedMap<(u64, (String, String)), BindEntry>,
    pub panels: KeyedMap<u64, PanelEntry>,
    pub warned_hosts: KeyedSet<(u64, HostKind)>,
    pub warned_collisions: KeyedSet<(u64, AttachTarget)>,
    pub failed_fragments: KeyedSet<(u64, String)>,
    pub clicks: WatchTable<String, u64>,
    pub keydowns: WatchTable<String, (Vec<i32>, u64)>,
    pub panel_clicks: KeyedSet<(u64, String)>,
    pub panel_keydowns: KeyedSet<(u64, String)>,
    pub events: WatchTable<(String, RoutedEvent), ((bool, bool), u64)>,
    pub key_bindings: WatchTable<(String, (i32, i32)), ()>,
    pub row_clicks: KeyedSet<(u64, String)>,
    pub built_this_frame: KeyedSet<u64>,
    pub mounted_this_frame: KeyedSet<u64>,
    pub published: KeyedSet<u64>,
}

impl View for NoesisRenderState {
    type V = Tables;

    open spec fn view(&self) -> Tables {
        Tables {
            scenes: self.scenes@,
            view_models: self.view_models@,
            command_hosts: self.command_hosts@,
            plain_vms: self.plain_vms@,
            items: self.items@,
            item_readbacks: self.item_readbacks@,
            lists: self.lists@,
            bindings: self.bindings@,
            panels: self.panels@,
            warned_hosts: self.warned_hosts@,
            warned_collisions: self.warned_collisions@,
            failed_fragments: self.failed_fragments@,
            clicks: self.clicks@,
            keydowns: self.keydowns@,
            panel_clicks: self.panel_clicks@,
            panel_keydowns: self.panel_keydowns@,
            events: self.events@,
            key_bindings: self.key_bindings@,
            row_clicks: self.row_clicks@,
            built_this_frame: self.built_this_frame@,
            mounted_this_frame: self.mounted_this_frame@,
            published: self.published@,
        }
    }
}

/// Whether a host table entry is attached in `entity`'s live scene.
pub open spec fn attached_in(scenes: Map<u64, SceneState>, entity: u64, e: HostEntry) -> bool {
    scenes.contains_key(entity) && stamped(e.attached_for, scenes[entity].built_for_uri@)
}

/// Whether a bound entry is bound in `entity`'s live scene.
pub open spec fn bound_in(scenes: Map<u64, SceneState>, entity: u64, e: BindEntry) -> bool {
    scenes.contains_key(entity) && stamped(e.bound_for, scenes[entity].built_for_uri@)
}

impl Tables {
    /// Without `entity`'s scene: everything attached to it is marked as
    /// unattached, the owners stay.
    pub open spec fn scene_down(self, entity: u64) -> Tables {
        let live = self.scenes.contains_key(entity);
        Tables {
            scenes: self.scenes.remove(entity),
            view_models: changed_where(
                self.view_models,
                |k: u64| k == entity,
                |e: HostEntry| detached(e),
            ),
            command_hosts: changed_where(
                self.command_hosts,
                |k: u64| k == entity,
                |e: HostEntry| detached(e),
            ),
            plain_vms: changed_where(
                self.plain_vms,
                |k: (u64, u64)| k.0 == entity,
                |e: HostEntry| detached(e),
            ),
            items: changed_where(
                self.items,
                |k: (u64, Seq<char>)| k.0 == entity,
                |e: BindEntry| unbound(e),
            ),
            lists: changed_where(
                self.lists,
                |k: (u64, Seq<char>)| k.0 == entity,
                |e: BindEntry| unbound(e),
            ),
            bindings: changed_where(
                self.bindings,
                |k: (u64, (Seq<char>, Seq<char>))| k.0 == entity,
                |e: BindEntry| unbound(e),
            ),
            panels: changed_where(
                self.panels,
                |k: u64| true,
                |e: PanelEntry| unmounted_from(entity, e),
            ),
            clicks: if live {
                self.clicks.unsubscribed(entity)
            } else {
                self.clicks
            },
            keydowns: if live {
                self.keydowns.unsubscribed(entity)
            } else {
                self.keydowns
            },
            events: if live {
                self.events.unsubscribed(entity)
            } else {
                self.events
            },
            key_bindings: if live {
                self.key_bindings.unsubscribed(entity)
            } else {
                self.key_bindings
            },
            row_clicks: if live {
                self.row_clicks.filter(|k: (u64, Seq<char>)| k.0 != entity)
            } else {
                self.row_clicks
            },
            ..self
        }
    }

    /// Without anything owned on behalf of `entity`. A panel is an entity of
    /// its own and has a teardown of its own.
    pub open spec fn torn_down(self, entity: u64) -> Tables {
        let t = self.scene_down(entity);
        Tables {
            view_models: t.view_models.remove(entity),
            command_hosts: t.command_hosts.remove(entity),
            plain_vms: kept(t.plain_vms, |k: (u64, u64)| k.0 != entity),
            items: kept(t.items, |k: (u64, Seq<char>)| k.0 != entity),
            item_readbacks: kept(t.item_readbacks, |k: (u64, Seq<char>)| k.0 != entity),
            lists: kept(t.lists, |k: (u64, Seq<char>)| k.0 != entity),
            bindings: kept(t.bindings, |k: (u64, (Seq<char>, Seq<char>))| k.0 != entity),
            warned_hosts: t.warned_hosts.filter(|k: (u64, HostKind)| k.0 != entity),
            warned_collisions: t.warned_collisions.filter(
                |k: (u64, Option<Seq<char>>)| k.0 != entity,
            ),
            clicks: Watches {
                config: kept(t.clicks.config, |k: (u64, Seq<char>)| k.0 != entity),
                ..t.clicks
            },
            keydowns: Watches {
                config: kept(t.keydowns.config, |k: (u64, Seq<char>)| k.0 != entity),
                ..t.keydowns
            },
            events: Watches {
                config: kept(t.events.config, |k: (u64, (Seq<char>, RoutedEvent))| k.0 != entity),
                ..t.events
            },
            built_this_frame: t.built_this_frame.remove(entity),
            published: t.published.remove(entity),
            ..t
        }
    }

    /// Without `entity`'s panel.
    pub open spec fn panel_down(self, entity: u64) -> Tables {
        Tables {
            panels: self.panels.remove(entity),
            failed_fragments: self.failed_fragments.filter(
                |k: (u64, Seq<char>)| k.0 != entity,
            ),
            clicks: Watches {
                config: kept(self.clicks.config, |k: (u64, Seq<char>)| k.0 != entity),
                ..self.clicks
            },
            keydowns: Watches {
                config: kept(self.keydowns.config, |k: (u64, Seq<char>)| k.0 != entity),
                ..self.keydowns
            },
            panel_clicks: self.panel_clicks.filter(|k: (u64, Seq<char>)| k.0 != entity),
            panel_keydowns: self.panel_keydowns.filter(|k: (u64, Seq<char>)| k.0 != entity),
            ..self
        }
    }
}

impl NoesisRenderState {
    /// Nothing owned.
    pub fn new() -> (s: NoesisRenderState)
        ensures
            s@.scenes == Map::<u64, SceneState>::empty(),
            s@.view_models == Map::<u64, HostEntry>::empty(),
            s@.command_hosts == Map::<u64, HostEntry>::empty(),
            s@.plain_vms == Map::<(u64, u64), HostEntry>::empty(),
            s@.items == Map::<(u64, Seq<char>), BindEntry>::empty(),
            s@.item_readbacks == Map::<(u64, Seq<char>), ItemsReadback>::empty(),
            s@.lists == Map::<(u64, Seq<char>), BindEntry>::empty(),
            s@.bindings == Map::<(u64, (Seq<char>, Seq<char>)), BindEntry>::empty(),
            s@.panels == Map::<u64, PanelEntry>::empty(),
            s@.warned_hosts == Set::<(u64, HostKind)>::empty(),
            s@.warned_collisions == Set::<(u64, Option<Seq<char>>)>::empty(),
            s@.failed_fragments == Set::<(u64, Seq<char>)>::empty(),
            s@.clicks.live == Set::<(u64, Seq<char>)>::empty(),
            s@.clicks.config == Map::<(u64, Seq<char>), u64>::empty(),
            s@.keydowns.live == Set::<(u64, Seq<char>)>::empty(),
            s@.keydowns.config == Map::<(u64, Seq<char>), (Seq<i32>, u64)>::empty(),
            s@.panel_clicks == Set::<(u64, Seq<char>)>::empty(),
            s@.panel_keydowns == Set::<(u64, Seq<char>)>::empty(),
            s@.events.live == Set::<(u64, (Seq<char>, RoutedEvent))>::empty(),
            s@.events.config == Map::<
                (u64, (Seq<char>, RoutedEvent)),
                ((bool, bool), u64),
            >::empty(),
            s@.key_bindings.live == Set::<(u64, (Seq<char>, (i32, i32)))>::empty(),
            s@.key_bindings.config == Map::<(u64, (Seq<char>, (i32, i32))), ()>::empty(),
            s@.row_clicks == Set::<(u64, Seq<char>)>::empty(),
            s@.built_this_frame == Set::<u64>::empty(),
            s@.mounted_this_frame == Set::<u64>::empty(),
            s@.published == Set::<u64>::empty(),
    {
        NoesisRenderState {
            scenes: KeyedMap::new(),
            view_models: KeyedMap::new(),
            command_hosts: KeyedMap::new(),
            plain_vms: KeyedMap::new(),
            items: KeyedMap::new(),
            item_readbacks: KeyedMap::new(),
            lists: KeyedMap::new(),
            bindings: KeyedMap::new(),
            panels: KeyedMap::new(),
            warned_hosts: KeyedSet::new(),
            warned_collisions: KeyedSet::new(),
            failed_fragments: KeyedSet::new(),
            clicks: WatchTable::new(),
            keydowns: WatchTable::new(),
            panel_clicks: KeyedSet::new(),
            panel_keydowns: KeyedSet::new(),
            events: WatchTable::new(),
            key_bindings: WatchTable::new(),
            row_clicks: KeyedSet::new(),
            built_this_frame: KeyedSet::new(),
            mounted_this_frame: KeyedSet::new(),
            published: KeyedSet::new(),
        }
    }

    fn detach_hosts(&mut self, entity: u64)
        ensures
            final(self)@ == (Tables {
                view_models: old(self)@.scene_down(entity).view_models,
                command_hosts: old(self)@.scene_down(entity).command_hosts,
                plain_vms: old(self)@.scene_down(entity).plain_vms,
                ..old(self)@
            }),
    {
        let one = |k: &u64| -> (b: bool)
            ensures
                b == (k@ == entity),
            { *k == entity };
        let two = |k: &(u64, u64)| -> (b: bool)
            ensures
                b == (k@.0 == entity),
            { k.0 == entity };
        let reset = |e: HostEntry| -> (r: HostEntry)
            ensures
                r == detached(e),
            { HostEntry { def: e.def, attached_for: None } };
        self.view_models.set_where(
            one,
            reset,
            Ghost(|k: u64| k == entity),
            Ghost(|e: HostEntry| detached(e)),
        );
        self.command_hosts.set_where(
            one,
            reset,
            Ghost(|k: u64| k == entity),
            Ghost(|e: HostEntry| detached(e)),
        );
        self.plain_vms.set_where(
            two,
            reset,
            Ghost(|k: (u64, u64)| k.0 == entity),
            Ghost(|e: HostEntry| detached(e)),
        );
    }

    fn unbind_all(&mut self, entity: u64)
        ensures
            final(self)@ == (Tables {
                items: old(self)@.scene_down(entity).items,
                lists: old(self)@.scene_down(entity).lists,
                bindings: old(self)@.scene_down(entity).bindings,
                ..old(self)@
            }),
    {
        let named = |k: &(u64, String)| -> (b: bool)
            ensures
                b == (k@.0 == entity),
            { k.0 == entity };
        let pair = |k: &(u64, (String, String))| -> (b: bool)
            ensures
                b == (k@.0 == entity),
            { k.0 == entity };
        let reset = |e: BindEntry| -> (r: BindEntry)
            ensures
                r == unbound(e),
            { BindEntry { bound_for: None } };
        self.items.set_where(
            named,
            reset,
            Ghost(|k: (u64, Seq<char>)| k.0 == entity),
            Ghost(|e: BindEntry| unbound(e)),
        );
        self.lists.set_where(
            named,
            reset,
            Ghost(|k: (u64, Seq<char>)| k.0 == entity),
            Ghost(|e: BindEntry| unbound(e)),
        );
        self.bindings.set_where(
            pair,
            reset,
            Ghost(|k: (u64, (Seq<char>, Seq<char>))| k.0 == entity),
            Ghost(|e: BindEntry| unbound(e)),
        );
    }

    fn unmount_panels(&mut self, entity: u64)
        ensures
            final(self)@ == (Tables {
                panels: old(self)@.scene_down(entity).panels,
                ..old(self)@
            }),
    {
        let all = |k: &u64| -> (b: bool)
            ensures
                b,
            { true };
        let reset = |e: PanelEntry| -> (r: PanelEntry)
            ensures
                r == unmounted_from(entity, e),
            {
                if e.host == entity {
                    PanelEntry {
                        host: e.host,
                        host_name: e.host_name,
                        mounted_for: None,
                        prop_names: e.prop_names,
                    }
                } else {
                    e
                }
            };
        self.panels.set_where(
            all,
            reset,
            Ghost(|k: u64| true),
            Ghost(|e: PanelEntry| unmounted_from(entity, e)),
        );
    }

    pub(crate) fn drop_named(set: &mut KeyedSet<(u64, String)>, entity: u64)
        ensures
            final(set)@ == old(set)@.filter(|k: (u64, Seq<char>)| k.0 != entity),
    {
        let keep = |k: &(u64, String), _u: &()| -> (b: bool)
            ensures
                b == (k@.0 != entity),
            { k.0 != entity };
        set.retain(keep, Ghost(|k: (u64, Seq<char>)| k.0 != entity));
    }

    /// Drops `entity`'s scene, if it has one, and marks what was attached to it
    /// as unattached. The answer is the scene: its renderer is shut down first
    /// where it was initialized.
    pub fn teardown_scene(&mut self, entity: u64) -> (r: Option<SceneState>)
        ensures
            final(self)@ == old(self)@.scene_down(entity),
            match r {
                Some(s) => old(self)@.scenes.contains_key(entity) && s == old(self)@.scenes[entity],
                None => !old(self)@.scenes.contains_key(entity),
            },
    {
        self.detach_hosts(entity);
        self.unbind_all(entity);
        self.unmount_panels(entity);
        let r = self.scenes.remove(&entity);
        if r.is_some() {
            self.clicks.drop_live(entity);
            self.keydowns.drop_live(entity);
            self.events.drop_live(entity);
            self.key_bindings.drop_live(entity);
            NoesisRenderState::drop_named(&mut self.row_clicks, entity);
        }
        r
    }
}

impl NoesisRenderState {
    fn drop_hosts(&mut self, entity: u64)
        ensures
            final(self)@ == (Tables {
                view_models: old(self)@.view_models.remove(entity),
                command_hosts: old(self)@.command_hosts.remove(entity),
                plain_vms: kept(old(self)@.plain_vms, |k: (u64, u64)| k.0 != entity),
                warned_hosts: old(self)@.warned_hosts.filter(
                    |k: (u64, HostKind)| k.0 != entity,
                ),
                warned_collisions: old(self)@.warned_collisions.filter(
                    |k: (u64, Option<Seq<char>>)| k.0 != entity,
                ),
                ..old(self)@
            }),
    {
        let keep_plain = |k: &(u64, u64), _e: &HostEntry| -> (b: bool)
            ensures
                b == (k@.0 != entity),
            { k.0 != entity };
        let keep_host = |k: &(u64, HostKind), _u: &()| -> (b: bool)
            ensures
                b == (k@.0 != entity),
            { k.0 != entity };
        self.view_models.remove(&entity);
        self.command_hosts.remove(&entity);
        self.plain_vms.retain(keep_plain, Ghost(|k: (u64, u64)| k.0 != entity));
        self.warned_hosts.retain(keep_host, Ghost(|k: (u64, HostKind)| k.0 != entity));
        self.forget_collisions(entity);
    }

    pub(crate) fn forget_collisions(&mut self, entity: u64)
        ensures
            final(self)@ == (Tables {
                warned_collisions: old(self)@.warned_collisions.filter(
                    |k: (u64, Option<Seq<char>>)| k.0 != entity,
                ),
                ..old(self)@
            }),
    {
        let keep = |k: &(u64, AttachTarget), _u: &()| -> (b: bool)
            ensures
                b == (k@.0 != entity),
            { k.0 != entity };
        self.warned_collisions.retain(
            keep,
            Ghost(|k: (u64, Option<Seq<char>>)| k.0 != entity),
        );
    }

    pub(crate) fn drop_bound<T>(map: &mut KeyedMap<(u64, String), T>, entity: u64)
        ensures
            final(map)@ == kept(old(map)@, |k: (u64, Seq<char>)| k.0 != entity),
    {
        let keep = |k: &(u64, String), _e: &T| -> (b: bool)
            ensures
                b == (k@.0 != entity),
            { k.0 != entity };
        map.retain(keep, Ghost(|k: (u64, Seq<char>)| k.0 != entity));
    }

    fn drop_bindings(&mut self, entity: u64)
        ensures
            final(self)@ == (Tables {
                bindings: kept(
                    old(self)@.bindings,
                    |k: (u64, (Seq<char>, Seq<char>))| k.0 != entity,
                ),
                ..old(self)@
            }),
    {
        let keep = |k: &(u64, (String, String)), _e: &BindEntry| -> (b: bool)
            ensures
                b == (k@.0 != entity),
            { k.0 != entity };
        self.bindings.retain(keep, Ghost(|k: (u64, (Seq<char>, Seq<char>))| k.0 != entity));
    }

    /// Drops everything owned on behalf of `entity`: its scene first, because
    /// it refers to the owners, then the owners. The scene comes back.
    pub fn teardown_for(&mut self, entity: u64) -> (r: Option<SceneState>)
        ensures
            final(self)@ == old(self)@.torn_down(entity),
            match r {
                Some(s) => old(self)@.scenes.contains_key(entity) && s == old(self)@.scenes[entity],
                None => !old(self)@.scenes.contains_key(entity),
            },
    {
        let r = self.teardown_scene(entity);
        self.drop_hosts(entity);
        NoesisRenderState::drop_bound(&mut self.items, entity);
        NoesisRenderState::drop_bound(&mut self.item_readbacks, entity);
        NoesisRenderState::drop_bound(&mut self.lists, entity);
        self.drop_bindings(entity);
        self.clicks.forget_config(entity);
        self.keydowns.forget_config(entity);
        self.events.forget_config(entity);
        self.built_this_frame.remove(&entity);
        self.published.remove(&entity);
        r
    }

    /// Drops `entity`'s panel, if it has one, with what was recorded for it.
    /// The panel comes back: its fragment is taken out of its host first.
    pub fn teardown_panel_for(&mut self, entity: u64) -> (r: Option<PanelEntry>)
        ensures
            final(self)@ == old(self)@.panel_down(entity),
            match r {
                Some(p) => old(self)@.panels.contains_key(entity) && p == old(self)@.panels[entity],
                None => !old(self)@.panels.contains_key(entity),
            },
    {
        let r = self.panels.remove(&entity);
        NoesisRenderState::drop_named(&mut self.panel_clicks, entity);
        NoesisRenderState::drop_named(&mut self.panel_keydowns, entity);
        NoesisRenderState::drop_named(&mut self.failed_fragments, entity);
        self.clicks.forget_config(entity);
        self.keydowns.forget_config(entity);
        r
    }

    /// Takes every scene down, each as [`Self::teardown_scene`] does. The
    /// entities come back in the order in which they were taken.
    pub fn teardown_all_scenes(&mut self) -> (ids: Vec<u64>)
        ensures
            final(self)@ == old(self)@.scenes_down(ids@),
            final(self)@.scenes == Map::<u64, SceneState>::empty(),
            forall|e: u64| old(self)@.scenes.contains_key(e) <==> ids@.contains(e),
            ids@.no_duplicates(),
    {
        let n: usize = self.scenes.len();
        let ghost all = self.scenes.listed();
        let mut ids: Vec<u64> = Vec::new();
        let mut i: usize = 0;
        while i < n
            invariant
                i <= n,
                n == all.len(),
                all == self.scenes.listed(),
                distinct_keys(all),
                self@ == old(self)@,
                ids@.len() == i,
                forall|j: int| 0 <= j < i ==> #[trigger] ids@[j] == all[j].0,
            decreases n - i,
        {
            ids.push(self.scenes.at(i).0);
            i = i + 1;
        }
        proof {
            assert forall|e: u64| self@.scenes.contains_key(e) <==> ids@.contains(e) by {
                if self@.scenes.contains_key(e) {
                    let j = key_index(all, e);
                    assert(ids@[j] == e);
                }
                if ids@.contains(e) {
                    let j = choose|j: int| 0 <= j < ids@.len() && ids@[j] == e;
                    assert(all[j].0@ == e);
                }
            }
            assert forall|a: int, b: int| 0 <= a < b < ids@.len() implies ids@[a] != ids@[b] by {
                assert(all[a].0@ != all[b].0@);
            }
        }
        let mut i: usize = 0;
        assert(ids@.take(0) =~= Seq::<u64>::empty());
        while i < n
            invariant
                i <= n,
                n == ids@.len(),
                self@ == old(self)@.scenes_down(ids@.take(i as int)),
            decreases n - i,
        {
            let _ = self.teardown_scene(ids[i]);
            proof {
                assert(ids@.take(i + 1).drop_last() == ids@.take(i as int));
            }
            i = i + 1;
        }
        proof {
            assert(ids@.take(n as int) == ids@);
            assert forall|e: u64| !self@.scenes.contains_key(e) by {
                lemma_scenes_down(old(self)@, ids@, e);
            }
            assert(self@.scenes =~= Map::<u64, SceneState>::empty());
        }
        ids
    }
}

impl Tables {
    /// With the scenes of `ids` taken down in order.
    pub open spec fn scenes_down(self, ids: Seq<u64>) -> Tables
        decreases ids.len(),
    {
        if ids.len() == 0 {
            self
        } else {
            self.scenes_down(ids.drop_last()).scene_down(ids.last())
        }
    }
}

proof fn lemma_scenes_down(t: Tables, ids: Seq<u64>, e: u64)
    ensures
        t.scenes_down(ids).scenes.contains_key(e) == (t.scenes.contains_key(e) && !ids.contains(e)),
    decreases ids.len(),
{
    if ids.len() > 0 {
        let short = ids.drop_last();
        lemma_scenes_down(t, short, e);
        assert(ids.contains(e) == (short.contains(e) || ids.last() == e)) by {
            if short.contains(e) {
                let j = choose|j: int| 0 <= j < short.len() && short[j] == e;
                assert(ids[j] == e);
            }
            if ids.last() == e {
                assert(ids[ids.len() - 1] == e);
            }
            if ids.contains(e) && ids.last() != e {
                let j = choose|j: int| 0 <= j < ids.len() && ids[j] == e;
                assert(short[j] == e);
            }
        }
    }
}

/// Whether a table still holds something of `entity`. The panel tables are left
/// out: a panel is an entity of its own.
pub open spec fn traces(t: Tables, entity: u64) -> bool {
    ||| t.scenes.contains_key(entity)
    ||| t.view_models.contains_key(entity)
    ||| t.command_hosts.contains_key(entity)
    ||| exists|x: u64| t.plain_vms.contains_key((entity, x))
    ||| exists|x: Seq<char>| t.items.contains_key((entity, x))
    ||| exists|x: Seq<char>| t.item_readbacks.contains_key((entity, x))
    ||| exists|x: Seq<char>| t.lists.contains_key((entity, x))
    ||| exists|x: (Seq<char>, Seq<char>)| t.bindings.contains_key((entity, x))
    ||| exists|x: HostKind| t.warned_hosts.contains((entity, x))
    ||| exists|x: Option<Seq<char>>| t.warned_collisions.contains((entity, x))
    ||| exists|x: Seq<char>| t.clicks.config.contains_key((entity, x))
    ||| exists|x: Seq<char>| t.keydowns.config.contains_key((entity, x))
    ||| exists|x: (Seq<char>, RoutedEvent)| t.events.config.contains_key((entity, x))
    ||| t.built_this_frame.contains(entity)
    ||| t.published.contains(entity)
}

/// The terminal teardown leaves no trace of the entity.
pub proof fn law_teardown_leaves_no_trace(t: Tables, entity: u64)
    ensures
        !traces(t.torn_down(entity), entity),
{
}

/// A torn-down scene takes its live subscriptions with it, and none of a panel.
pub proof fn law_scene_takes_subscriptions_along(t: Tables, entity: u64)
    requires
        t.scenes.contains_key(entity),
    ensures
        forall|x: Seq<char>| !t.scene_down(entity).clicks.live.contains((entity, x)),
        forall|x: Seq<char>| !t.scene_down(entity).keydowns.live.contains((entity, x)),
        forall|x: (Seq<char>, RoutedEvent)| !t.scene_down(entity).events.live.contains((entity, x)),
        forall|x: (Seq<char>, (i32, i32))|
            !t.scene_down(entity).key_bindings.live.contains((entity, x)),
        forall|x: Seq<char>| !t.scene_down(entity).row_clicks.contains((entity, x)),
        t.scene_down(entity).panel_clicks == t.panel_clicks,
        t.scene_down(entity).panel_keydowns == t.panel_keydowns,
{
}

/// A torn-down panel takes its live subscriptions with it, and none of a scene.
pub proof fn law_panel_takes_subscriptions_along(t: Tables, entity: u64)
    ensures
        forall|x: Seq<char>| !t.panel_down(entity).panel_clicks.contains((entity, x)),
        forall|x: Seq<char>| !t.panel_down(entity).panel_keydowns.contains((entity, x)),
        t.panel_down(entity).clicks.live == t.clicks.live,
        t.panel_down(entity).keydowns.live == t.keydowns.live,
{
}

/// Tearing one entity down leaves the scenes, hosts, collections, bindings and
/// remembered settings of every other entity as they are.
pub proof fn law_teardown_is_local(t: Tables, entity: u64, other: u64)
    requires
        other != entity,
    ensures
        ({
            let d = t.torn_down(entity);
            &&& d.scenes.contains_key(other) == t.scenes.contains_key(other)
            &&& t.scenes.contains_key(other) ==> d.scenes[other] == t.scenes[other]
            &&& d.view_models.contains_key(other) == t.view_models.contains_key(other)
            &&& t.view_models.contains_key(other) ==> d.view_models[other] == t.view_models[other]
            &&& d.command_hosts.contains_key(other) == t.command_hosts.contains_key(other)
            &&& t.command_hosts.contains_key(other) ==> d.command_hosts[other]
                == t.command_hosts[other]
            &&& forall|x: Seq<char>| #[trigger]
                t.items.contains_key((other, x)) ==> d.items.contains_key((other, x))
                    && d.items[(other, x)] == t.items[(other, x)]
            &&& forall|x: Seq<char>| #[trigger]
                t.lists.contains_key((other, x)) ==> d.lists.contains_key((other, x))
                    && d.lists[(other, x)] == t.lists[(other, x)]
            &&& forall|x: (Seq<char>, Seq<char>)| #[trigger]
                t.bindings.contains_key((other, x)) ==> d.bindings.contains_key((other, x))
                    && d.bindings[(other, x)] == t.bindings[(other, x)]
            &&& forall|x: Seq<char>| #[trigger]
                t.clicks.config.contains_key((other, x)) ==> d.clicks.config.contains_key((other, x))
                    && d.clicks.config[(other, x)] == t.clicks.config[(other, x)]
            &&& d.published.contains(other) == t.published.contains(other)
        }),
{
}

/// Taking a scene down keeps every owner; each is merely unattached, so that
/// the next pass attaches it to the new scene.
pub proof fn law_rebuild_keeps_owners(t: Tables, entity: u64)
    ensures
        ({
            let d = t.scene_down(entity);
            &&& d.view_models.dom() == t.view_models.dom()
            &&& d.command_hosts.dom() == t.command_hosts.dom()
            &&& d.plain_vms.dom() == t.plain_vms.dom()
            &&& d.items.dom() == t.items.dom()
            &&& d.lists.dom() == t.lists.dom()
            &&& d.bindings.dom() == t.bindings.dom()
            &&& d.panels.dom() == t.panels.dom()
            &&& t.view_models.contains_key(entity) ==> d.view_models[entity].attached_for is None
                && d.view_models[entity].def == t.view_models[entity].def
            &&& forall|p: u64| #[trigger]
                t.panels.contains_key(p) && t.panels[p].host == entity
                    ==> d.panels[p].mounted_for is None
        }),
{
    let d = t.scene_down(entity);
    assert(d.view_models.dom() =~= t.view_models.dom());
    assert(d.command_hosts.dom() =~= t.command_hosts.dom());
    assert(d.plain_vms.dom() =~= t.plain_vms.dom());
    assert(d.items.dom() =~= t.items.dom());
    assert(d.lists.dom() =~= t.lists.dom());
    assert(d.bindings.dom() =~= t.bindings.dom());
    assert(d.panels.dom() =~= t.panels.dom());
}

/// Tearing down twice is tearing down once.
pub proof fn law_teardown_is_idempotent(t: Tables, entity: u64)
    ensures
        t.torn_down(entity).torn_down(entity) == t.torn_down(entity),
        t.panel_down(entity).panel_down(entity) == t.panel_down(entity),
{
    let d = t.torn_down(entity);
    let dd = d.torn_down(entity);
    assert(dd.scenes =~= d.scenes);
    assert(dd.view_models =~= d.view_models);
    assert(dd.command_hosts =~= d.command_hosts);
    assert(dd.plain_vms =~= d.plain_vms);
    assert(dd.items =~= d.items);
    assert(dd.item_readbacks =~= d.item_readbacks);
    assert(dd.lists =~= d.lists);
    assert(dd.bindings =~= d.bindings);
    assert(dd.panels =~= d.panels);
    assert(dd.warned_hosts =~= d.warned_hosts);
    assert(dd.warned_collisions =~= d.warned_collisions);
    assert(dd.clicks.config =~= d.clicks.config);
    assert(dd.keydowns.config =~= d.keydowns.config);
    assert(dd.events.config =~= d.events.config);
    assert(dd.built_this_frame =~= d.built_this_frame);
    assert(dd.published =~= d.published);
    assert(dd =~= d);
    let p = t.panel_down(entity);
    let pp = p.panel_down(entity);
    assert(pp.panels =~= p.panels);
    assert(pp.failed_fragments =~= p.failed_fragments);
    assert(pp.clicks.config =~= p.clicks.config);
    assert(pp.keydowns.config =~= p.keydowns.config);
    assert(pp.panel_clicks =~= p.panel_clicks);
    assert(pp.panel_keydowns =~= p.panel_keydowns);
    assert(pp =~= p);
}

/// A scene that is taken down leaves every owner of its entity as it was defined
/// but done nowhere, and every panel inside it unmounted; what belongs to other
/// entities, and what is mounted elsewhere, is untouched.
pub proof fn law_scene_down_unattaches(t: Tables, entity: u64, other: u64)
    requires
        other != entity,
    ensures
        ({
            let d = t.scene_down(entity);
            &&& !d.scenes.contains_key(entity)
            &&& t.command_hosts.contains_key(entity) ==> d.command_hosts[entity].attached_for is None
                && d.command_hosts[entity].def == t.command_hosts[entity].def
            &&& t.view_models.contains_key(entity) ==> d.view_models[entity].attached_for is None
                && d.view_models[entity].def == t.view_models[entity].def
            &&& forall|x: u64| #[trigger]
                t.plain_vms.contains_key((entity, x)) ==> d.plain_vms[(
                    entity,
                    x,
                )].attached_for is None && d.plain_vms[(entity, x)].def == t.plain_vms[(
                    entity,
                    x,
                )].def
            &&& forall|x: u64| #[trigger]
                t.plain_vms.contains_key((other, x)) ==> d.plain_vms[(other, x)] == t.plain_vms[(
                    other,
                    x,
                )]
            &&& t.command_hosts.contains_key(other) ==> d.command_hosts[other]
                == t.command_hosts[other]
            &&& t.view_models.contains_key(other) ==> d.view_models[other] == t.view_models[other]
            &&& forall|x: Seq<char>| #[trigger]
                t.items.contains_key((entity, x)) ==> d.items[(entity, x)].bound_for is None
            &&& forall|x: Seq<char>| #[trigger]
                t.lists.contains_key((entity, x)) ==> d.lists[(entity, x)].bound_for is None
            &&& forall|x: (Seq<char>, Seq<char>)| #[trigger]
                t.bindings.contains_key((entity, x)) ==> d.bindings[(entity, x)].bound_for is None
            &&& forall|x: Seq<char>| #[trigger]
                t.items.contains_key((other, x)) ==> d.items[(other, x)] == t.items[(other, x)]
            &&& forall|x: Seq<char>| #[trigger]
                t.lists.contains_key((other, x)) ==> d.lists[(other, x)] == t.lists[(other, x)]
            &&& forall|x: (Seq<char>, Seq<char>)| #[trigger]
                t.bindings.contains_key((other, x)) ==> d.bindings[(other, x)] == t.bindings[(
                    other,
                    x,
                )]
            &&& forall|p: u64| #[trigger]
                t.panels.contains_key(p) ==> {
                    &&& d.panels[p].host == t.panels[p].host
                    &&& d.panels[p].host_name == t.panels[p].host_name
                    &&& d.panels[p].prop_names == t.panels[p].prop_names
                    &&& t.panels[p].host != entity ==> d.panels[p] == t.panels[p]
                    &&& t.panels[p].host == entity ==> d.panels[p].mounted_for is None
                }
            &&& forall|x: Seq<char>| #[trigger]
                d.clicks.live.contains((other, x)) == t.clicks.live.contains((other, x))
            &&& forall|x: Seq<char>| #[trigger]
                d.keydowns.live.contains((other, x)) == t.keydowns.live.contains((other, x))
            &&& forall|x: (Seq<char>, RoutedEvent)| #[trigger]
                d.events.live.contains((other, x)) == t.events.live.contains((other, x))
            &&& forall|x: Seq<char>| #[trigger]
                d.row_clicks.contains((other, x)) == t.row_clicks.contains((other, x))
            &&& d.clicks.config == t.clicks.config
            &&& d.keydowns.config == t.keydowns.config
            &&& d.events.config == t.events.config
            &&& d.item_readbacks == t.item_readbacks
            &&& d.warned_hosts == t.warned_hosts
            &&& d.warned_collisions == t.warned_collisions
            &&& d.failed_fragments == t.failed_fragments
            &&& d.built_this_frame == t.built_this_frame
            &&& d.mounted_this_frame == t.mounted_this_frame
            &&& d.published == t.published
        }),
{
}

/// The terminal teardown of one entity leaves what the others own, watch and
/// were told alone, panels of any entity among it.
pub proof fn law_teardown_leaves_others_alone(t: Tables, entity: u64, other: u64)
    requires
        other != entity,
    ensures
        ({
            let d = t.torn_down(entity);
            &&& forall|x: u64| #[trigger]
                t.plain_vms.contains_key((other, x)) ==> d.plain_vms.contains_key((other, x))
                    && d.plain_vms[(other, x)] == t.plain_vms[(other, x)]
            &&& forall|x: Seq<char>| #[trigger]
                t.item_readbacks.contains_key((other, x)) ==> d.item_readbacks.contains_key(
                    (other, x),
                ) && d.item_readbacks[(other, x)] == t.item_readbacks[(other, x)]
            &&& forall|x: Seq<char>| #[trigger]
                t.keydowns.config.contains_key((other, x)) ==> d.keydowns.config.contains_key(
                    (other, x),
                ) && d.keydowns.config[(other, x)] == t.keydowns.config[(other, x)]
            &&& forall|x: (Seq<char>, RoutedEvent)| #[trigger]
                t.events.config.contains_key((other, x)) ==> d.events.config.contains_key(
                    (other, x),
                ) && d.events.config[(other, x)] == t.events.config[(other, x)]
            &&& forall|x: HostKind| #[trigger]
                d.warned_hosts.contains((other, x)) == t.warned_hosts.contains((other, x))
            &&& forall|x: Option<Seq<char>>| #[trigger]
                d.warned_collisions.contains((other, x)) == t.warned_collisions.contains((other, x))
            &&& d.built_this_frame.contains(other) == t.built_this_frame.contains(other)
            &&& d.mounted_this_frame == t.mounted_this_frame
            &&& d.failed_fragments == t.failed_fragments
            &&& forall|p: u64| #[trigger] t.panels.contains_key(p) ==> d.panels.contains_key(p)
        }),
{
}

/// The teardown of a panel drops it, what is remembered of its fragments and of
/// its watches, and nothing else: not its scene, its hosts or another panel.
pub proof fn law_panel_down_is_local(t: Tables, entity: u64, other: u64)
    requires
        other != entity,
    ensures
        ({
            let d = t.panel_down(entity);
            &&& !d.panels.contains_key(entity)
            &&& d.panels.contains_key(other) == t.panels.contains_key(other)
            &&& t.panels.contains_key(other) ==> d.panels[other] == t.panels[other]
            &&& forall|x: Seq<char>| !d.failed_fragments.contains((entity, x))
            &&& forall|x: Seq<char>| #[trigger]
                d.failed_fragments.contains((other, x)) == t.failed_fragments.contains((other, x))
            &&& forall|x: Seq<char>| !d.clicks.config.contains_key((entity, x))
            &&& forall|x: Seq<char>| !d.keydowns.config.contains_key((entity, x))
            &&& forall|x: Seq<char>| #[trigger]
                t.clicks.config.contains_key((other, x)) ==> d.clicks.config.contains_key((other, x))
                    && d.clicks.config[(other, x)] == t.clicks.config[(other, x)]
            &&& forall|x: Seq<char>| #[trigger]
                t.keydowns.config.contains_key((other, x)) ==> d.keydowns.config.contains_key(
                    (other, x),
                ) && d.keydowns.config[(other, x)] == t.keydowns.config[(other, x)]
            &&& forall|x: Seq<char>| #[trigger]
                d.panel_clicks.contains((other, x)) == t.panel_clicks.contains((other, x))
            &&& forall|x: Seq<char>| #[trigger]
                d.panel_keydowns.contains((other, x)) == t.panel_keydowns.contains((other, x))
            &&& d.scenes == t.scenes
            &&& d.view_models == t.view_models
            &&& d.command_hosts == t.command_hosts
            &&& d.plain_vms == t.plain_vms
            &&& d.items == t.items
            &&& d.lists == t.lists
            &&& d.bindings == t.bindings
            &&& d.events == t.events
            &&& d.key_bindings == t.key_bindings
            &&& d.row_clicks == t.row_clicks
        }),
{
}

/// A host or collection is done in the live scene exactly where there is one and
/// its URI is the one noted; without a note, or with that of another scene, it
/// is not.
pub proof fn law_stamps_name_the_live_scene(
    scenes: Map<u64, SceneState>,
    entity: u64,
    host: HostEntry,
    bind: BindEntry,
)
    ensures
        attached_in(scenes, entity, host) <==> scenes.contains_key(entity)
            && host.attached_for is Some && host.attached_for->0@ == scenes[entity].built_for_uri@,
        bound_in(scenes, entity, bind) <==> scenes.contains_key(entity) && bind.bound_for is Some
            && bind.bound_for->0@ == scenes[entity].built_for_uri@,
{
}

/// Two definitions are alike exactly when class, target and every member with
/// its kind are.
pub proof fn law_definitions_are_compared_in_full(a: HostDef, b: HostDef)
    ensures
        a@ == b@ <==> {
            &&& a.class_name@ == b.class_name@
            &&& a.target is Root == b.target is Root
            &&& a.target is Named && b.target is Named ==> a.target->Named_0@ == b.target->Named_0@
            &&& a.members@.len() == b.members@.len()
            &&& forall|i: int|
                0 <= i < a.members@.len() ==> (#[trigger] a.members@[i]).0@ == b.members@[i].0@
                    && a.members@[i].1 == b.members@[i].1
        },
{
    let va = a@.members;
    let vb = b@.members;
    if a@ == b@ {
        assert(va.len() == a.members@.len() && vb.len() == b.members@.len());
        assert forall|i: int| 0 <= i < a.members@.len() implies (#[trigger] a.members@[i]).0@
            == b.members@[i].0@ && a.members@[i].1 == b.members@[i].1 by {
            assert(va[i] == vb[i]);
        }
    }
    if a.members@.len() == b.members@.len() && forall|i: int|
        0 <= i < a.members@.len() ==> (#[trigger] a.members@[i]).0@ == b.members@[i].0@
            && a.members@[i].1 == b.members@[i].1 {
        assert(va =~= vb);
    }
}

/// With several scenes taken down exactly those are gone, and no owner with
/// them.
pub proof fn law_listed_scenes_go(t: Tables, ids: Seq<u64>, e: u64)
    ensures
        t.scenes_down(ids).scenes.contains_key(e) <==> t.scenes.contains_key(e) && !ids.contains(e),
        t.scenes_down(ids).view_models.contains_key(e) == t.view_models.contains_key(e),
        t.scenes_down(ids).command_hosts.contains_key(e) == t.command_hosts.contains_key(e),
        t.scenes_down(ids).panels.contains_key(e) == t.panels.contains_key(e),
        t.scenes_down(ids).published == t.published,
    decreases ids.len(),
{
    lemma_scenes_down(t, ids, e);
    if ids.len() > 0 {
        law_listed_scenes_go(t, ids.drop_last(), e);
    }
}

} // verus!
