//! Panels: XAML fragments that are mounted into a named element of a view.
//!
//! A panel is built once, mounted as soon as its host view has a scene, and
//! mounted again after the host was rebuilt.

use vstd::prelude::*;

use crate::render::scene::SceneState;
use crate::render::state::{is_stamped, stamped, NoesisRenderState, PanelEntry, Tables};

verus! {

/// Whether a panel is mounted in the live scene of `host`.
pub open spec fn mounted_in(scenes: Map<u64, SceneState>, host: u64, e: PanelEntry) -> bool {
    scenes.contains_key(host) && stamped(e.mounted_for, scenes[host].built_for_uri@)
}

/// Whether a panel is waiting to be mounted into `host`.
pub open spec fn waits_for_mount(t: Tables, entity: u64, host: u64) -> bool {
    t.panels.contains_key(entity) && t.scenes.contains_key(host) && !mounted_in(
        t.scenes,
        host,
        t.panels[entity],
    )
}

/// The property that a push to an index of `entity`'s panel writes.
pub open spec fn pushed_property(t: Tables, entity: u64, index: u32) -> Option<String> {
    if t.panels.contains_key(entity) && index < t.panels[entity].prop_names@.len() {
        Some(t.panels[entity].prop_names@[index as int])
    } else {
        None
    }
}

/// Whether one-shot focus actions of `entity` can be performed now: its scene
/// has content, or its panel is mounted. `content` tells the former.
pub open spec fn focus_root_ready(t: Tables, entity: u64, content: bool) -> bool {
    if t.scenes.contains_key(entity) {
        content
    } else {
        t.panels.contains_key(entity) && t.panels[entity].mounted_for is Some
    }
}

impl NoesisRenderState {
    /// Whether `entity`'s panel is still to be built.
    pub fn panel_needs_build(&self, entity: u64) -> (r: bool)
        ensures
            r == !self@.panels.contains_key(entity),
    {
        !self.panels.contains_key(&entity)
    }

    /// Records a panel that was built. That its fragment failed to load before
    /// is forgotten: a later failure is worth a report again.
    pub fn panel_built(
        &mut self,
        entity: u64,
        uri: &str,
        host: u64,
        host_name: &str,
        prop_names: Vec<String>,
    )
        ensures
            ({
                let now = final(self)@.panels[entity];
                &&& final(self)@ == (Tables {
                    panels: old(self)@.panels.insert(entity, now),
                    failed_fragments: old(self)@.failed_fragments.remove((entity, uri@)),
                    ..old(self)@
                })
                &&& now.host == host
                &&& now.host_name@ == host_name@
                &&& now.mounted_for is None
                &&& now.prop_names == prop_names
            }),
    {
        self.panels.insert(
            entity,
            PanelEntry { host, host_name: host_name.to_owned(), mounted_for: None, prop_names },
        );
        let k = (entity, uri.to_owned());
        self.failed_fragments.remove(&k);
    }

    /// The property of `entity`'s panel that a push to this index writes and
    /// announces. A push to any other index, or before the panel is built, is
    /// dropped.
    pub fn panel_property(&self, entity: u64, index: u32) -> (r: Option<String>)
        ensures
            r == pushed_property(self@, entity, index),
    {
        match self.panels.get(&entity) {
            Some(p) => {
                let place: usize = index as usize;
                if place < p.prop_names.len() {
                    Some(p.prop_names[place].clone())
                } else {
                    None
                }
            },
            None => None,
        }
    }

    /// Records that a fragment failed to load. Loading is tried again every
    /// frame; the answer tells whether this is the first failure, which is the
    /// one to report.
    pub fn panel_failed(&mut self, entity: u64, uri: &str) -> (report: bool)
        ensures
            report == !old(self)@.failed_fragments.contains((entity, uri@)),
            final(self)@ == (Tables {
                failed_fragments: old(self)@.failed_fragments.insert((entity, uri@)),
                ..old(self)@
            }),
    {
        self.failed_fragments.insert((entity, uri.to_owned()))
    }

    /// The element of `host` that `entity`'s panel is to be mounted under now,
    /// if it is to be mounted.
    pub fn panel_mount_target(&self, entity: u64, host: u64) -> (r: Option<String>)
        ensures
            match r {
                Some(name) => waits_for_mount(self@, entity, host) && name@
                    == self@.panels[entity].host_name@,
                None => !waits_for_mount(self@, entity, host),
            },
    {
        match (self.panels.get(&entity), self.scenes.get(&host)) {
            (Some(p), Some(s)) => {
                if is_stamped(&p.mounted_for, s.built_for_uri.as_str()) {
                    None
                } else {
                    Some(p.host_name.clone())
                }
            },
            _ => None,
        }
    }

    /// Records that `entity`'s panel was mounted into the scene of `host`.
    pub fn panel_mounted(&mut self, entity: u64, host: u64)
        requires
            waits_for_mount(old(self)@, entity, host),
        ensures
            ({
                let was = old(self)@.panels[entity];
                let now = final(self)@.panels[entity];
                &&& final(self)@ == (Tables {
                    panels: old(self)@.panels.insert(entity, now),
                    mounted_this_frame: old(self)@.mounted_this_frame.insert(entity),
                    ..old(self)@
                })
                &&& now.host == was.host
                &&& now.host_name == was.host_name
                &&& now.prop_names == was.prop_names
                &&& mounted_in(old(self)@.scenes, host, now)
            }),
    {
        let uri = match self.scenes.get(&host) {
            Some(s) => s.built_for_uri.clone(),
            None => String::new(),
        };
        match self.panels.remove(&entity) {
            Some(p) => {
                self.panels.insert(
                    entity,
                    PanelEntry {
                        host: p.host,
                        host_name: p.host_name,
                        mounted_for: Some(uri),
                        prop_names: p.prop_names,
                    },
                );
            },
            None => {},
        }
        self.mounted_this_frame.insert(entity);
        assert(self@.panels =~= old(self)@.panels.insert(entity, self@.panels[entity]));
    }

    /// Whether `entity`'s panel was mounted in this frame.
    pub fn panel_mounted_this_frame(&self, entity: u64) -> (r: bool)
        ensures
            r == self@.mounted_this_frame.contains(entity),
    {
        self.mounted_this_frame.contains(&entity)
    }

    /// Number of panels.
    pub fn live_panel_count(&self) -> (n: usize)
        ensures
            self@.panels.dom().finite(),
            n == self@.panels.dom().len(),
    {
        self.panels.len()
    }

    /// Whether one-shot focus actions are done with: there are none, or they
    /// can be performed now. Otherwise they stay queued.
    pub fn takes_focus_actions(&self, entity: u64, actions: usize, content: bool) -> (r: bool)
        ensures
            r == (actions == 0 || focus_root_ready(self@, entity, content)),
    {
        if actions == 0 {
            return true;
        }
        if self.scenes.contains_key(&entity) {
            return content;
        }
        match self.panels.get(&entity) {
            Some(p) => p.mounted_for.is_some(),
            None => false,
        }
    }
}

/// Place of a fragment among the children of its host, by identity.
pub fn fragment_index(children: &Vec<u64>, fragment: u64) -> (r: Option<usize>)
    ensures
        match r {
            Some(i) => i < children@.len() && children@[i as int] == fragment && forall|j: int|
                0 <= j < i ==> children@[j] != fragment,
            None => forall|j: int| 0 <= j < children@.len() ==> children@[j] != fragment,
        },
{
    let n: usize = children.len();
    let mut i: usize = 0;
    while i < n
        invariant
            i <= n,
            n == children@.len(),
            forall|j: int| 0 <= j < i ==> children@[j] != fragment,
        decreases n - i,
    {
        if children[i] == fragment {
            return Some(i);
        }
        i = i + 1;
    }
    None
}

/// A rebuild of the host takes the panel out; it waits to be mounted into the
/// next scene, whatever that scene is built from. Its view model stays.
pub proof fn law_host_rebuild_remounts(t: Tables, entity: u64, host: u64, scene: SceneState)
    requires
        t.panels.contains_key(entity),
        t.panels[entity].host == host,
    ensures
        ({
            let d = t.scene_down(host);
            let next = Tables { scenes: d.scenes.insert(host, scene), ..d };
            &&& d.panels.contains_key(entity)
            &&& forall|i: u32| #[trigger]
                pushed_property(next, entity, i) == pushed_property(t, entity, i)
            &&& !waits_for_mount(d, entity, host)
            &&& waits_for_mount(next, entity, host)
        }),
{
}

/// A panel waits exactly where it is built, the scene of its host is there, and
/// it is not mounted in that very scene; mounted it is where the noted URI is
/// the scene's.
pub proof fn law_panels_are_mounted_once(t: Tables, entity: u64, host: u64)
    requires
        t.panels.contains_key(entity),
    ensures
        mounted_in(t.scenes, host, t.panels[entity]) <==> t.scenes.contains_key(host)
            && t.panels[entity].mounted_for is Some && t.panels[entity].mounted_for->0@
            == t.scenes[host].built_for_uri@,
        t.scenes.contains_key(host) ==> (waits_for_mount(t, entity, host) != mounted_in(
            t.scenes,
            host,
            t.panels[entity],
        )),
        !t.scenes.contains_key(host) ==> !waits_for_mount(t, entity, host),
        t.panels[entity].mounted_for is None && t.scenes.contains_key(host) ==> waits_for_mount(
            t,
            entity,
            host,
        ),
{
}

/// A push writes the property at its index, for every index that has one, and
/// nothing without a panel.
pub proof fn law_pushes_go_by_index(t: Tables, entity: u64, index: u32)
    ensures
        pushed_property(t, entity, index) is Some <==> t.panels.contains_key(entity) && index
            < t.panels[entity].prop_names@.len(),
        pushed_property(t, entity, index) matches Some(name) ==> name
            == t.panels[entity].prop_names@[index as int],
{
}

/// An entity with a scene is ready once the scene has content, and one with a
/// panel only once that is mounted; an entity with neither never is.
pub proof fn law_focus_waits_for_content(t: Tables, entity: u64)
    ensures
        t.scenes.contains_key(entity) ==> focus_root_ready(t, entity, true) && !focus_root_ready(
            t,
            entity,
            false,
        ),
        !t.scenes.contains_key(entity) && t.panels.contains_key(entity) ==> forall|content: bool|
            #[trigger] focus_root_ready(t, entity, content)
                == (t.panels[entity].mounted_for is Some),
        !t.scenes.contains_key(entity) && !t.panels.contains_key(entity) ==> forall|content: bool|
            !(#[trigger] focus_root_ready(t, entity, content)),
{
}

} // verus!
