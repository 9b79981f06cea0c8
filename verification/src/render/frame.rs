//! One frame: which scenes are built and what is published to the cameras.

use std::sync::Arc;

use vstd::prelude::*;

use crate::keyed::{distinct_keys, key_index, lemma_entry_in_map, map_of, KeyedMap, KeyedSet};
use crate::render::scene::{
    live_settings, scene_action, scene_step, steps, Assets, LiveSettings, SceneAction, SceneState,
};
use crate::render::state::{NoesisRenderState, Tables};
use crate::render::view::{view_flags, NoesisView, UVec2};
use crate::xaml::share;

verus! {

/// The scene of `entity`, if it has one.
pub open spec fn scene_of(t: Tables, entity: u64) -> Option<SceneState> {
    if t.scenes.contains_key(entity) {
        Some(t.scenes[entity])
    } else {
        None
    }
}

/// Whether a bridge of `entity` applies its state: it changed, or there is a new
/// scene to apply it to.
pub open spec fn applies(t: Tables, entity: u64, changed: bool) -> bool {
    changed || t.built_this_frame.contains(entity)
}

/// Whether a bridge that reaches into panels applies its state: as any other
/// does, or because `entity`'s fragment was mounted.
pub open spec fn applies_in_panels(t: Tables, entity: u64, changed: bool) -> bool {
    applies(t, entity, changed) || t.mounted_this_frame.contains(entity)
}

impl Tables {
    /// After an action on `entity`'s scene, before anything new is built.
    pub open spec fn acted(self, entity: u64, action: SceneAction, size: UVec2) -> Tables {
        match action {
            SceneAction::Keep => self,
            SceneAction::Teardown => self.scene_down(entity),
            SceneAction::Rebuild => self.scene_down(entity),
            SceneAction::Resize => Tables {
                scenes: self.scenes.insert(
                    entity,
                    SceneState { size, ..self.scenes[entity] },
                ),
                ..self
            },
        }
    }
}

/// Whether a scene is the one that a view asks for, just built from `bytes`.
pub open spec fn built_as(s: SceneState, config: NoesisView, bytes: Seq<u8>) -> bool {
    &&& s.size == config.size
    &&& s.built_for_uri@ == config.xaml_uri@
    &&& s.built_bytes@ == bytes
    &&& !s.renderer_initialized
    &&& !s.write_second
    &&& s.applied_flags == view_flags(config.ppaa)
    &&& s.applied_scale == config.scale
}

/// Entities that have a scene to publish: those whose renderer was initialized.
pub open spec fn paints(scenes: Map<u64, SceneState>, entity: u64) -> bool {
    scenes.contains_key(entity) && scenes[entity].renderer_initialized
}

/// Scenes after the buffers painted last were handed over: the other one is
/// painted next.
pub open spec fn flipped(scenes: Map<u64, SceneState>) -> Map<u64, SceneState> {
    scenes.map_values(
        |s: SceneState|
            if s.renderer_initialized {
                SceneState { write_second: !s.write_second, ..s }
            } else {
                s
            },
    )
}

/// A buffer that is handed to a camera: entity, and which of the two it is.
pub open spec fn hands_over(out: Seq<(u64, bool)>, entity: u64, second: bool) -> bool {
    exists|i: int| 0 <= i < out.len() && #[trigger] out[i] == (entity, second)
}

/// Whether a list holds an entity.
pub open spec fn lists_entity(list: Seq<u64>, entity: u64) -> bool {
    exists|i: int| 0 <= i < list.len() && #[trigger] list[i] == entity
}

impl NoesisRenderState {
    /// Forgets what was built and mounted in the last frame.
    pub fn begin_frame(&mut self)
        ensures
            final(self)@ == (Tables {
                built_this_frame: Set::empty(),
                mounted_this_frame: Set::empty(),
                ..old(self)@
            }),
    {
        self.built_this_frame.clear();
        self.mounted_this_frame.clear();
    }

    /// Decides what happens to `entity`'s scene and does it to the tables: a
    /// teardown and a rebuild take the scene down, a resize gives it the
    /// configured size. After a rebuild the caller loads the XAML and records
    /// the scene with [`NoesisRenderState::scene_built`].
    ///
    /// Whether the markup was replaced is told by the identity of its buffer,
    /// so the action is the one for "same" or the one for "other".
    pub fn ensure_scene(&mut self, entity: u64, config: &NoesisView, assets: &Assets) -> (r:
        SceneAction)
        ensures
            final(self)@ == old(self)@.acted(entity, r, config.size),
            ({
                let s = scene_of(old(self)@, entity);
                ||| r == scene_action(*config, s, *assets, false)
                ||| {
                    &&& r == scene_action(*config, s, *assets, true)
                    &&& s is Some && assets.xaml@.contains_key(config.xaml_uri@)
                        ==> s->0.built_bytes@ == assets.xaml@[config.xaml_uri@]@
                }
            }),
            steps(*config, scene_of(old(self)@, entity), *assets, r),
    {
        let action = scene_step(config, self.scenes.get(&entity), assets);
        match action {
            SceneAction::Keep => {},
            SceneAction::Teardown => {
                self.teardown_scene(entity);
            },
            SceneAction::Rebuild => {
                self.teardown_scene(entity);
            },
            SceneAction::Resize => {
                match self.scenes.remove(&entity) {
                    Some(mut s) => {
                        s.resize(config.size);
                        self.scenes.insert(entity, s);
                    },
                    None => {},
                }
                assert(self@.scenes =~= old(self)@.acted(entity, action, config.size).scenes);
            },
        }
        action
    }

    /// Records the scene that was built for a view.
    pub fn scene_built(&mut self, entity: u64, config: &NoesisView, bytes: &Arc<Vec<u8>>)
        ensures
            ({
                let now = final(self)@.scenes[entity];
                &&& final(self)@ == (Tables {
                    scenes: old(self)@.scenes.insert(entity, now),
                    built_this_frame: old(self)@.built_this_frame.insert(entity),
                    ..old(self)@
                })
                &&& built_as(now, *config, bytes@)
            }),
    {
        self.scenes.insert(entity, SceneState::built(config, share(bytes)));
        self.built_this_frame.insert(entity);
    }

    /// Whether `entity`'s scene was built in this frame: then every bridge
    /// applies its whole state again.
    pub fn scene_rebuilt_this_frame(&self, entity: u64) -> (r: bool)
        ensures
            r == self@.built_this_frame.contains(entity),
    {
        self.built_this_frame.contains(&entity)
    }

    /// Whether a bridge applies its state now: it changed, or there is a new
    /// scene to apply it to.
    pub fn bridge_applies(&self, entity: u64, changed: bool) -> (r: bool)
        ensures
            r == applies(self@, entity, changed),
    {
        changed || self.built_this_frame.contains(&entity)
    }

    /// The same for a bridge that reaches into panels, as the transforms do: it
    /// applies its state to a fragment that was just mounted, too.
    pub fn panel_bridge_applies(&self, entity: u64, changed: bool) -> (r: bool)
        ensures
            r == applies_in_panels(self@, entity, changed),
    {
        self.bridge_applies(entity, changed) || self.mounted_this_frame.contains(&entity)
    }

    /// Number of scenes.
    pub fn live_scene_count(&self) -> (n: usize)
        ensures
            self@.scenes.dom().finite(),
            n == self@.scenes.dom().len(),
    {
        self.scenes.len()
    }

    /// Settings of `entity`'s scene that need no rebuild and have changed; they
    /// count as set now. `None` without a scene.
    pub fn apply_live_flags(&mut self, entity: u64, config: &NoesisView) -> (r: Option<LiveSettings>)
        ensures
            r is Some == old(self)@.scenes.contains_key(entity),
            r matches Some(l) ==> {
                let was = old(self)@.scenes[entity];
                let now = final(self)@.scenes[entity];
                &&& final(self)@ == (Tables {
                    scenes: old(self)@.scenes.insert(entity, now),
                    ..old(self)@
                })
                &&& live_settings(was, *config) == (l, now)
            },
            r is None ==> final(self)@ == old(self)@,
    {
        match self.scenes.remove(&entity) {
            Some(mut s) => {
                let l = s.apply_live_flags(config);
                self.scenes.insert(entity, s);
                assert(self@.scenes =~= old(self)@.scenes.insert(entity, self@.scenes[entity]));
                Some(l)
            },
            None => {
                assert(self@.scenes =~= old(self)@.scenes);
                None
            },
        }
    }

    /// Hands the buffers painted last to the cameras and has the other ones
    /// painted next. Entities that still show a buffer but have no scene any
    /// more come back second: their buffer is taken away.
    pub fn publish_intermediates(&mut self) -> (r: (Vec<(u64, bool)>, Vec<u64>))
        ensures
            final(self)@ == (Tables {
                scenes: flipped(old(self)@.scenes),
                published: old(self)@.published.union(
                    Set::new(|e: u64| paints(old(self)@.scenes, e)),
                ).filter(|e: u64| old(self)@.scenes.contains_key(e)),
                ..old(self)@
            }),
            forall|e: u64, second: bool| #[trigger]
                hands_over(r.0@, e, second) <==> paints(old(self)@.scenes, e) && second
                    == old(self)@.scenes[e].write_second,
            forall|e: u64| #[trigger]
                lists_entity(r.1@, e) <==> old(self)@.published.contains(e)
                    && !old(self)@.scenes.contains_key(e),
            r.0@.no_duplicates(),
            r.1@.no_duplicates(),
    {
        let out = hand_over(&self.scenes, &mut self.published);
        let stale = strip(&self.scenes, &mut self.published);
        let flip = |s: SceneState| -> (r: SceneState)
            ensures
                r == (if s.renderer_initialized {
                    SceneState { write_second: !s.write_second, ..s }
                } else {
                    s
                }),
            {
                if s.renderer_initialized {
                    SceneState { write_second: !s.write_second, ..s }
                } else {
                    s
                }
            };
        let all = |k: &u64| -> (b: bool)
            ensures
                b,
            { true };
        self.scenes.set_where(
            all,
            flip,
            Ghost(|k: u64| true),
            Ghost(
                |s: SceneState|
                    if s.renderer_initialized {
                        SceneState { write_second: !s.write_second, ..s }
                    } else {
                        s
                    },
            ),
        );
        assert(self@.scenes =~= flipped(old(self)@.scenes));
        assert(self@.published =~= old(self)@.published.union(
            Set::new(|e: u64| paints(old(self)@.scenes, e)),
        ).filter(|e: u64| old(self)@.scenes.contains_key(e)));
        (out, stale)
    }

    /// Marks the renderer of `entity`'s scene as initialized; the answer tells
    /// whether it has to be initialized now. `None` without a scene.
    pub fn init_renderer(&mut self, entity: u64) -> (r: Option<bool>)
        ensures
            match r {
                Some(now) => {
                    &&& old(self)@.scenes.contains_key(entity)
                    &&& now == !old(self)@.scenes[entity].renderer_initialized
                    &&& final(self)@ == (Tables {
                        scenes: old(self)@.scenes.insert(
                            entity,
                            SceneState {
                                renderer_initialized: true,
                                ..old(self)@.scenes[entity]
                            },
                        ),
                        ..old(self)@
                    })
                },
                None => !old(self)@.scenes.contains_key(entity) && final(self)@ == old(self)@,
            },
    {
        match self.scenes.remove(&entity) {
            Some(mut s) => {
                let now = !s.renderer_initialized;
                s.renderer_initialized = true;
                self.scenes.insert(entity, s);
                assert(self@.scenes =~= old(self)@.scenes.insert(
                    entity,
                    SceneState { renderer_initialized: true, ..old(self)@.scenes[entity] },
                ));
                Some(now)
            },
            None => {
                assert(self@.scenes =~= old(self)@.scenes);
                None
            },
        }
    }
}

spec fn painted_below(all: Seq<(u64, SceneState)>, n: int, e: u64) -> bool {
    exists|j: int| 0 <= j < n && (#[trigger] all[j]).0 == e && all[j].1.renderer_initialized
}

fn hand_over(scenes: &KeyedMap<u64, SceneState>, published: &mut KeyedSet<u64>) -> (out: Vec<
    (u64, bool),
>)
    ensures
        forall|e: u64, second: bool| #[trigger]
            hands_over(out@, e, second) <==> paints(scenes@, e) && second
                == scenes@[e].write_second,
        out@.no_duplicates(),
        final(published)@ == old(published)@.union(Set::new(|e: u64| paints(scenes@, e))),
{
    let mut out: Vec<(u64, bool)> = Vec::new();
    let n: usize = scenes.len();
    let ghost all = scenes.listed();
    let mut i: usize = 0;
    while i < n
        invariant
            i <= n,
            n == all.len(),
            all == scenes.listed(),
            distinct_keys(all),
            scenes@ == map_of(all),
            forall|e: u64| #[trigger]
                published@.contains(e) <==> old(published)@.contains(e) || painted_below(
                    all,
                    i as int,
                    e,
                ),
            forall|e: u64, second: bool| #[trigger]
                hands_over(out@, e, second) <==> painted_below(all, i as int, e) && second
                    == scenes@[e].write_second,
            out@.no_duplicates(),
        decreases n - i,
    {
        let s = scenes.at(i);
        let ghost before = out@;
        let ghost shown = published@;
        proof {
            lemma_entry_in_map(all, i as int);
        }
        if s.1.renderer_initialized {
            out.push((s.0, s.1.write_second));
            published.insert(s.0);
        }
        proof {
            let id = all[i as int].0;
            assert forall|a: int, b: int| 0 <= a < b < out@.len() implies out@[a] != out@[b] by {
                if b == before.len() {
                    let shown_before = before[a];
                    assert(hands_over(before, shown_before.0, shown_before.1));
                    let j = choose|j: int|
                        0 <= j < i && (#[trigger] all[j]).0 == shown_before.0
                            && all[j].1.renderer_initialized;
                    assert(all[j].0@ != all[i as int].0@);
                }
            }
            assert forall|e: u64| #[trigger] painted_below(all, i + 1, e) <==> painted_below(
                all,
                i as int,
                e,
            ) || (e == id && all[i as int].1.renderer_initialized) by {
                if painted_below(all, i + 1, e) {
                    let j = choose|j: int|
                        0 <= j < i + 1 && (#[trigger] all[j]).0 == e
                            && all[j].1.renderer_initialized;
                    if j < i {
                        assert(all[j].0 == e);
                    }
                }
                if painted_below(all, i as int, e) {
                    let j = choose|j: int|
                        0 <= j < i && (#[trigger] all[j]).0 == e && all[j].1.renderer_initialized;
                    assert(all[j].0 == e);
                }
                if e == id && all[i as int].1.renderer_initialized {
                    assert(all[i as int].0 == e);
                }
            }
            assert forall|e: u64, second: bool| #[trigger] hands_over(out@, e, second) <==> (
            painted_below(all, i + 1, e) && second == scenes@[e].write_second) by {
                if hands_over(before, e, second) {
                    let x = choose|x: int|
                        0 <= x < before.len() && #[trigger] before[x] == (e, second);
                    assert(out@[x] == (e, second));
                }
                if hands_over(out@, e, second) && !hands_over(before, e, second) {
                    let x = choose|x: int| 0 <= x < out@.len() && #[trigger] out@[x] == (e, second);
                    if x < before.len() {
                        assert(before[x] == (e, second));
                    }
                }
                if e == id && all[i as int].1.renderer_initialized && second
                    == scenes@[e].write_second {
                    assert(out@[before.len() as int] == (e, second));
                }
            }
        }
        i = i + 1;
    }
    proof {
        assert forall|e: u64| painted_below(all, n as int, e) <==> paints(scenes@, e) by {
            if painted_below(all, n as int, e) {
                let j = choose|j: int|
                    0 <= j < n && (#[trigger] all[j]).0 == e && all[j].1.renderer_initialized;
                lemma_entry_in_map(all, j);
            }
            if paints(scenes@, e) {
                let j = key_index(all, e);
                assert(all[j].0@ == e);
                lemma_entry_in_map(all, j);
                assert(all[j].0 == e);
            }
        }
        assert(published@ =~= old(published)@.union(Set::new(|e: u64| paints(scenes@, e))));
    }
    out
}

fn strip(scenes: &KeyedMap<u64, SceneState>, published: &mut KeyedSet<u64>) -> (stale: Vec<u64>)
    ensures
        forall|e: u64| #[trigger]
            lists_entity(stale@, e) <==> old(published)@.contains(e) && !scenes@.contains_key(e),
        stale@.no_duplicates(),
        final(published)@ == old(published)@.filter(|e: u64| scenes@.contains_key(e)),
{
    let mut stale: Vec<u64> = Vec::new();
    let n: usize = published.len();
    let ghost all = published.listed();
    let mut i: usize = 0;
    while i < n
        invariant
            i <= n,
            n == all.len(),
            all == published.listed(),
            distinct_keys(all),
            published@ == map_of(all).dom(),
            published@ == old(published)@,
            stale@.no_duplicates(),
            forall|e: u64| #[trigger]
                lists_entity(stale@, e) <==> !scenes@.contains_key(e) && listed_below(
                    all,
                    i as int,
                    e,
                ),
        decreases n - i,
    {
        let e = *published.at(i);
        let ghost before = stale@;
        if !scenes.contains_key(&e) {
            stale.push(e);
        }
        proof {
            assert forall|a: int, b: int| 0 <= a < b < stale@.len() implies stale@[a]
                != stale@[b] by {
                if b == before.len() {
                    assert(lists_entity(before, before[a]));
                    let j = choose|j: int| 0 <= j < i && (#[trigger] all[j]).0 == before[a];
                    assert(all[j].0@ != all[i as int].0@);
                }
            }
            assert forall|x: u64| #[trigger] lists_entity(stale@, x) <==> (!scenes@.contains_key(x)
                && listed_below(all, i + 1, x)) by {
                if lists_entity(before, x) {
                    let j = choose|j: int| 0 <= j < before.len() && #[trigger] before[j] == x;
                    assert(stale@[j] == x);
                    let a = choose|a: int| 0 <= a < i && (#[trigger] all[a]).0 == x;
                    assert(all[a].0 == x);
                }
                if lists_entity(stale@, x) && !lists_entity(before, x) {
                    let j = choose|j: int| 0 <= j < stale@.len() && #[trigger] stale@[j] == x;
                    if j < before.len() {
                        assert(before[j] == x);
                    }
                    assert(all[i as int].0 == x);
                }
                if !scenes@.contains_key(x) && listed_below(all, i + 1, x) && !lists_entity(
                    before,
                    x,
                ) {
                    let a = choose|a: int| 0 <= a < i + 1 && (#[trigger] all[a]).0 == x;
                    if a < i {
                        assert(listed_below(all, i as int, x));
                    }
                    assert(stale@[before.len() as int] == x);
                }
            }
        }
        i = i + 1;
    }
    proof {
        assert forall|e: u64| listed_below(all, n as int, e) <==> published@.contains(e) by {
            if listed_below(all, n as int, e) {
                let a = choose|a: int| 0 <= a < n && (#[trigger] all[a]).0 == e;
                assert(all[a].0@ == e);
                assert(crate::keyed::has_key(all, e));
            }
            if published@.contains(e) {
                let a = key_index(all, e);
                assert(all[a].0@ == e);
                assert(all[a].0 == e);
            }
        }
    }
    let keep = |e: &u64, _u: &()| -> (b: bool)
        ensures
            b == scenes@.contains_key(e@),
        { scenes.contains_key(e) };
    published.retain(keep, Ghost(|e: u64| scenes@.contains_key(e)));
    stale
}

spec fn listed_below(all: Seq<(u64, ())>, n: int, e: u64) -> bool {
    exists|a: int| 0 <= a < n && (#[trigger] all[a]).0 == e
}

/// A write that was made before its scene was there is not lost: in the frame in
/// which the scene is built every bridge applies its state, changed or not, and
/// once that frame is over an unchanged one does not.
pub proof fn law_new_scene_takes_all_writes(t: Tables, entity: u64, scene: SceneState)
    ensures
        applies(
            Tables {
                scenes: t.scenes.insert(entity, scene),
                built_this_frame: t.built_this_frame.insert(entity),
                ..t
            },
            entity,
            false,
        ),
        !applies_in_panels(
            Tables {
                built_this_frame: Set::empty(),
                mounted_this_frame: Set::empty(),
                ..t
            },
            entity,
            false,
        ),
{
}

/// What is painted and what is shown never are the same buffer: after a publish
/// the scene paints the other one, and after two it is back at the first.
pub proof fn law_published_buffer_is_not_painted(scenes: Map<u64, SceneState>, e: u64)
    requires
        paints(scenes, e),
    ensures
        flipped(scenes)[e].write_second != scenes[e].write_second,
        flipped(flipped(scenes))[e] == scenes[e],
        paints(flipped(scenes), e),
{
}

/// An action does what it is called and nothing more: a scene is gone after a
/// teardown or a rebuild, a resize changes its size and nothing else of it, and
/// scenes of other entities are left alone.
pub proof fn law_actions_do_what_they_say(
    t: Tables,
    entity: u64,
    action: SceneAction,
    size: UVec2,
    other: u64,
)
    requires
        t.scenes.contains_key(entity),
        other != entity,
    ensures
        ({
            let a = t.acted(entity, action, size);
            &&& a.scenes.contains_key(entity) <==> action is Keep || action is Resize
            &&& action is Keep ==> a == t
            &&& action is Resize ==> {
                &&& a.scenes[entity].size == size
                &&& a.scenes[entity].built_for_uri == t.scenes[entity].built_for_uri
                &&& a.scenes[entity].built_bytes == t.scenes[entity].built_bytes
                &&& a.scenes[entity].renderer_initialized == t.scenes[entity].renderer_initialized
                &&& a.scenes[entity].write_second == t.scenes[entity].write_second
                &&& a.scenes[entity].applied_flags == t.scenes[entity].applied_flags
                &&& a.scenes[entity].applied_scale == t.scenes[entity].applied_scale
                &&& a.view_models == t.view_models
                &&& a.panels == t.panels
            }
            &&& a.scenes.contains_key(other) == t.scenes.contains_key(other)
            &&& t.scenes.contains_key(other) ==> a.scenes[other] == t.scenes[other]
            &&& a.published == t.published
        }),
{
}

/// A bridge applies its state when it changed or its own entity has something
/// new to apply it to; what is new for another entity does not count.
pub proof fn law_bridges_apply_when_needed(t: Tables, entity: u64, changed: bool, other: u64)
    requires
        other != entity,
    ensures
        changed ==> applies(t, entity, changed) && applies_in_panels(t, entity, changed),
        t.built_this_frame.contains(entity) ==> applies(t, entity, changed) && applies_in_panels(
            t,
            entity,
            changed,
        ),
        t.mounted_this_frame.contains(entity) ==> applies_in_panels(t, entity, changed),
        !changed && !t.built_this_frame.contains(entity) ==> !applies(t, entity, changed),
        !changed && !t.built_this_frame.contains(entity) && !t.mounted_this_frame.contains(entity)
            ==> !applies_in_panels(t, entity, changed),
        applies(
            Tables { built_this_frame: t.built_this_frame.insert(other), ..t },
            entity,
            changed,
        ) == applies(t, entity, changed),
{
}

/// A scene that was just built is the one that was asked for: nothing about it
/// is out of date, nothing was painted yet, and the first buffer comes first.
pub proof fn law_built_scene_is_as_asked(s: SceneState, config: NoesisView, bytes: Seq<u8>)
    requires
        built_as(s, config, bytes),
    ensures
        s.size == config.size,
        s.built_for_uri@ == config.xaml_uri@,
        s.built_bytes@ == bytes,
        s.applied_flags == 16 <==> config.ppaa,
        s.applied_flags == 0 <==> !config.ppaa,
        s.applied_scale == config.scale,
        !s.renderer_initialized && !s.write_second,
{
}

/// A publish swaps the two buffers of what is painted and touches nothing else:
/// a scene that was never painted stays as it is, and so does all but the choice
/// of the buffer.
pub proof fn law_publish_swaps_buffers_only(scenes: Map<u64, SceneState>, e: u64)
    ensures
        flipped(scenes).contains_key(e) == scenes.contains_key(e),
        paints(flipped(scenes), e) == paints(scenes, e),
        scenes.contains_key(e) ==> {
            let was = scenes[e];
            let now = flipped(scenes)[e];
            &&& now.write_second != was.write_second <==> was.renderer_initialized
            &&& now.size == was.size
            &&& now.built_for_uri == was.built_for_uri
            &&& now.built_bytes == was.built_bytes
            &&& now.renderer_initialized == was.renderer_initialized
            &&& now.applied_flags == was.applied_flags
            &&& now.applied_scale == was.applied_scale
        },
        paints(scenes, e) <==> scenes.contains_key(e) && scenes[e].renderer_initialized,
{
}

/// What is handed over is what the list holds: an entity with the buffer it was
/// painted into, and no other buffer of it unless that is listed too.
pub proof fn law_lists_hold_what_is_handed_over(
    out: Seq<(u64, bool)>,
    list: Seq<u64>,
    entity: u64,
    second: bool,
)
    ensures
        hands_over(out, entity, second) <==> out.contains((entity, second)),
        lists_entity(list, entity) <==> list.contains(entity),
{
}

} // verus!
