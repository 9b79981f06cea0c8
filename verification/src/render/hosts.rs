//! Hosts: objects of ours that stand as an element's `DataContext`.
//!
//! A host is built when its definition is first seen, built anew when the
//! definition changes, attached once its view has a scene, and attached again
//! after a rebuild. On removal it is taken off the live scene before it is
//! dropped.

use vstd::prelude::*;

use crate::keyed::{
    distinct, distinct_keys, has_key, kept, key_index, lemma_entry_in_map, map_of, Key, KeyedMap,
};
use crate::render::scene::SceneState;
use crate::render::state::{
    attached_in, is_stamped, law_definitions_are_compared_in_full, stamped, AttachTarget, HostDef,
    HostEntry, HostKind,
    NoesisRenderState, Tables,
};

verus! {

/// What to do about a host.
#[derive(Clone, Copy, PartialEq, Eq, Debug, Structural)]
pub enum HostStep {
    /// It is there as defined.
    Keep,
    /// It has to be built.
    Build,
    /// It is there with another definition: reap it, then build it. Otherwise
    /// the new class would collide with the old one.
    Rebuild,
}

/// What to do about a host whose table is `hosts`.
pub open spec fn host_step(hosts: Map<u64, HostEntry>, entity: u64, def: HostDef) -> HostStep {
    if !hosts.contains_key(entity) {
        HostStep::Build
    } else if hosts[entity].def@ == def@ {
        HostStep::Keep
    } else {
        HostStep::Rebuild
    }
}

/// Whether two definitions are the same.
pub fn defs_match(a: &HostDef, b: &HostDef) -> (r: bool)
    ensures
        r == (a@ == b@),
{
    if a.class_name != b.class_name || !a.target.same_key(&b.target) || a.members.len()
        != b.members.len() {
        assert(a@.members.len() == a.members@.len());
        assert(b@.members.len() == b.members@.len());
        return false;
    }
    let n: usize = a.members.len();
    let mut i: usize = 0;
    while i < n
        invariant
            i <= n,
            n == a.members@.len(),
            n == b.members@.len(),
            forall|j: int| 0 <= j < i ==> #[trigger] a@.members[j] == b@.members[j],
        decreases n - i,
    {
        if a.members[i].0 != b.members[i].0 || a.members[i].1 != b.members[i].1 {
            assert(a@.members[i as int] != b@.members[i as int]);
            return false;
        }
        assert(a@.members[i as int] == b@.members[i as int]);
        i = i + 1;
    }
    assert(a@.members =~= b@.members);
    true
}

fn step_for(hosts: &KeyedMap<u64, HostEntry>, entity: u64, def: &HostDef) -> (r: HostStep)
    ensures
        r == host_step(hosts@, entity, *def),
{
    match hosts.get(&entity) {
        None => HostStep::Build,
        Some(e) => if defs_match(&e.def, def) {
            HostStep::Keep
        } else {
            HostStep::Rebuild
        },
    }
}

/// The host table of a kind.
pub open spec fn hosts_of(t: Tables, kind: HostKind) -> Map<u64, HostEntry> {
    match kind {
        HostKind::ViewModel => t.view_models,
        HostKind::Commands => t.command_hosts,
    }
}

/// The tables with another host table of a kind.
pub open spec fn with_hosts(t: Tables, kind: HostKind, hosts: Map<u64, HostEntry>) -> Tables {
    match kind {
        HostKind::ViewModel => Tables { view_models: hosts, ..t },
        HostKind::Commands => Tables { command_hosts: hosts, ..t },
    }
}

/// The collisions that were warned about, without those of `entity`.
pub open spec fn without_collisions(t: Tables, entity: u64) -> Tables {
    Tables {
        warned_collisions: t.warned_collisions.filter(
            |k: (u64, Option<Seq<char>>)| k.0 != entity,
        ),
        ..t
    }
}

/// Without `entity`'s host of a kind, and with nothing warned about for it.
pub open spec fn host_reaped(t: Tables, kind: HostKind, entity: u64) -> Tables {
    without_collisions(
        Tables {
            warned_hosts: t.warned_hosts.remove((entity, kind)),
            ..with_hosts(t, kind, hosts_of(t, kind).remove(entity))
        },
        entity,
    )
}

/// The target to take a host off, where it is attached in the live scene.
pub open spec fn attached_target(
    scenes: Map<u64, SceneState>,
    entity: u64,
    host: Option<HostEntry>,
) -> Option<Option<Seq<char>>> {
    match host {
        Some(e) if attached_in(scenes, entity, e) => Some(e.def.target@),
        _ => None,
    }
}

/// An entry of a map.
pub open spec fn entry<K, V>(m: Map<K, V>, k: K) -> Option<V> {
    if m.contains_key(k) {
        Some(m[k])
    } else {
        None
    }
}

/// A target by its view.
pub open spec fn target_view(t: Option<AttachTarget>) -> Option<Option<Seq<char>>> {
    match t {
        Some(t) => Some(t@),
        None => None,
    }
}

fn clear_target(
    scenes: &KeyedMap<u64, SceneState>,
    entity: u64,
    host: Option<&HostEntry>,
) -> (r: Option<AttachTarget>)
    ensures
        target_view(r) == attached_target(
            scenes@,
            entity,
            match host {
                Some(e) => Some(*e),
                None => None,
            },
        ),
{
    match (host, scenes.get(&entity)) {
        (Some(e), Some(s)) => {
            if is_stamped(&e.attached_for, s.built_for_uri.as_str()) {
                Some(e.def.target.copy_key())
            } else {
                None
            }
        },
        _ => None,
    }
}

/// Which host of an entity.
pub enum HostId {
    ViewModel,
    Commands,
    /// The plain view model of this type.
    Plain(u64),
}

/// Whether the host `id` of `entity` is to stand on `target`.
pub open spec fn stands_on(t: Tables, entity: u64, id: HostId, target: Option<Seq<char>>) -> bool {
    match id {
        HostId::ViewModel => t.view_models.contains_key(entity)
            && t.view_models[entity].def.target@ == target,
        HostId::Commands => t.command_hosts.contains_key(entity)
            && t.command_hosts[entity].def.target@ == target,
        HostId::Plain(ty) => t.plain_vms.contains_key((entity, ty)) && t.plain_vms[(
            entity,
            ty,
        )].def.target@ == target,
    }
}

/// Whether two hosts of `entity` are to stand on `target`: the one attached
/// last would win and the other be inert.
pub open spec fn clashes(t: Tables, entity: u64, target: Option<Seq<char>>) -> bool {
    exists|a: HostId, b: HostId|
        a != b && #[trigger] stands_on(t, entity, a, target) && #[trigger] stands_on(
            t,
            entity,
            b,
            target,
        )
}

impl NoesisRenderState {
    /// What to do about `entity`'s host of a kind.
    pub fn ensure_host(&self, kind: HostKind, entity: u64, def: &HostDef) -> (r: HostStep)
        ensures
            r == host_step(hosts_of(self@, kind), entity, *def),
    {
        match kind {
            HostKind::ViewModel => step_for(&self.view_models, entity, def),
            HostKind::Commands => step_for(&self.command_hosts, entity, def),
        }
    }

    /// Records a host that was built; a failure before is forgotten.
    pub fn host_built(&mut self, kind: HostKind, entity: u64, def: HostDef)
        ensures
            final(self)@ == (Tables {
                warned_hosts: old(self)@.warned_hosts.remove((entity, kind)),
                ..with_hosts(
                    old(self)@,
                    kind,
                    hosts_of(old(self)@, kind).insert(
                        entity,
                        HostEntry { def, attached_for: None },
                    ),
                )
            }),
    {
        let e = HostEntry { def, attached_for: None };
        match kind {
            HostKind::ViewModel => {
                self.view_models.insert(entity, e);
            },
            HostKind::Commands => {
                self.command_hosts.insert(entity, e);
            },
        }
        let k = (entity, kind);
        self.warned_hosts.remove(&k);
    }

    /// Records that a host could not be built. It is tried again each frame;
    /// the answer tells whether to say so this time, which is the first.
    pub fn host_failed(&mut self, kind: HostKind, entity: u64) -> (warn: bool)
        ensures
            final(self)@ == (Tables {
                warned_hosts: old(self)@.warned_hosts.insert((entity, kind)),
                ..old(self)@
            }),
            warn == !old(self)@.warned_hosts.contains((entity, kind)),
    {
        self.warned_hosts.insert((entity, kind))
    }

    /// Drops `entity`'s view model. Where it is attached in the live scene, the
    /// target comes back: its `DataContext` is cleared first.
    pub fn reap_view_model_for(&mut self, entity: u64) -> (clear: Option<AttachTarget>)
        ensures
            final(self)@ == host_reaped(old(self)@, HostKind::ViewModel, entity),
            target_view(clear) == attached_target(
                old(self)@.scenes,
                entity,
                entry(old(self)@.view_models, entity),
            ),
    {
        let clear = clear_target(&self.scenes, entity, self.view_models.get(&entity));
        self.view_models.remove(&entity);
        let k = (entity, HostKind::ViewModel);
        self.warned_hosts.remove(&k);
        self.forget_collisions(entity);
        clear
    }

    /// Drops `entity`'s commands, as [`Self::reap_view_model_for`] does.
    pub fn reap_commands_for(&mut self, entity: u64) -> (clear: Option<AttachTarget>)
        ensures
            final(self)@ == host_reaped(old(self)@, HostKind::Commands, entity),
            target_view(clear) == attached_target(
                old(self)@.scenes,
                entity,
                entry(old(self)@.command_hosts, entity),
            ),
    {
        let clear = clear_target(&self.scenes, entity, self.command_hosts.get(&entity));
        self.command_hosts.remove(&entity);
        let k = (entity, HostKind::Commands);
        self.warned_hosts.remove(&k);
        self.forget_collisions(entity);
        clear
    }

    /// Drops `entity`'s plain view model of a type, as
    /// [`Self::reap_view_model_for`] does.
    pub fn reap_plain_vm_for(&mut self, entity: u64, ty: u64) -> (clear: Option<AttachTarget>)
        ensures
            final(self)@ == without_collisions(
                Tables {
                    plain_vms: old(self)@.plain_vms.remove((entity, ty)),
                    ..old(self)@
                },
                entity,
            ),
            target_view(clear) == attached_target(
                old(self)@.scenes,
                entity,
                entry(old(self)@.plain_vms, (entity, ty)),
            ),
    {
        let k = (entity, ty);
        let clear = clear_target(&self.scenes, entity, self.plain_vms.get(&k));
        self.plain_vms.remove(&k);
        self.forget_collisions(entity);
        clear
    }

    /// Whether `entity`'s host of a kind is waiting to be attached: it is built,
    /// the view has a scene, and it is not attached in that scene.
    pub fn needs_attach(&self, kind: HostKind, entity: u64) -> (r: bool)
        ensures
            r == (hosts_of(self@, kind).contains_key(entity) && self@.scenes.contains_key(entity)
                && !attached_in(self@.scenes, entity, hosts_of(self@, kind)[entity])),
    {
        let host = match kind {
            HostKind::ViewModel => self.view_models.get(&entity),
            HostKind::Commands => self.command_hosts.get(&entity),
        };
        match (host, self.scenes.get(&entity)) {
            (Some(e), Some(s)) => !is_stamped(&e.attached_for, s.built_for_uri.as_str()),
            _ => false,
        }
    }

    /// Records that `entity`'s host of a kind was attached in its live scene.
    pub fn mark_attached(&mut self, kind: HostKind, entity: u64)
        requires
            hosts_of(old(self)@, kind).contains_key(entity),
            old(self)@.scenes.contains_key(entity),
        ensures
            ({
                let old_entry = hosts_of(old(self)@, kind)[entity];
                let new_hosts = hosts_of(final(self)@, kind);
                &&& new_hosts == hosts_of(old(self)@, kind).insert(entity, new_hosts[entity])
                &&& new_hosts[entity].def == old_entry.def
                &&& attached_in(old(self)@.scenes, entity, new_hosts[entity])
                &&& final(self)@ == with_hosts(old(self)@, kind, new_hosts)
            }),
    {
        let uri = match self.scenes.get(&entity) {
            Some(s) => s.built_for_uri.clone(),
            None => String::new(),
        };
        match kind {
            HostKind::ViewModel => {
                match self.view_models.remove(&entity) {
                    Some(e) => {
                        self.view_models.insert(
                            entity,
                            HostEntry { def: e.def, attached_for: Some(uri) },
                        );
                    },
                    None => {},
                }
                assert(self@.view_models =~= old(self)@.view_models.insert(
                    entity,
                    self@.view_models[entity],
                ));
            },
            HostKind::Commands => {
                match self.command_hosts.remove(&entity) {
                    Some(e) => {
                        self.command_hosts.insert(
                            entity,
                            HostEntry { def: e.def, attached_for: Some(uri) },
                        );
                    },
                    None => {},
                }
                assert(self@.command_hosts =~= old(self)@.command_hosts.insert(
                    entity,
                    self@.command_hosts[entity],
                ));
            },
        }
    }
}

/// Removing a host takes it off the live scene exactly where it is attached
/// there; after the terminal teardown there is nothing left to do, so the two
/// may run in either order.
pub proof fn law_reap_after_teardown_is_idle(t: Tables, entity: u64)
    ensures
        ({
            let d = t.torn_down(entity);
            &&& host_reaped(d, HostKind::ViewModel, entity) == d
            &&& host_reaped(d, HostKind::Commands, entity) == d
            &&& attached_target(d.scenes, entity, entry(d.view_models, entity)) is None
            &&& attached_target(d.scenes, entity, entry(d.command_hosts, entity)) is None
        }),
{
    let d = t.torn_down(entity);
    let a = host_reaped(d, HostKind::ViewModel, entity);
    assert(a.view_models =~= d.view_models);
    assert(a.warned_hosts =~= d.warned_hosts);
    assert(a.warned_collisions =~= d.warned_collisions);
    assert(a =~= d);
    let b = host_reaped(d, HostKind::Commands, entity);
    assert(b.command_hosts =~= d.command_hosts);
    assert(b.warned_hosts =~= d.warned_hosts);
    assert(b.warned_collisions =~= d.warned_collisions);
    assert(b =~= d);
}

/// A rebuilt scene has its hosts attached again: whatever was attached to the
/// old one is waiting.
pub proof fn law_rebuild_reattaches(t: Tables, entity: u64, scene: SceneState)
    requires
        t.view_models.contains_key(entity),
    ensures
        ({
            let d = t.scene_down(entity);
            let rebuilt = Tables { scenes: d.scenes.insert(entity, scene), ..d };
            !attached_in(rebuilt.scenes, entity, rebuilt.view_models[entity])
        }),
{
}

/// Whether entry `i` has the same target as a later one.
spec fn repeats(targets: Seq<AttachTarget>, i: int) -> bool {
    exists|j: int| i < j < targets.len() && (#[trigger] targets[j])@ == targets[i]@
}

fn repeats_later(targets: &Vec<AttachTarget>, i: usize) -> (r: bool)
    requires
        i < targets@.len(),
    ensures
        r == repeats(targets@, i as int),
{
    let n: usize = targets.len();
    let mut j: usize = i + 1;
    while j < n
        invariant
            i < j <= n,
            n == targets@.len(),
            forall|x: int| i < x < j ==> (#[trigger] targets@[x])@ != targets@[i as int]@,
        decreases n - j,
    {
        if targets[j].same_key(&targets[i]) {
            return true;
        }
        j = j + 1;
    }
    false
}

/// Whether the list holds a target.
pub open spec fn holds_target(list: Seq<AttachTarget>, target: Option<Seq<char>>) -> bool {
    exists|x: int| 0 <= x < list.len() && (#[trigger] list[x])@ == target
}

/// Whether one of the first `n` entries has this target and so has a later one.
spec fn repeated_below(targets: Seq<AttachTarget>, n: int, target: Option<Seq<char>>) -> bool {
    exists|i: int| 0 <= i < n && (#[trigger] targets[i])@ == target && repeats(targets, i)
}

proof fn lemma_repeated_step(targets: Seq<AttachTarget>, n: int)
    requires
        0 <= n < targets.len(),
    ensures
        forall|t: Option<Seq<char>>| #[trigger]
            repeated_below(targets, n + 1, t) <==> repeated_below(targets, n, t) || (t
                == targets[n]@ && repeats(targets, n)),
{
    assert forall|t: Option<Seq<char>>| #[trigger] repeated_below(targets, n + 1, t)
        <==> repeated_below(targets, n, t) || (t == targets[n]@ && repeats(targets, n)) by {
        if repeated_below(targets, n, t) {
            let i = choose|i: int|
                0 <= i < n && (#[trigger] targets[i])@ == t && repeats(targets, i);
            assert(targets[i]@ == t && repeats(targets, i));
        }
        if t == targets[n]@ && repeats(targets, n) {
            assert(targets[n]@ == t);
        }
    }
}

proof fn lemma_holds_push(list: Seq<AttachTarget>, new: AttachTarget)
    ensures
        forall|t: Option<Seq<char>>| #[trigger]
            holds_target(list.push(new), t) <==> holds_target(list, t) || t == new@,
{
    assert forall|t: Option<Seq<char>>| #[trigger] holds_target(list.push(new), t) <==> holds_target(
        list,
        t,
    ) || t == new@ by {
        let next = list.push(new);
        if holds_target(list, t) {
            let x = choose|x: int| 0 <= x < list.len() && (#[trigger] list[x])@ == t;
            assert(next[x]@ == t);
        }
        if t == new@ {
            assert(next[list.len() as int]@ == t);
        }
        if holds_target(next, t) {
            let x = choose|x: int| 0 <= x < next.len() && (#[trigger] next[x])@ == t;
            if x < list.len() {
                assert(list[x]@ == t);
            }
        }
    }
}

/// Whether one of the first `n` plain view models is `entity`'s of this type,
/// with this target.
spec fn plain_at(
    all: Seq<((u64, u64), HostEntry)>,
    n: int,
    entity: u64,
    ty: u64,
    target: Option<Seq<char>>,
) -> bool {
    exists|j: int|
        0 <= j < n && (#[trigger] all[j]).0@ == (entity, ty) && all[j].1.def.target@ == target
}

/// The plain view models of an entity by their types, each once, and their
/// targets.
spec fn lists_plain(t: Tables, entity: u64, types: Seq<u64>, targets: Seq<AttachTarget>) -> bool {
    &&& types.len() == targets.len()
    &&& forall|x: int|
        0 <= x < types.len() ==> t.plain_vms.contains_key((entity, #[trigger] types[x]))
            && t.plain_vms[(entity, types[x])].def.target@ == targets[x]@
    &&& forall|x: int, y: int|
        0 <= x < y < types.len() ==> #[trigger] types[x] != #[trigger] types[y]
    &&& forall|ty: u64| #[trigger] t.plain_vms.contains_key((entity, ty)) ==> types.contains(ty)
}

/// The hosts of an entity with the targets they are to stand on, each host once.
spec fn lists_hosts(
    t: Tables,
    entity: u64,
    ids: Seq<HostId>,
    targets: Seq<AttachTarget>,
) -> bool {
    &&& ids.len() == targets.len()
    &&& forall|i: int|
        0 <= i < ids.len() ==> stands_on(t, entity, #[trigger] ids[i], targets[i]@)
    &&& forall|i: int, j: int| 0 <= i < j < ids.len() ==> #[trigger] ids[i] != #[trigger] ids[j]
    &&& forall|id: HostId, target: Option<Seq<char>>| #[trigger]
        stands_on(t, entity, id, target) ==> exists|i: int|
            0 <= i < ids.len() && #[trigger] ids[i] == id && targets[i]@ == target
}

proof fn lemma_clash_is_repeat(
    t: Tables,
    entity: u64,
    ids: Seq<HostId>,
    targets: Seq<AttachTarget>,
    target: Option<Seq<char>>,
)
    requires
        lists_hosts(t, entity, ids, targets),
    ensures
        clashes(t, entity, target) <==> repeated_below(targets, targets.len() as int, target),
{
    if clashes(t, entity, target) {
        let (a, b) = choose|a: HostId, b: HostId|
            a != b && #[trigger] stands_on(t, entity, a, target) && #[trigger] stands_on(
                t,
                entity,
                b,
                target,
            );
        let i = choose|i: int| 0 <= i < ids.len() && #[trigger] ids[i] == a && targets[i]@ == target;
        let j = choose|j: int| 0 <= j < ids.len() && #[trigger] ids[j] == b && targets[j]@ == target;
        if i < j {
            assert(targets[j]@ == targets[i]@);
            assert(repeats(targets, i));
        } else {
            assert(targets[i]@ == targets[j]@);
            assert(repeats(targets, j));
        }
    }
    if repeated_below(targets, targets.len() as int, target) {
        let i = choose|i: int|
            0 <= i < targets.len() && (#[trigger] targets[i])@ == target && repeats(targets, i);
        let j = choose|j: int| i < j < targets.len() && (#[trigger] targets[j])@ == targets[i]@;
        assert(ids[i] != ids[j]);
        assert(stands_on(t, entity, ids[i], target));
        assert(stands_on(t, entity, ids[j], target));
    }
}

impl NoesisRenderState {
    /// The targets of `entity`'s plain view models, and their types.
    fn plain_targets(&self, entity: u64) -> (r: (Vec<AttachTarget>, Ghost<Seq<u64>>))
        ensures
            lists_plain(self@, entity, r.1@, r.0@),
    {
        let mut targets: Vec<AttachTarget> = Vec::new();
        let ghost mut types: Seq<u64> = Seq::empty();
        let n: usize = self.plain_vms.len();
        let ghost all = self.plain_vms.listed();
        let mut i: usize = 0;
        while i < n
            invariant
                i <= n,
                n == all.len(),
                all == self.plain_vms.listed(),
                distinct_keys(all),
                self.plain_vms@ == map_of(all),
                types.len() == targets@.len(),
                forall|x: int|
                    0 <= x < types.len() ==> plain_at(
                        all,
                        i as int,
                        entity,
                        #[trigger] types[x],
                        targets@[x]@,
                    ),
                forall|x: int, y: int|
                    0 <= x < y < types.len() ==> #[trigger] types[x] != #[trigger] types[y],
                forall|j: int|
                    0 <= j < i && (#[trigger] all[j]).0@.0 == entity ==> types.contains(all[j].0@.1),
            decreases n - i,
        {
            let e = self.plain_vms.at(i);
            let ghost before = types;
            let ghost old_targets = targets@;
            if e.0.0 == entity {
                targets.push(e.1.def.target.copy_key());
                proof {
                    types = types.push(e.0.1);
                }
            }
            proof {
                assert forall|x: int| 0 <= x < types.len() implies plain_at(
                    all,
                    i + 1,
                    entity,
                    #[trigger] types[x],
                    targets@[x]@,
                ) by {
                    if x < before.len() {
                        assert(types[x] == before[x]);
                        assert(plain_at(all, i as int, entity, before[x], old_targets[x]@));
                        let j = choose|j: int|
                            0 <= j < i && (#[trigger] all[j]).0@ == (entity, before[x])
                                && all[j].1.def.target@ == old_targets[x]@;
                        assert(all[j].0@ == (entity, types[x]));
                    } else {
                        assert(all[i as int].0@ == (entity, types[x]));
                    }
                }
                assert forall|x: int, y: int| 0 <= x < y < types.len() implies #[trigger] types[x]
                    != #[trigger] types[y] by {
                    assert(types[x] == before[x]);
                    if y < before.len() {
                        assert(types[y] == before[y]);
                    } else {
                        assert(plain_at(all, i as int, entity, before[x], old_targets[x]@));
                        let j = choose|j: int|
                            0 <= j < i && (#[trigger] all[j]).0@ == (entity, before[x])
                                && all[j].1.def.target@ == old_targets[x]@;
                        assert(all[j].0@ != all[i as int].0@);
                    }
                }
                assert forall|j: int| 0 <= j < i + 1 && (#[trigger] all[j]).0@.0 == entity implies types.contains(
                    all[j].0@.1,
                ) by {
                    if j < i {
                        let x = choose|x: int| 0 <= x < before.len() && before[x] == all[j].0@.1;
                        assert(types[x] == all[j].0@.1);
                    } else {
                        assert(types[before.len() as int] == all[j].0@.1);
                    }
                }
            }
            i = i + 1;
        }
        proof {
            assert forall|x: int| 0 <= x < types.len() implies self@.plain_vms.contains_key(
                (entity, #[trigger] types[x]),
            ) && self@.plain_vms[(entity, types[x])].def.target@ == targets@[x]@ by {
                assert(plain_at(all, n as int, entity, types[x], targets@[x]@));
                let j = choose|j: int|
                    0 <= j < n && (#[trigger] all[j]).0@ == (entity, types[x])
                        && all[j].1.def.target@ == targets@[x]@;
                lemma_entry_in_map(all, j);
            }
            assert forall|ty: u64| #[trigger]
                self@.plain_vms.contains_key((entity, ty)) implies types.contains(ty) by {
                let k = (entity, ty);
                assert(has_key(all, k));
                let j = key_index(all, k);
                assert(all[j].0@ == k);
            }
        }
        (targets, Ghost(types))
    }

    /// The targets of `entity`'s hosts, one per host.
    fn host_targets(&self, entity: u64) -> (r: (Vec<AttachTarget>, Ghost<Seq<HostId>>))
        ensures
            lists_hosts(self@, entity, r.1@, r.0@),
    {
        let (mut targets, Ghost(types)) = self.plain_targets(entity);
        let ghost plain = types.map_values(|ty: u64| HostId::Plain(ty));
        let ghost mut ids: Seq<HostId> = plain;
        let ghost base = targets@;
        proof {
            assert forall|ty: u64, target: Option<Seq<char>>| #[trigger]
                stands_on(self@, entity, HostId::Plain(ty), target) implies exists|x: int|
                0 <= x < plain.len() && #[trigger] plain[x] == HostId::Plain(ty) && base[x]@
                    == target by {
                let x = choose|x: int| 0 <= x < types.len() && types[x] == ty;
                assert(plain[x] == HostId::Plain(ty));
                assert(self@.plain_vms.contains_key((entity, types[x])));
            }
            assert forall|x: int| 0 <= x < plain.len() implies stands_on(
                self@,
                entity,
                #[trigger] plain[x],
                base[x]@,
            ) && plain[x] is Plain by {
                assert(self@.plain_vms.contains_key((entity, types[x])));
            }
            assert forall|x: int, y: int| 0 <= x < y < plain.len() implies #[trigger] plain[x]
                != #[trigger] plain[y] by {
                assert(types[x] != types[y]);
            }
        }
        match self.view_models.get(&entity) {
            Some(e) => {
                targets.push(e.def.target.copy_key());
                proof {
                    ids = ids.push(HostId::ViewModel);
                    assert(ids[plain.len() as int] == HostId::ViewModel);
                }
            },
            None => {},
        }
        let ghost middle = ids;
        let ghost middle_targets = targets@;
        proof {
            assert forall|x: int| 0 <= x < plain.len() implies #[trigger] middle[x] == plain[x]
                && middle_targets[x] == base[x] by {}
        }
        match self.command_hosts.get(&entity) {
            Some(e) => {
                targets.push(e.def.target.copy_key());
                proof {
                    ids = ids.push(HostId::Commands);
                    assert(ids[middle.len() as int] == HostId::Commands);
                }
            },
            None => {},
        }
        proof {
            assert forall|x: int| 0 <= x < middle.len() implies #[trigger] ids[x] == middle[x]
                && targets@[x] == middle_targets[x] by {}
            assert forall|x: int, y: int| 0 <= x < y < ids.len() implies #[trigger] ids[x]
                != #[trigger] ids[y] by {
                if x < plain.len() {
                    assert(middle[x] == plain[x]);
                    assert(ids[x] == middle[x]);
                    if y < plain.len() {
                        assert(middle[y] == plain[y]);
                        assert(ids[y] == middle[y]);
                    }
                }
            }
            assert forall|x: int| 0 <= x < ids.len() implies stands_on(
                self@,
                entity,
                #[trigger] ids[x],
                targets@[x]@,
            ) by {
                if x < plain.len() {
                    assert(middle[x] == plain[x]);
                    assert(ids[x] == middle[x]);
                    assert(stands_on(self@, entity, plain[x], base[x]@));
                }
            }
            assert forall|id: HostId, target: Option<Seq<char>>| #[trigger]
                stands_on(self@, entity, id, target) implies exists|x: int|
                0 <= x < ids.len() && #[trigger] ids[x] == id && targets@[x]@ == target by {
                match id {
                    HostId::Plain(ty) => {
                        let x = choose|x: int|
                            0 <= x < plain.len() && #[trigger] plain[x] == HostId::Plain(ty)
                                && base[x]@ == target;
                        assert(middle[x] == plain[x]);
                        assert(ids[x] == middle[x]);
                        assert(targets@[x] == base[x]);
                    },
                    HostId::ViewModel => {
                        assert(middle[plain.len() as int] == HostId::ViewModel);
                        assert(ids[plain.len() as int] == id);
                    },
                    HostId::Commands => {
                        assert(ids[middle.len() as int] == id);
                    },
                }
            }
        }
        (targets, Ghost(ids))
    }

    /// Finds the elements that two hosts of `entity` are to stand on. Each is
    /// reported once, when it is first seen.
    pub fn warn_datacontext_collisions(&mut self, entity: u64) -> (fresh: Vec<AttachTarget>)
        ensures
            final(self)@ == (Tables {
                warned_collisions: old(self)@.warned_collisions.union(
                    Set::new(
                        |k: (u64, Option<Seq<char>>)|
                            k.0 == entity && clashes(old(self)@, entity, k.1),
                    ),
                ),
                ..old(self)@
            }),
            forall|target: Option<Seq<char>>| #[trigger]
                holds_target(fresh@, target) <==> (clashes(old(self)@, entity, target) && !old(
                    self,
                )@.warned_collisions.contains((entity, target))),
            distinct(fresh@),
    {
        let (targets, Ghost(ids)) = self.host_targets(entity);
        let ghost was = self@.warned_collisions;
        let mut fresh: Vec<AttachTarget> = Vec::new();
        let n: usize = targets.len();
        let mut i: usize = 0;
        while i < n
            invariant
                i <= n,
                n == targets@.len(),
                was == old(self)@.warned_collisions,
                self@ == (Tables { warned_collisions: self@.warned_collisions, ..old(self)@ }),
                forall|k: (u64, Option<Seq<char>>)| #[trigger]
                    self@.warned_collisions.contains(k) <==> was.contains(k) || (k.0 == entity
                        && repeated_below(targets@, i as int, k.1)),
                forall|target: Option<Seq<char>>| #[trigger]
                    holds_target(fresh@, target) <==> !was.contains((entity, target))
                        && repeated_below(targets@, i as int, target),
                distinct(fresh@),
            decreases n - i,
        {
            let ghost before = self@.warned_collisions;
            let ghost had = fresh@;
            let ghost target = targets@[i as int]@;
            let again = repeats_later(&targets, i);
            proof {
                lemma_repeated_step(targets@, i as int);
            }
            if again {
                let new = self.warned_collisions.insert((entity, targets[i].copy_key()));
                if new {
                    fresh.push(targets[i].copy_key());
                    proof {
                        lemma_holds_push(had, fresh@[had.len() as int]);
                        assert forall|a: int, b: int| 0 <= a < b < fresh@.len() implies (
                        #[trigger] fresh@[a])@ != (#[trigger] fresh@[b])@ by {
                            assert(had[a] == fresh@[a]);
                            assert(holds_target(had, had[a]@));
                        }
                    }
                }
            }
            i = i + 1;
        }
        proof {
            assert forall|t: Option<Seq<char>>| clashes(old(self)@, entity, t) <==> #[trigger]
                repeated_below(targets@, n as int, t) by {
                lemma_clash_is_repeat(old(self)@, entity, ids, targets@, t);
            }
            assert(self@.warned_collisions =~= old(self)@.warned_collisions.union(
                Set::new(
                    |k: (u64, Option<Seq<char>>)|
                        k.0 == entity && clashes(old(self)@, entity, k.1),
                ),
            )) by {
                assert forall|k: (u64, Option<Seq<char>>)| #[trigger]
                    self@.warned_collisions.contains(k) <==> was.contains(k) || (k.0 == entity
                        && clashes(old(self)@, entity, k.1)) by {
                    assert(clashes(old(self)@, entity, k.1) <==> repeated_below(
                        targets@,
                        n as int,
                        k.1,
                    ));
                }
            }
            assert forall|target: Option<Seq<char>>| #[trigger]
                holds_target(fresh@, target) <==> (clashes(old(self)@, entity, target)
                && !was.contains((entity, target))) by {
                assert(clashes(old(self)@, entity, target) <==> repeated_below(
                    targets@,
                    n as int,
                    target,
                ));
            }
        }
        fresh
    }

    /// Whether `entity`'s plain view model of a type has to be built.
    pub fn needs_plain_vm(&self, entity: u64, ty: u64) -> (r: bool)
        ensures
            r == !self@.plain_vms.contains_key((entity, ty)),
    {
        let k = (entity, ty);
        !self.plain_vms.contains_key(&k)
    }

    /// Records a plain view model that was built.
    pub fn plain_vm_built(&mut self, entity: u64, ty: u64, def: HostDef)
        ensures
            final(self)@ == (Tables {
                plain_vms: old(self)@.plain_vms.insert(
                    (entity, ty),
                    HostEntry { def, attached_for: None },
                ),
                ..old(self)@
            }),
    {
        self.plain_vms.insert((entity, ty), HostEntry { def, attached_for: None });
    }

    /// Whether a plain view model is waiting to be attached.
    pub fn plain_vm_needs_attach(&self, entity: u64, ty: u64) -> (r: bool)
        ensures
            r == (self@.plain_vms.contains_key((entity, ty)) && self@.scenes.contains_key(entity)
                && !attached_in(self@.scenes, entity, self@.plain_vms[(entity, ty)])),
    {
        let k = (entity, ty);
        match (self.plain_vms.get(&k), self.scenes.get(&entity)) {
            (Some(e), Some(s)) => !is_stamped(&e.attached_for, s.built_for_uri.as_str()),
            _ => false,
        }
    }

    /// Records that a plain view model was attached in the live scene.
    pub fn plain_vm_attached(&mut self, entity: u64, ty: u64)
        requires
            old(self)@.plain_vms.contains_key((entity, ty)),
            old(self)@.scenes.contains_key(entity),
        ensures
            ({
                let now = final(self)@.plain_vms;
                &&& now == old(self)@.plain_vms.insert((entity, ty), now[(entity, ty)])
                &&& now[(entity, ty)].def == old(self)@.plain_vms[(entity, ty)].def
                &&& attached_in(old(self)@.scenes, entity, now[(entity, ty)])
                &&& final(self)@ == (Tables { plain_vms: now, ..old(self)@ })
            }),
    {
        let uri = match self.scenes.get(&entity) {
            Some(s) => s.built_for_uri.clone(),
            None => String::new(),
        };
        let k = (entity, ty);
        match self.plain_vms.remove(&k) {
            Some(e) => {
                self.plain_vms.insert(k, HostEntry { def: e.def, attached_for: Some(uri) });
            },
            None => {},
        }
        assert(self@.plain_vms =~= old(self)@.plain_vms.insert(
            (entity, ty),
            self@.plain_vms[(entity, ty)],
        ));
    }
}

/// A host is built where there is none, kept where class, target and all members
/// with their kinds are as defined, and otherwise built anew.
pub proof fn law_hosts_follow_their_definition(
    hosts: Map<u64, HostEntry>,
    entity: u64,
    def: HostDef,
)
    ensures
        host_step(hosts, entity, def) is Build <==> !hosts.contains_key(entity),
        hosts.contains_key(entity) ==> (host_step(hosts, entity, def) is Keep <==> {
            let had = hosts[entity].def;
            &&& had.class_name@ == def.class_name@
            &&& had.target@ == def.target@
            &&& had.members@.len() == def.members@.len()
            &&& forall|i: int|
                0 <= i < had.members@.len() ==> (#[trigger] had.members@[i]).0@
                    == def.members@[i].0@ && had.members@[i].1 == def.members@[i].1
        }),
{
    if hosts.contains_key(entity) {
        law_definitions_are_compared_in_full(hosts[entity].def, def);
    }
}

/// The two kinds of hosts have tables of their own: what is put into one is
/// found there, and the other stays as it is.
pub proof fn law_kinds_are_kept_apart(t: Tables, hosts: Map<u64, HostEntry>)
    ensures
        with_hosts(t, HostKind::ViewModel, hosts).view_models == hosts,
        with_hosts(t, HostKind::ViewModel, hosts).command_hosts == t.command_hosts,
        with_hosts(t, HostKind::Commands, hosts).command_hosts == hosts,
        with_hosts(t, HostKind::Commands, hosts).view_models == t.view_models,
        hosts_of(t, HostKind::ViewModel) == t.view_models,
        hosts_of(t, HostKind::Commands) == t.command_hosts,
        forall|kind: HostKind|
            {
                let w = #[trigger] with_hosts(t, kind, hosts);
                &&& w.scenes == t.scenes
                &&& w.plain_vms == t.plain_vms
                &&& w.panels == t.panels
                &&& w.warned_hosts == t.warned_hosts
            },
{
}

/// A reaped host is gone with what was warned about for it: a failure of the
/// same kind, or a collision, is reported again. Hosts of the other kind and of
/// other entities stay.
pub proof fn law_reap_drops_one_host(t: Tables, kind: HostKind, entity: u64, other: u64)
    requires
        other != entity,
    ensures
        ({
            let d = host_reaped(t, kind, entity);
            &&& !hosts_of(d, kind).contains_key(entity)
            &&& !d.warned_hosts.contains((entity, kind))
            &&& forall|x: Option<Seq<char>>| !d.warned_collisions.contains((entity, x))
            &&& forall|x: Option<Seq<char>>| #[trigger]
                d.warned_collisions.contains((other, x)) == t.warned_collisions.contains((other, x))
            &&& forall|k: HostKind| #[trigger]
                d.warned_hosts.contains((other, k)) == t.warned_hosts.contains((other, k))
            &&& forall|k: HostKind|
                k != kind ==> #[trigger] hosts_of(d, k) == hosts_of(t, k) && d.warned_hosts.contains(
                    (entity, k),
                ) == t.warned_hosts.contains((entity, k))
            &&& hosts_of(d, kind).contains_key(other) == hosts_of(t, kind).contains_key(other)
            &&& hosts_of(t, kind).contains_key(other) ==> hosts_of(d, kind)[other] == hosts_of(
                t,
                kind,
            )[other]
            &&& d.scenes == t.scenes
            &&& d.plain_vms == t.plain_vms
        }),
{
}

/// A host is taken off its target exactly where the live scene is the one it was
/// attached in, and then off the target of its own definition.
pub proof fn law_hosts_come_off_their_own_target(
    scenes: Map<u64, SceneState>,
    entity: u64,
    host: HostEntry,
)
    ensures
        attached_target(scenes, entity, None) is None,
        attached_target(scenes, entity, Some(host)) is Some <==> scenes.contains_key(entity)
            && host.attached_for is Some && host.attached_for->0@ == scenes[entity].built_for_uri@,
        attached_target(scenes, entity, Some(host)) matches Some(target) ==> target
            == host.def.target@,
{
}

/// Any two hosts of an entity that are defined on one target clash there, of
/// whatever kinds they are; a single one does not.
pub proof fn law_shared_targets_clash(t: Tables, entity: u64, target: Option<Seq<char>>, ty: u64)
    ensures
        t.view_models.contains_key(entity) && t.view_models[entity].def.target@ == target
            && t.command_hosts.contains_key(entity) && t.command_hosts[entity].def.target@ == target
            ==> clashes(t, entity, target),
        t.view_models.contains_key(entity) && t.view_models[entity].def.target@ == target
            && t.plain_vms.contains_key((entity, ty)) && t.plain_vms[(entity, ty)].def.target@
            == target ==> clashes(t, entity, target),
        t.command_hosts.contains_key(entity) && t.command_hosts[entity].def.target@ == target
            && t.plain_vms.contains_key((entity, ty)) && t.plain_vms[(entity, ty)].def.target@
            == target ==> clashes(t, entity, target),
        forall|other: u64|
            other != ty && #[trigger] t.plain_vms.contains_key((entity, other)) && t.plain_vms[(
                entity,
                other,
            )].def.target@ == target && t.plain_vms.contains_key((entity, ty)) && t.plain_vms[(
                entity,
                ty,
            )].def.target@ == target ==> clashes(t, entity, target),
{
    let vm = HostId::ViewModel;
    let commands = HostId::Commands;
    let plain = HostId::Plain(ty);
    let a = stands_on(t, entity, vm, target);
    let b = stands_on(t, entity, commands, target);
    let c = stands_on(t, entity, plain, target);
    assert(a && b ==> vm != commands);
    assert(a && c ==> vm != plain);
    assert(b && c ==> commands != plain);
    assert forall|other: u64|
        other != ty && #[trigger] t.plain_vms.contains_key((entity, other)) && t.plain_vms[(
            entity,
            other,
        )].def.target@ == target && t.plain_vms.contains_key((entity, ty)) && t.plain_vms[(
            entity,
            ty,
        )].def.target@ == target implies clashes(t, entity, target) by {
        assert(stands_on(t, entity, HostId::Plain(other), target) && c);
    }
}

/// A target with one host only is free of clashes.
pub proof fn law_lone_hosts_do_not_clash(
    t: Tables,
    entity: u64,
    target: Option<Seq<char>>,
    lone: HostId,
)
    requires
        forall|id: HostId| #[trigger] stands_on(t, entity, id, target) ==> id == lone,
    ensures
        !clashes(t, entity, target),
{
}

/// A host stands on the target of its own definition, where it is built, and on
/// no other.
pub proof fn law_hosts_stand_where_defined(
    t: Tables,
    entity: u64,
    target: Option<Seq<char>>,
    ty: u64,
)
    ensures
        stands_on(t, entity, HostId::ViewModel, target) <==> t.view_models.contains_key(entity)
            && t.view_models[entity].def.target@ == target,
        stands_on(t, entity, HostId::Commands, target) <==> t.command_hosts.contains_key(entity)
            && t.command_hosts[entity].def.target@ == target,
        stands_on(t, entity, HostId::Plain(ty), target) <==> t.plain_vms.contains_key((entity, ty))
            && t.plain_vms[(entity, ty)].def.target@ == target,
{
}

/// A list of targets holds each of its entries, and nothing where it is empty.
pub proof fn law_lists_hold_their_targets(list: Seq<AttachTarget>, i: int, x: Option<Seq<char>>)
    ensures
        0 <= i < list.len() ==> holds_target(list, list[i]@),
        holds_target(list, x) ==> exists|j: int| 0 <= j < list.len() && (#[trigger] list[j])@ == x,
{
}

} // verus!
