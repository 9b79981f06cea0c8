//! Event subscriptions kept in step with the watch lists that ask for them.
//!
//! A subscription's callback captures its settings by value, so a changed
//! setting cannot be patched in place: the subscription is made anew. A sync
//! drops what is no longer requested, walks the requested entries in order and
//! subscribes each one that has no live subscription with its settings, then
//! forgets the settings of what is not requested.

use vstd::prelude::*;

use crate::keyed::{kept, values_view, Key, KeyedMap, KeyedSet};

verus! {

/// Subscriptions as a value: what is live, and the settings that each
/// subscription was last made with.
#[verifier::ext_equal]
#[verifier::reject_recursive_types(K)]
#[verifier::reject_recursive_types(C)]
pub struct Watches<K, C> {
    pub live: Set<(u64, K)>,
    pub config: Map<(u64, K), C>,
}

/// The subscriptions of all entities.
pub struct WatchTable<K: Key, C: Key> {
    live: KeyedSet<(u64, K)>,
    config: KeyedMap<(u64, K), C>,
}

impl<K: Key, C: Key> View for WatchTable<K, C> {
    type V = Watches<K::V, C::V>;

    closed spec fn view(&self) -> Watches<K::V, C::V> {
        Watches { live: self.live@, config: values_view(self.config@) }
    }
}

/// Entries by view.
pub open spec fn entries_view<K: View, C: View>(entries: Seq<(K, C)>) -> Seq<(K::V, C::V)> {
    entries.map_values(|e: (K, C)| (e.0@, e.1@))
}

/// Whether an entry asks for `k`.
pub open spec fn requested<K, C>(entries: Seq<(K, C)>, k: K) -> bool {
    exists|i: int| 0 <= i < entries.len() && (#[trigger] entries[i]).0 == k
}

impl<K, C> Watches<K, C> {
    /// Whether an entry has to be subscribed: it has no live subscription, or
    /// one with other settings.
    pub open spec fn needs(self, entity: u64, k: K, c: C) -> bool {
        !(self.live.contains((entity, k)) && self.config.contains_key((entity, k))
            && self.config[(entity, k)] == c)
    }

    /// Without the live subscriptions of `entity` that no entry asks for.
    pub open spec fn dropped(self, entity: u64, entries: Seq<(K, C)>) -> Watches<K, C> {
        Watches {
            live: self.live.filter(|x: (u64, K)| x.0 != entity || requested(entries, x.1)),
            ..self
        }
    }

    /// With a new subscription.
    pub open spec fn with(self, entity: u64, k: K, c: C) -> Watches<K, C> {
        Watches { live: self.live.insert((entity, k)), config: self.config.insert((entity, k), c) }
    }

    /// After the first `n` entries: each one that needed it was subscribed
    /// where `works` says that it could be.
    pub open spec fn walked(
        self,
        entity: u64,
        entries: Seq<(K, C)>,
        works: spec_fn(int) -> bool,
        n: int,
    ) -> Watches<K, C>
        decreases n,
    {
        if n <= 0 {
            self
        } else {
            let before = self.walked(entity, entries, works, n - 1);
            let (k, c) = entries[n - 1];
            if before.needs(entity, k, c) && works(n - 1) {
                before.with(entity, k, c)
            } else {
                before
            }
        }
    }

    /// Without the settings of `entity`'s entries that nothing asks for.
    pub open spec fn pruned(self, entity: u64, entries: Seq<(K, C)>) -> Watches<K, C> {
        Watches {
            config: kept(self.config, |x: (u64, K)| x.0 != entity || requested(entries, x.1)),
            ..self
        }
    }

    /// After a whole sync.
    pub open spec fn synced(
        self,
        entity: u64,
        entries: Seq<(K, C)>,
        works: spec_fn(int) -> bool,
    ) -> Watches<K, C> {
        self.dropped(entity, entries).walked(entity, entries, works, entries.len() as int).pruned(
            entity,
            entries,
        )
    }

    /// Whether a sync subscribes entry `i` anew when it comes to it.
    pub open spec fn subscribes(
        self,
        entity: u64,
        entries: Seq<(K, C)>,
        works: spec_fn(int) -> bool,
        i: int,
    ) -> bool {
        self.dropped(entity, entries).walked(entity, entries, works, i).needs(
            entity,
            entries[i].0,
            entries[i].1,
        )
    }

    /// Without the live subscriptions of `entity`: its scene is gone.
    pub open spec fn unsubscribed(self, entity: u64) -> Watches<K, C> {
        Watches { live: self.live.filter(|x: (u64, K)| x.0 != entity), ..self }
    }

    /// Without anything of `entity`.
    pub open spec fn without(self, entity: u64) -> Watches<K, C> {
        Watches {
            live: self.live.filter(|x: (u64, K)| x.0 != entity),
            config: kept(self.config, |x: (u64, K)| x.0 != entity),
        }
    }
}

fn asks_for<K: Key, C: Key>(entries: &Vec<(K, C)>, key: &K) -> (r: bool)
    ensures
        r == requested(entries_view(entries@), key@),
{
    let n: usize = entries.len();
    let mut i: usize = 0;
    while i < n
        invariant
            i <= n,
            n == entries@.len(),
            forall|j: int| 0 <= j < i ==> (#[trigger] entries@[j]).0@ != key@,
        decreases n - i,
    {
        if entries[i].0.same_key(key) {
            assert(entries_view(entries@)[i as int].0 == key@);
            return true;
        }
        i = i + 1;
    }
    proof {
        if requested(entries_view(entries@), key@) {
            let j = choose|j: int|
                0 <= j < entries@.len() && (#[trigger] entries_view(entries@)[j]).0 == key@;
            assert(entries@[j].0@ == key@);
        }
    }
    false
}

impl<K: Key, C: Key> WatchTable<K, C> {
    /// No subscriptions.
    pub fn new() -> (t: Self)
        ensures
            t@.live == Set::<(u64, K::V)>::empty(),
            t@.config == Map::<(u64, K::V), C::V>::empty(),
    {
        let t = WatchTable { live: KeyedSet::new(), config: KeyedMap::new() };
        assert(t@.config =~= Map::<(u64, K::V), C::V>::empty());
        t
    }

    /// Drops the live subscriptions of `entity` that no entry asks for.
    pub fn drop_unrequested(&mut self, entity: u64, entries: &Vec<(K, C)>)
        ensures
            final(self)@ == old(self)@.dropped(entity, entries_view(entries@)),
    {
        let keep = |x: &(u64, K), _u: &()| -> (b: bool)
            ensures
                b == (x@.0 != entity || requested(entries_view(entries@), x@.1)),
            { x.0 != entity || asks_for(entries, &x.1) };
        let ghost seen = entries_view(entries@);
        self.live.retain(keep, Ghost(|x: (u64, K::V)| x.0 != entity || requested(seen, x.1)));
    }

    /// Whether a subscription is live.
    pub fn is_live(&self, entity: u64, key: &K) -> (r: bool)
        ensures
            r == self@.live.contains((entity, key@)),
    {
        let k = (entity, key.copy_key());
        self.live.contains(&k)
    }

    /// Exchanges the live subscriptions for another set of them that goes by the
    /// same settings.
    pub fn swap_live(&mut self, live: &mut KeyedSet<(u64, K)>)
        ensures
            final(self)@ == (Watches { live: old(live)@, ..old(self)@ }),
            final(live)@ == old(self)@.live,
    {
        core::mem::swap(&mut self.live, live);
    }

    /// Whether an entry has to be subscribed, by another set of live
    /// subscriptions that goes by the same settings.
    pub fn needs_by(&self, live: &KeyedSet<(u64, K)>, entity: u64, key: &K, config: &C) -> (r: bool)
        ensures
            r == (Watches { live: live@, ..self@ }).needs(entity, key@, config@),
    {
        let k = (entity, key.copy_key());
        if !live.contains(&k) {
            return true;
        }
        match self.config.get(&k) {
            Some(c) => !c.same_key(config),
            None => true,
        }
    }

    /// Whether an entry has to be subscribed.
    pub fn needs(&self, entity: u64, key: &K, config: &C) -> (r: bool)
        ensures
            r == self@.needs(entity, key@, config@),
    {
        self.needs_by(&self.live, entity, key, config)
    }

    /// The first entry from `from` on that has to be subscribed.
    pub fn next_needed(&self, entity: u64, entries: &Vec<(K, C)>, from: usize) -> (r: Option<usize>)
        requires
            from <= entries@.len(),
        ensures
            match r {
                Some(i) => {
                    &&& from <= i < entries@.len()
                    &&& self@.needs(entity, entries@[i as int].0@, entries@[i as int].1@)
                    &&& forall|j: int|
                        from <= j < i ==> !self@.needs(
                            entity,
                            (#[trigger] entries@[j]).0@,
                            entries@[j].1@,
                        )
                },
                None => forall|j: int|
                    from <= j < entries@.len() ==> !self@.needs(
                        entity,
                        (#[trigger] entries@[j]).0@,
                        entries@[j].1@,
                    ),
            },
    {
        let n: usize = entries.len();
        let mut i: usize = from;
        while i < n
            invariant
                from <= i <= n,
                n == entries@.len(),
                forall|j: int|
                    from <= j < i ==> !self@.needs(
                        entity,
                        (#[trigger] entries@[j]).0@,
                        entries@[j].1@,
                    ),
            decreases n - i,
        {
            if self.needs(entity, &entries[i].0, &entries[i].1) {
                return Some(i);
            }
            i = i + 1;
        }
        None
    }

    /// Records a subscription that was made.
    pub fn subscribed(&mut self, entity: u64, key: &K, config: &C)
        ensures
            final(self)@ == old(self)@.with(entity, key@, config@),
    {
        self.live.insert((entity, key.copy_key()));
        self.config.insert((entity, key.copy_key()), config.copy_key());
        assert(self@.config =~= old(self)@.config.insert((entity, key@), config@));
    }

    /// Forgets the settings of `entity`'s entries that nothing asks for.
    pub fn prune(&mut self, entity: u64, entries: &Vec<(K, C)>)
        ensures
            final(self)@ == old(self)@.pruned(entity, entries_view(entries@)),
    {
        let keep = |x: &(u64, K), _c: &C| -> (b: bool)
            ensures
                b == (x@.0 != entity || requested(entries_view(entries@), x@.1)),
            { x.0 != entity || asks_for(entries, &x.1) };
        let ghost seen = entries_view(entries@);
        self.config.retain(keep, Ghost(|x: (u64, K::V)| x.0 != entity || requested(seen, x.1)));
        assert(self@.config =~= old(self)@.pruned(entity, seen).config);
    }

    /// A whole sync, with the outcome of every subscription known beforehand:
    /// `works[i]` tells whether entry `i` can be subscribed.
    pub fn sync(&mut self, entity: u64, entries: &Vec<(K, C)>, works: &Vec<bool>)
        requires
            works@.len() == entries@.len(),
        ensures
            final(self)@ == old(self)@.synced(
                entity,
                entries_view(entries@),
                |i: int| works@[i],
            ),
    {
        self.drop_unrequested(entity, entries);
        let ghost start = self@;
        let ghost seen = entries_view(entries@);
        let ghost w = |i: int| works@[i];
        let n: usize = entries.len();
        let mut i: usize = 0;
        while i < n
            invariant
                i <= n,
                n == entries@.len(),
                n == works@.len(),
                seen == entries_view(entries@),
                w == (|i: int| works@[i]),
                self@ == start.walked(entity, seen, w, i as int),
            decreases n - i,
        {
            assert(seen[i as int] == (entries@[i as int].0@, entries@[i as int].1@));
            if self.needs(entity, &entries[i].0, &entries[i].1) && works[i] {
                self.subscribed(entity, &entries[i].0, &entries[i].1);
            }
            i = i + 1;
        }
        self.prune(entity, entries);
    }

    /// Drops the live subscriptions of `entity`: its scene is gone. The
    /// settings stay; with nothing live they keep nothing from being made
    /// again.
    pub fn drop_live(&mut self, entity: u64)
        ensures
            final(self)@ == old(self)@.unsubscribed(entity),
    {
        let keep = |x: &(u64, K), _u: &()| -> (b: bool)
            ensures
                b == (x@.0 != entity),
            { x.0 != entity };
        self.live.retain(keep, Ghost(|x: (u64, K::V)| x.0 != entity));
    }

    /// Forgets the settings of `entity`.
    pub fn forget_config(&mut self, entity: u64)
        ensures
            final(self)@ == (Watches {
                config: kept(old(self)@.config, |x: (u64, K::V)| x.0 != entity),
                ..old(self)@
            }),
    {
        let keep = |x: &(u64, K), _c: &C| -> (b: bool)
            ensures
                b == (x@.0 != entity),
            { x.0 != entity };
        self.config.retain(keep, Ghost(|x: (u64, K::V)| x.0 != entity));
        assert(self@.config =~= kept(old(self)@.config, |x: (u64, K::V)| x.0 != entity));
    }

    /// Drops the live subscriptions of `entity` and forgets their settings.
    pub fn forget(&mut self, entity: u64)
        ensures
            final(self)@ == old(self)@.without(entity),
    {
        self.drop_live(entity);
        self.forget_config(entity);
    }
}

/// When every needed subscription works and no key is requested twice, a sync
/// leaves exactly the requested subscriptions live, each with the requested
/// settings, and a second sync has nothing to do.
pub proof fn law_sync_settles<K, C>(
    w: Watches<K, C>,
    entity: u64,
    entries: Seq<(K, C)>,
    works: spec_fn(int) -> bool,
)
    requires
        forall|i: int, j: int|
            0 <= i < j < entries.len() ==> (#[trigger] entries[i]).0 != (#[trigger] entries[j]).0,
        forall|i: int| 0 <= i < entries.len() ==> #[trigger] works(i),
    ensures
        ({
            let after = w.synced(entity, entries, works);
            &&& forall|k: K|
                after.live.contains((entity, k)) <==> requested(entries, k)
            &&& forall|i: int|
                0 <= i < entries.len() ==> !after.needs(
                    entity,
                    (#[trigger] entries[i]).0,
                    entries[i].1,
                )
            &&& after.synced(entity, entries, works) == after
        }),
{
    let n = entries.len() as int;
    let d = w.dropped(entity, entries);
    let end = d.walked(entity, entries, works, n);
    let after = w.synced(entity, entries, works);
    lemma_walk(d, entity, entries, works, n);
    assert forall|k: K| after.live.contains((entity, k)) implies requested(entries, k) by {
        lemma_walk_only_requested(d, entity, entries, works, n, k);
    }
    assert forall|k: K| requested(entries, k) implies after.live.contains((entity, k)) by {
        let i = choose|i: int| 0 <= i < entries.len() && (#[trigger] entries[i]).0 == k;
        assert(!end.needs(entity, entries[i].0, entries[i].1));
    }
    assert forall|i: int| 0 <= i < entries.len() implies !after.needs(
        entity,
        (#[trigger] entries[i]).0,
        entries[i].1,
    ) by {
        assert(!end.needs(entity, entries[i].0, entries[i].1));
        assert(requested(entries, entries[i].0));
    }
    assert(after.dropped(entity, entries) =~= after);
    lemma_walk_idle(after, entity, entries, works, n);
    assert(after.pruned(entity, entries) =~= after);
}

proof fn lemma_walk<K, C>(
    d: Watches<K, C>,
    entity: u64,
    entries: Seq<(K, C)>,
    works: spec_fn(int) -> bool,
    n: int,
)
    requires
        0 <= n <= entries.len(),
        forall|i: int, j: int|
            0 <= i < j < entries.len() ==> (#[trigger] entries[i]).0 != (#[trigger] entries[j]).0,
        forall|i: int| 0 <= i < entries.len() ==> #[trigger] works(i),
    ensures
        forall|i: int|
            0 <= i < n ==> !d.walked(entity, entries, works, n).needs(
                entity,
                (#[trigger] entries[i]).0,
                entries[i].1,
            ),
    decreases n,
{
    if n > 0 {
        lemma_walk(d, entity, entries, works, n - 1);
        assert(works(n - 1));
        assert forall|i: int| 0 <= i < n implies !d.walked(entity, entries, works, n).needs(
            entity,
            (#[trigger] entries[i]).0,
            entries[i].1,
        ) by {
            if i < n - 1 {
                assert(entries[i].0 != entries[n - 1].0);
            }
        }
    }
}

proof fn lemma_walk_only_requested<K, C>(
    d: Watches<K, C>,
    entity: u64,
    entries: Seq<(K, C)>,
    works: spec_fn(int) -> bool,
    n: int,
    k: K,
)
    requires
        0 <= n <= entries.len(),
        d.walked(entity, entries, works, n).live.contains((entity, k)),
    ensures
        d.live.contains((entity, k)) || requested(entries, k),
    decreases n,
{
    if n > 0 {
        let before = d.walked(entity, entries, works, n - 1);
        if before.live.contains((entity, k)) {
            lemma_walk_only_requested(d, entity, entries, works, n - 1, k);
        } else {
            assert(entries[n - 1].0 == k);
        }
    }
}

/// A walk in which nothing has to be subscribed changes nothing.
pub(crate) proof fn lemma_walk_idle<K, C>(
    w: Watches<K, C>,
    entity: u64,
    entries: Seq<(K, C)>,
    works: spec_fn(int) -> bool,
    n: int,
)
    requires
        0 <= n <= entries.len(),
        forall|i: int|
            0 <= i < entries.len() ==> !w.needs(entity, (#[trigger] entries[i]).0, entries[i].1),
    ensures
        w.walked(entity, entries, works, n) == w,
    decreases n,
{
    if n > 0 {
        lemma_walk_idle(w, entity, entries, works, n - 1);
        assert(!w.needs(entity, entries[n - 1].0, entries[n - 1].1));
    }
}

proof fn lemma_walk_keeps<K, C>(
    d: Watches<K, C>,
    entity: u64,
    entries: Seq<(K, C)>,
    works: spec_fn(int) -> bool,
    n: int,
    k: K,
    c: C,
)
    requires
        0 <= n <= entries.len(),
        forall|i: int| 0 <= i < n ==> (#[trigger] entries[i]).0 != k,
    ensures
        d.walked(entity, entries, works, n).needs(entity, k, c) == d.needs(entity, k, c),
    decreases n,
{
    if n > 0 {
        lemma_walk_keeps(d, entity, entries, works, n - 1, k, c);
        assert(entries[n - 1].0 != k);
    }
}

/// With no key requested twice, a sync leaves alone what is live with the
/// requested settings, and subscribes anew exactly what is not.
pub proof fn law_sync_leaves_unchanged_alone<K, C>(
    w: Watches<K, C>,
    entity: u64,
    entries: Seq<(K, C)>,
    works: spec_fn(int) -> bool,
    i: int,
)
    requires
        0 <= i < entries.len(),
        forall|a: int, b: int|
            0 <= a < b < entries.len() ==> (#[trigger] entries[a]).0 != (#[trigger] entries[b]).0,
    ensures
        w.subscribes(entity, entries, works, i) == w.needs(entity, entries[i].0, entries[i].1),
{
    let d = w.dropped(entity, entries);
    assert(requested(entries, entries[i].0));
    assert forall|j: int| 0 <= j < i implies (#[trigger] entries[j]).0 != entries[i].0 by {}
    lemma_walk_keeps(d, entity, entries, works, i, entries[i].0, entries[i].1);
}

/// A sync of one entity leaves the subscriptions of every other entity alone.
pub proof fn law_sync_is_local<K, C>(
    w: Watches<K, C>,
    entity: u64,
    entries: Seq<(K, C)>,
    works: spec_fn(int) -> bool,
    other: u64,
    k: K,
)
    requires
        other != entity,
    ensures
        ({
            let after = w.synced(entity, entries, works);
            &&& after.live.contains((other, k)) == w.live.contains((other, k))
            &&& after.config.contains_key((other, k)) == w.config.contains_key((other, k))
            &&& w.config.contains_key((other, k)) ==> after.config[(other, k)] == w.config[(
                other,
                k,
            )]
        }),
{
    lemma_walk_local(w.dropped(entity, entries), entity, entries, works, entries.len() as int, other, k);
}

proof fn lemma_walk_local<K, C>(
    d: Watches<K, C>,
    entity: u64,
    entries: Seq<(K, C)>,
    works: spec_fn(int) -> bool,
    n: int,
    other: u64,
    k: K,
)
    requires
        other != entity,
        n <= entries.len(),
    ensures
        ({
            let after = d.walked(entity, entries, works, n);
            &&& after.live.contains((other, k)) == d.live.contains((other, k))
            &&& after.config.contains_key((other, k)) == d.config.contains_key((other, k))
            &&& d.config.contains_key((other, k)) ==> after.config[(other, k)] == d.config[(
                other,
                k,
            )]
        }),
    decreases n,
{
    if n > 0 {
        lemma_walk_local(d, entity, entries, works, n - 1, other, k);
    }
}

/// After the scene of an entity is torn down, every entry is subscribed again
/// by the next sync, whatever settings were remembered.
pub proof fn law_rebuild_resubscribes<K, C>(w: Watches<K, C>, entity: u64, k: K, c: C)
    ensures
        w.unsubscribed(entity).needs(entity, k, c),
{
}

/// A subscription is needed unless a live one has exactly the settings asked
/// for.
pub proof fn law_needed_unless_live_as_asked<K, C>(w: Watches<K, C>, entity: u64, k: K, c: C)
    ensures
        !w.live.contains((entity, k)) ==> w.needs(entity, k, c),
        !w.config.contains_key((entity, k)) ==> w.needs(entity, k, c),
        w.live.contains((entity, k)) && w.config.contains_key((entity, k)) ==> (w.needs(
            entity,
            k,
            c,
        ) <==> w.config[(entity, k)] != c),
        !w.with(entity, k, c).needs(entity, k, c),
{
}

/// What is dropped is what was live and is asked for no more, of one entity;
/// settings stay. What is unsubscribed is all of the entity's, and nothing is
/// left at all of an entity that is gone.
pub proof fn law_drops_are_exact<K, C>(
    w: Watches<K, C>,
    entity: u64,
    entries: Seq<(K, C)>,
    other: u64,
    k: K,
)
    requires
        other != entity,
    ensures
        w.dropped(entity, entries).live.contains((entity, k)) <==> w.live.contains((entity, k))
            && requested(entries, k),
        w.dropped(entity, entries).live.contains((other, k)) == w.live.contains((other, k)),
        w.dropped(entity, entries).config == w.config,
        !w.unsubscribed(entity).live.contains((entity, k)),
        w.unsubscribed(entity).live.contains((other, k)) == w.live.contains((other, k)),
        w.unsubscribed(entity).config == w.config,
        !w.without(entity).live.contains((entity, k)),
        !w.without(entity).config.contains_key((entity, k)),
        w.without(entity).live.contains((other, k)) == w.live.contains((other, k)),
        w.without(entity).config.contains_key((other, k)) == w.config.contains_key((other, k)),
        w.config.contains_key((other, k)) ==> w.without(entity).config[(other, k)] == w.config[(
            other,
            k,
        )],
{
}

proof fn lemma_walk_at<K, C>(
    d: Watches<K, C>,
    entity: u64,
    entries: Seq<(K, C)>,
    works: spec_fn(int) -> bool,
    n: int,
    i: int,
)
    requires
        0 <= i < entries.len(),
        0 <= n <= entries.len(),
        forall|a: int, b: int|
            0 <= a < b < entries.len() ==> (#[trigger] entries[a]).0 != (#[trigger] entries[b]).0,
    ensures
        ({
            let after = d.walked(entity, entries, works, n);
            let (k, c) = entries[i];
            if i < n && d.needs(entity, k, c) && works(i) {
                &&& after.live.contains((entity, k))
                &&& after.config.contains_key((entity, k)) && after.config[(entity, k)] == c
            } else {
                &&& after.live.contains((entity, k)) == d.live.contains((entity, k))
                &&& after.config.contains_key((entity, k)) == d.config.contains_key((entity, k))
                &&& d.config.contains_key((entity, k)) ==> after.config[(entity, k)] == d.config[(
                    entity,
                    k,
                )]
            }
        }),
    decreases n,
{
    if n > 0 {
        lemma_walk_at(d, entity, entries, works, n - 1, i);
        if n - 1 < i {
            assert(entries[n - 1].0 != entries[i].0);
        } else if i < n - 1 {
            assert(entries[i].0 != entries[n - 1].0);
        }
    }
}

/// With no key requested twice, what needs a subscription gets one, under the
/// settings asked for, exactly where it can be made; where it cannot, whatever
/// was live stays so under its old settings and is tried again by the next sync.
pub proof fn law_sync_subscribes_where_it_works<K, C>(
    w: Watches<K, C>,
    entity: u64,
    entries: Seq<(K, C)>,
    works: spec_fn(int) -> bool,
    i: int,
)
    requires
        0 <= i < entries.len(),
        forall|a: int, b: int|
            0 <= a < b < entries.len() ==> (#[trigger] entries[a]).0 != (#[trigger] entries[b]).0,
        w.needs(entity, entries[i].0, entries[i].1),
    ensures
        ({
            let after = w.synced(entity, entries, works);
            let (k, c) = entries[i];
            &&& works(i) ==> after.live.contains((entity, k)) && after.config.contains_key(
                (entity, k),
            ) && after.config[(entity, k)] == c && !after.needs(entity, k, c)
            &&& !works(i) ==> after.live.contains((entity, k)) == w.live.contains((entity, k))
                && after.needs(entity, k, c)
        }),
{
    let d = w.dropped(entity, entries);
    assert(requested(entries, entries[i].0));
    lemma_walk_at(d, entity, entries, works, entries.len() as int, i);
}

} // verus!
