//! Read-back polling: report a watched value when it differs from what the
//! previous poll saw.
//!
//! A poll first forgets what is no longer watched. Then each reading is held
//! against the snapshot of its key; a reading that differs, or has no snapshot
//! yet, is reported and becomes the snapshot. A key that could not be read is
//! passed over.
//!
//! What a bridge writes to a key that is watched already becomes the snapshot
//! too, so that it is not reported back. A key that was not watched so far has
//! no snapshot, whatever was written to it: its first reading is reported.

use vstd::prelude::*;

use crate::keyed::{kept, Key, KeyedMap};
use crate::scalar::SameValue;

verus! {

/// The keys and values of readings, keys by their views.
pub open spec fn readings_view<K: View, V>(readings: Seq<(K, Option<V>)>) -> Seq<
    (K::V, Option<V>),
> {
    readings.map_values(|r: (K, Option<V>)| (r.0@, r.1))
}

/// The keys and values of reports, keys by their views.
pub open spec fn reports_view<K: View, V>(reports: Seq<(K, V)>) -> Seq<(K::V, V)> {
    reports.map_values(|r: (K, V)| (r.0@, r.1))
}

/// Whether a key is among the readings.
pub open spec fn is_watched<K, V>(readings: Seq<(K, Option<V>)>, k: K) -> bool {
    exists|i: int| 0 <= i < readings.len() && (#[trigger] readings[i]).0 == k
}

/// Whether a reading of `k` is news to the snapshots.
pub open spec fn is_news<K, V: SameValue>(snapshots: Map<K, V>, k: K, v: V) -> bool {
    !snapshots.contains_key(k) || !snapshots[k].same(&v)
}

/// Snapshots and reports after the readings, taken in order.
pub open spec fn polled<K, V: SameValue>(
    snapshots: Map<K, V>,
    readings: Seq<(K, Option<V>)>,
) -> (Map<K, V>, Seq<(K, V)>)
    decreases readings.len(),
{
    if readings.len() == 0 {
        (snapshots, Seq::empty())
    } else {
        let (m, out) = polled(snapshots, readings.drop_last());
        let (k, read) = readings.last();
        match read {
            Some(v) if is_news(m, k, v) => (m.insert(k, v), out.push((k, v))),
            _ => (m, out),
        }
    }
}

/// The whole poll: forget what is not watched, then take the readings.
pub open spec fn poll_result<K, V: SameValue>(
    snapshots: Map<K, V>,
    readings: Seq<(K, Option<V>)>,
) -> (Map<K, V>, Seq<(K, V)>) {
    polled(kept(snapshots, |k: K| is_watched(readings, k)), readings)
}

fn watched<K: Key, V>(readings: &Vec<(K, Option<V>)>, key: &K) -> (r: bool)
    ensures
        r == is_watched(readings_view(readings@), key@),
{
    let n: usize = readings.len();
    let mut i: usize = 0;
    while i < n
        invariant
            i <= n,
            n == readings@.len(),
            forall|j: int| 0 <= j < i ==> (#[trigger] readings@[j]).0@ != key@,
        decreases n - i,
    {
        if readings[i].0.same_key(key) {
            assert(readings_view(readings@)[i as int].0 == key@);
            return true;
        }
        i = i + 1;
    }
    proof {
        if is_watched(readings_view(readings@), key@) {
            let j = choose|j: int|
                0 <= j < readings@.len() && (#[trigger] readings_view(readings@)[j]).0 == key@;
            assert(readings@[j].0@ == key@);
        }
    }
    false
}

/// Polls: `readings` holds one entry per watched key, in order, with what was
/// read of it. What is news comes back, in order.
pub fn poll<K: Key, V: SameValue>(
    snapshots: &mut KeyedMap<K, V>,
    readings: &Vec<(K, Option<V>)>,
) -> (changed: Vec<(K, V)>)
    ensures
        final(snapshots)@ == poll_result(old(snapshots)@, readings_view(readings@)).0,
        reports_view(changed@) == poll_result(old(snapshots)@, readings_view(readings@)).1,
{
    let ghost seen = readings_view(readings@);
    let keep = |k: &K, _v: &V| -> (b: bool)
        ensures
            b == is_watched(readings_view(readings@), k@),
        { watched(readings, k) };
    snapshots.retain(keep, Ghost(|k: K::V| is_watched(seen, k)));
    take_readings(snapshots, readings)
}

/// Takes readings in order, and forgets nothing. What is news comes back, in
/// order.
pub fn take_readings<K: Key, V: SameValue>(
    snapshots: &mut KeyedMap<K, V>,
    readings: &Vec<(K, Option<V>)>,
) -> (changed: Vec<(K, V)>)
    ensures
        final(snapshots)@ == polled(old(snapshots)@, readings_view(readings@)).0,
        reports_view(changed@) == polled(old(snapshots)@, readings_view(readings@)).1,
{
    let ghost seen = readings_view(readings@);
    let ghost start = snapshots@;
    let mut changed: Vec<(K, V)> = Vec::new();
    let n: usize = readings.len();
    let mut i: usize = 0;
    assert(seen.take(0) =~= Seq::<(K::V, Option<V>)>::empty());
    assert(reports_view(changed@) =~= Seq::<(K::V, V)>::empty());
    while i < n
        invariant
            i <= n,
            n == readings@.len(),
            seen == readings_view(readings@),
            snapshots@ == polled(start, seen.take(i as int)).0,
            reports_view(changed@) == polled(start, seen.take(i as int)).1,
        decreases n - i,
    {
        let ghost before = changed@;
        proof {
            assert(seen.take(i + 1).drop_last() == seen.take(i as int));
            assert(seen.take(i + 1).last() == (readings@[i as int].0@, readings@[i as int].1));
        }
        match &readings[i].1 {
            None => {},
            Some(v) => {
                let news = match snapshots.get(&readings[i].0) {
                    Some(old_value) => !old_value.same_value(v),
                    None => true,
                };
                if news {
                    snapshots.insert(readings[i].0.copy_key(), v.duplicate());
                    changed.push((readings[i].0.copy_key(), v.duplicate()));
                    assert(reports_view(changed@) =~= reports_view(before).push(
                        (readings@[i as int].0@, *v),
                    ));
                }
            },
        }
        i = i + 1;
    }
    assert(seen.take(n as int) == seen);
    changed
}

/// Only what was read in this poll is reported.
pub proof fn law_reports_were_read<K, V: SameValue>(
    snapshots: Map<K, V>,
    readings: Seq<(K, Option<V>)>,
    i: int,
)
    requires
        0 <= i < polled(snapshots, readings).1.len(),
    ensures
        exists|j: int|
            0 <= j < readings.len() && (#[trigger] readings[j]).0 == polled(snapshots, readings).1[i].0
                && readings[j].1 == Some(polled(snapshots, readings).1[i].1),
    decreases readings.len(),
{
    if readings.len() > 0 {
        let short = readings.drop_last();
        let out = polled(snapshots, short).1;
        if i < out.len() {
            law_reports_were_read(snapshots, short, i);
            let j = choose|j: int|
                0 <= j < short.len() && (#[trigger] short[j]).0 == out[i].0 && short[j].1 == Some(
                    out[i].1,
                );
            assert(readings[j] == short[j]);
        } else {
            let j = readings.len() - 1;
            assert(readings[j].0 == polled(snapshots, readings).1[i].0);
        }
    }
}

/// Whether the readings of one key compare equal: a key may be watched twice,
/// and is then read twice. A NaN compares unequal to itself.
pub open spec fn reads_agree<K, V: SameValue>(readings: Seq<(K, Option<V>)>) -> bool {
    forall|i: int, j: int|
        0 <= i < readings.len() && 0 <= j < readings.len() && (#[trigger] readings[i]).1 is Some && (
        #[trigger] readings[j]).1 is Some && readings[i].0 == readings[j].0
            ==> readings[i].1->0.same(&readings[j].1->0)
}

/// After readings that agree each key that was read has a snapshot that compares
/// equal to what was read of it.
proof fn lemma_polled_holds_readings<K, V: SameValue>(
    snapshots: Map<K, V>,
    readings: Seq<(K, Option<V>)>,
    i: int,
)
    requires
        0 <= i < readings.len(),
        readings[i].1 is Some,
        reads_agree(readings),
    ensures
        polled(snapshots, readings).0.contains_key(readings[i].0),
        polled(snapshots, readings).0[readings[i].0].same(&readings[i].1->0),
    decreases readings.len(),
{
    let short = readings.drop_last();
    let last = readings.len() - 1;
    assert(readings[last].1 is Some && readings[last].0 == readings[i].0
        ==> readings[last].1->0.same(&readings[i].1->0));
    if i < short.len() {
        assert(short[i] == readings[i]);
        assert(reads_agree(short)) by {
            assert forall|a: int, b: int|
                0 <= a < short.len() && 0 <= b < short.len() && (#[trigger] short[a]).1 is Some && (
                #[trigger] short[b]).1 is Some && short[a].0 == short[b].0 implies short[a].1->0.same(
                &short[b].1->0,
            ) by {
                assert(short[a] == readings[a] && short[b] == readings[b]);
            }
        }
        lemma_polled_holds_readings(snapshots, short, i);
    }
}

/// A key that the last poll did not watch is reported by the next poll that
/// reads it, whatever was written in between: callers see the current value when
/// they start to watch.
pub proof fn law_first_poll_reports<K, V: SameValue>(
    snapshots: Map<K, V>,
    last: Seq<(K, Option<V>)>,
    writes: Seq<(K, V)>,
    works: Seq<bool>,
    readings: Seq<(K, Option<V>)>,
    i: int,
)
    requires
        0 <= i < readings.len(),
        readings[i].1 is Some,
        !is_watched(last, readings[i].0),
        forall|j: int| 0 <= j < i ==> (#[trigger] readings[j]).0 != readings[i].0,
    ensures
        poll_result(
            recorded(poll_result(snapshots, last).0, writes, works),
            readings,
        ).1.contains((readings[i].0, readings[i].1->0)),
{
    let k = readings[i].0;
    let before = kept(snapshots, |x: K| is_watched(last, x));
    assert forall|j: int| 0 <= j < last.len() implies (#[trigger] last[j]).0 != k by {}
    lemma_untouched(before, last, k);
    let polled_last = poll_result(snapshots, last).0;
    law_writes_start_no_watch(polled_last, writes, works);
    let start = kept(recorded(polled_last, writes, works), |x: K| is_watched(readings, x));
    lemma_first_reports(start, readings, i);
}

/// The very first poll reports every key that it reads, whatever was written
/// before it.
pub proof fn law_new_watcher_sees_everything<K, V: SameValue>(
    writes: Seq<(K, V)>,
    works: Seq<bool>,
    readings: Seq<(K, Option<V>)>,
    i: int,
)
    requires
        0 <= i < readings.len(),
        readings[i].1 is Some,
        forall|j: int| 0 <= j < i ==> (#[trigger] readings[j]).0 != readings[i].0,
    ensures
        poll_result(recorded(Map::<K, V>::empty(), writes, works), readings).1.contains(
            (readings[i].0, readings[i].1->0),
        ),
{
    law_writes_start_no_watch(Map::<K, V>::empty(), writes, works);
    let start = kept(
        recorded(Map::<K, V>::empty(), writes, works),
        |x: K| is_watched(readings, x),
    );
    lemma_first_reports(start, readings, i);
}

proof fn lemma_untouched<K, V: SameValue>(
    snapshots: Map<K, V>,
    readings: Seq<(K, Option<V>)>,
    k: K,
)
    requires
        forall|j: int| 0 <= j < readings.len() ==> (#[trigger] readings[j]).0 != k,
    ensures
        polled(snapshots, readings).0.contains_key(k) == snapshots.contains_key(k),
        snapshots.contains_key(k) ==> polled(snapshots, readings).0[k] == snapshots[k],
    decreases readings.len(),
{
    if readings.len() > 0 {
        let short = readings.drop_last();
        assert forall|j: int| 0 <= j < short.len() implies (#[trigger] short[j]).0 != k by {
            assert(short[j] == readings[j]);
        }
        lemma_untouched(snapshots, short, k);
        assert(readings[readings.len() - 1].0 != k);
    }
}

proof fn lemma_first_reports<K, V: SameValue>(
    snapshots: Map<K, V>,
    readings: Seq<(K, Option<V>)>,
    i: int,
)
    requires
        0 <= i < readings.len(),
        readings[i].1 is Some,
        !snapshots.contains_key(readings[i].0),
        forall|j: int| 0 <= j < i ==> (#[trigger] readings[j]).0 != readings[i].0,
    ensures
        polled(snapshots, readings).1.contains((readings[i].0, readings[i].1->0)),
    decreases readings.len(),
{
    let short = readings.drop_last();
    let want = (readings[i].0, readings[i].1->0);
    if i < short.len() {
        assert(short[i] == readings[i]);
        assert forall|j: int| 0 <= j < i implies (#[trigger] short[j]).0 != short[i].0 by {
            assert(short[j] == readings[j]);
        }
        lemma_first_reports(snapshots, short, i);
        let out = polled(snapshots, short).1;
        let at = choose|at: int| 0 <= at < out.len() && out[at] == want;
        assert(polled(snapshots, readings).1[at] == want);
    } else {
        assert forall|j: int| 0 <= j < short.len() implies (#[trigger] short[j]).0 != want.0 by {
            assert(short[j] == readings[j]);
        }
        lemma_untouched(snapshots, short, want.0);
        let out = polled(snapshots, readings).1;
        assert(out[out.len() - 1] == want);
    }
}

/// Polling the same values again reports nothing and changes no snapshot, as long
/// as the readings of one key agree. (That leaves out a NaN, which is reported
/// every time.)
pub proof fn law_unchanged_values_are_silent<K, V: SameValue>(
    snapshots: Map<K, V>,
    readings: Seq<(K, Option<V>)>,
)
    requires
        reads_agree(readings),
    ensures
        ({
            let first = poll_result(snapshots, readings).0;
            poll_result(first, readings) == (first, Seq::<(K, V)>::empty())
        }),
{
    let start = kept(snapshots, |k: K| is_watched(readings, k));
    let first = polled(start, readings).0;
    assert forall|k: K| #[trigger] first.contains_key(k) implies is_watched(readings, k) by {
        if !is_watched(readings, k) {
            assert forall|j: int| 0 <= j < readings.len() implies (#[trigger] readings[j]).0 != k by {}
            lemma_untouched(start, readings, k);
        }
    }
    let again = kept(first, |k: K| is_watched(readings, k));
    assert(again =~= first);
    lemma_silent(start, first, readings, readings.len() as int);
    assert(readings.take(readings.len() as int) == readings);
}

proof fn lemma_silent<K, V: SameValue>(
    start: Map<K, V>,
    first: Map<K, V>,
    readings: Seq<(K, Option<V>)>,
    n: int,
)
    requires
        0 <= n <= readings.len(),
        first == polled(start, readings).0,
        reads_agree(readings),
    ensures
        polled(first, readings.take(n)) == (first, Seq::<(K, V)>::empty()),
    decreases n,
{
    if n > 0 {
        lemma_silent(start, first, readings, n - 1);
        assert(readings.take(n).drop_last() == readings.take(n - 1));
        let i = n - 1;
        if readings[i].1 is Some {
            lemma_polled_holds_readings(start, readings, i);
        }
    }
}

/// What the bridge itself writes to a key that is watched already is not
/// reported back: once the write is recorded, reading the same value is no news.
pub proof fn law_recorded_write_is_silent<K, V: SameValue>(snapshots: Map<K, V>, k: K, v: V)
    requires
        snapshots.contains_key(k),
        v.same(&v),
    ensures
        poll_result(recorded(snapshots, seq![(k, v)], seq![true]), seq![(k, Some(v))]).1 == Seq::<
            (K, V),
        >::empty(),
{
    let readings = seq![(k, Some(v))];
    assert(seq![(k, v)].drop_last() =~= Seq::<(K, V)>::empty());
    reveal_with_fuel(recorded, 2);
    let start = kept(
        recorded(snapshots, seq![(k, v)], seq![true]),
        |x: K| is_watched(readings, x),
    );
    assert(readings[0].0 == k);
    assert(start.contains_key(k) && start[k] == v);
    assert(readings.drop_last() =~= Seq::<(K, Option<V>)>::empty());
    reveal_with_fuel(polled, 2);
}

/// Snapshots after the writes: each one that worked, to a key that has a
/// snapshot, is what the next poll expects to read.
pub open spec fn recorded<K, V>(
    snapshots: Map<K, V>,
    writes: Seq<(K, V)>,
    works: Seq<bool>,
) -> Map<K, V>
    decreases writes.len(),
{
    if writes.len() == 0 {
        snapshots
    } else {
        let before = recorded(snapshots, writes.drop_last(), works);
        let (k, v) = writes.last();
        if works[writes.len() - 1] && before.contains_key(k) {
            before.insert(k, v)
        } else {
            before
        }
    }
}

/// Records the writes that worked, so that the next poll does not report what
/// was written here. A key without a snapshot gets none.
pub fn record_writes<K: Key, V: SameValue>(
    snapshots: &mut KeyedMap<K, V>,
    writes: &Vec<(K, V)>,
    works: &Vec<bool>,
)
    requires
        works@.len() == writes@.len(),
    ensures
        final(snapshots)@ == recorded(old(snapshots)@, reports_view(writes@), works@),
{
    let ghost start = snapshots@;
    let ghost seen = reports_view(writes@);
    let n: usize = writes.len();
    let mut i: usize = 0;
    assert(seen.take(0) =~= Seq::<(K::V, V)>::empty());
    while i < n
        invariant
            i <= n,
            n == writes@.len(),
            n == works@.len(),
            seen == reports_view(writes@),
            snapshots@ == recorded(start, seen.take(i as int), works@),
        decreases n - i,
    {
        proof {
            assert(seen.take(i + 1).drop_last() == seen.take(i as int));
            assert(seen.take(i + 1).last() == (writes@[i as int].0@, writes@[i as int].1));
        }
        if works[i] && snapshots.contains_key(&writes[i].0) {
            snapshots.insert(writes[i].0.copy_key(), writes[i].1.duplicate());
        }
        i = i + 1;
    }
    assert(seen.take(n as int) == seen);
}

/// Writes neither start nor end a watch: the same keys have snapshots.
pub proof fn law_writes_start_no_watch<K, V>(
    snapshots: Map<K, V>,
    writes: Seq<(K, V)>,
    works: Seq<bool>,
)
    ensures
        recorded(snapshots, writes, works).dom() == snapshots.dom(),
    decreases writes.len(),
{
    if writes.len() > 0 {
        law_writes_start_no_watch(snapshots, writes.drop_last(), works);
        assert(recorded(snapshots, writes, works).dom() =~= snapshots.dom());
    }
}

/// A write to a watched key that worked and was not followed by another one of
/// that key is its snapshot.
pub proof fn law_last_write_is_recorded<K, V>(
    snapshots: Map<K, V>,
    writes: Seq<(K, V)>,
    works: Seq<bool>,
    i: int,
)
    requires
        0 <= i < writes.len(),
        works[i],
        snapshots.contains_key(writes[i].0),
        forall|j: int| i < j < writes.len() ==> (#[trigger] writes[j]).0 != writes[i].0,
    ensures
        recorded(snapshots, writes, works).contains_key(writes[i].0),
        recorded(snapshots, writes, works)[writes[i].0] == writes[i].1,
    decreases writes.len(),
{
    let front = writes.drop_last();
    if i < front.len() {
        assert(front[i] == writes[i]);
        assert forall|j: int| i < j < front.len() implies (#[trigger] front[j]).0
            != front[i].0 by {
            assert(front[j] == writes[j]);
        }
        law_last_write_is_recorded(snapshots, front, works, i);
        assert(writes[writes.len() - 1].0 != writes[i].0);
    } else {
        law_writes_start_no_watch(snapshots, front, works);
        assert(snapshots.dom().contains(writes[i].0));
    }
}

/// A reading is reported, and becomes the snapshot, exactly where the key had no
/// snapshot or one that compares unequal; otherwise the poll goes on as if it
/// had not been made.
pub proof fn law_changed_values_are_reported<K, V: SameValue>(
    snapshots: Map<K, V>,
    before: Seq<(K, Option<V>)>,
    k: K,
    v: V,
)
    ensures
        ({
            let (m, out) = polled(snapshots, before);
            let (now, reports) = polled(snapshots, before.push((k, Some(v))));
            &&& !m.contains_key(k) ==> reports == out.push((k, v)) && now == m.insert(k, v)
            &&& m.contains_key(k) && !m[k].same(&v) ==> reports == out.push((k, v)) && now
                == m.insert(k, v)
            &&& m.contains_key(k) && m[k].same(&v) ==> reports == out && now == m
            &&& polled(snapshots, before.push((k, None))) == (m, out)
        }),
{
    assert(before.push((k, Some(v))).drop_last() =~= before);
    assert(before.push((k, None)).drop_last() =~= before);
}

} // verus!
