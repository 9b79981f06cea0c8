//! Which view an input event goes to, and whether the pointer is over the UI.

use vstd::prelude::*;

use crate::keyed::{has_key, key_index, map_of};
use crate::render::scene::SceneState;
use crate::render::state::{NoesisRenderState, Tables};
use crate::scalar::Float32;

verus! {

/// An input event, in the coordinates of the view it is meant for.
#[derive(Clone, Copy, PartialEq, Eq, Debug)]
pub enum NoesisInputEvent {
    MouseMove { x: i32, y: i32 },
    MouseButton { down: bool, x: i32, y: i32, button: u32 },
    MouseWheel { x: i32, y: i32, delta: i32 },
    MouseHWheel { x: i32, y: i32, delta: i32 },
    Scroll { x: i32, y: i32, value: Float32, horizontal: bool },
    TouchDown { x: i32, y: i32, id: u64 },
    TouchMove { x: i32, y: i32, id: u64 },
    TouchUp { x: i32, y: i32, id: u64 },
    KeyDown { key: i32 },
    KeyUp { key: i32 },
    Char { code: u32 },
    Focus { gained: bool },
}

/// An input event and the view it is meant for; the primary one by default.
#[derive(Clone, Copy, PartialEq, Eq, Debug)]
pub struct TargetedInput {
    pub target: Option<u64>,
    pub event: NoesisInputEvent,
}

/// Whether the engine's answer to an event tells if the pointer is over the UI.
pub open spec fn is_pointer(e: NoesisInputEvent) -> bool {
    match e {
        NoesisInputEvent::KeyDown { .. } => false,
        NoesisInputEvent::KeyUp { .. } => false,
        NoesisInputEvent::Char { .. } => false,
        NoesisInputEvent::Focus { .. } => false,
        _ => true,
    }
}

/// Whether the engine's answer to an event tells if the pointer is over the UI.
pub fn moves_pointer(e: &NoesisInputEvent) -> (r: bool)
    ensures
        r == is_pointer(*e),
{
    match e {
        NoesisInputEvent::KeyDown { .. } => false,
        NoesisInputEvent::KeyUp { .. } => false,
        NoesisInputEvent::Char { .. } => false,
        NoesisInputEvent::Focus { .. } => false,
        _ => true,
    }
}

/// Whether `e` is the primary view: the live scene of the lowest entity.
pub open spec fn is_primary(scenes: Map<u64, SceneState>, e: u64) -> bool {
    scenes.contains_key(e) && forall|o: u64| #[trigger] scenes.contains_key(o) ==> e <= o
}

/// The view that an event goes to, where `primary` is the primary view.
pub open spec fn routed(scenes: Map<u64, SceneState>, primary: u64, target: Option<u64>) -> Option<
    u64,
> {
    let e = match target {
        Some(t) => t,
        None => primary,
    };
    if scenes.contains_key(e) {
        Some(e)
    } else {
        None
    }
}

/// The deliveries of a batch, in order: which view gets which event.
pub open spec fn deliveries(
    scenes: Map<u64, SceneState>,
    primary: u64,
    events: Seq<TargetedInput>,
) -> Seq<(u64, int)>
    decreases events.len(),
{
    if events.len() == 0 {
        Seq::empty()
    } else {
        let rest = deliveries(scenes, primary, events.drop_last());
        match routed(scenes, primary, events.last().target) {
            Some(view) => rest.push((view, events.len() - 1)),
            None => rest,
        }
    }
}

/// Deliveries by value.
pub open spec fn deliveries_view(out: Seq<(u64, usize)>) -> Seq<(u64, int)> {
    out.map_values(|d: (u64, usize)| (d.0, d.1 as int))
}

/// Whether the pointer is over the UI after the events, where `hits` holds the
/// engine's answers: the last pointer event that reached a view decides.
pub open spec fn over_ui_after(
    scenes: Map<u64, SceneState>,
    primary: u64,
    before: bool,
    events: Seq<TargetedInput>,
    hits: Seq<bool>,
) -> bool
    decreases events.len(),
{
    if events.len() == 0 {
        before
    } else {
        let e = events.last();
        if is_pointer(e.event) && routed(scenes, primary, e.target) is Some {
            hits[events.len() - 1]
        } else {
            over_ui_after(scenes, primary, before, events.drop_last(), hits)
        }
    }
}

impl NoesisRenderState {
    /// The primary view: the live scene of the lowest entity.
    pub fn primary_view(&self) -> (r: Option<u64>)
        ensures
            match r {
                Some(e) => is_primary(self@.scenes, e),
                None => self@.scenes == Map::<u64, SceneState>::empty(),
            },
    {
        let n: usize = self.scenes.len();
        let ghost all = self.scenes.listed();
        if n == 0 {
            assert(self@.scenes =~= Map::<u64, SceneState>::empty());
            return None;
        }
        let mut best: u64 = self.scenes.at(0).0;
        assert(all[0].0@ == best);
        let mut i: usize = 1;
        while i < n
            invariant
                1 <= i <= n,
                n == all.len(),
                all == self.scenes.listed(),
                self.scenes@ == map_of(all),
                has_key(all, best),
                forall|j: int| 0 <= j < i ==> best <= (#[trigger] all[j]).0,
            decreases n - i,
        {
            let e: u64 = self.scenes.at(i).0;
            if e < best {
                assert(all[i as int].0@ == e);
                best = e;
            }
            i = i + 1;
        }
        proof {
            assert forall|o: u64| #[trigger] self@.scenes.contains_key(o) implies best <= o by {
                let j = key_index(all, o);
                assert(all[j].0@ == o);
                assert(best <= all[j].0);
            }
        }
        Some(best)
    }

    /// The view that an event goes to. An event for a view without a scene goes
    /// nowhere.
    pub fn route_input(&self, primary: u64, target: Option<u64>) -> (r: Option<u64>)
        ensures
            r == routed(self@.scenes, primary, target),
    {
        let e: u64 = match target {
            Some(t) => t,
            None => primary,
        };
        if self.scenes.contains_key(&e) {
            Some(e)
        } else {
            None
        }
    }

    /// Which view gets which event of a batch, in order. Without any scene
    /// nothing is delivered.
    pub fn plan_input(&self, events: &Vec<TargetedInput>) -> (out: Vec<(u64, usize)>)
        ensures
            self@.scenes == Map::<u64, SceneState>::empty() ==> out@.len() == 0,
            forall|primary: u64|
                is_primary(self@.scenes, primary) ==> deliveries_view(out@)
                    == #[trigger] deliveries(self@.scenes, primary, events@),
    {
        let mut out: Vec<(u64, usize)> = Vec::new();
        let primary: u64 = match self.primary_view() {
            Some(e) => e,
            None => {
                return out;
            },
        };
        let n: usize = events.len();
        let mut i: usize = 0;
        assert(events@.take(0) =~= Seq::<TargetedInput>::empty());
        assert(deliveries_view(out@) =~= Seq::<(u64, int)>::empty());
        while i < n
            invariant
                i <= n,
                n == events@.len(),
                deliveries_view(out@) == deliveries(
                    self@.scenes,
                    primary,
                    events@.take(i as int),
                ),
            decreases n - i,
        {
            let ghost before = out@;
            proof {
                assert(events@.take(i + 1).drop_last() == events@.take(i as int));
                assert(events@.take(i + 1).last() == events@[i as int]);
            }
            match self.route_input(primary, events[i].target) {
                Some(view) => {
                    out.push((view, i));
                    assert(deliveries_view(out@) =~= deliveries_view(before).push(
                        (view, i as int),
                    ));
                },
                None => {},
            }
            i = i + 1;
        }
        assert(events@.take(n as int) == events@);
        proof {
            assert forall|p: u64| is_primary(self@.scenes, p) implies deliveries_view(out@)
                == #[trigger] deliveries(self@.scenes, p, events@) by {
                assert(p <= primary && primary <= p);
            }
        }
        out
    }

    /// Whether the pointer is over the UI after a batch of events, where
    /// `hits[i]` is the engine's answer to event `i`. Without any scene nothing
    /// can be under the pointer; a batch that moves no pointer leaves the answer
    /// as it was.
    pub fn apply_input(&self, over_ui: bool, events: &Vec<TargetedInput>, hits: &Vec<bool>) -> (r:
        bool)
        requires
            hits@.len() == events@.len(),
        ensures
            self@.scenes == Map::<u64, SceneState>::empty() ==> !r,
            forall|primary: u64|
                is_primary(self@.scenes, primary) ==> r == #[trigger] over_ui_after(
                    self@.scenes,
                    primary,
                    over_ui,
                    events@,
                    hits@,
                ),
    {
        let primary: u64 = match self.primary_view() {
            Some(e) => e,
            None => {
                return false;
            },
        };
        let mut over: bool = over_ui;
        let n: usize = events.len();
        let mut i: usize = 0;
        assert(events@.take(0) =~= Seq::<TargetedInput>::empty());
        while i < n
            invariant
                i <= n,
                n == events@.len(),
                n == hits@.len(),
                over == over_ui_after(
                    self@.scenes,
                    primary,
                    over_ui,
                    events@.take(i as int),
                    hits@,
                ),
            decreases n - i,
        {
            let e = &events[i];
            proof {
                assert(events@.take(i + 1).drop_last() == events@.take(i as int));
                assert(events@.take(i + 1).last() == events@[i as int]);
            }
            if moves_pointer(&e.event) && self.route_input(primary, e.target).is_some() {
                over = hits[i];
            }
            i = i + 1;
        }
        assert(events@.take(n as int) == events@);
        proof {
            assert forall|p: u64| is_primary(self@.scenes, p) implies over
                == #[trigger] over_ui_after(self@.scenes, p, over_ui, events@, hits@) by {
                assert(p <= primary && primary <= p);
            }
        }
        over
    }

    /// The same for a frame: without events only the loss of the last scene
    /// changes the answer.
    pub fn apply_noesis_input(
        &self,
        over_ui: bool,
        events: &Vec<TargetedInput>,
        hits: &Vec<bool>,
    ) -> (r: bool)
        requires
            hits@.len() == events@.len(),
        ensures
            self@.scenes == Map::<u64, SceneState>::empty() ==> !r,
            forall|primary: u64|
                is_primary(self@.scenes, primary) ==> r == #[trigger] over_ui_after(
                    self@.scenes,
                    primary,
                    over_ui,
                    events@,
                    hits@,
                ),
    {
        if events.len() == 0 {
            if self.scenes.is_empty() {
                return false;
            }
            return over_ui;
        }
        self.apply_input(over_ui, events, hits)
    }
}

/// There is at most one primary view.
pub proof fn law_primary_is_unique(scenes: Map<u64, SceneState>, a: u64, b: u64)
    requires
        is_primary(scenes, a),
        is_primary(scenes, b),
    ensures
        a == b,
{
}

/// An event is delivered to at most one view, that view is live, and deliveries
/// keep the order of the events.
pub proof fn law_deliveries_keep_order(
    scenes: Map<u64, SceneState>,
    primary: u64,
    events: Seq<TargetedInput>,
)
    ensures
        ({
            let d = deliveries(scenes, primary, events);
            &&& forall|i: int|
                0 <= i < d.len() ==> {
                    &&& scenes.contains_key((#[trigger] d[i]).0)
                    &&& 0 <= d[i].1 < events.len()
                    &&& routed(scenes, primary, events[d[i].1].target) == Some(d[i].0)
                }
            &&& forall|i: int, j: int|
                0 <= i < j < d.len() ==> (#[trigger] d[i]).1 < (#[trigger] d[j]).1
        }),
    decreases events.len(),
{
    if events.len() > 0 {
        let rest = events.drop_last();
        law_deliveries_keep_order(scenes, primary, rest);
        let before = deliveries(scenes, primary, rest);
        let d = deliveries(scenes, primary, events);
        assert forall|i: int| 0 <= i < d.len() implies {
            &&& scenes.contains_key((#[trigger] d[i]).0)
            &&& 0 <= d[i].1 < events.len()
            &&& routed(scenes, primary, events[d[i].1].target) == Some(d[i].0)
        } by {
            if i < before.len() {
                assert(d[i] == before[i]);
                assert(rest[before[i].1] == events[before[i].1]);
            }
        }
        assert forall|i: int, j: int| 0 <= i < j < d.len() implies (#[trigger] d[i]).1 < (
        #[trigger] d[j]).1 by {
            assert(d[i] == before[i]);
            if j < before.len() {
                assert(d[j] == before[j]);
            }
        }
    }
}

/// Keys, characters and focus changes never change whether the pointer is over
/// the UI, and neither do events for views that are not there.
pub proof fn law_keys_leave_pointer_alone(
    scenes: Map<u64, SceneState>,
    primary: u64,
    before: bool,
    events: Seq<TargetedInput>,
    hits: Seq<bool>,
)
    requires
        forall|i: int|
            0 <= i < events.len() ==> !is_pointer((#[trigger] events[i]).event) || routed(
                scenes,
                primary,
                events[i].target,
            ) is None,
    ensures
        over_ui_after(scenes, primary, before, events, hits) == before,
    decreases events.len(),
{
    if events.len() > 0 {
        assert(events.last() == events[events.len() - 1]);
        let rest = events.drop_last();
        assert forall|i: int| 0 <= i < rest.len() implies !is_pointer((#[trigger] rest[i]).event)
            || routed(scenes, primary, rest[i].target) is None by {
            assert(rest[i] == events[i]);
        }
        law_keys_leave_pointer_alone(scenes, primary, before, rest, hits);
    }
}

/// The place that an event tells of, if it tells of one.
pub open spec fn position(e: NoesisInputEvent) -> Option<(int, int)> {
    match e {
        NoesisInputEvent::MouseMove { x, y } => Some((x as int, y as int)),
        NoesisInputEvent::MouseButton { x, y, .. } => Some((x as int, y as int)),
        NoesisInputEvent::MouseWheel { x, y, .. } => Some((x as int, y as int)),
        NoesisInputEvent::MouseHWheel { x, y, .. } => Some((x as int, y as int)),
        NoesisInputEvent::Scroll { x, y, .. } => Some((x as int, y as int)),
        NoesisInputEvent::TouchDown { x, y, .. } => Some((x as int, y as int)),
        NoesisInputEvent::TouchMove { x, y, .. } => Some((x as int, y as int)),
        NoesisInputEvent::TouchUp { x, y, .. } => Some((x as int, y as int)),
        NoesisInputEvent::KeyDown { .. } => None,
        NoesisInputEvent::KeyUp { .. } => None,
        NoesisInputEvent::Char { .. } => None,
        NoesisInputEvent::Focus { .. } => None,
    }
}

/// The pointer events are exactly those that tell of a place.
pub proof fn law_events_with_a_place_move_the_pointer(e: NoesisInputEvent)
    ensures
        is_pointer(e) <==> position(e) is Some,
{
}

/// An event goes to the view it is meant for, or to the primary view where it
/// is meant for none, as long as that view is live; else it goes nowhere.
pub proof fn law_events_reach_their_view(
    scenes: Map<u64, SceneState>,
    primary: u64,
    target: Option<u64>,
    view: u64,
)
    ensures
        routed(scenes, primary, target) == Some(view) <==> scenes.contains_key(view) && (target
            == Some(view) || target is None && primary == view),
{
}

/// The last event that tells of a place and reaches a live view decides whether
/// the pointer is over the UI: the engine's answer to it is the answer. Whatever
/// came before, whatever keys follow, and whatever the state was, do not matter.
pub proof fn law_last_place_decides(
    scenes: Map<u64, SceneState>,
    primary: u64,
    before: bool,
    events: Seq<TargetedInput>,
    hits: Seq<bool>,
    last: int,
    view: u64,
)
    requires
        0 <= last < events.len(),
        position(events[last].event) is Some,
        scenes.contains_key(view),
        events[last].target == Some(view) || (events[last].target is None && primary == view),
        forall|i: int|
            last < i < events.len() ==> position((#[trigger] events[i]).event) is None || (
            events[i].target matches Some(t) && !scenes.contains_key(t)),
    ensures
        over_ui_after(scenes, primary, before, events, hits) == hits[last],
    decreases events.len(),
{
    assert(events.last() == events[events.len() - 1]);
    if last < events.len() - 1 {
        let rest = events.drop_last();
        assert(rest[last] == events[last]);
        assert forall|i: int| last < i < rest.len() implies position((#[trigger] rest[i]).event) is None
            || (rest[i].target matches Some(t) && !scenes.contains_key(t)) by {
            assert(rest[i] == events[i]);
        }
        law_last_place_decides(scenes, primary, before, rest, hits, last, view);
        assert(position(events[events.len() - 1].event) is None || (events[events.len()
            - 1].target matches Some(t) && !scenes.contains_key(t)));
    }
}

/// Without such an event nothing changes.
pub proof fn law_no_place_no_change(
    scenes: Map<u64, SceneState>,
    primary: u64,
    before: bool,
    events: Seq<TargetedInput>,
    hits: Seq<bool>,
)
    requires
        forall|i: int|
            0 <= i < events.len() ==> position((#[trigger] events[i]).event) is None || (
            events[i].target matches Some(t) && !scenes.contains_key(t)),
    ensures
        over_ui_after(scenes, primary, before, events, hits) == before,
{
    assert forall|i: int| 0 <= i < events.len() implies !is_pointer((#[trigger] events[i]).event)
        || routed(scenes, primary, events[i].target) is None by {}
    law_keys_leave_pointer_alone(scenes, primary, before, events, hits);
}

/// Every event that is meant for a live view is delivered to it, exactly once.
pub proof fn law_every_event_is_delivered(
    scenes: Map<u64, SceneState>,
    primary: u64,
    events: Seq<TargetedInput>,
    i: int,
    view: u64,
)
    requires
        0 <= i < events.len(),
    ensures
        deliveries(scenes, primary, events).contains((view, i)) <==> scenes.contains_key(view) && (
        events[i].target == Some(view) || events[i].target is None && primary == view),
        deliveries(scenes, primary, events).no_duplicates(),
    decreases events.len(),
{
    let d = deliveries(scenes, primary, events);
    let rest = events.drop_last();
    let before = deliveries(scenes, primary, rest);
    law_deliveries_keep_order(scenes, primary, events);
    law_deliveries_keep_order(scenes, primary, rest);
    assert forall|a: int, b: int| 0 <= a < d.len() && 0 <= b < d.len() && a != b implies d[a]
        != d[b] by {
        if a < b {
            assert(d[a].1 < d[b].1);
        } else {
            assert(d[b].1 < d[a].1);
        }
    }
    let wanted = scenes.contains_key(view) && (events[i].target == Some(view)
        || events[i].target is None && primary == view);
    if d.contains((view, i)) {
        let k = choose|k: int| 0 <= k < d.len() && d[k] == (view, i);
        assert(routed(scenes, primary, events[d[k].1].target) == Some(d[k].0));
    }
    if wanted {
        if i < rest.len() {
            assert(rest[i] == events[i]);
            law_every_event_is_delivered(scenes, primary, rest, i, view);
            let k = choose|k: int| 0 <= k < before.len() && before[k] == (view, i);
            assert(d[k] == (view, i));
        } else {
            assert(d[d.len() - 1] == (view, i));
        }
    }
}

/// The primary view is the live scene of the lowest entity: where there is one,
/// it is the only one, and every other live scene has a higher entity.
pub proof fn law_primary_is_the_lowest(scenes: Map<u64, SceneState>, e: u64, other: u64)
    requires
        is_primary(scenes, e),
    ensures
        scenes.contains_key(e),
        scenes.contains_key(other) && other != e ==> e < other && !is_primary(scenes, other),
{
}

/// A single live scene is the primary view.
pub proof fn law_lone_scene_is_primary(scenes: Map<u64, SceneState>, e: u64)
    requires
        scenes.contains_key(e),
        forall|o: u64| #[trigger] scenes.contains_key(o) ==> o == e,
    ensures
        is_primary(scenes, e),
{
}

} // verus!
