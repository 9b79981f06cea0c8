//! Routed events of named elements: which ones are watched, what a fired one
//! carries, and the queue between the callbacks and the per-frame drain.

use vstd::prelude::*;

use crate::keyed::Key;
use crate::queue::Queue;
use crate::scalar::Float32;

verus! {

/// A routed event.
#[derive(Clone, Copy, PartialEq, Eq, Hash, Debug, Structural)]
pub enum RoutedEvent {
    MouseEnter,
    MouseLeave,
    MouseMove,
    PreviewMouseMove,
    GotMouseCapture,
    LostMouseCapture,
    MouseDown,
    MouseUp,
    MouseLeftButtonDown,
    MouseLeftButtonUp,
    MouseRightButtonDown,
    MouseRightButtonUp,
    PreviewMouseDown,
    PreviewMouseUp,
    PreviewMouseLeftButtonDown,
    PreviewMouseLeftButtonUp,
    PreviewMouseRightButtonDown,
    PreviewMouseRightButtonUp,
    MouseWheel,
    PreviewMouseWheel,
    KeyDown,
    KeyUp,
    PreviewKeyDown,
    PreviewKeyUp,
    TextInput,
    PreviewTextInput,
    GotFocus,
    LostFocus,
    GotKeyboardFocus,
    LostKeyboardFocus,
    PreviewGotKeyboardFocus,
    PreviewLostKeyboardFocus,
    Loaded,
    Unloaded,
    SizeChanged,
    TouchDown,
    TouchMove,
    TouchUp,
    TouchEnter,
    TouchLeave,
    Tapped,
    DoubleTapped,
    Holding,
    RightTapped,
    ManipulationStarting,
    ManipulationStarted,
    ManipulationDelta,
    ManipulationInertiaStarting,
    ManipulationCompleted,
    DragEnter,
    DragOver,
    DragLeave,
    Drop,
    PreviewDragEnter,
    PreviewDragOver,
    PreviewDragLeave,
    PreviewDrop,
}

impl View for RoutedEvent {
    type V = RoutedEvent;

    open spec fn view(&self) -> RoutedEvent {
        *self
    }
}

impl Key for RoutedEvent {
    fn same_key(&self, other: &Self) -> (r: bool) {
        *self == *other
    }

    fn copy_key(&self) -> (r: Self) {
        *self
    }
}

/// A mouse button.
#[derive(Clone, Copy, PartialEq, Eq, Debug, Structural)]
pub enum MouseButton {
    Left,
    Right,
    Middle,
    XButton1,
    XButton2,
}

/// What a fired event carried. A field is `None` where the event does not
/// carry it.
#[derive(Clone, Copy, PartialEq, Eq, Debug)]
pub struct RoutedEventSnapshot {
    /// Pointer position in the element's coordinate space.
    pub position: Option<(Float32, Float32)>,
    /// Changed mouse button.
    pub mouse_button: Option<MouseButton>,
    /// Wheel rotation, about 120 per notch.
    pub wheel_delta: Option<i32>,
    /// Number of the pressed or released key.
    pub key: Option<i32>,
    /// Character put in.
    pub text_char: Option<char>,
    /// New size.
    pub new_size: Option<(Float32, Float32)>,
}

impl Default for RoutedEventSnapshot {
    fn default() -> (s: RoutedEventSnapshot)
        ensures
            s.position is None,
            s.mouse_button is None,
            s.wheel_delta is None,
            s.key is None,
            s.text_char is None,
            s.new_size is None,
    {
        RoutedEventSnapshot {
            position: None,
            mouse_button: None,
            wheel_delta: None,
            key: None,
            text_char: None,
            new_size: None,
        }
    }
}

/// A watched element raised its event.
pub struct NoesisRoutedEvent {
    /// View whose element raised it.
    pub view: u64,
    /// Name of the element.
    pub name: String,
    /// What fired.
    pub event: RoutedEvent,
    /// What it carried.
    pub args: RoutedEventSnapshot,
}

/// The same, addressed to the entity that the watch entry names.
pub struct UiRoutedEvent {
    /// Entity it is addressed to.
    pub entity: u64,
    /// View whose element raised it.
    pub view: u64,
    /// Name of the element.
    pub name: String,
    /// What fired.
    pub event: RoutedEvent,
    /// What it carried.
    pub args: RoutedEventSnapshot,
}

/// An element and an event to watch on it.
#[derive(Clone)]
pub struct EventWatchEntry {
    /// Name of the element.
    pub name: String,
    /// Event to subscribe.
    pub event: RoutedEvent,
    /// Whether the event is marked handled, which stops its route here.
    pub mark_handled: bool,
    /// Whether the handler runs even after another one on the same element
    /// marked the event handled.
    pub handled_too: bool,
    /// Entity that a fired event is addressed to; the view's own by default.
    pub target: Option<u64>,
}

impl EventWatchEntry {
    /// Watches `event` on the element `name` without consuming it.
    pub fn new(name: &str, event: RoutedEvent) -> (e: EventWatchEntry)
        ensures
            e.name@ == name@,
            e.event == event,
            !e.mark_handled,
            !e.handled_too,
            e.target is None,
    {
        EventWatchEntry {
            name: name.to_owned(),
            event,
            mark_handled: false,
            handled_too: false,
            target: None,
        }
    }

    /// Marks the event handled when it fires.
    pub fn mark_handled(self) -> (e: EventWatchEntry)
        ensures
            e == (EventWatchEntry { mark_handled: true, ..self }),
    {
        EventWatchEntry { mark_handled: true, ..self }
    }

    /// Runs also when another handler on the element marked the event handled.
    pub fn handled_too(self) -> (e: EventWatchEntry)
        ensures
            e == (EventWatchEntry { handled_too: true, ..self }),
    {
        EventWatchEntry { handled_too: true, ..self }
    }

    /// Addresses a fired event to `target`.
    pub fn target(self, target: u64) -> (e: EventWatchEntry)
        ensures
            e == (EventWatchEntry { target: Some(target), ..self }),
    {
        EventWatchEntry { target: Some(target), ..self }
    }
}

/// The events that a view watches.
pub struct NoesisEventWatch {
    pub entries: Vec<EventWatchEntry>,
}

impl NoesisEventWatch {
    /// Watches the listed events.
    pub fn new(entries: Vec<EventWatchEntry>) -> (w: NoesisEventWatch)
        ensures
            w.entries == entries,
    {
        NoesisEventWatch { entries }
    }
}

impl Default for NoesisEventWatch {
    fn default() -> (w: NoesisEventWatch)
        ensures
            w.entries@ == Seq::<EventWatchEntry>::empty(),
    {
        NoesisEventWatch { entries: Vec::new() }
    }
}

/// One fired event on its way to the drain: view, target, name, event and what
/// it carried.
pub type QueuedEvent = (u64, u64, String, RoutedEvent, RoutedEventSnapshot);

/// The queue between the callbacks and the drain.
pub struct SharedRoutedEventQueue {
    pub queue: Queue<QueuedEvent>,
}

impl Default for SharedRoutedEventQueue {
    fn default() -> (q: SharedRoutedEventQueue)
        ensures
            q@ == Seq::<QueuedEvent>::empty(),
    {
        SharedRoutedEventQueue { queue: Queue::new() }
    }
}

impl View for SharedRoutedEventQueue {
    type V = Seq<QueuedEvent>;

    open spec fn view(&self) -> Seq<QueuedEvent> {
        self.queue@
    }
}

impl SharedRoutedEventQueue {
    /// Queues a fired event.
    pub fn push(
        &mut self,
        view: u64,
        target: u64,
        name: String,
        event: RoutedEvent,
        args: RoutedEventSnapshot,
    )
        ensures
            final(self)@ == old(self)@.push((view, target, name, event, args)),
    {
        self.queue.push((view, target, name, event, args));
    }

    /// Takes everything, in push order.
    pub fn drain(&mut self) -> (taken: Vec<QueuedEvent>)
        ensures
            taken@ == old(self)@,
            final(self)@ == Seq::<QueuedEvent>::empty(),
    {
        self.queue.drain()
    }
}

/// Whether a message and its addressed twin tell of a queued event.
pub open spec fn tells_of(m: (NoesisRoutedEvent, UiRoutedEvent), e: QueuedEvent) -> bool {
    &&& m.0.view == e.0 && m.1.view == e.0
    &&& m.1.entity == e.1
    &&& m.0.name@ == e.2@ && m.1.name@ == e.2@
    &&& m.0.event == e.3 && m.1.event == e.3
    &&& m.0.args == e.4 && m.1.args == e.4
}

/// Drains the queue: one message and one addressed twin per fired event, in
/// order.
pub fn drain_routed_event_queue(queue: &mut SharedRoutedEventQueue) -> (out: Vec<
    (NoesisRoutedEvent, UiRoutedEvent),
>)
    ensures
        final(queue)@ == Seq::<QueuedEvent>::empty(),
        out@.len() == old(queue)@.len(),
        forall|i: int| 0 <= i < out@.len() ==> tells_of(#[trigger] out@[i], old(queue)@[i]),
{
    let taken = queue.drain();
    let mut out: Vec<(NoesisRoutedEvent, UiRoutedEvent)> = Vec::new();
    let n: usize = taken.len();
    let mut i: usize = 0;
    while i < n
        invariant
            i <= n,
            n == taken@.len(),
            taken@ == old(queue)@,
            out@.len() == i,
            forall|j: int| 0 <= j < i ==> tells_of(#[trigger] out@[j], taken@[j]),
        decreases n - i,
    {
        let e = &taken[i];
        let message = NoesisRoutedEvent {
            view: e.0,
            name: e.2.clone(),
            event: e.3,
            args: e.4,
        };
        let addressed = UiRoutedEvent {
            entity: e.1,
            view: e.0,
            name: e.2.clone(),
            event: e.3,
            args: e.4,
        };
        out.push((message, addressed));
        i = i + 1;
    }
    out
}

/// A drained message and its addressed twin tell the same: view, element, event
/// and arguments are those of the queued event, and the twin goes to its target.
pub proof fn law_messages_tell_all_of_the_event(
    m: (NoesisRoutedEvent, UiRoutedEvent),
    e: QueuedEvent,
)
    requires
        tells_of(m, e),
    ensures
        m.1.entity == e.1,
        m.0.view == e.0 && m.1.view == m.0.view,
        m.0.name@ == e.2@ && m.1.name@ == m.0.name@,
        m.0.event == e.3 && m.1.event == m.0.event,
        m.0.args == e.4 && m.1.args == m.0.args,
{
}

} // verus!
