//! View models: objects with named properties that a scene's bindings read and
//! write.
//!
//! The application registers a definition and keeps its id, queues writes by
//! property name, and reads back changes. The engine addresses properties by
//! index, in the order in which they were declared.

use vstd::prelude::*;

use crate::queue::Queue;
use crate::render::state::AttachTarget;
use crate::scalar::{Float32, Float64};
use crate::strings::str_eq;
use crate::widen::{widen, widens};

verus! {

/// Handle of a registered view model.
#[derive(Clone, Copy, PartialEq, Eq, Debug, Hash, Structural)]
pub struct ViewModelId(pub u64);

/// A property value on its way between the application and the engine.
#[derive(PartialEq, Eq, Debug)]
pub enum VmValue {
    Double(Float64),
    Bool(bool),
    Int32(i32),
    Str(String),
}

/// A property value as the engine hands it over.
pub enum PropertyValue {
    Double(Float64),
    Float(Float32),
    Bool(bool),
    Int32(i32),
    /// A string, or none.
    String(Option<String>),
    /// Of a kind that view models do not surface.
    Other,
}

/// Kind of a property.
#[derive(Clone, Copy, PartialEq, Eq, Debug, Structural)]
pub enum PropType {
    Int32,
    Float,
    Double,
    Bool,
    String,
    Thickness,
    Color,
    Rect,
    ImageSource,
    BaseComponent,
    UInt32,
}

/// Whether a value is what the engine's one decodes to: singles are widened, no
/// string is the empty one, other kinds are not surfaced.
pub open spec fn decodes(p: PropertyValue, v: Option<VmValue>) -> bool {
    match p {
        PropertyValue::Double(d) => v == Some(VmValue::Double(d)),
        PropertyValue::Float(f) => v matches Some(VmValue::Double(d)) && widens(f.bits, d.bits),
        PropertyValue::Bool(b) => v == Some(VmValue::Bool(b)),
        PropertyValue::Int32(i) => v == Some(VmValue::Int32(i)),
        PropertyValue::String(Some(s)) => v matches Some(VmValue::Str(t)) && t@ == s@,
        PropertyValue::String(None) => v matches Some(VmValue::Str(t)) && t@ == Seq::<
            char,
        >::empty(),
        PropertyValue::Other => v is None,
    }
}

impl VmValue {
    /// Decodes a value that the engine handed over.
    pub fn from_property(value: &PropertyValue) -> (r: Option<VmValue>)
        ensures
            decodes(*value, r),
    {
        match value {
            PropertyValue::Double(d) => Some(VmValue::Double(*d)),
            PropertyValue::Float(f) => Some(VmValue::Double(widen(*f))),
            PropertyValue::Bool(b) => Some(VmValue::Bool(*b)),
            PropertyValue::Int32(i) => Some(VmValue::Int32(*i)),
            PropertyValue::String(s) => match s {
                Some(s) => Some(VmValue::Str(s.clone())),
                None => Some(VmValue::Str(String::new())),
            },
            PropertyValue::Other => None,
        }
    }

    fn again(&self) -> (r: VmValue)
        ensures
            r == *self,
    {
        match self {
            VmValue::Double(d) => VmValue::Double(*d),
            VmValue::Bool(b) => VmValue::Bool(*b),
            VmValue::Int32(i) => VmValue::Int32(*i),
            VmValue::Str(s) => VmValue::Str(s.clone()),
        }
    }
}

/// Recipe of a view model: a class name, its properties in order, and where the
/// instance is attached.
pub struct ViewModelDef {
    pub class_name: String,
    pub props: Vec<(String, PropType)>,
    pub target: AttachTarget,
}

impl ViewModelDef {
    /// A view model of class `class_name` without properties, attached to the
    /// root.
    pub fn new(class_name: &str) -> (d: ViewModelDef)
        ensures
            d.class_name@ == class_name@,
            d.props@ == Seq::<(String, PropType)>::empty(),
            d.target == AttachTarget::Root,
    {
        ViewModelDef {
            class_name: class_name.to_owned(),
            props: Vec::new(),
            target: AttachTarget::Root,
        }
    }

    /// Declares a property.
    pub fn property(self, name: &str, kind: PropType) -> (d: ViewModelDef)
        ensures
            d.class_name == self.class_name,
            d.target == self.target,
            d.props@.len() == self.props@.len() + 1,
            d.props@.drop_last() == self.props@,
            d.props@.last().0@ == name@,
            d.props@.last().1 == kind,
    {
        let mut d = self;
        d.props.push((name.to_owned(), kind));
        assert(d.props@.drop_last() =~= self.props@);
        d
    }

    /// Attaches the instance to the root.
    pub fn attach_to_root(self) -> (d: ViewModelDef)
        ensures
            d == (ViewModelDef { target: AttachTarget::Root, ..self }),
    {
        ViewModelDef { target: AttachTarget::Root, ..self }
    }

    /// Attaches the instance to the element `x_name`.
    pub fn attach_to(self, x_name: &str) -> (d: ViewModelDef)
        ensures
            d.class_name == self.class_name,
            d.props == self.props,
            d.target@ == Some(x_name@),
    {
        ViewModelDef { target: AttachTarget::Named(x_name.to_owned()), ..self }
    }

    /// The class name.
    pub fn class_name(&self) -> (r: &str)
        ensures
            r@ == self.class_name@,
    {
        self.class_name.as_str()
    }
}

/// A queued write.
pub type VmWrite = (ViewModelId, String, VmValue);

/// A write as a value.
pub open spec fn write_value(w: VmWrite) -> (ViewModelId, Seq<char>, VmValue) {
    (w.0, w.1@, w.2)
}

/// Registrations and writes on their way to the engine.
pub struct NoesisViewModels {
    /// Id of the next view model.
    pub next_id: u64,
    pub registrations: Queue<(ViewModelId, ViewModelDef)>,
    pub writes: Queue<VmWrite>,
}

impl Default for NoesisViewModels {
    fn default() -> (v: NoesisViewModels)
        ensures
            v.next_id == 0,
            v.registrations@ == Seq::<(ViewModelId, ViewModelDef)>::empty(),
            v.writes@ == Seq::<VmWrite>::empty(),
    {
        NoesisViewModels { next_id: 0, registrations: Queue::new(), writes: Queue::new() }
    }
}

/// Whether `now` is `was` with one more write at its end.
pub open spec fn wrote(
    was: NoesisViewModels,
    now: NoesisViewModels,
    id: ViewModelId,
    prop: Seq<char>,
    value: VmValue,
) -> bool {
    &&& now.next_id == was.next_id
    &&& now.registrations == was.registrations
    &&& now.writes@.len() == was.writes@.len() + 1
    &&& now.writes@.drop_last() == was.writes@
    &&& write_value(now.writes@.last()) == (id, prop, value)
}

/// The id given out after `id`.
pub open spec fn id_after(id: u64) -> u64 {
    if id == u64::MAX {
        0
    } else {
        (id + 1) as u64
    }
}

impl NoesisViewModels {
    /// Registers a view model; its id is new. Ids start over once all have been
    /// given out.
    pub fn register(&mut self, def: ViewModelDef) -> (id: ViewModelId)
        ensures
            id.0 == old(self).next_id,
            final(self).next_id == id_after(old(self).next_id),
            final(self).registrations@ == old(self).registrations@.push((id, def)),
            final(self).writes == old(self).writes,
    {
        let id = ViewModelId(self.next_id);
        self.next_id = if self.next_id == u64::MAX {
            0
        } else {
            self.next_id + 1
        };
        self.registrations.push((id, def));
        id
    }

    fn push_write(&mut self, id: ViewModelId, prop: &str, value: VmValue)
        ensures
            wrote(*old(self), *final(self), id, prop@, value),
    {
        self.writes.push((id, prop.to_owned(), value));
        assert(self.writes@.drop_last() =~= old(self).writes@);
    }

    /// Queues the write of a double.
    pub fn set_f64(&mut self, id: ViewModelId, prop: &str, value: Float64)
        ensures
            wrote(*old(self), *final(self), id, prop@, VmValue::Double(value)),
    {
        self.push_write(id, prop, VmValue::Double(value));
    }

    /// Queues the write of a boolean.
    pub fn set_bool(&mut self, id: ViewModelId, prop: &str, value: bool)
        ensures
            wrote(*old(self), *final(self), id, prop@, VmValue::Bool(value)),
    {
        self.push_write(id, prop, VmValue::Bool(value));
    }

    /// Queues the write of an integer.
    pub fn set_i32(&mut self, id: ViewModelId, prop: &str, value: i32)
        ensures
            wrote(*old(self), *final(self), id, prop@, VmValue::Int32(value)),
    {
        self.push_write(id, prop, VmValue::Int32(value));
    }

    /// Queues the write of a string.
    pub fn set_string(&mut self, id: ViewModelId, prop: &str, value: &str)
        ensures
            final(self).next_id == old(self).next_id,
            final(self).registrations == old(self).registrations,
            final(self).writes@.len() == old(self).writes@.len() + 1,
            final(self).writes@.drop_last() == old(self).writes@,
            final(self).writes@.last().0 == id,
            final(self).writes@.last().1@ == prop@,
            final(self).writes@.last().2 matches VmValue::Str(s) && s@ == value@,
    {
        self.push_write(id, prop, VmValue::Str(value.to_owned()));
    }

    /// Takes the registrations, in order.
    pub fn drain_registrations(&mut self) -> (taken: Vec<(ViewModelId, ViewModelDef)>)
        ensures
            taken@ == old(self).registrations@,
            final(self).registrations@ == Seq::<(ViewModelId, ViewModelDef)>::empty(),
            final(self).writes == old(self).writes,
            final(self).next_id == old(self).next_id,
    {
        self.registrations.drain()
    }

    /// Takes the writes, in order.
    pub fn drain_writes(&mut self) -> (taken: Vec<VmWrite>)
        ensures
            taken@ == old(self).writes@,
            final(self).writes@ == Seq::<VmWrite>::empty(),
            final(self).registrations == old(self).registrations,
            final(self).next_id == old(self).next_id,
    {
        self.writes.drain()
    }
}

/// Changes on their way from the engine.
pub struct SharedVmChangedQueue {
    pub queue: Queue<VmWrite>,
}

impl View for SharedVmChangedQueue {
    type V = Seq<VmWrite>;

    open spec fn view(&self) -> Seq<VmWrite> {
        self.queue@
    }
}

impl Default for SharedVmChangedQueue {
    fn default() -> (q: SharedVmChangedQueue)
        ensures
            q@ == Seq::<VmWrite>::empty(),
    {
        SharedVmChangedQueue { queue: Queue::new() }
    }
}

impl SharedVmChangedQueue {
    /// Queues a change.
    pub fn push(&mut self, id: ViewModelId, prop: String, value: VmValue)
        ensures
            final(self)@ == old(self)@.push((id, prop, value)),
    {
        self.queue.push((id, prop, value));
    }

    /// Takes the changes, in order.
    pub fn drain(&mut self) -> (taken: Vec<VmWrite>)
        ensures
            taken@ == old(self)@,
            final(self)@ == Seq::<VmWrite>::empty(),
    {
        self.queue.drain()
    }
}

/// A property of a view model changed.
pub struct NoesisViewModelChanged {
    pub id: ViewModelId,
    pub prop: String,
    pub value: VmValue,
}

/// Drains the queue: one message per change, in order.
pub fn drain_vm_changed_queue(queue: &mut SharedVmChangedQueue) -> (out: Vec<
    NoesisViewModelChanged,
>)
    ensures
        final(queue)@ == Seq::<VmWrite>::empty(),
        out@.len() == old(queue)@.len(),
        forall|i: int|
            0 <= i < out@.len() ==> {
                &&& (#[trigger] out@[i]).id == old(queue)@[i].0
                &&& out@[i].prop@ == old(queue)@[i].1@
                &&& out@[i].value == old(queue)@[i].2
            },
{
    let taken = queue.drain();
    let mut out: Vec<NoesisViewModelChanged> = Vec::new();
    let n: usize = taken.len();
    let mut i: usize = 0;
    while i < n
        invariant
            i <= n,
            n == taken@.len(),
            taken@ == old(queue)@,
            out@.len() == i,
            forall|j: int|
                0 <= j < i ==> {
                    &&& (#[trigger] out@[j]).id == taken@[j].0
                    &&& out@[j].prop@ == taken@[j].1@
                    &&& out@[j].value == taken@[j].2
                },
        decreases n - i,
    {
        let c = &taken[i];
        out.push(NoesisViewModelChanged { id: c.0, prop: c.1.clone(), value: c.2.again() });
        i = i + 1;
    }
    out
}

/// Turns the engine's change notices of one view model into queued changes.
pub struct ViewModelChangeForwarder {
    pub id: ViewModelId,
    /// Property names in the order of their indices.
    pub prop_names: Vec<String>,
}

impl ViewModelChangeForwarder {
    /// A forwarder for the view model `id`.
    pub fn new(id: ViewModelId, prop_names: Vec<String>) -> (f: ViewModelChangeForwarder)
        ensures
            f.id == id,
            f.prop_names == prop_names,
    {
        ViewModelChangeForwarder { id, prop_names }
    }

    /// Queues a change by property name. An index without a name and a kind
    /// that is not surfaced queue nothing.
    pub fn on_changed(
        &self,
        prop_index: u32,
        value: &PropertyValue,
        queue: &mut SharedVmChangedQueue,
    )
        ensures
            prop_index >= self.prop_names@.len() || value is Other ==> final(queue)@ == old(
                queue,
            )@,
            prop_index < self.prop_names@.len() && !(value is Other) ==> {
                &&& final(queue)@.len() == old(queue)@.len() + 1
                &&& final(queue)@.drop_last() == old(queue)@
                &&& final(queue)@.last().0 == self.id
                &&& final(queue)@.last().1@ == self.prop_names@[prop_index as int]@
                &&& decodes(*value, Some(final(queue)@.last().2))
            },
    {
        let index: usize = prop_index as usize;
        if index >= self.prop_names.len() {
            return;
        }
        match VmValue::from_property(value) {
            Some(v) => {
                queue.push(self.id, self.prop_names[index].clone(), v);
                assert(queue@.drop_last() =~= old(queue)@);
            },
            None => {},
        }
    }
}

/// The first place of a name in a list.
pub open spec fn is_first(names: Seq<String>, name: Seq<char>, i: int) -> bool {
    0 <= i < names.len() && names[i]@ == name && forall|j: int|
        0 <= j < i ==> (#[trigger] names[j])@ != name
}

/// A view model that the engine has an instance of.
pub struct VmEntry {
    pub id: ViewModelId,
    /// Property names in the order of their indices.
    pub prop_names: Vec<String>,
}

impl VmEntry {
    /// The entry of a definition.
    pub fn build(id: ViewModelId, def: &ViewModelDef) -> (e: VmEntry)
        ensures
            e.id == id,
            e.prop_names@.len() == def.props@.len(),
            forall|i: int|
                0 <= i < def.props@.len() ==> (#[trigger] e.prop_names@[i])@ == def.props@[i].0@,
    {
        let mut prop_names: Vec<String> = Vec::new();
        let n: usize = def.props.len();
        let mut i: usize = 0;
        while i < n
            invariant
                i <= n,
                n == def.props@.len(),
                prop_names@.len() == i,
                forall|j: int| 0 <= j < i ==> (#[trigger] prop_names@[j])@ == def.props@[j].0@,
            decreases n - i,
        {
            prop_names.push(def.props[i].0.clone());
            i = i + 1;
        }
        VmEntry { id, prop_names }
    }

    /// Index of the property `prop`: the first one of that name.
    pub fn write(&self, prop: &str) -> (r: Option<usize>)
        ensures
            match r {
                Some(i) => is_first(self.prop_names@, prop@, i as int),
                None => forall|i: int|
                    0 <= i < self.prop_names@.len() ==> (#[trigger] self.prop_names@[i])@ != prop@,
            },
    {
        let n: usize = self.prop_names.len();
        let mut i: usize = 0;
        while i < n
            invariant
                i <= n,
                n == self.prop_names@.len(),
                forall|j: int| 0 <= j < i ==> (#[trigger] self.prop_names@[j])@ != prop@,
            decreases n - i,
        {
            if str_eq(self.prop_names[i].as_str(), prop) {
                return Some(i);
            }
            i = i + 1;
        }
        None
    }
}

/// Ids grow by one from each registration to the next, until they run out.
pub proof fn law_ids_grow(id: u64)
    requires
        id < u64::MAX,
    ensures
        id_after(id) == id + 1,
{
}

/// Ids are given out in a circle: no two different ids are followed by the same
/// one, none follows itself, and the last is followed by the first.
pub proof fn law_ids_are_given_out_in_a_circle(a: u64, b: u64)
    ensures
        id_after(a) == id_after(b) <==> a == b,
        id_after(a) != a,
        id_after(u64::MAX) == 0,
{
}

/// A decoded value keeps kind and value: numbers, truth values and texts come
/// out as they went in, a missing text as the empty one, and nothing else comes
/// out at all.
pub proof fn law_values_survive_decoding(p: PropertyValue, v: Option<VmValue>)
    requires
        decodes(p, v),
    ensures
        v is None <==> p is Other,
        p matches PropertyValue::Double(d) ==> v->0 is Double && v->0->Double_0 == d,
        p matches PropertyValue::Float(f) ==> v->0 is Double && widens(
            f.bits,
            v->0->Double_0.bits,
        ),
        p matches PropertyValue::Bool(b) ==> v->0 is Bool && v->0->Bool_0 == b,
        p matches PropertyValue::Int32(i) ==> v->0 is Int32 && v->0->Int32_0 == i,
        p matches PropertyValue::String(Some(s)) ==> v->0 is Str && v->0->Str_0@ == s@,
        p matches PropertyValue::String(None) ==> v->0 is Str && v->0->Str_0@.len() == 0,
{
}

/// A write is queued behind those before it, which stay as they are, and tells
/// of its view model, its property and its value.
pub proof fn law_writes_are_queued_in_order(
    was: NoesisViewModels,
    now: NoesisViewModels,
    id: ViewModelId,
    prop: Seq<char>,
    value: VmValue,
)
    requires
        wrote(was, now, id, prop, value),
    ensures
        now.writes@.len() == was.writes@.len() + 1,
        forall|i: int| 0 <= i < was.writes@.len() ==> #[trigger] now.writes@[i] == was.writes@[i],
        now.writes@.last().0 == id,
        now.writes@.last().1@ == prop,
        now.writes@.last().2 == value,
        now.next_id == was.next_id,
        now.registrations@ == was.registrations@,
{
    assert forall|i: int| 0 <= i < was.writes@.len() implies #[trigger] now.writes@[i]
        == was.writes@[i] by {
        assert(now.writes@.drop_last()[i] == now.writes@[i]);
    }
}

/// A name has one first place.
pub proof fn law_first_place_is_unique(names: Seq<String>, name: Seq<char>, i: int, j: int)
    requires
        is_first(names, name, i),
        is_first(names, name, j),
    ensures
        i == j,
        names[i]@ == name,
{
    if i < j {
        assert(names[i]@ != name);
    } else if j < i {
        assert(names[j]@ != name);
    }
}

} // verus!
