//! Styles built in code: what a view declares, and what of it ends up in the
//! style that an element is given.
//!
//! A style for an unknown type is not built at all. A base style that cannot be
//! built is left out, and so is a trigger on a property that its type does not
//! have; the rest of the style is built all the same.

use vstd::prelude::*;

use crate::keyed::{KeyedMap, KeyedSet};
use crate::scalar::{copy_list, SameValue};
use crate::values::DpValue;

verus! {

/// Setters that apply while a property has a value.
pub struct PropertyTrigger {
    pub property: String,
    pub value: DpValue,
    pub setters: Vec<(String, DpValue)>,
}

/// Setters that apply while a binding has a value.
pub struct DataTrigger {
    pub binding_path: String,
    /// Whether the binding starts at the styled element itself.
    pub relative_source_self: bool,
    pub value: DpValue,
    pub setters: Vec<(String, DpValue)>,
}

/// Setters that apply while several properties have their values.
pub struct MultiTrigger {
    pub conditions: Vec<(String, DpValue)>,
    pub setters: Vec<(String, DpValue)>,
}

/// A declared style.
pub struct StyleSpec {
    /// Type that the style is for; property names are resolved on it.
    pub target_type: String,
    /// Style that this one builds on.
    pub based_on: Option<Box<StyleSpec>>,
    /// Setters that always apply.
    pub setters: Vec<(String, DpValue)>,
    pub triggers: Vec<PropertyTrigger>,
    pub data_triggers: Vec<DataTrigger>,
    pub multi_triggers: Vec<MultiTrigger>,
}

impl PropertyTrigger {
    /// A trigger on `property == value` without setters.
    pub fn new(property: &str, value: DpValue) -> (t: PropertyTrigger)
        ensures
            t.property@ == property@,
            t.value == value,
            t.setters@ == Seq::<(String, DpValue)>::empty(),
    {
        PropertyTrigger { property: property.to_owned(), value, setters: Vec::new() }
    }

    /// Appends a setter.
    pub fn setter(self, property: &str, value: DpValue) -> (t: PropertyTrigger)
        ensures
            t.property == self.property,
            t.value == self.value,
            appended(self.setters@, t.setters@, property@, value),
    {
        let mut setters = self.setters;
        setters.push((property.to_owned(), value));
        assert(setters@.drop_last() =~= self.setters@);
        PropertyTrigger { property: self.property, value: self.value, setters }
    }
}

/// Whether `now` is `was` with one more setter at its end.
pub open spec fn appended(
    was: Seq<(String, DpValue)>,
    now: Seq<(String, DpValue)>,
    property: Seq<char>,
    value: DpValue,
) -> bool {
    &&& now.len() == was.len() + 1
    &&& now.drop_last() == was
    &&& now.last().0@ == property
    &&& now.last().1 == value
}

impl StyleSpec {
    /// A style for `target_type` that sets nothing.
    pub fn new(target_type: &str) -> (s: StyleSpec)
        ensures
            s.target_type@ == target_type@,
            s.based_on is None,
            s.setters@ == Seq::<(String, DpValue)>::empty(),
            s.triggers@ == Seq::<PropertyTrigger>::empty(),
            s.data_triggers@ == Seq::<DataTrigger>::empty(),
            s.multi_triggers@ == Seq::<MultiTrigger>::empty(),
    {
        StyleSpec {
            target_type: target_type.to_owned(),
            based_on: None,
            setters: Vec::new(),
            triggers: Vec::new(),
            data_triggers: Vec::new(),
            multi_triggers: Vec::new(),
        }
    }

    /// Appends a setter that always applies.
    pub fn setter(self, property: &str, value: DpValue) -> (s: StyleSpec)
        ensures
            s == (StyleSpec { setters: s.setters, ..self }),
            appended(self.setters@, s.setters@, property@, value),
    {
        let mut s = self;
        s.setters.push((property.to_owned(), value));
        assert(s.setters@.drop_last() =~= self.setters@);
        s
    }

    /// Appends a property trigger.
    pub fn trigger(self, trigger: PropertyTrigger) -> (s: StyleSpec)
        ensures
            s == (StyleSpec { triggers: s.triggers, ..self }),
            s.triggers@ == self.triggers@.push(trigger),
    {
        let mut s = self;
        s.triggers.push(trigger);
        s
    }

    /// Appends a data trigger.
    pub fn data_trigger(self, trigger: DataTrigger) -> (s: StyleSpec)
        ensures
            s == (StyleSpec { data_triggers: s.data_triggers, ..self }),
            s.data_triggers@ == self.data_triggers@.push(trigger),
    {
        let mut s = self;
        s.data_triggers.push(trigger);
        s
    }

    /// Appends a multi trigger.
    pub fn multi_trigger(self, trigger: MultiTrigger) -> (s: StyleSpec)
        ensures
            s == (StyleSpec { multi_triggers: s.multi_triggers, ..self }),
            s.multi_triggers@ == self.multi_triggers@.push(trigger),
    {
        let mut s = self;
        s.multi_triggers.push(trigger);
        s
    }

    /// Builds on another style.
    pub fn based_on(self, base: StyleSpec) -> (s: StyleSpec)
        ensures
            s == (StyleSpec { based_on: Some(Box::new(base)), ..self }),
    {
        let mut s = self;
        s.based_on = Some(Box::new(base));
        s
    }
}

/// The styles that a view declares.
pub struct NoesisStyles {
    /// Styles by element name.
    pub styles: KeyedMap<String, StyleSpec>,
}

impl Default for NoesisStyles {
    fn default() -> (s: NoesisStyles)
        ensures
            s.styles@ == Map::<Seq<char>, StyleSpec>::empty(),
    {
        NoesisStyles { styles: KeyedMap::new() }
    }
}

impl NoesisStyles {
    /// No styles.
    pub fn new() -> (s: NoesisStyles)
        ensures
            s.styles@ == Map::<Seq<char>, StyleSpec>::empty(),
    {
        NoesisStyles::default()
    }

    /// Styles the element `name`; an earlier style of it is replaced.
    pub fn apply(self, name: &str, spec: StyleSpec) -> (s: NoesisStyles)
        ensures
            s.styles@ == self.styles@.insert(name@, spec),
    {
        let mut styles = self.styles;
        styles.insert(name.to_owned(), spec);
        NoesisStyles { styles }
    }
}

/// What the engine can resolve.
pub struct KnownTypes {
    /// Types that a style can be for.
    pub types: KeyedSet<String>,
    /// `(type, property)` pairs that a trigger can watch.
    pub properties: KeyedSet<(String, String)>,
}

/// A trigger of a built style.
pub enum TriggerPlan {
    Property { property: String, value: DpValue, setters: Vec<(String, DpValue)> },
    Data {
        binding_path: String,
        relative_source_self: bool,
        value: DpValue,
        setters: Vec<(String, DpValue)>,
    },
    Multi { conditions: Vec<(String, DpValue)>, setters: Vec<(String, DpValue)> },
}

/// A built style. Setters are handed to the engine one by one; one that it
/// cannot resolve has no effect.
pub struct StylePlan {
    pub target_type: String,
    pub based_on: Option<Box<StylePlan>>,
    pub setters: Vec<(String, DpValue)>,
    pub triggers: Vec<TriggerPlan>,
}

/// A trigger as a value.
pub enum TriggerValue {
    Property { property: String, value: DpValue, setters: Seq<(String, DpValue)> },
    Data {
        binding_path: String,
        relative_source_self: bool,
        value: DpValue,
        setters: Seq<(String, DpValue)>,
    },
    Multi { conditions: Seq<(String, DpValue)>, setters: Seq<(String, DpValue)> },
}

/// A built style as a value.
pub struct StyleValue {
    pub target_type: String,
    pub based_on: Option<Box<StyleValue>>,
    pub setters: Seq<(String, DpValue)>,
    pub triggers: Seq<TriggerValue>,
}

/// A trigger as a value.
pub open spec fn trigger_value(t: TriggerPlan) -> TriggerValue {
    match t {
        TriggerPlan::Property { property, value, setters } => TriggerValue::Property {
            property,
            value,
            setters: setters@,
        },
        TriggerPlan::Data { binding_path, relative_source_self, value, setters } => {
            TriggerValue::Data { binding_path, relative_source_self, value, setters: setters@ }
        },
        TriggerPlan::Multi { conditions, setters } => TriggerValue::Multi {
            conditions: conditions@,
            setters: setters@,
        },
    }
}

/// Triggers as values.
pub open spec fn trigger_values(list: Seq<TriggerPlan>) -> Seq<TriggerValue> {
    list.map_values(|t: TriggerPlan| trigger_value(t))
}

/// A built style as a value.
pub open spec fn style_value(p: StylePlan) -> StyleValue
    decreases p,
{
    StyleValue {
        target_type: p.target_type,
        based_on: match p.based_on {
            Some(b) => Some(Box::new(style_value(*b))),
            None => None,
        },
        setters: p.setters@,
        triggers: trigger_values(p.triggers@),
    }
}

/// The property triggers whose property the type has, in order.
pub open spec fn kept_triggers(
    target_type: Seq<char>,
    list: Seq<PropertyTrigger>,
    known: KnownTypes,
) -> Seq<TriggerValue>
    decreases list.len(),
{
    if list.len() == 0 {
        Seq::empty()
    } else {
        let rest = kept_triggers(target_type, list.drop_last(), known);
        let t = list.last();
        if known.properties@.contains((target_type, t.property@)) {
            rest.push(
                TriggerValue::Property {
                    property: t.property,
                    value: t.value,
                    setters: t.setters@,
                },
            )
        } else {
            rest
        }
    }
}

/// Data triggers as values.
pub open spec fn data_values(list: Seq<DataTrigger>) -> Seq<TriggerValue> {
    list.map_values(
        |t: DataTrigger|
            TriggerValue::Data {
                binding_path: t.binding_path,
                relative_source_self: t.relative_source_self,
                value: t.value,
                setters: t.setters@,
            },
    )
}

/// Multi triggers as values.
pub open spec fn multi_values(list: Seq<MultiTrigger>) -> Seq<TriggerValue> {
    list.map_values(
        |t: MultiTrigger|
            TriggerValue::Multi { conditions: t.conditions@, setters: t.setters@ },
    )
}

/// What a declared style becomes.
pub open spec fn planned(spec: StyleSpec, known: KnownTypes) -> Option<StyleValue>
    decreases spec,
{
    if !known.types@.contains(spec.target_type@) {
        None
    } else {
        Some(
            StyleValue {
                target_type: spec.target_type,
                based_on: match spec.based_on {
                    Some(b) => match planned(*b, known) {
                        Some(v) => Some(Box::new(v)),
                        None => None,
                    },
                    None => None,
                },
                setters: spec.setters@,
                triggers: kept_triggers(spec.target_type@, spec.triggers@, known) + data_values(
                    spec.data_triggers@,
                ) + multi_values(spec.multi_triggers@),
            },
        )
    }
}

fn plan_property_triggers(spec: &StyleSpec, known: &KnownTypes) -> (out: Vec<TriggerPlan>)
    ensures
        trigger_values(out@) == kept_triggers(spec.target_type@, spec.triggers@, *known),
{
    let mut out: Vec<TriggerPlan> = Vec::new();
    let n: usize = spec.triggers.len();
    let mut i: usize = 0;
    assert(spec.triggers@.take(0) =~= Seq::<PropertyTrigger>::empty());
    assert(trigger_values(out@) =~= Seq::<TriggerValue>::empty());
    while i < n
        invariant
            i <= n,
            n == spec.triggers@.len(),
            trigger_values(out@) == kept_triggers(
                spec.target_type@,
                spec.triggers@.take(i as int),
                *known,
            ),
        decreases n - i,
    {
        let t = &spec.triggers[i];
        let ghost before = out@;
        proof {
            assert(spec.triggers@.take(i + 1).drop_last() == spec.triggers@.take(i as int));
            assert(spec.triggers@.take(i + 1).last() == *t);
        }
        let key = (spec.target_type.clone(), t.property.clone());
        if known.properties.contains(&key) {
            let plan = TriggerPlan::Property {
                property: t.property.clone(),
                value: t.value.duplicate(),
                setters: copy_list(&t.setters),
            };
            out.push(plan);
            assert(trigger_values(out@) =~= trigger_values(before).push(trigger_value(plan)));
        }
        i = i + 1;
    }
    assert(spec.triggers@.take(n as int) == spec.triggers@);
    out
}

fn plan_data_triggers(spec: &StyleSpec, out: &mut Vec<TriggerPlan>)
    ensures
        trigger_values(final(out)@) == trigger_values(old(out)@) + data_values(
            spec.data_triggers@,
        ),
{
    let n: usize = spec.data_triggers.len();
    let mut i: usize = 0;
    let ghost start = trigger_values(out@);
    let ghost all = data_values(spec.data_triggers@);
    assert(all.take(0) =~= Seq::<TriggerValue>::empty());
    assert(start + all.take(0) =~= start);
    while i < n
        invariant
            i <= n,
            n == spec.data_triggers@.len(),
            all == data_values(spec.data_triggers@),
            trigger_values(out@) == start + all.take(i as int),
        decreases n - i,
    {
        let t = &spec.data_triggers[i];
        let ghost before = out@;
        let plan = TriggerPlan::Data {
            binding_path: t.binding_path.clone(),
            relative_source_self: t.relative_source_self,
            value: t.value.duplicate(),
            setters: copy_list(&t.setters),
        };
        out.push(plan);
        proof {
            assert(trigger_values(out@) =~= trigger_values(before).push(trigger_value(plan)));
            assert(all.take(i + 1) =~= all.take(i as int).push(all[i as int]));
            assert(start + all.take(i + 1) =~= (start + all.take(i as int)).push(all[i as int]));
        }
        i = i + 1;
    }
    assert(all.take(n as int) == all);
}

fn plan_multi_triggers(spec: &StyleSpec, out: &mut Vec<TriggerPlan>)
    ensures
        trigger_values(final(out)@) == trigger_values(old(out)@) + multi_values(
            spec.multi_triggers@,
        ),
{
    let n: usize = spec.multi_triggers.len();
    let mut i: usize = 0;
    let ghost start = trigger_values(out@);
    let ghost all = multi_values(spec.multi_triggers@);
    assert(all.take(0) =~= Seq::<TriggerValue>::empty());
    assert(start + all.take(0) =~= start);
    while i < n
        invariant
            i <= n,
            n == spec.multi_triggers@.len(),
            all == multi_values(spec.multi_triggers@),
            trigger_values(out@) == start + all.take(i as int),
        decreases n - i,
    {
        let t = &spec.multi_triggers[i];
        let ghost before = out@;
        let plan = TriggerPlan::Multi {
            conditions: copy_list(&t.conditions),
            setters: copy_list(&t.setters),
        };
        out.push(plan);
        proof {
            assert(trigger_values(out@) =~= trigger_values(before).push(trigger_value(plan)));
            assert(all.take(i + 1) =~= all.take(i as int).push(all[i as int]));
            assert(start + all.take(i + 1) =~= (start + all.take(i as int)).push(all[i as int]));
        }
        i = i + 1;
    }
    assert(all.take(n as int) == all);
}

/// What a declared style becomes, where `known` is what the engine can resolve.
pub fn build_noesis_style(spec: &StyleSpec, known: &KnownTypes) -> (r: Option<StylePlan>)
    ensures
        match r {
            Some(p) => planned(*spec, *known) == Some(style_value(p)),
            None => planned(*spec, *known) is None,
        },
    decreases spec,
{
    if !known.types.contains(&spec.target_type) {
        return None;
    }
    let based_on = match &spec.based_on {
        Some(b) => match build_noesis_style(b, known) {
            Some(p) => Some(Box::new(p)),
            None => None,
        },
        None => None,
    };
    let mut triggers = plan_property_triggers(spec, known);
    plan_data_triggers(spec, &mut triggers);
    plan_multi_triggers(spec, &mut triggers);
    Some(
        StylePlan {
            target_type: spec.target_type.clone(),
            based_on,
            setters: copy_list(&spec.setters),
            triggers,
        },
    )
}

/// A base style that cannot be built makes no difference to the style.
pub proof fn law_unknown_base_is_skipped(spec: StyleSpec, base: StyleSpec, known: KnownTypes)
    requires
        !known.types@.contains(base.target_type@),
    ensures
        planned(StyleSpec { based_on: Some(Box::new(base)), ..spec }, known) == planned(
            StyleSpec { based_on: None, ..spec },
            known,
        ),
{
    reveal_with_fuel(planned, 2);
}

/// A trigger on a property that the type does not have makes no difference to
/// the style, wherever the other triggers stand.
pub proof fn law_unknown_trigger_is_skipped(
    target_type: Seq<char>,
    before: Seq<PropertyTrigger>,
    t: PropertyTrigger,
    after: Seq<PropertyTrigger>,
    known: KnownTypes,
)
    requires
        !known.properties@.contains((target_type, t.property@)),
    ensures
        kept_triggers(target_type, before.push(t) + after, known) == kept_triggers(
            target_type,
            before + after,
            known,
        ),
    decreases after.len(),
{
    if after.len() == 0 {
        assert(before.push(t) + after =~= before.push(t));
        assert(before + after =~= before);
        assert(before.push(t).drop_last() =~= before);
    } else {
        let rest = after.drop_last();
        law_unknown_trigger_is_skipped(target_type, before, t, rest, known);
        assert((before.push(t) + after).drop_last() =~= before.push(t) + rest);
        assert((before + after).drop_last() =~= before + rest);
        assert((before.push(t) + after).last() == after.last());
        assert((before + after).last() == after.last());
    }
}

/// A style is built exactly where its type is known, for that type, with all of
/// its setters in order and with its data and multi triggers behind the property
/// triggers.
pub proof fn law_styles_keep_what_they_declare(spec: StyleSpec, known: KnownTypes)
    ensures
        planned(spec, known) is Some <==> known.types@.contains(spec.target_type@),
        planned(spec, known) matches Some(v) ==> {
            let own = kept_triggers(spec.target_type@, spec.triggers@, known).len() as int;
            let data = spec.data_triggers@;
            let multi = spec.multi_triggers@;
            &&& v.target_type == spec.target_type
            &&& v.setters == spec.setters@
            &&& v.triggers.len() == own + data.len() + multi.len()
            &&& v.triggers.take(own) == kept_triggers(spec.target_type@, spec.triggers@, known)
            &&& forall|i: int|
                0 <= i < data.len() ==> (#[trigger] v.triggers[own + i]) == (TriggerValue::Data {
                    binding_path: data[i].binding_path,
                    relative_source_self: data[i].relative_source_self,
                    value: data[i].value,
                    setters: data[i].setters@,
                })
            &&& forall|i: int|
                0 <= i < multi.len() ==> (#[trigger] v.triggers[own + data.len() + i]) == (
                TriggerValue::Multi { conditions: multi[i].conditions@, setters: multi[i].setters@ })
            &&& spec.based_on is None ==> v.based_on is None
            &&& spec.based_on matches Some(b) ==> (v.based_on is Some <==> known.types@.contains(
                b.target_type@,
            ))
        },
{
    reveal_with_fuel(planned, 2);
    if let Some(v) = planned(spec, known) {
        let own = kept_triggers(spec.target_type@, spec.triggers@, known);
        assert(v.triggers.take(own.len() as int) =~= own);
    }
}

/// A property trigger is kept, with all it says and in its place, exactly where
/// the type has the property.
pub proof fn law_known_triggers_are_kept(
    target_type: Seq<char>,
    before: Seq<PropertyTrigger>,
    t: PropertyTrigger,
    known: KnownTypes,
)
    ensures
        kept_triggers(target_type, Seq::<PropertyTrigger>::empty(), known).len() == 0,
        known.properties@.contains((target_type, t.property@)) ==> kept_triggers(
            target_type,
            before.push(t),
            known,
        ) == kept_triggers(target_type, before, known).push(
            TriggerValue::Property { property: t.property, value: t.value, setters: t.setters@ },
        ),
        !known.properties@.contains((target_type, t.property@)) ==> kept_triggers(
            target_type,
            before.push(t),
            known,
        ) == kept_triggers(target_type, before, known),
{
    assert(before.push(t).drop_last() =~= before);
}

/// A setter that is appended comes last and leaves those before it alone.
pub proof fn law_setters_are_appended(
    was: Seq<(String, DpValue)>,
    now: Seq<(String, DpValue)>,
    property: Seq<char>,
    value: DpValue,
)
    requires
        appended(was, now, property, value),
    ensures
        now.len() == was.len() + 1,
        forall|i: int| 0 <= i < was.len() ==> #[trigger] now[i] == was[i],
        now.last().0@ == property,
        now.last().1 == value,
{
    assert forall|i: int| 0 <= i < was.len() implies #[trigger] now[i] == was[i] by {
        assert(now.drop_last()[i] == now[i]);
    }
}

} // verus!
