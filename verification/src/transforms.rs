//! Render transforms of named elements.

use vstd::prelude::*;

use crate::keyed::KeyedMap;
use crate::scalar::{one32, zero32, Float32, SameValue, Vec2};

verus! {

/// A transform: scale, skew, rotate and translate, in that order, about a
/// shared centre.
#[derive(Clone, Copy, PartialEq, Eq, Debug, Structural)]
pub struct TransformSpec {
    pub translate: Vec2,
    pub scale: Vec2,
    /// In degrees, clockwise.
    pub rotation: Float32,
    pub center: Vec2,
    /// In degrees.
    pub skew: Vec2,
}

/// The origin.
pub open spec fn origin2() -> Vec2 {
    Vec2 { x: zero32(), y: zero32() }
}

/// The transform that changes nothing.
pub open spec fn identity() -> TransformSpec {
    TransformSpec {
        translate: origin2(),
        scale: Vec2 { x: one32(), y: one32() },
        rotation: zero32(),
        center: origin2(),
        skew: origin2(),
    }
}

impl Default for TransformSpec {
    fn default() -> (t: TransformSpec)
        ensures
            t == identity(),
    {
        let zero = Vec2 { x: Float32::zero(), y: Float32::zero() };
        TransformSpec {
            translate: zero,
            scale: Vec2 { x: Float32::one(), y: Float32::one() },
            rotation: Float32::zero(),
            center: zero,
            skew: zero,
        }
    }
}

impl SameValue for TransformSpec {
    open spec fn same(&self, other: &Self) -> bool {
        &&& self.translate.same(&other.translate)
        &&& self.scale.same(&other.scale)
        &&& self.rotation.same(&other.rotation)
        &&& self.center.same(&other.center)
        &&& self.skew.same(&other.skew)
    }

    fn same_value(&self, other: &Self) -> (r: bool) {
        self.translate.same_value(&other.translate) && self.scale.same_value(&other.scale)
            && self.rotation.same_value(&other.rotation) && self.center.same_value(&other.center)
            && self.skew.same_value(&other.skew)
    }

    fn duplicate(&self) -> (r: Self) {
        *self
    }
}

/// The engine's flat form of a transform.
#[derive(Clone, Copy, PartialEq, Eq, Debug, Structural)]
pub struct CompositeFields {
    pub center_x: Float32,
    pub center_y: Float32,
    pub scale_x: Float32,
    pub scale_y: Float32,
    pub skew_x: Float32,
    pub skew_y: Float32,
    pub rotation: Float32,
    pub translate_x: Float32,
    pub translate_y: Float32,
}

/// The flat form of a transform.
pub open spec fn fields_of(s: TransformSpec) -> CompositeFields {
    CompositeFields {
        center_x: s.center.x,
        center_y: s.center.y,
        scale_x: s.scale.x,
        scale_y: s.scale.y,
        skew_x: s.skew.x,
        skew_y: s.skew.y,
        rotation: s.rotation,
        translate_x: s.translate.x,
        translate_y: s.translate.y,
    }
}

/// The transform of a flat form.
pub open spec fn spec_of(f: CompositeFields) -> TransformSpec {
    TransformSpec {
        translate: Vec2 { x: f.translate_x, y: f.translate_y },
        scale: Vec2 { x: f.scale_x, y: f.scale_y },
        rotation: f.rotation,
        center: Vec2 { x: f.center_x, y: f.center_y },
        skew: Vec2 { x: f.skew_x, y: f.skew_y },
    }
}

impl TransformSpec {
    /// The flat form.
    pub fn to_fields(self) -> (f: CompositeFields)
        ensures
            f == fields_of(self),
    {
        CompositeFields {
            center_x: self.center.x,
            center_y: self.center.y,
            scale_x: self.scale.x,
            scale_y: self.scale.y,
            skew_x: self.skew.x,
            skew_y: self.skew.y,
            rotation: self.rotation,
            translate_x: self.translate.x,
            translate_y: self.translate.y,
        }
    }

    /// The transform of a flat form.
    pub fn from_fields(f: CompositeFields) -> (s: TransformSpec)
        ensures
            s == spec_of(f),
    {
        TransformSpec {
            translate: Vec2 { x: f.translate_x, y: f.translate_y },
            scale: Vec2 { x: f.scale_x, y: f.scale_y },
            rotation: f.rotation,
            center: Vec2 { x: f.center_x, y: f.center_y },
            skew: Vec2 { x: f.skew_x, y: f.skew_y },
        }
    }
}

/// Flattening and reading back are inverse to each other.
pub proof fn law_fields_round_trip(s: TransformSpec, f: CompositeFields)
    ensures
        spec_of(fields_of(s)) == s,
        fields_of(spec_of(f)) == f,
{
}

/// The transforms that a view gives its elements.
pub struct NoesisTransform {
    /// Transforms by element name.
    pub transforms: KeyedMap<String, TransformSpec>,
}

/// The transform of `name` so far.
pub open spec fn current(m: Map<Seq<char>, TransformSpec>, name: Seq<char>) -> TransformSpec {
    if m.contains_key(name) {
        m[name]
    } else {
        identity()
    }
}

impl Default for NoesisTransform {
    fn default() -> (t: NoesisTransform)
        ensures
            t.transforms@ == Map::<Seq<char>, TransformSpec>::empty(),
    {
        NoesisTransform { transforms: KeyedMap::new() }
    }
}

impl NoesisTransform {
    /// No transforms.
    pub fn new() -> (t: NoesisTransform)
        ensures
            t.transforms@ == Map::<Seq<char>, TransformSpec>::empty(),
    {
        NoesisTransform::default()
    }

    fn entry(&self, name: &str) -> (s: TransformSpec)
        ensures
            s == current(self.transforms@, name@),
    {
        match self.transforms.get(name) {
            Some(s) => *s,
            None => TransformSpec::default(),
        }
    }

    /// Replaces the whole transform of `name`.
    pub fn set(self, name: &str, spec: TransformSpec) -> (t: NoesisTransform)
        ensures
            t.transforms@ == self.transforms@.insert(name@, spec),
    {
        let mut t = self;
        t.write(name, spec);
        t
    }

    /// Sets the translation of `name` and keeps the rest.
    pub fn translate(self, name: &str, x: Float32, y: Float32) -> (t: NoesisTransform)
        ensures
            t.transforms@ == self.transforms@.insert(
                name@,
                TransformSpec { translate: Vec2 { x, y }, ..current(self.transforms@, name@) },
            ),
    {
        let mut t = self;
        t.set_translate(name, x, y);
        t
    }

    /// Sets the scale of `name` and keeps the rest.
    pub fn scale(self, name: &str, x: Float32, y: Float32) -> (t: NoesisTransform)
        ensures
            t.transforms@ == self.transforms@.insert(
                name@,
                TransformSpec { scale: Vec2 { x, y }, ..current(self.transforms@, name@) },
            ),
    {
        let mut t = self;
        t.set_scale(name, x, y);
        t
    }

    /// Sets the rotation of `name` and keeps the rest.
    pub fn rotate(self, name: &str, degrees: Float32) -> (t: NoesisTransform)
        ensures
            t.transforms@ == self.transforms@.insert(
                name@,
                TransformSpec { rotation: degrees, ..current(self.transforms@, name@) },
            ),
    {
        let mut t = self;
        t.set_rotation(name, degrees);
        t
    }

    /// Sets the centre of `name` and keeps the rest.
    pub fn center(self, name: &str, x: Float32, y: Float32) -> (t: NoesisTransform)
        ensures
            t.transforms@ == self.transforms@.insert(
                name@,
                TransformSpec { center: Vec2 { x, y }, ..current(self.transforms@, name@) },
            ),
    {
        let mut t = self;
        t.set_center(name, x, y);
        t
    }

    /// Sets the skew of `name` and keeps the rest.
    pub fn skew(self, name: &str, x: Float32, y: Float32) -> (t: NoesisTransform)
        ensures
            t.transforms@ == self.transforms@.insert(
                name@,
                TransformSpec { skew: Vec2 { x, y }, ..current(self.transforms@, name@) },
            ),
    {
        let mut t = self;
        t.set_skew(name, x, y);
        t
    }

    /// Replaces the whole transform of `name`.
    pub fn write(&mut self, name: &str, spec: TransformSpec)
        ensures
            final(self).transforms@ == old(self).transforms@.insert(name@, spec),
    {
        self.transforms.insert(name.to_owned(), spec);
    }

    /// Sets the translation of `name` and keeps the rest.
    pub fn set_translate(&mut self, name: &str, x: Float32, y: Float32)
        ensures
            final(self).transforms@ == old(self).transforms@.insert(
                name@,
                TransformSpec {
                    translate: Vec2 { x, y },
                    ..current(old(self).transforms@, name@)
                },
            ),
    {
        let s = self.entry(name);
        self.write(name, TransformSpec { translate: Vec2 { x, y }, ..s });
    }

    /// Sets the scale of `name` and keeps the rest.
    pub fn set_scale(&mut self, name: &str, x: Float32, y: Float32)
        ensures
            final(self).transforms@ == old(self).transforms@.insert(
                name@,
                TransformSpec { scale: Vec2 { x, y }, ..current(old(self).transforms@, name@) },
            ),
    {
        let s = self.entry(name);
        self.write(name, TransformSpec { scale: Vec2 { x, y }, ..s });
    }

    /// Sets the rotation of `name` and keeps the rest.
    pub fn set_rotation(&mut self, name: &str, degrees: Float32)
        ensures
            final(self).transforms@ == old(self).transforms@.insert(
                name@,
                TransformSpec { rotation: degrees, ..current(old(self).transforms@, name@) },
            ),
    {
        let s = self.entry(name);
        self.write(name, TransformSpec { rotation: degrees, ..s });
    }

    /// Sets the centre of `name` and keeps the rest.
    pub fn set_center(&mut self, name: &str, x: Float32, y: Float32)
        ensures
            final(self).transforms@ == old(self).transforms@.insert(
                name@,
                TransformSpec { center: Vec2 { x, y }, ..current(old(self).transforms@, name@) },
            ),
    {
        let s = self.entry(name);
        self.write(name, TransformSpec { center: Vec2 { x, y }, ..s });
    }

    /// Sets the skew of `name` and keeps the rest.
    pub fn set_skew(&mut self, name: &str, x: Float32, y: Float32)
        ensures
            final(self).transforms@ == old(self).transforms@.insert(
                name@,
                TransformSpec { skew: Vec2 { x, y }, ..current(old(self).transforms@, name@) },
            ),
    {
        let s = self.entry(name);
        self.write(name, TransformSpec { skew: Vec2 { x, y }, ..s });
    }
}

/// A view's element has another transform.
pub struct NoesisTransformChanged {
    pub view: u64,
    pub name: String,
    /// What the engine holds.
    pub spec: TransformSpec,
}

/// Setting one part of an element's transform and then another gives the same
/// in either order, and leaves other elements alone.
pub proof fn law_parts_merge(
    m: Map<Seq<char>, TransformSpec>,
    name: Seq<char>,
    other: Seq<char>,
    translate: Vec2,
    scale: Vec2,
)
    requires
        other != name,
    ensures
        ({
            let moved = m.insert(name, TransformSpec { translate, ..current(m, name) });
            let scaled = m.insert(name, TransformSpec { scale, ..current(m, name) });
            &&& moved.insert(name, TransformSpec { scale, ..current(moved, name) })
                == scaled.insert(name, TransformSpec { translate, ..current(scaled, name) })
            &&& current(moved, other) == current(m, other)
        }),
{
    let moved = m.insert(name, TransformSpec { translate, ..current(m, name) });
    let scaled = m.insert(name, TransformSpec { scale, ..current(m, name) });
    assert(moved.insert(name, TransformSpec { scale, ..current(moved, name) })
        =~= scaled.insert(name, TransformSpec { translate, ..current(scaled, name) }));
}

/// Transforms compare by every part.
pub proof fn law_transforms_compare_in_full(a: TransformSpec, b: TransformSpec)
    ensures
        a.same(&b) <==> {
            &&& a.translate.x.same(&b.translate.x) && a.translate.y.same(&b.translate.y)
            &&& a.scale.x.same(&b.scale.x) && a.scale.y.same(&b.scale.y)
            &&& a.rotation.same(&b.rotation)
            &&& a.center.x.same(&b.center.x) && a.center.y.same(&b.center.y)
            &&& a.skew.x.same(&b.skew.x) && a.skew.y.same(&b.skew.y)
        },
{
}

/// Each field of the flat form holds the part it is named after.
pub proof fn law_fields_hold_their_part(s: TransformSpec)
    ensures
        fields_of(s).center_x == s.center.x && fields_of(s).center_y == s.center.y,
        fields_of(s).scale_x == s.scale.x && fields_of(s).scale_y == s.scale.y,
        fields_of(s).skew_x == s.skew.x && fields_of(s).skew_y == s.skew.y,
        fields_of(s).translate_x == s.translate.x && fields_of(s).translate_y == s.translate.y,
        fields_of(s).rotation == s.rotation,
{
}

/// An element without a transform is neither moved, turned nor skewed, and has
/// its own size; one with a transform has that.
pub proof fn law_elements_start_untransformed(m: Map<Seq<char>, TransformSpec>, name: Seq<char>)
    ensures
        m.contains_key(name) ==> current(m, name) == m[name],
        !m.contains_key(name) ==> {
            let s = current(m, name);
            &&& s.translate.x.bits == 0 && s.translate.y.bits == 0
            &&& s.scale.x.bits == 0x3f80_0000 && s.scale.y.bits == 0x3f80_0000
            &&& s.rotation.bits == 0
            &&& s.center.x.bits == 0 && s.center.y.bits == 0
            &&& s.skew.x.bits == 0 && s.skew.y.bits == 0
        },
{
}

} // verus!
