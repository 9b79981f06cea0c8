//! Transforms of named elements in three dimensions.

use vstd::prelude::*;

use crate::keyed::KeyedMap;
use crate::scalar::{one32, zero32, Float32, SameValue, Vec3};

verus! {

/// A transform: scale, rotate and translate, in that order, about a shared
/// centre.
#[derive(Clone, Copy, PartialEq, Eq, Debug, Structural)]
pub struct Transform3DSpec {
    pub center: Vec3,
    /// About each axis, in degrees.
    pub rotation: Vec3,
    pub scale: Vec3,
    pub translate: Vec3,
}

/// The origin.
pub open spec fn origin3() -> Vec3 {
    Vec3 { x: zero32(), y: zero32(), z: zero32() }
}

/// The transform that changes nothing.
pub open spec fn identity3d() -> Transform3DSpec {
    Transform3DSpec {
        center: origin3(),
        rotation: origin3(),
        scale: Vec3 { x: one32(), y: one32(), z: one32() },
        translate: origin3(),
    }
}

impl Default for Transform3DSpec {
    fn default() -> (t: Transform3DSpec)
        ensures
            t == identity3d(),
    {
        let zero = Vec3 { x: Float32::zero(), y: Float32::zero(), z: Float32::zero() };
        Transform3DSpec {
            center: zero,
            rotation: zero,
            scale: Vec3 { x: Float32::one(), y: Float32::one(), z: Float32::one() },
            translate: zero,
        }
    }
}

impl SameValue for Transform3DSpec {
    open spec fn same(&self, other: &Self) -> bool {
        &&& self.center.same(&other.center)
        &&& self.rotation.same(&other.rotation)
        &&& self.scale.same(&other.scale)
        &&& self.translate.same(&other.translate)
    }

    fn same_value(&self, other: &Self) -> (r: bool) {
        self.center.same_value(&other.center) && self.rotation.same_value(&other.rotation)
            && self.scale.same_value(&other.scale) && self.translate.same_value(&other.translate)
    }

    fn duplicate(&self) -> (r: Self) {
        *self
    }
}

/// The engine's flat form of a transform.
#[derive(Clone, Copy, PartialEq, Eq, Debug, Structural)]
pub struct Composite3DFields {
    pub center_x: Float32,
    pub center_y: Float32,
    pub center_z: Float32,
    pub rotation_x: Float32,
    pub rotation_y: Float32,
    pub rotation_z: Float32,
    pub scale_x: Float32,
    pub scale_y: Float32,
    pub scale_z: Float32,
    pub translate_x: Float32,
    pub translate_y: Float32,
    pub translate_z: Float32,
}

/// The flat form of a transform.
pub open spec fn fields3d_of(s: Transform3DSpec) -> Composite3DFields {
    Composite3DFields {
        center_x: s.center.x,
        center_y: s.center.y,
        center_z: s.center.z,
        rotation_x: s.rotation.x,
        rotation_y: s.rotation.y,
        rotation_z: s.rotation.z,
        scale_x: s.scale.x,
        scale_y: s.scale.y,
        scale_z: s.scale.z,
        translate_x: s.translate.x,
        translate_y: s.translate.y,
        translate_z: s.translate.z,
    }
}

/// The transform of a flat form.
pub open spec fn spec3d_of(f: Composite3DFields) -> Transform3DSpec {
    Transform3DSpec {
        center: Vec3 { x: f.center_x, y: f.center_y, z: f.center_z },
        rotation: Vec3 { x: f.rotation_x, y: f.rotation_y, z: f.rotation_z },
        scale: Vec3 { x: f.scale_x, y: f.scale_y, z: f.scale_z },
        translate: Vec3 { x: f.translate_x, y: f.translate_y, z: f.translate_z },
    }
}

impl Transform3DSpec {
    /// The flat form.
    pub fn to_fields(self) -> (f: Composite3DFields)
        ensures
            f == fields3d_of(self),
    {
        Composite3DFields {
            center_x: self.center.x,
            center_y: self.center.y,
            center_z: self.center.z,
            rotation_x: self.rotation.x,
            rotation_y: self.rotation.y,
            rotation_z: self.rotation.z,
            scale_x: self.scale.x,
            scale_y: self.scale.y,
            scale_z: self.scale.z,
            translate_x: self.translate.x,
            translate_y: self.translate.y,
            translate_z: self.translate.z,
        }
    }

    /// The transform of a flat form.
    pub fn from_fields(f: Composite3DFields) -> (s: Transform3DSpec)
        ensures
            s == spec3d_of(f),
    {
        Transform3DSpec {
            center: Vec3 { x: f.center_x, y: f.center_y, z: f.center_z },
            rotation: Vec3 { x: f.rotation_x, y: f.rotation_y, z: f.rotation_z },
            scale: Vec3 { x: f.scale_x, y: f.scale_y, z: f.scale_z },
            translate: Vec3 { x: f.translate_x, y: f.translate_y, z: f.translate_z },
        }
    }
}

/// Flattening and reading back are inverse to each other.
pub proof fn law_fields3d_round_trip(s: Transform3DSpec, f: Composite3DFields)
    ensures
        spec3d_of(fields3d_of(s)) == s,
        fields3d_of(spec3d_of(f)) == f,
{
}

/// A transform as the rows of a matrix: three for the axes and one for the
/// translation, of three numbers each.
#[derive(Clone, Copy, PartialEq, Eq, Debug)]
pub struct Matrix3DSpec {
    pub rows: [Float32; 12],
}

impl SameValue for Matrix3DSpec {
    open spec fn same(&self, other: &Self) -> bool {
        forall|i: int| 0 <= i < 12 ==> (#[trigger] self.rows@[i]).same(&other.rows@[i])
    }

    fn same_value(&self, other: &Self) -> (r: bool) {
        let mut i: usize = 0;
        while i < 12
            invariant
                i <= 12,
                forall|j: int| 0 <= j < i ==> (#[trigger] self.rows@[j]).same(&other.rows@[j]),
            decreases 12 - i,
        {
            if !self.rows[i].same_value(&other.rows[i]) {
                return false;
            }
            i = i + 1;
        }
        true
    }

    fn duplicate(&self) -> (r: Self) {
        *self
    }
}

/// The transforms that a view gives its elements.
pub struct NoesisTransform3D {
    /// Transforms by element name.
    pub transforms: KeyedMap<String, Transform3DSpec>,
}

/// The transform of `name` so far.
pub open spec fn current3d(m: Map<Seq<char>, Transform3DSpec>, name: Seq<char>) -> Transform3DSpec {
    if m.contains_key(name) {
        m[name]
    } else {
        identity3d()
    }
}

impl Default for NoesisTransform3D {
    fn default() -> (t: NoesisTransform3D)
        ensures
            t.transforms@ == Map::<Seq<char>, Transform3DSpec>::empty(),
    {
        NoesisTransform3D { transforms: KeyedMap::new() }
    }
}

impl NoesisTransform3D {
    /// No transforms.
    pub fn new() -> (t: NoesisTransform3D)
        ensures
            t.transforms@ == Map::<Seq<char>, Transform3DSpec>::empty(),
    {
        NoesisTransform3D::default()
    }

    fn entry(&self, name: &str) -> (s: Transform3DSpec)
        ensures
            s == current3d(self.transforms@, name@),
    {
        match self.transforms.get(name) {
            Some(s) => *s,
            None => Transform3DSpec::default(),
        }
    }

    /// Replaces the whole transform of `name`.
    pub fn set(self, name: &str, spec: Transform3DSpec) -> (t: NoesisTransform3D)
        ensures
            t.transforms@ == self.transforms@.insert(name@, spec),
    {
        let mut transforms = self.transforms;
        transforms.insert(name.to_owned(), spec);
        NoesisTransform3D { transforms }
    }

    /// Sets the translation of `name` and keeps the rest.
    pub fn translate(self, name: &str, x: Float32, y: Float32, z: Float32) -> (t: NoesisTransform3D)
        ensures
            t.transforms@ == self.transforms@.insert(
                name@,
                Transform3DSpec {
                    translate: Vec3 { x, y, z },
                    ..current3d(self.transforms@, name@)
                },
            ),
    {
        let s = self.entry(name);
        self.set(name, Transform3DSpec { translate: Vec3 { x, y, z }, ..s })
    }

    /// Sets the scale of `name` and keeps the rest.
    pub fn scale(self, name: &str, x: Float32, y: Float32, z: Float32) -> (t: NoesisTransform3D)
        ensures
            t.transforms@ == self.transforms@.insert(
                name@,
                Transform3DSpec { scale: Vec3 { x, y, z }, ..current3d(self.transforms@, name@) },
            ),
    {
        let s = self.entry(name);
        self.set(name, Transform3DSpec { scale: Vec3 { x, y, z }, ..s })
    }

    /// Sets the centre of `name` and keeps the rest.
    pub fn center(self, name: &str, x: Float32, y: Float32, z: Float32) -> (t: NoesisTransform3D)
        ensures
            t.transforms@ == self.transforms@.insert(
                name@,
                Transform3DSpec { center: Vec3 { x, y, z }, ..current3d(self.transforms@, name@) },
            ),
    {
        let s = self.entry(name);
        self.set(name, Transform3DSpec { center: Vec3 { x, y, z }, ..s })
    }

    /// Sets all rotations of `name` and keeps the rest.
    pub fn rotate(self, name: &str, x: Float32, y: Float32, z: Float32) -> (t: NoesisTransform3D)
        ensures
            t.transforms@ == self.transforms@.insert(
                name@,
                Transform3DSpec {
                    rotation: Vec3 { x, y, z },
                    ..current3d(self.transforms@, name@)
                },
            ),
    {
        let s = self.entry(name);
        self.set(name, Transform3DSpec { rotation: Vec3 { x, y, z }, ..s })
    }

    /// Sets the rotation of `name` about the x axis and keeps the rest.
    pub fn rotate_x(self, name: &str, degrees: Float32) -> (t: NoesisTransform3D)
        ensures
            ({
                let s = current3d(self.transforms@, name@);
                t.transforms@ == self.transforms@.insert(
                    name@,
                    Transform3DSpec { rotation: Vec3 { x: degrees, ..s.rotation }, ..s },
                )
            }),
    {
        let s = self.entry(name);
        self.set(name, Transform3DSpec { rotation: Vec3 { x: degrees, ..s.rotation }, ..s })
    }

    /// Sets the rotation of `name` about the y axis and keeps the rest.
    pub fn rotate_y(self, name: &str, degrees: Float32) -> (t: NoesisTransform3D)
        ensures
            ({
                let s = current3d(self.transforms@, name@);
                t.transforms@ == self.transforms@.insert(
                    name@,
                    Transform3DSpec { rotation: Vec3 { y: degrees, ..s.rotation }, ..s },
                )
            }),
    {
        let s = self.entry(name);
        self.set(name, Transform3DSpec { rotation: Vec3 { y: degrees, ..s.rotation }, ..s })
    }

    /// Sets the rotation of `name` about the z axis and keeps the rest.
    pub fn rotate_z(self, name: &str, degrees: Float32) -> (t: NoesisTransform3D)
        ensures
            ({
                let s = current3d(self.transforms@, name@);
                t.transforms@ == self.transforms@.insert(
                    name@,
                    Transform3DSpec { rotation: Vec3 { z: degrees, ..s.rotation }, ..s },
                )
            }),
    {
        let s = self.entry(name);
        self.set(name, Transform3DSpec { rotation: Vec3 { z: degrees, ..s.rotation }, ..s })
    }
}

/// A view's element has another transform.
pub struct NoesisTransform3DChanged {
    pub view: u64,
    pub name: String,
    /// What the engine holds.
    pub spec: Transform3DSpec,
}

/// The rotations about the three axes, set one by one in any order, are the
/// rotation set at once.
pub proof fn law_axes_merge(s: Transform3DSpec, r: Vec3)
    ensures
        ({
            let x = Transform3DSpec { rotation: Vec3 { x: r.x, ..s.rotation }, ..s };
            let xy = Transform3DSpec { rotation: Vec3 { y: r.y, ..x.rotation }, ..x };
            let y = Transform3DSpec { rotation: Vec3 { y: r.y, ..s.rotation }, ..s };
            let yx = Transform3DSpec { rotation: Vec3 { x: r.x, ..y.rotation }, ..y };
            let xyz = Transform3DSpec { rotation: Vec3 { z: r.z, ..xy.rotation }, ..xy };
            &&& xy == yx
            &&& xyz == (Transform3DSpec { rotation: r, ..s })
        }),
{
}

/// Transforms compare by every part, and matrices by every number.
pub proof fn law_transforms3d_compare_in_full(
    a: Transform3DSpec,
    b: Transform3DSpec,
    m: Matrix3DSpec,
    n: Matrix3DSpec,
    i: int,
)
    requires
        0 <= i < 12,
    ensures
        a.same(&b) <==> a.center.same(&b.center) && a.rotation.same(&b.rotation) && a.scale.same(
            &b.scale,
        ) && a.translate.same(&b.translate),
        m.same(&n) ==> m.rows@[i].same(&n.rows@[i]),
{
}

/// Each field of the flat form holds the part it is named after.
pub proof fn law_fields3d_hold_their_part(s: Transform3DSpec)
    ensures
        ({
            let f = fields3d_of(s);
            &&& f.center_x == s.center.x && f.center_y == s.center.y && f.center_z == s.center.z
            &&& f.rotation_x == s.rotation.x && f.rotation_y == s.rotation.y
            &&& f.rotation_z == s.rotation.z
            &&& f.scale_x == s.scale.x && f.scale_y == s.scale.y && f.scale_z == s.scale.z
            &&& f.translate_x == s.translate.x && f.translate_y == s.translate.y
            &&& f.translate_z == s.translate.z
        }),
{
}

/// An element without a transform is neither moved nor turned, and has its own
/// size; one with a transform has that.
pub proof fn law_elements_start_untransformed3d(
    m: Map<Seq<char>, Transform3DSpec>,
    name: Seq<char>,
)
    ensures
        m.contains_key(name) ==> current3d(m, name) == m[name],
        !m.contains_key(name) ==> {
            let s = current3d(m, name);
            &&& s.translate.x.bits == 0 && s.translate.y.bits == 0 && s.translate.z.bits == 0
            &&& s.rotation.x.bits == 0 && s.rotation.y.bits == 0 && s.rotation.z.bits == 0
            &&& s.center.x.bits == 0 && s.center.y.bits == 0 && s.center.z.bits == 0
            &&& s.scale.x.bits == 0x3f80_0000 && s.scale.y.bits == 0x3f80_0000
            &&& s.scale.z.bits == 0x3f80_0000
        },
{
}

} // verus!
