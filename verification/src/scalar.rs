//! Floating-point values as their bit patterns, and the value comparison that
//! change detection uses.
//!
//! The bridges carry sizes, colours and angles without computing with them.
//! Holding the bits keeps every value exactly; [`Float32::same_value`] compares
//! as the numbers compare: zero equals negative zero, and a NaN equals nothing.

use vstd::prelude::*;

verus! {

/// A single-precision value.
#[derive(Clone, Copy, PartialEq, Eq, Debug, Structural)]
pub struct Float32 {
    /// The IEEE 754 encoding.
    pub bits: u32,
}

/// A double-precision value.
#[derive(Clone, Copy, PartialEq, Eq, Debug, Structural)]
pub struct Float64 {
    /// The IEEE 754 encoding.
    pub bits: u64,
}

/// Encoding without the sign bit.
pub open spec fn magnitude32(bits: u32) -> int {
    bits as int % 0x8000_0000
}

/// Encoding without the sign bit.
pub open spec fn magnitude64(bits: u64) -> int {
    bits as int % 0x8000_0000_0000_0000
}

/// Whether an encoding is a NaN: all exponent bits set, some fraction bit set.
pub open spec fn is_nan32(bits: u32) -> bool {
    magnitude32(bits) > 0x7f80_0000
}

/// Whether an encoding is a NaN.
pub open spec fn is_nan64(bits: u64) -> bool {
    magnitude64(bits) > 0x7ff0_0000_0000_0000
}

/// A value that a snapshot can be compared with.
pub trait SameValue: Sized {
    /// Whether the two values compare equal.
    spec fn same(&self, other: &Self) -> bool;

    /// Whether the two values compare equal.
    fn same_value(&self, other: &Self) -> (r: bool)
        ensures
            r == self.same(other),
    ;

    /// The value again.
    fn duplicate(&self) -> (r: Self)
        ensures
            r == *self,
    ;
}

impl SameValue for Float32 {
    open spec fn same(&self, other: &Self) -> bool {
        &&& !is_nan32(self.bits)
        &&& !is_nan32(other.bits)
        &&& self.bits == other.bits || (magnitude32(self.bits) == 0 && magnitude32(other.bits) == 0)
    }

    fn same_value(&self, other: &Self) -> (r: bool) {
        let a: u32 = self.bits % 0x8000_0000;
        let b: u32 = other.bits % 0x8000_0000;
        if a > 0x7f80_0000 || b > 0x7f80_0000 {
            return false;
        }
        self.bits == other.bits || (a == 0 && b == 0)
    }

    fn duplicate(&self) -> (r: Self) {
        *self
    }
}

impl SameValue for Float64 {
    open spec fn same(&self, other: &Self) -> bool {
        &&& !is_nan64(self.bits)
        &&& !is_nan64(other.bits)
        &&& self.bits == other.bits || (magnitude64(self.bits) == 0 && magnitude64(other.bits) == 0)
    }

    fn same_value(&self, other: &Self) -> (r: bool) {
        let a: u64 = self.bits % 0x8000_0000_0000_0000;
        let b: u64 = other.bits % 0x8000_0000_0000_0000;
        if a > 0x7ff0_0000_0000_0000 || b > 0x7ff0_0000_0000_0000 {
            return false;
        }
        self.bits == other.bits || (a == 0 && b == 0)
    }

    fn duplicate(&self) -> (r: Self) {
        *self
    }
}

impl Float32 {
    /// The value with these bits.
    pub fn from_bits(bits: u32) -> (r: Float32)
        ensures
            r.bits == bits,
    {
        Float32 { bits }
    }

    /// 0.
    pub fn zero() -> (r: Float32)
        ensures
            r == zero32(),
    {
        Float32 { bits: 0 }
    }

    /// 1.
    pub fn one() -> (r: Float32)
        ensures
            r == one32(),
    {
        Float32 { bits: 0x3f80_0000 }
    }
}

/// 0.
pub open spec fn zero32() -> Float32 {
    Float32 { bits: 0 }
}

/// 1.
pub open spec fn one32() -> Float32 {
    Float32 { bits: 0x3f80_0000 }
}

impl Float64 {
    /// The value with these bits.
    pub fn from_bits(bits: u64) -> (r: Float64)
        ensures
            r.bits == bits,
    {
        Float64 { bits }
    }
}

/// Two values.
#[derive(Clone, Copy, PartialEq, Eq, Debug, Structural)]
pub struct Vec2 {
    pub x: Float32,
    pub y: Float32,
}

/// Three values.
#[derive(Clone, Copy, PartialEq, Eq, Debug, Structural)]
pub struct Vec3 {
    pub x: Float32,
    pub y: Float32,
    pub z: Float32,
}

/// Four values: red, green, blue and alpha, or x, y, width and height.
#[derive(Clone, Copy, PartialEq, Eq, Debug, Structural)]
pub struct Vec4 {
    pub x: Float32,
    pub y: Float32,
    pub z: Float32,
    pub w: Float32,
}

impl SameValue for Vec2 {
    open spec fn same(&self, other: &Self) -> bool {
        self.x.same(&other.x) && self.y.same(&other.y)
    }

    fn same_value(&self, other: &Self) -> (r: bool) {
        self.x.same_value(&other.x) && self.y.same_value(&other.y)
    }

    fn duplicate(&self) -> (r: Self) {
        *self
    }
}

impl SameValue for Vec3 {
    open spec fn same(&self, other: &Self) -> bool {
        self.x.same(&other.x) && self.y.same(&other.y) && self.z.same(&other.z)
    }

    fn same_value(&self, other: &Self) -> (r: bool) {
        self.x.same_value(&other.x) && self.y.same_value(&other.y) && self.z.same_value(&other.z)
    }

    fn duplicate(&self) -> (r: Self) {
        *self
    }
}

impl SameValue for Vec4 {
    open spec fn same(&self, other: &Self) -> bool {
        self.x.same(&other.x) && self.y.same(&other.y) && self.z.same(&other.z) && self.w.same(
            &other.w,
        )
    }

    fn same_value(&self, other: &Self) -> (r: bool) {
        self.x.same_value(&other.x) && self.y.same_value(&other.y) && self.z.same_value(&other.z)
            && self.w.same_value(&other.w)
    }

    fn duplicate(&self) -> (r: Self) {
        *self
    }
}

impl SameValue for String {
    open spec fn same(&self, other: &Self) -> bool {
        self@ == other@
    }

    fn same_value(&self, other: &Self) -> (r: bool) {
        *self == *other
    }

    fn duplicate(&self) -> (r: Self) {
        self.clone()
    }
}

impl SameValue for u64 {
    open spec fn same(&self, other: &Self) -> bool {
        *self == *other
    }

    fn same_value(&self, other: &Self) -> (r: bool) {
        *self == *other
    }

    fn duplicate(&self) -> (r: Self) {
        *self
    }
}

impl SameValue for bool {
    open spec fn same(&self, other: &Self) -> bool {
        *self == *other
    }

    fn same_value(&self, other: &Self) -> (r: bool) {
        *self == *other
    }

    fn duplicate(&self) -> (r: Self) {
        *self
    }
}

impl SameValue for () {
    open spec fn same(&self, other: &Self) -> bool {
        true
    }

    fn same_value(&self, other: &Self) -> (r: bool) {
        true
    }

    fn duplicate(&self) -> (r: Self) {
        ()
    }
}

impl SameValue for i32 {
    open spec fn same(&self, other: &Self) -> bool {
        *self == *other
    }

    fn same_value(&self, other: &Self) -> (r: bool) {
        *self == *other
    }

    fn duplicate(&self) -> (r: Self) {
        *self
    }
}

impl<T: SameValue> SameValue for Option<T> {
    open spec fn same(&self, other: &Self) -> bool {
        match (*self, *other) {
            (None, None) => true,
            (Some(a), Some(b)) => a.same(&b),
            _ => false,
        }
    }

    fn same_value(&self, other: &Self) -> (r: bool) {
        match (self, other) {
            (None, None) => true,
            (Some(a), Some(b)) => a.same_value(b),
            _ => false,
        }
    }

    fn duplicate(&self) -> (r: Self) {
        match self {
            None => None,
            Some(a) => Some(a.duplicate()),
        }
    }
}

impl<A: SameValue, B: SameValue> SameValue for (A, B) {
    open spec fn same(&self, other: &Self) -> bool {
        self.0.same(&other.0) && self.1.same(&other.1)
    }

    fn same_value(&self, other: &Self) -> (r: bool) {
        self.0.same_value(&other.0) && self.1.same_value(&other.1)
    }

    fn duplicate(&self) -> (r: Self) {
        (self.0.duplicate(), self.1.duplicate())
    }
}

impl<A: SameValue, B: SameValue, C: SameValue> SameValue for (A, B, C) {
    open spec fn same(&self, other: &Self) -> bool {
        self.0.same(&other.0) && self.1.same(&other.1) && self.2.same(&other.2)
    }

    fn same_value(&self, other: &Self) -> (r: bool) {
        self.0.same_value(&other.0) && self.1.same_value(&other.1) && self.2.same_value(&other.2)
    }

    fn duplicate(&self) -> (r: Self) {
        (self.0.duplicate(), self.1.duplicate(), self.2.duplicate())
    }
}

/// Whether two lists hold values that compare equal, place by place.
pub open spec fn same_list<T: SameValue>(a: Seq<T>, b: Seq<T>) -> bool {
    a.len() == b.len() && forall|i: int| 0 <= i < a.len() ==> (#[trigger] a[i]).same(&b[i])
}

/// Whether two lists hold values that compare equal, place by place.
pub fn lists_same<T: SameValue>(a: &Vec<T>, b: &Vec<T>) -> (r: bool)
    ensures
        r == same_list(a@, b@),
{
    if a.len() != b.len() {
        return false;
    }
    let n: usize = a.len();
    let mut i: usize = 0;
    while i < n
        invariant
            i <= n,
            n == a@.len(),
            n == b@.len(),
            forall|j: int| 0 <= j < i ==> (#[trigger] a@[j]).same(&b@[j]),
        decreases n - i,
    {
        if !a[i].same_value(&b[i]) {
            assert(!a@[i as int].same(&b@[i as int]));
            return false;
        }
        i = i + 1;
    }
    true
}

/// A list again.
pub fn copy_list<T: SameValue>(a: &Vec<T>) -> (r: Vec<T>)
    ensures
        r@ == a@,
{
    let mut r: Vec<T> = Vec::new();
    let n: usize = a.len();
    let mut i: usize = 0;
    while i < n
        invariant
            i <= n,
            n == a@.len(),
            r@ == a@.take(i as int),
        decreases n - i,
    {
        r.push(a[i].duplicate());
        i = i + 1;
        assert(r@ =~= a@.take(i as int));
    }
    assert(a@.take(n as int) == a@);
    r
}

/// Numbers compare by value: what is not a number equals nothing, itself
/// included; the two zeros are equal; all others are equal only to themselves.
pub proof fn law_numbers_compare_by_value(a: Float32, b: Float32, c: Float64, d: Float64)
    ensures
        a.bits % 0x8000_0000 > 0x7f80_0000 ==> !a.same(&b) && !b.same(&a),
        a.bits % 0x8000_0000 == 0 && b.bits % 0x8000_0000 == 0 ==> a.same(&b),
        a.bits % 0x8000_0000 <= 0x7f80_0000 ==> a.same(&a),
        a.same(&b) && a.bits % 0x8000_0000 != 0 ==> a.bits == b.bits,
        c.bits % 0x8000_0000_0000_0000 > 0x7ff0_0000_0000_0000 ==> !c.same(&d) && !d.same(&c),
        c.bits % 0x8000_0000_0000_0000 == 0 && d.bits % 0x8000_0000_0000_0000 == 0 ==> c.same(&d),
        c.bits % 0x8000_0000_0000_0000 <= 0x7ff0_0000_0000_0000 ==> c.same(&c),
        c.same(&d) && c.bits % 0x8000_0000_0000_0000 != 0 ==> c.bits == d.bits,
{
}

/// Vectors compare by every component.
pub proof fn law_vectors_compare_by_component(
    a: Vec2,
    b: Vec2,
    c: Vec3,
    d: Vec3,
    e: Vec4,
    f: Vec4,
)
    ensures
        a.same(&b) <==> a.x.same(&b.x) && a.y.same(&b.y),
        c.same(&d) <==> c.x.same(&d.x) && c.y.same(&d.y) && c.z.same(&d.z),
        e.same(&f) <==> e.x.same(&f.x) && e.y.same(&f.y) && e.z.same(&f.z) && e.w.same(&f.w),
{
}

/// What may be missing equals only what is missing too, and pairs and lists
/// compare place by place.
pub proof fn law_parts_compare_one_by_one<A: SameValue, B: SameValue>(
    a: A,
    b: A,
    c: B,
    d: B,
    list: Seq<A>,
    other: Seq<A>,
)
    ensures
        None::<A>.same(&None),
        !Some(a).same(&None) && !None.same(&Some(a)),
        Some(a).same(&Some(b)) == a.same(&b),
        (a, c).same(&(b, d)) <==> a.same(&b) && c.same(&d),
        (a, c, a).same(&(b, d, a)) <==> a.same(&b) && c.same(&d) && a.same(&a),
        same_list(list, other) ==> list.len() == other.len(),
        forall|i: int| #![trigger list[i]] same_list(list, other) && 0 <= i < list.len()
            ==> list[i].same(&other[i]),
        same_list(list.push(a), other.push(b)) && list.len() == other.len() ==> a.same(&b),
{
    if same_list(list.push(a), other.push(b)) && list.len() == other.len() {
        let n = list.len() as int;
        assert(list.push(a)[n].same(&other.push(b)[n]));
    }
}

/// The numbers zero and one, by their bits.
pub proof fn law_zero_and_one()
    ensures
        zero32().bits == 0,
        one32().bits == 0x3f80_0000,
{
}

} // verus!
