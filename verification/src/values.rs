//! Values of element properties: boxed scalars and code-built brushes.

use vstd::prelude::*;

use crate::keyed::{
    distinct_keys, has_key, key_index, lemma_entry_in_map, map_of, values_view, Key, KeyedMap,
};
use crate::scalar::{copy_list, lists_same, same_list, Float32, Float64, SameValue, Vec2, Vec4};

verus! {

/// A value of a dependency property. The variant must match the property's
/// type exactly: a double does not stand for a single.
pub enum DpValue {
    Bool(bool),
    I32(i32),
    F32(Float32),
    F64(Float64),
    String(String),
}

impl SameValue for DpValue {
    open spec fn same(&self, other: &Self) -> bool {
        match (self, other) {
            (DpValue::Bool(a), DpValue::Bool(b)) => a == b,
            (DpValue::I32(a), DpValue::I32(b)) => a == b,
            (DpValue::F32(a), DpValue::F32(b)) => a.same(b),
            (DpValue::F64(a), DpValue::F64(b)) => a.same(b),
            (DpValue::String(a), DpValue::String(b)) => a@ == b@,
            _ => false,
        }
    }

    fn same_value(&self, other: &Self) -> (r: bool) {
        match (self, other) {
            (DpValue::Bool(a), DpValue::Bool(b)) => *a == *b,
            (DpValue::I32(a), DpValue::I32(b)) => *a == *b,
            (DpValue::F32(a), DpValue::F32(b)) => a.same_value(b),
            (DpValue::F64(a), DpValue::F64(b)) => a.same_value(b),
            (DpValue::String(a), DpValue::String(b)) => *a == *b,
            _ => false,
        }
    }

    fn duplicate(&self) -> (r: Self) {
        match self {
            DpValue::Bool(a) => DpValue::Bool(*a),
            DpValue::I32(a) => DpValue::I32(*a),
            DpValue::F32(a) => DpValue::F32(*a),
            DpValue::F64(a) => DpValue::F64(*a),
            DpValue::String(a) => DpValue::String(a.clone()),
        }
    }
}

/// A stop of a gradient.
#[derive(Clone, Copy, PartialEq, Eq, Debug, Structural)]
pub struct GradientStop {
    pub offset: Float32,
    pub color: Vec4,
}

impl SameValue for GradientStop {
    open spec fn same(&self, other: &Self) -> bool {
        self.offset.same(&other.offset) && self.color.same(&other.color)
    }

    fn same_value(&self, other: &Self) -> (r: bool) {
        self.offset.same_value(&other.offset) && self.color.same_value(&other.color)
    }

    fn duplicate(&self) -> (r: Self) {
        *self
    }
}

/// A code-built brush.
pub enum BrushSpec {
    /// One colour.
    Solid(Vec4),
    /// A gradient along a line.
    LinearGradient { start: Vec2, end: Vec2, stops: Vec<GradientStop> },
}

/// A brush as a value.
pub enum BrushValue {
    Solid(Vec4),
    LinearGradient { start: Vec2, end: Vec2, stops: Seq<GradientStop> },
}

impl View for BrushSpec {
    type V = BrushValue;

    open spec fn view(&self) -> BrushValue {
        match self {
            BrushSpec::Solid(c) => BrushValue::Solid(*c),
            BrushSpec::LinearGradient { start, end, stops } => BrushValue::LinearGradient {
                start: *start,
                end: *end,
                stops: stops@,
            },
        }
    }
}

/// A setting that is compared with what was set before, and remembered.
pub trait Setting: View + Sized {
    /// Whether two settings compare equal.
    spec fn alike(a: Self::V, b: Self::V) -> bool;

    /// Whether two settings compare equal.
    fn is_alike(&self, other: &Self) -> (r: bool)
        ensures
            r == Self::alike(self@, other@),
    ;

    /// The setting again.
    fn again(&self) -> (r: Self)
        ensures
            r@ == self@,
    ;
}

impl Setting for BrushSpec {
    open spec fn alike(a: BrushValue, b: BrushValue) -> bool {
        match (a, b) {
            (BrushValue::Solid(x), BrushValue::Solid(y)) => x.same(&y),
            (
                BrushValue::LinearGradient { start: s, end: e, stops: p },
                BrushValue::LinearGradient { start: t, end: f, stops: q },
            ) => s.same(&t) && e.same(&f) && same_list(p, q),
            _ => false,
        }
    }

    fn is_alike(&self, other: &Self) -> (r: bool) {
        match (self, other) {
            (BrushSpec::Solid(x), BrushSpec::Solid(y)) => x.same_value(y),
            (
                BrushSpec::LinearGradient { start: s, end: e, stops: p },
                BrushSpec::LinearGradient { start: t, end: f, stops: q },
            ) => s.same_value(t) && e.same_value(f) && lists_same(p, q),
            _ => false,
        }
    }

    fn again(&self) -> (r: Self) {
        match self {
            BrushSpec::Solid(c) => BrushSpec::Solid(*c),
            BrushSpec::LinearGradient { start, end, stops } => BrushSpec::LinearGradient {
                start: *start,
                end: *end,
                stops: copy_list(stops),
            },
        }
    }
}

/// Whether two maps have the same keys with settings that compare equal.
pub open spec fn maps_alike<K, V: Setting>(a: Map<K, V::V>, b: Map<K, V::V>) -> bool {
    a.dom() == b.dom() && forall|k: K| #[trigger] a.contains_key(k) ==> V::alike(a[k], b[k])
}

/// Whether two maps have the same keys with settings that compare equal.
pub fn are_alike<K: Key, V: Setting>(a: &KeyedMap<K, V>, b: &KeyedMap<K, V>) -> (r: bool)
    ensures
        r == maps_alike::<K::V, V>(values_view(a@), values_view(b@)),
{
    let ghost x = values_view(a@);
    let ghost y = values_view(b@);
    let n: usize = a.len();
    let ghost all = a.listed();
    let mut i: usize = 0;
    while i < n
        invariant
            i <= n,
            n == all.len(),
            all == a.listed(),
            distinct_keys(all),
            a@ == map_of(all),
            x == values_view(a@),
            y == values_view(b@),
            forall|j: int|
                0 <= j < i ==> y.contains_key((#[trigger] all[j]).0@) && V::alike(
                    all[j].1@,
                    y[all[j].0@],
                ),
        decreases n - i,
    {
        let entry = a.at(i);
        proof {
            lemma_entry_in_map(all, i as int);
            assert(x.contains_key(entry.0@) && x[entry.0@] == entry.1@);
        }
        let same = match b.get(&entry.0) {
            Some(v) => entry.1.is_alike(v),
            None => false,
        };
        if !same {
            return false;
        }
        i = i + 1;
    }
    let m: usize = b.len();
    let ghost others = b.listed();
    let mut j: usize = 0;
    while j < m
        invariant
            j <= m,
            m == others.len(),
            others == b.listed(),
            distinct_keys(others),
            b@ == map_of(others),
            x == values_view(a@),
            y == values_view(b@),
            forall|k: int| 0 <= k < j ==> x.contains_key((#[trigger] others[k]).0@),
        decreases m - j,
    {
        let entry = b.at(j);
        if !a.contains_key(&entry.0) {
            proof {
                lemma_entry_in_map(others, j as int);
                assert(y.contains_key(entry.0@) && !x.contains_key(entry.0@));
            }
            return false;
        }
        j = j + 1;
    }
    proof {
        assert forall|k: K::V| #[trigger] x.contains_key(k) implies y.contains_key(k) && V::alike(
            x[k],
            y[k],
        ) by {
            assert(has_key(all, k));
            let p = key_index(all, k);
            assert(all[p].0@ == k);
            lemma_entry_in_map(all, p);
        }
        assert forall|k: K::V| y.contains_key(k) implies x.contains_key(k) by {
            assert(has_key(others, k));
            let p = key_index(others, k);
            assert(others[p].0@ == k);
        }
        assert(x.dom() =~= y.dom());
    }
    true
}

/// A map again.
pub fn copy_settings<K: Key, V: Setting>(m: &KeyedMap<K, V>) -> (r: KeyedMap<K, V>)
    ensures
        values_view(r@) == values_view(m@),
{
    let mut r: KeyedMap<K, V> = KeyedMap::new();
    let n: usize = m.len();
    let ghost all = m.listed();
    let mut i: usize = 0;
    while i < n
        invariant
            i <= n,
            n == all.len(),
            all == m.listed(),
            distinct_keys(all),
            m@ == map_of(all),
            forall|k: K::V| #[trigger] r@.contains_key(k) <==> has_key(all.take(i as int), k),
            forall|k: K::V| #[trigger] r@.contains_key(k) ==> r@[k]@ == m@[k]@,
        decreases n - i,
    {
        let entry = m.at(i);
        let ghost before = r@;
        r.insert(entry.0.copy_key(), entry.1.again());
        proof {
            lemma_entry_in_map(all, i as int);
            let part = all.take(i as int);
            let next = all.take(i + 1);
            assert(next == part.push(all[i as int]));
            assert forall|k: K::V| #[trigger] r@.contains_key(k) <==> has_key(next, k) by {
                if before.contains_key(k) {
                    let j = key_index(part, k);
                    assert(next[j].0@ == k);
                }
                if k == entry.0@ {
                    assert(next[i as int].0@ == k);
                }
                if has_key(next, k) {
                    let j = key_index(next, k);
                    if j < i {
                        assert(part[j].0@ == k);
                    }
                }
            }
        }
        i = i + 1;
    }
    proof {
        assert(all.take(n as int) == all);
        assert(values_view(r@) =~= values_view(m@));
    }
    r
}

/// Whether two brushes are the same: of one kind, and with the same colour, or
/// the same ends and the same stops one by one.
pub open spec fn same_brush(a: BrushSpec, b: BrushSpec) -> bool {
    match (a, b) {
        (BrushSpec::Solid(x), BrushSpec::Solid(y)) => {
            &&& x.x.same(&y.x) && x.y.same(&y.y)
            &&& x.z.same(&y.z) && x.w.same(&y.w)
        },
        (
            BrushSpec::LinearGradient { start: s, end: e, stops: p },
            BrushSpec::LinearGradient { start: t, end: f, stops: q },
        ) => {
            &&& s.x.same(&t.x) && s.y.same(&t.y)
            &&& e.x.same(&f.x) && e.y.same(&f.y)
            &&& p@.len() == q@.len()
            &&& forall|i: int|
                0 <= i < p@.len() ==> {
                    let (l, r) = (#[trigger] p@[i], q@[i]);
                    &&& l.offset.same(&r.offset)
                    &&& l.color.x.same(&r.color.x) && l.color.y.same(&r.color.y)
                    &&& l.color.z.same(&r.color.z) && l.color.w.same(&r.color.w)
                }
        },
        _ => false,
    }
}

/// Brushes are compared in full: nothing of a colour, of the ends or of a stop
/// is left out.
pub proof fn law_brushes_are_compared_in_full(a: BrushSpec, b: BrushSpec)
    ensures
        BrushSpec::alike(a@, b@) <==> same_brush(a, b),
{
}

/// Values compare equal only if they are of one type, and then as that type
/// compares.
pub proof fn law_values_compare_by_type(a: DpValue, b: DpValue)
    ensures
        a.same(&b) <==> match (a, b) {
            (DpValue::Bool(x), DpValue::Bool(y)) => x == y,
            (DpValue::I32(x), DpValue::I32(y)) => x == y,
            (DpValue::F32(x), DpValue::F32(y)) => x.same(&y),
            (DpValue::F64(x), DpValue::F64(y)) => x.same(&y),
            (DpValue::String(x), DpValue::String(y)) => x@ == y@,
            _ => false,
        },
{
}

/// Maps of settings compare equal exactly where they have the same keys and
/// every key has settings that do: a key more or less, or one setting that
/// changed, makes them differ.
pub proof fn law_maps_compare_key_by_key<K, V: Setting>(
    a: Map<K, V::V>,
    b: Map<K, V::V>,
    k: K,
)
    ensures
        a.contains_key(k) != b.contains_key(k) ==> !maps_alike::<K, V>(a, b),
        a.contains_key(k) && b.contains_key(k) && !V::alike(a[k], b[k]) ==> !maps_alike::<K, V>(
            a,
            b,
        ),
        a.dom() == b.dom() && (forall|j: K| #[trigger]
            a.contains_key(j) ==> V::alike(a[j], b[j])) ==> maps_alike::<K, V>(a, b),
{
    if maps_alike::<K, V>(a, b) {
        assert(a.dom().contains(k) == b.dom().contains(k));
    }
}

} // verus!
