//! Application resources built in code: brushes and values under keys, and
//! XAML dictionaries to merge in.

use vstd::prelude::*;

use crate::keyed::KeyedMap;
use crate::scalar::{SameValue, Vec4};
use crate::values::{BrushSpec, BrushValue, DpValue, Setting};

verus! {

/// One resource.
pub enum ResourceEntry {
    /// A code-built brush.
    Brush(BrushSpec),
    /// A boxed value.
    Value(DpValue),
}

/// A resource as a value.
pub enum ResourceValue {
    Brush(BrushValue),
    Value(DpValue),
}

impl View for ResourceEntry {
    type V = ResourceValue;

    open spec fn view(&self) -> ResourceValue {
        match self {
            ResourceEntry::Brush(b) => ResourceValue::Brush(b@),
            ResourceEntry::Value(v) => ResourceValue::Value(*v),
        }
    }
}

impl Setting for ResourceEntry {
    open spec fn alike(a: ResourceValue, b: ResourceValue) -> bool {
        match (a, b) {
            (ResourceValue::Brush(x), ResourceValue::Brush(y)) => BrushSpec::alike(x, y),
            (ResourceValue::Value(x), ResourceValue::Value(y)) => x.same(&y),
            _ => false,
        }
    }

    fn is_alike(&self, other: &Self) -> (r: bool) {
        match (self, other) {
            (ResourceEntry::Brush(x), ResourceEntry::Brush(y)) => x.is_alike(y),
            (ResourceEntry::Value(x), ResourceEntry::Value(y)) => x.same_value(y),
            _ => false,
        }
    }

    fn again(&self) -> (r: Self) {
        match self {
            ResourceEntry::Brush(b) => ResourceEntry::Brush(b.again()),
            ResourceEntry::Value(v) => ResourceEntry::Value(v.duplicate()),
        }
    }
}

/// The resources that an application declares.
pub struct NoesisResources {
    /// Resources by key. They take precedence over merged dictionaries.
    pub entries: KeyedMap<String, ResourceEntry>,
    /// `<ResourceDictionary>` fragments to merge in; a later one takes
    /// precedence.
    pub merged_xaml: Vec<String>,
}

impl Default for NoesisResources {
    fn default() -> (r: NoesisResources)
        ensures
            r.entries@ == Map::<Seq<char>, ResourceEntry>::empty(),
            r.merged_xaml@ == Seq::<String>::empty(),
    {
        NoesisResources { entries: KeyedMap::new(), merged_xaml: Vec::new() }
    }
}

impl NoesisResources {
    /// No resources.
    pub fn new() -> (r: NoesisResources)
        ensures
            r.entries@ == Map::<Seq<char>, ResourceEntry>::empty(),
            r.merged_xaml@ == Seq::<String>::empty(),
    {
        NoesisResources::default()
    }

    /// Adds a resource; it replaces one of the same key.
    pub fn entry(self, key: &str, entry: ResourceEntry) -> (r: NoesisResources)
        ensures
            r.entries@ == self.entries@.insert(key@, entry),
            r.merged_xaml == self.merged_xaml,
    {
        let mut entries = self.entries;
        entries.insert(key.to_owned(), entry);
        NoesisResources { entries, merged_xaml: self.merged_xaml }
    }

    /// Adds a brush.
    pub fn brush(self, key: &str, spec: BrushSpec) -> (r: NoesisResources)
        ensures
            r.entries@ == self.entries@.insert(key@, ResourceEntry::Brush(spec)),
            r.merged_xaml == self.merged_xaml,
    {
        self.entry(key, ResourceEntry::Brush(spec))
    }

    /// Adds a brush of one colour.
    pub fn solid(self, key: &str, rgba: Vec4) -> (r: NoesisResources)
        ensures
            r.entries@ == self.entries@.insert(
                key@,
                ResourceEntry::Brush(BrushSpec::Solid(rgba)),
            ),
            r.merged_xaml == self.merged_xaml,
    {
        self.brush(key, BrushSpec::Solid(rgba))
    }

    /// Adds a value.
    pub fn value(self, key: &str, value: DpValue) -> (r: NoesisResources)
        ensures
            r.entries@ == self.entries@.insert(key@, ResourceEntry::Value(value)),
            r.merged_xaml == self.merged_xaml,
    {
        self.entry(key, ResourceEntry::Value(value))
    }

    /// Appends a dictionary to merge in.
    pub fn merged(self, xaml: &str) -> (r: NoesisResources)
        ensures
            r.entries == self.entries,
            r.merged_xaml@.len() == self.merged_xaml@.len() + 1,
            r.merged_xaml@.drop_last() == self.merged_xaml@,
            r.merged_xaml@.last()@ == xaml@,
    {
        let mut merged_xaml = self.merged_xaml;
        merged_xaml.push(xaml.to_owned());
        assert(merged_xaml@.drop_last() =~= self.merged_xaml@);
        NoesisResources { entries: self.entries, merged_xaml }
    }
}

/// The resources were installed.
pub struct NoesisResourcesInstalled {
    /// Declared keys that can be looked up now, in order.
    pub present: Vec<String>,
}

/// Resources compare by kind first: a brush never equals a boxed value, brushes
/// compare as brushes and values as values.
pub proof fn law_resources_compare_by_kind(a: BrushSpec, b: BrushSpec, x: DpValue, y: DpValue)
    ensures
        !ResourceEntry::alike(ResourceEntry::Brush(a)@, ResourceEntry::Value(x)@),
        !ResourceEntry::alike(ResourceEntry::Value(x)@, ResourceEntry::Brush(a)@),
        ResourceEntry::alike(ResourceEntry::Brush(a)@, ResourceEntry::Brush(b)@)
            == BrushSpec::alike(a@, b@),
        ResourceEntry::alike(ResourceEntry::Value(x)@, ResourceEntry::Value(y)@) == x.same(&y),
{
}

} // verus!
