//! Font properties of named elements.

use vstd::prelude::*;

use crate::keyed::KeyedMap;
use crate::scalar::Float32;

verus! {

/// Weight of a font.
#[derive(Clone, Copy, PartialEq, Eq, Debug, Structural)]
pub enum FontWeight {
    Thin,
    ExtraLight,
    Light,
    SemiLight,
    Normal,
    Medium,
    SemiBold,
    Bold,
    ExtraBold,
    Black,
    ExtraBlack,
}

/// Slope of a font.
#[derive(Clone, Copy, PartialEq, Eq, Debug, Structural)]
pub enum FontStyle {
    Normal,
    Oblique,
    Italic,
}

/// Width of a font.
#[derive(Clone, Copy, PartialEq, Eq, Debug, Structural)]
pub enum FontStretch {
    UltraCondensed,
    ExtraCondensed,
    Condensed,
    SemiCondensed,
    Normal,
    SemiExpanded,
    Expanded,
    ExtraExpanded,
    UltraExpanded,
}

/// Font properties of an element. What is `None` is left as it is.
pub struct FontStyling {
    pub font_size: Option<Float32>,
    /// Source of the family: a name, a font in the resources, or a list of them.
    pub font_family: Option<String>,
    pub font_weight: Option<FontWeight>,
    pub font_style: Option<FontStyle>,
    pub font_stretch: Option<FontStretch>,
}

/// Font properties as a value.
pub struct FontValue {
    pub font_size: Option<Float32>,
    pub font_family: Option<Seq<char>>,
    pub font_weight: Option<FontWeight>,
    pub font_style: Option<FontStyle>,
    pub font_stretch: Option<FontStretch>,
}

impl View for FontStyling {
    type V = FontValue;

    open spec fn view(&self) -> FontValue {
        FontValue {
            font_size: self.font_size,
            font_family: match self.font_family {
                Some(s) => Some(s@),
                None => None,
            },
            font_weight: self.font_weight,
            font_style: self.font_style,
            font_stretch: self.font_stretch,
        }
    }
}

/// Nothing to write.
pub open spec fn unstyled() -> FontValue {
    FontValue {
        font_size: None,
        font_family: None,
        font_weight: None,
        font_style: None,
        font_stretch: None,
    }
}

impl Default for FontStyling {
    fn default() -> (s: FontStyling)
        ensures
            s@ == unstyled(),
    {
        FontStyling {
            font_size: None,
            font_family: None,
            font_weight: None,
            font_style: None,
            font_stretch: None,
        }
    }
}

impl FontStyling {
    /// Whether there is nothing to write.
    pub fn is_empty(&self) -> (r: bool)
        ensures
            r == (self@ == unstyled()),
    {
        self.font_size.is_none() && self.font_family.is_none() && self.font_weight.is_none()
            && self.font_style.is_none() && self.font_stretch.is_none()
    }
}

/// The font properties that a view gives its elements.
pub struct NoesisTypography {
    /// Font properties by element name.
    pub set: KeyedMap<String, FontStyling>,
}

/// Font properties by element name, as values.
pub open spec fn stylings(m: Map<Seq<char>, FontStyling>) -> Map<Seq<char>, FontValue> {
    m.map_values(|s: FontStyling| s@)
}

/// The font properties of `name` so far.
pub open spec fn styled(m: Map<Seq<char>, FontValue>, name: Seq<char>) -> FontValue {
    if m.contains_key(name) {
        m[name]
    } else {
        unstyled()
    }
}

impl Default for NoesisTypography {
    fn default() -> (t: NoesisTypography)
        ensures
            stylings(t.set@) == Map::<Seq<char>, FontValue>::empty(),
    {
        let t = NoesisTypography { set: KeyedMap::new() };
        assert(stylings(t.set@) =~= Map::<Seq<char>, FontValue>::empty());
        t
    }
}

impl NoesisTypography {
    /// No font properties.
    pub fn new() -> (t: NoesisTypography)
        ensures
            stylings(t.set@) == Map::<Seq<char>, FontValue>::empty(),
    {
        NoesisTypography::default()
    }

    fn entry(&mut self, name: &str) -> (s: FontStyling)
        ensures
            s@ == styled(stylings(old(self).set@), name@),
            stylings(final(self).set@) == stylings(old(self).set@).remove(name@),
    {
        let r = self.set.remove(name);
        assert(stylings(self.set@) =~= stylings(old(self).set@).remove(name@));
        match r {
            Some(s) => s,
            None => FontStyling::default(),
        }
    }

    fn put(&mut self, name: &str, styling: FontStyling)
        ensures
            stylings(final(self).set@) == stylings(old(self).set@).insert(name@, styling@),
    {
        self.set.insert(name.to_owned(), styling);
        assert(stylings(self.set@) =~= stylings(old(self).set@).insert(name@, styling@));
    }

    /// Sets the font size of `name` and keeps the rest.
    pub fn font_size(self, name: &str, size: Float32) -> (t: NoesisTypography)
        ensures
            stylings(t.set@) == stylings(self.set@).insert(
                name@,
                FontValue { font_size: Some(size), ..styled(stylings(self.set@), name@) },
            ),
    {
        let mut t = self;
        let s = t.entry(name);
        t.put(name, FontStyling { font_size: Some(size), ..s });
        assert(stylings(t.set@) =~= stylings(self.set@).insert(
            name@,
            FontValue { font_size: Some(size), ..styled(stylings(self.set@), name@) },
        ));
        t
    }

    /// Sets the font family of `name` and keeps the rest.
    pub fn font_family(self, name: &str, source: &str) -> (t: NoesisTypography)
        ensures
            stylings(t.set@) == stylings(self.set@).insert(
                name@,
                FontValue { font_family: Some(source@), ..styled(stylings(self.set@), name@) },
            ),
    {
        let mut t = self;
        let s = t.entry(name);
        t.put(name, FontStyling { font_family: Some(source.to_owned()), ..s });
        assert(stylings(t.set@) =~= stylings(self.set@).insert(
            name@,
            FontValue { font_family: Some(source@), ..styled(stylings(self.set@), name@) },
        ));
        t
    }

    /// Sets the font weight of `name` and keeps the rest.
    pub fn font_weight(self, name: &str, weight: FontWeight) -> (t: NoesisTypography)
        ensures
            stylings(t.set@) == stylings(self.set@).insert(
                name@,
                FontValue { font_weight: Some(weight), ..styled(stylings(self.set@), name@) },
            ),
    {
        let mut t = self;
        let s = t.entry(name);
        t.put(name, FontStyling { font_weight: Some(weight), ..s });
        assert(stylings(t.set@) =~= stylings(self.set@).insert(
            name@,
            FontValue { font_weight: Some(weight), ..styled(stylings(self.set@), name@) },
        ));
        t
    }

    /// Sets the font style of `name` and keeps the rest.
    pub fn font_style(self, name: &str, style: FontStyle) -> (t: NoesisTypography)
        ensures
            stylings(t.set@) == stylings(self.set@).insert(
                name@,
                FontValue { font_style: Some(style), ..styled(stylings(self.set@), name@) },
            ),
    {
        let mut t = self;
        let s = t.entry(name);
        t.put(name, FontStyling { font_style: Some(style), ..s });
        assert(stylings(t.set@) =~= stylings(self.set@).insert(
            name@,
            FontValue { font_style: Some(style), ..styled(stylings(self.set@), name@) },
        ));
        t
    }

    /// Sets the font stretch of `name` and keeps the rest.
    pub fn font_stretch(self, name: &str, stretch: FontStretch) -> (t: NoesisTypography)
        ensures
            stylings(t.set@) == stylings(self.set@).insert(
                name@,
                FontValue { font_stretch: Some(stretch), ..styled(stylings(self.set@), name@) },
            ),
    {
        let mut t = self;
        let s = t.entry(name);
        t.put(name, FontStyling { font_stretch: Some(stretch), ..s });
        assert(stylings(t.set@) =~= stylings(self.set@).insert(
            name@,
            FontValue { font_stretch: Some(stretch), ..styled(stylings(self.set@), name@) },
        ));
        t
    }

    /// Replaces all font properties of `name`.
    pub fn styling(self, name: &str, styling: FontStyling) -> (t: NoesisTypography)
        ensures
            stylings(t.set@) == stylings(self.set@).insert(name@, styling@),
    {
        let mut t = self;
        t.put(name, styling);
        t
    }
}

/// A write to an element's font.
pub enum FontWrite {
    Size(Float32),
    Family(String),
    Weight(FontWeight),
    Style(FontStyle),
    Stretch(FontStretch),
}

/// The number of properties that are set.
pub open spec fn set_count(v: FontValue) -> int {
    let size: int = if v.font_size is Some {
        1
    } else {
        0
    };
    let family: int = if v.font_family is Some {
        1
    } else {
        0
    };
    let weight: int = if v.font_weight is Some {
        1
    } else {
        0
    };
    let style: int = if v.font_style is Some {
        1
    } else {
        0
    };
    let stretch: int = if v.font_stretch is Some {
        1
    } else {
        0
    };
    size + family + weight + style + stretch
}

/// Whether a write is one that the styling asks for.
pub open spec fn asks_for(v: FontValue, w: FontWrite) -> bool {
    match w {
        FontWrite::Size(x) => v.font_size == Some(x),
        FontWrite::Family(x) => v.font_family == Some(x@),
        FontWrite::Weight(x) => v.font_weight == Some(x),
        FontWrite::Style(x) => v.font_style == Some(x),
        FontWrite::Stretch(x) => v.font_stretch == Some(x),
    }
}

/// Position of a write among the properties.
pub open spec fn rank(w: FontWrite) -> int {
    match w {
        FontWrite::Size(_) => 0,
        FontWrite::Family(_) => 1,
        FontWrite::Weight(_) => 2,
        FontWrite::Style(_) => 3,
        FontWrite::Stretch(_) => 4,
    }
}

/// The writes of a styling: one per property that is set, in the order size,
/// family, weight, style, stretch.
pub fn plan_typography(styling: &FontStyling) -> (out: Vec<FontWrite>)
    ensures
        out@.len() == set_count(styling@),
        forall|i: int| 0 <= i < out@.len() ==> asks_for(styling@, #[trigger] out@[i]),
        forall|i: int, j: int|
            0 <= i < j < out@.len() ==> rank(#[trigger] out@[i]) < rank(#[trigger] out@[j]),
{
    let mut out: Vec<FontWrite> = Vec::new();
    if let Some(size) = styling.font_size {
        out.push(FontWrite::Size(size));
    }
    if let Some(source) = &styling.font_family {
        out.push(FontWrite::Family(source.clone()));
    }
    if let Some(weight) = styling.font_weight {
        out.push(FontWrite::Weight(weight));
    }
    if let Some(style) = styling.font_style {
        out.push(FontWrite::Style(style));
    }
    if let Some(stretch) = styling.font_stretch {
        out.push(FontWrite::Stretch(stretch));
    }
    out
}

/// The last write of a property wins, and a write of one property leaves the
/// others as they were.
pub proof fn law_last_write_wins(
    m: Map<Seq<char>, FontValue>,
    name: Seq<char>,
    first: Float32,
    second: Float32,
)
    ensures
        ({
            let once = m.insert(
                name,
                FontValue { font_size: Some(first), ..styled(m, name) },
            );
            let twice = once.insert(
                name,
                FontValue { font_size: Some(second), ..styled(once, name) },
            );
            &&& twice[name].font_size == Some(second)
            &&& twice[name].font_family == styled(m, name).font_family
            &&& twice == m.insert(
                name,
                FontValue { font_size: Some(second), ..styled(m, name) },
            )
        }),
{
    let once = m.insert(name, FontValue { font_size: Some(first), ..styled(m, name) });
    let twice = once.insert(name, FontValue { font_size: Some(second), ..styled(once, name) });
    assert(twice =~= m.insert(
        name,
        FontValue { font_size: Some(second), ..styled(m, name) },
    ));
}

/// A styling asks for a write exactly where the property of that kind is set to
/// that value, writes stand in the order size, family, weight, style, stretch,
/// and nothing is asked for where nothing is set.
pub proof fn law_stylings_ask_for_what_is_set(s: FontStyling, w: FontWrite)
    ensures
        w matches FontWrite::Size(x) ==> (asks_for(s@, w) <==> s.font_size == Some(x)) && rank(w)
            == 0,
        w matches FontWrite::Family(x) ==> (asks_for(s@, w) <==> s.font_family is Some
            && s.font_family->0@ == x@) && rank(w) == 1,
        w matches FontWrite::Weight(x) ==> (asks_for(s@, w) <==> s.font_weight == Some(x)) && rank(
            w,
        ) == 2,
        w matches FontWrite::Style(x) ==> (asks_for(s@, w) <==> s.font_style == Some(x)) && rank(w)
            == 3,
        w matches FontWrite::Stretch(x) ==> (asks_for(s@, w) <==> s.font_stretch == Some(x))
            && rank(w) == 4,
        asks_for(s@, w) ==> set_count(s@) > 0,
        set_count(s@) == 0 <==> s@ == unstyled(),
        s@ == unstyled() <==> s.font_size is None && s.font_family is None && s.font_weight is None
            && s.font_style is None && s.font_stretch is None,
{
}

/// An element without font properties has none set.
pub proof fn law_elements_start_unstyled(m: Map<Seq<char>, FontStyling>, name: Seq<char>)
    ensures
        m.contains_key(name) ==> styled(stylings(m), name) == m[name]@,
        !m.contains_key(name) ==> set_count(styled(stylings(m), name)) == 0,
{
}

} // verus!
