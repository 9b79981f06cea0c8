//! What polls read back from live elements: focus predictions, brushes, images,
//! font properties, list controls and inlines.

use vstd::prelude::*;

use crate::keyed::Key;
use crate::scalar::{zero32, Float32, SameValue, Vec2, Vec4};
use crate::strings::str_eq;
use crate::typography::{FontStretch, FontStyle, FontWeight};
use crate::values::DpValue;

verus! {

/// Where focus would go.
pub struct FocusPrediction {
    /// Whether there is a candidate.
    pub candidate: bool,
    /// Name of the candidate, where it has one.
    pub predicted: Option<String>,
    /// Whether the candidate is the expected one.
    pub matches_expected: bool,
}

/// Whether a predicted name is the expected one; nothing is, where nothing is
/// expected.
pub open spec fn meets(predicted: Option<String>, expect: Option<String>) -> bool {
    match (predicted, expect) {
        (Some(p), Some(e)) => p@ == e@,
        _ => false,
    }
}

/// The prediction that the engine's answers make.
pub fn predict_focus(candidate: bool, predicted: Option<String>, expect: &Option<String>) -> (r:
    FocusPrediction)
    ensures
        r == (FocusPrediction {
            candidate,
            predicted,
            matches_expected: meets(predicted, *expect),
        }),
{
    let matches_expected = match (&predicted, expect) {
        (Some(p), Some(e)) => str_eq(p.as_str(), e.as_str()),
        _ => false,
    };
    FocusPrediction { candidate, predicted, matches_expected }
}

impl SameValue for FocusPrediction {
    open spec fn same(&self, other: &Self) -> bool {
        &&& self.candidate == other.candidate
        &&& self.predicted.same(&other.predicted)
        &&& self.matches_expected == other.matches_expected
    }

    fn same_value(&self, other: &Self) -> (r: bool) {
        self.candidate == other.candidate && self.predicted.same_value(&other.predicted)
            && self.matches_expected == other.matches_expected
    }

    fn duplicate(&self) -> (r: Self) {
        FocusPrediction {
            candidate: self.candidate,
            predicted: self.predicted.duplicate(),
            matches_expected: self.matches_expected,
        }
    }
}

/// Property that a brush is given to.
#[derive(Clone, Copy, PartialEq, Eq, Debug, Structural)]
pub enum BrushTarget {
    Background,
    Foreground,
    Fill,
    Stroke,
}

impl View for BrushTarget {
    type V = BrushTarget;

    open spec fn view(&self) -> BrushTarget {
        *self
    }
}

impl Key for BrushTarget {
    fn same_key(&self, other: &Self) -> (r: bool) {
        *self == *other
    }

    fn copy_key(&self) -> (r: Self) {
        *self
    }
}

/// Name of the property.
pub open spec fn property_name(t: BrushTarget) -> Seq<char> {
    match t {
        BrushTarget::Background => "Background"@,
        BrushTarget::Foreground => "Foreground"@,
        BrushTarget::Fill => "Fill"@,
        BrushTarget::Stroke => "Stroke"@,
    }
}

impl BrushTarget {
    /// Name of the property.
    pub fn property(&self) -> (r: &'static str)
        ensures
            r@ == property_name(*self),
    {
        match self {
            BrushTarget::Background => "Background",
            BrushTarget::Foreground => "Foreground",
            BrushTarget::Fill => "Fill",
            BrushTarget::Stroke => "Stroke",
        }
    }
}

/// A live brush.
#[derive(Clone, Copy, PartialEq, Eq, Debug)]
pub enum BrushReadback {
    /// One colour.
    Solid(Vec4),
    /// Anything else.
    NonSolid,
}

/// The live brush of a property, where `solid` is its colour if it has one and
/// `present` tells whether there is a brush at all.
pub fn read_brush(solid: Option<Vec4>, present: bool) -> (r: Option<BrushReadback>)
    ensures
        r == match solid {
            Some(c) => Some(BrushReadback::Solid(c)),
            None => if present {
                Some(BrushReadback::NonSolid)
            } else {
                None
            },
        },
{
    match solid {
        Some(c) => Some(BrushReadback::Solid(c)),
        None => if present {
            Some(BrushReadback::NonSolid)
        } else {
            None
        },
    }
}

impl SameValue for BrushReadback {
    open spec fn same(&self, other: &Self) -> bool {
        match (self, other) {
            (BrushReadback::Solid(a), BrushReadback::Solid(b)) => a.same(b),
            (BrushReadback::NonSolid, BrushReadback::NonSolid) => true,
            _ => false,
        }
    }

    fn same_value(&self, other: &Self) -> (r: bool) {
        match (self, other) {
            (BrushReadback::Solid(a), BrushReadback::Solid(b)) => a.same_value(b),
            (BrushReadback::NonSolid, BrushReadback::NonSolid) => true,
            _ => false,
        }
    }

    fn duplicate(&self) -> (r: Self) {
        *self
    }
}

/// A live image.
#[derive(Clone, Copy, PartialEq, Eq, Debug, Structural)]
pub struct ImageReadback {
    pub has_source: bool,
    /// Size after layout; zero where the source cannot be resolved.
    pub actual_size: Vec2,
}

/// A length, or zero where there is none.
pub open spec fn length_or_zero(x: Option<Float32>) -> Float32 {
    match x {
        Some(x) => x,
        None => zero32(),
    }
}

/// The live image that the engine's answers make.
pub fn read_image(has_source: bool, width: Option<Float32>, height: Option<Float32>) -> (r:
    ImageReadback)
    ensures
        r == (ImageReadback {
            has_source,
            actual_size: Vec2 { x: length_or_zero(width), y: length_or_zero(height) },
        }),
{
    let x = match width {
        Some(w) => w,
        None => Float32::zero(),
    };
    let y = match height {
        Some(h) => h,
        None => Float32::zero(),
    };
    ImageReadback { has_source, actual_size: Vec2 { x, y } }
}

impl SameValue for ImageReadback {
    open spec fn same(&self, other: &Self) -> bool {
        self.has_source == other.has_source && self.actual_size.same(&other.actual_size)
    }

    fn same_value(&self, other: &Self) -> (r: bool) {
        self.has_source == other.has_source && self.actual_size.same_value(&other.actual_size)
    }

    fn duplicate(&self) -> (r: Self) {
        *self
    }
}

/// A font property that is watched.
#[derive(Clone, Copy, PartialEq, Eq, Debug, Structural)]
pub enum TypographyField {
    FontSize,
    FontFamily,
    FontWeight,
    FontStyle,
    FontStretch,
}

impl View for TypographyField {
    type V = TypographyField;

    open spec fn view(&self) -> TypographyField {
        *self
    }
}

impl Key for TypographyField {
    fn same_key(&self, other: &Self) -> (r: bool) {
        *self == *other
    }

    fn copy_key(&self) -> (r: Self) {
        *self
    }
}

/// A live font property.
pub enum TypographyValue {
    FontSize(Float32),
    FontFamily(String),
    FontWeight(FontWeight),
    FontStyle(FontStyle),
    FontStretch(FontStretch),
}

impl SameValue for TypographyValue {
    open spec fn same(&self, other: &Self) -> bool {
        match (self, other) {
            (TypographyValue::FontSize(a), TypographyValue::FontSize(b)) => a.same(b),
            (TypographyValue::FontFamily(a), TypographyValue::FontFamily(b)) => a@ == b@,
            (TypographyValue::FontWeight(a), TypographyValue::FontWeight(b)) => a == b,
            (TypographyValue::FontStyle(a), TypographyValue::FontStyle(b)) => a == b,
            (TypographyValue::FontStretch(a), TypographyValue::FontStretch(b)) => a == b,
            _ => false,
        }
    }

    fn same_value(&self, other: &Self) -> (r: bool) {
        match (self, other) {
            (TypographyValue::FontSize(a), TypographyValue::FontSize(b)) => a.same_value(b),
            (TypographyValue::FontFamily(a), TypographyValue::FontFamily(b)) => *a == *b,
            (TypographyValue::FontWeight(a), TypographyValue::FontWeight(b)) => *a == *b,
            (TypographyValue::FontStyle(a), TypographyValue::FontStyle(b)) => *a == *b,
            (TypographyValue::FontStretch(a), TypographyValue::FontStretch(b)) => *a == *b,
            _ => false,
        }
    }

    fn duplicate(&self) -> (r: Self) {
        match self {
            TypographyValue::FontSize(a) => TypographyValue::FontSize(*a),
            TypographyValue::FontFamily(a) => TypographyValue::FontFamily(a.clone()),
            TypographyValue::FontWeight(a) => TypographyValue::FontWeight(*a),
            TypographyValue::FontStyle(a) => TypographyValue::FontStyle(*a),
            TypographyValue::FontStretch(a) => TypographyValue::FontStretch(*a),
        }
    }
}

/// What a list control shows.
pub struct ItemsReadback {
    /// Number of items.
    pub count: usize,
    /// Index of the selected item; negative without one.
    pub selected_index: i32,
    /// Position of the current item; negative before the first one.
    pub current_position: i32,
    /// Value of the current item, where there is one of a type that has values.
    pub current: Option<DpValue>,
}

impl SameValue for ItemsReadback {
    open spec fn same(&self, other: &Self) -> bool {
        &&& self.count == other.count
        &&& self.selected_index == other.selected_index
        &&& self.current_position == other.current_position
        &&& self.current.same(&other.current)
    }

    fn same_value(&self, other: &Self) -> (r: bool) {
        self.count == other.count && self.selected_index == other.selected_index
            && self.current_position == other.current_position && self.current.same_value(
            &other.current,
        )
    }

    fn duplicate(&self) -> (r: Self) {
        ItemsReadback {
            count: self.count,
            selected_index: self.selected_index,
            current_position: self.current_position,
            current: self.current.duplicate(),
        }
    }
}

/// What inlines say, one after the other.
pub enum InlineReads {
    End,
    /// The text of a run.
    Run(String, Box<InlineReads>),
    /// Where a hyperlink leads.
    Link(String, Box<InlineReads>),
}

/// One inline: whether it is a hyperlink, and its text or where it leads.
pub type InlineRead = (bool, Seq<char>);

impl View for InlineReads {
    type V = Seq<InlineRead>;

    open spec fn view(&self) -> Seq<InlineRead> {
        reads_of(*self)
    }
}

/// What inlines say, in order.
pub open spec fn reads_of(reads: InlineReads) -> Seq<InlineRead>
    decreases reads,
{
    match reads {
        InlineReads::End => Seq::empty(),
        InlineReads::Run(text, rest) => seq![(false, text@)] + reads_of(*rest),
        InlineReads::Link(uri, rest) => seq![(true, uri@)] + reads_of(*rest),
    }
}

proof fn lemma_heads(a: InlineRead, b: InlineRead, x: Seq<InlineRead>, y: Seq<InlineRead>)
    ensures
        seq![a] + x == seq![b] + y <==> a == b && x == y,
        seq![a] + x != Seq::<InlineRead>::empty(),
{
    let l = seq![a] + x;
    let r = seq![b] + y;
    assert(l[0] == a && r[0] == b);
    assert(l.skip(1) =~= x);
    assert(r.skip(1) =~= y);
}

impl InlineReads {
    /// What the inlines say; `true` marks a hyperlink.
    pub fn of(reads: Vec<(bool, String)>) -> (r: InlineReads)
        ensures
            r@ == reads@.map_values(|x: (bool, String)| (x.0, x.1@)),
    {
        let ghost all = reads@.map_values(|x: (bool, String)| (x.0, x.1@));
        let mut reads = reads;
        let mut r = InlineReads::End;
        while reads.len() > 0
            invariant
                all == reads@.map_values(|x: (bool, String)| (x.0, x.1@)) + r@,
            decreases reads@.len(),
        {
            match reads.pop() {
                Some((link, text)) => {
                    r = if link {
                        InlineReads::Link(text, Box::new(r))
                    } else {
                        InlineReads::Run(text, Box::new(r))
                    };
                    assert(all =~= reads@.map_values(|x: (bool, String)| (x.0, x.1@)) + r@);
                },
                None => {},
            }
        }
        assert(all =~= r@);
        r
    }
}

impl SameValue for InlineReads {
    open spec fn same(&self, other: &Self) -> bool {
        self@ == other@
    }

    fn same_value(&self, other: &Self) -> (r: bool)
        decreases self,
    {
        match (self, other) {
            (InlineReads::End, InlineReads::End) => true,
            (InlineReads::Run(a, x), InlineReads::Run(b, y)) => {
                proof {
                    lemma_heads((false, a@), (false, b@), reads_of(**x), reads_of(**y));
                }
                str_eq(a.as_str(), b.as_str()) && x.same_value(y)
            },
            (InlineReads::Link(a, x), InlineReads::Link(b, y)) => {
                proof {
                    lemma_heads((true, a@), (true, b@), reads_of(**x), reads_of(**y));
                }
                str_eq(a.as_str(), b.as_str()) && x.same_value(y)
            },
            _ => {
                proof {
                    if self@.len() > 0 && other@.len() > 0 {
                        assert(self@[0].0 != other@[0].0);
                    }
                }
                false
            },
        }
    }

    fn duplicate(&self) -> (r: Self)
        decreases self,
    {
        match self {
            InlineReads::End => InlineReads::End,
            InlineReads::Run(text, rest) => InlineReads::Run(
                text.clone(),
                Box::new(rest.duplicate()),
            ),
            InlineReads::Link(uri, rest) => InlineReads::Link(
                uri.clone(),
                Box::new(rest.duplicate()),
            ),
        }
    }
}

/// The live inlines of a text block.
pub struct InlinesReadback {
    /// Number of inlines.
    pub count: usize,
    /// Whether they are the very ones that were put there.
    pub ours: bool,
    /// What those that were put there say now.
    pub reads: InlineReads,
}

impl SameValue for InlinesReadback {
    open spec fn same(&self, other: &Self) -> bool {
        &&& self.count == other.count
        &&& self.ours == other.ours
        &&& self.reads.same(&other.reads)
    }

    fn same_value(&self, other: &Self) -> (r: bool) {
        self.count == other.count && self.ours == other.ours && self.reads.same_value(&other.reads)
    }

    fn duplicate(&self) -> (r: Self) {
        InlinesReadback {
            count: self.count,
            ours: self.ours,
            reads: self.reads.duplicate(),
        }
    }
}

/// What is read back counts as unchanged only where every part of it is: a
/// change in any one is news.
pub proof fn law_readbacks_compare_in_full(
    f: FocusPrediction,
    g: FocusPrediction,
    i: ImageReadback,
    j: ImageReadback,
    k: ItemsReadback,
    l: ItemsReadback,
)
    ensures
        f.same(&g) <==> f.candidate == g.candidate && f.matches_expected == g.matches_expected
            && f.predicted is Some == g.predicted is Some && (f.predicted is Some
            && g.predicted is Some ==> f.predicted->0@ == g.predicted->0@),
        i.same(&j) <==> i.has_source == j.has_source && i.actual_size.x.same(&j.actual_size.x)
            && i.actual_size.y.same(&j.actual_size.y),
        k.same(&l) <==> k.count == l.count && k.selected_index == l.selected_index
            && k.current_position == l.current_position && k.current.same(&l.current),
{
}

/// A solid brush is news where its colour changed or where it was no solid one;
/// brushes that are not solid are all alike.
pub proof fn law_brush_readbacks_compare_by_colour(a: Vec4, b: Vec4)
    ensures
        BrushReadback::Solid(a).same(&BrushReadback::Solid(b)) == a.same(&b),
        BrushReadback::NonSolid.same(&BrushReadback::NonSolid),
        !BrushReadback::Solid(a).same(&BrushReadback::NonSolid),
        !BrushReadback::NonSolid.same(&BrushReadback::Solid(a)),
{
}

/// Font properties of different kinds never compare equal, and those of one kind
/// compare by value.
pub proof fn law_font_readbacks_compare_by_kind(a: TypographyValue, b: TypographyValue)
    requires
        a.same(&b),
    ensures
        a matches TypographyValue::FontSize(x) ==> b is FontSize && x.same(&b->FontSize_0),
        a matches TypographyValue::FontFamily(x) ==> b is FontFamily && x@ == b->FontFamily_0@,
        a matches TypographyValue::FontWeight(x) ==> b is FontWeight && x == b->FontWeight_0,
        a matches TypographyValue::FontStyle(x) ==> b is FontStyle && x == b->FontStyle_0,
        a matches TypographyValue::FontStretch(x) ==> b is FontStretch && x == b->FontStretch_0,
{
}

/// An unchanged font property is no news.
pub proof fn law_unchanged_fonts_are_no_news(a: TypographyValue)
    requires
        a matches TypographyValue::FontSize(x) ==> x.same(&x),
    ensures
        a.same(&a),
{
}

/// A prediction meets an expectation exactly when both are there and name the
/// same element.
pub proof fn law_predictions_meet_by_name(predicted: Option<String>, expect: Option<String>)
    ensures
        expect is None ==> !meets(predicted, expect),
        predicted is None ==> !meets(predicted, expect),
        predicted is Some && expect is Some ==> (meets(predicted, expect) <==> predicted->0@
            == expect->0@),
{
}

/// Brushes of different targets go to different properties.
pub proof fn law_brush_targets_differ(a: BrushTarget, b: BrushTarget)
    ensures
        property_name(a) == property_name(b) <==> a == b,
        property_name(a).len() == (match a {
            BrushTarget::Background => 10int,
            BrushTarget::Foreground => 10,
            BrushTarget::Fill => 4,
            BrushTarget::Stroke => 6,
        }),
{
    reveal_strlit("Background");
    reveal_strlit("Foreground");
    reveal_strlit("Fill");
    reveal_strlit("Stroke");
    assert("Background"@[0] != "Foreground"@[0]);
}

/// A length that is there is kept; a missing one is zero.
pub proof fn law_missing_lengths_are_zero(x: Float32)
    ensures
        length_or_zero(Some(x)) == x,
        length_or_zero(None).bits == 0,
{
}

/// Inlines are read in order, each as what it is.
pub proof fn law_inlines_are_read_in_order(text: String, rest: Box<InlineReads>)
    ensures
        reads_of(InlineReads::End).len() == 0,
        reads_of(InlineReads::Run(text, rest)).len() == reads_of(*rest).len() + 1,
        reads_of(InlineReads::Run(text, rest))[0] == (false, text@),
        reads_of(InlineReads::Link(text, rest))[0] == (true, text@),
        reads_of(InlineReads::Run(text, rest)).skip(1) == reads_of(*rest),
        reads_of(InlineReads::Link(text, rest)).skip(1) == reads_of(*rest),
{
    assert(reads_of(InlineReads::Run(text, rest)).skip(1) =~= reads_of(*rest));
    assert(reads_of(InlineReads::Link(text, rest)).skip(1) =~= reads_of(*rest));
}

/// Inlines count as unchanged only where their number, whose they are and all
/// that they say are.
pub proof fn law_inline_readbacks_compare_in_full(a: InlinesReadback, b: InlinesReadback)
    ensures
        a.same(&b) <==> a.count == b.count && a.ours == b.ours && reads_of(a.reads) == reads_of(
            b.reads,
        ),
{
}

} // verus!
