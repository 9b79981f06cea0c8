//! Vector-graphics sources of named elements.

use vstd::prelude::*;

use crate::keyed::KeyedMap;
use crate::scalar::Vec4;
use crate::text::texts_of;

verus! {

/// The path data that a view gives its elements.
pub struct NoesisSvg {
    /// Path data by element name.
    pub sources: KeyedMap<String, String>,
}

impl Default for NoesisSvg {
    fn default() -> (s: NoesisSvg)
        ensures
            texts_of(s.sources@) == Map::<Seq<char>, Seq<char>>::empty(),
    {
        let s = NoesisSvg { sources: KeyedMap::new() };
        assert(texts_of(s.sources@) =~= Map::<Seq<char>, Seq<char>>::empty());
        s
    }
}

impl NoesisSvg {
    /// No sources.
    pub fn new() -> (s: NoesisSvg)
        ensures
            texts_of(s.sources@) == Map::<Seq<char>, Seq<char>>::empty(),
    {
        NoesisSvg::default()
    }

    /// Gives the element `name` the path data `svg`; an earlier source of it is
    /// replaced.
    pub fn path(self, name: &str, svg: &str) -> (s: NoesisSvg)
        ensures
            texts_of(s.sources@) == texts_of(self.sources@).insert(name@, svg@),
    {
        let mut s = self;
        s.set_path(name, svg);
        s
    }

    /// Gives the element `name` the path data `svg`.
    pub fn set_path(&mut self, name: &str, svg: &str)
        ensures
            texts_of(final(self).sources@) == texts_of(old(self).sources@).insert(name@, svg@),
    {
        self.sources.insert(name.to_owned(), svg.to_owned());
        assert(texts_of(self.sources@) =~= texts_of(old(self).sources@).insert(name@, svg@));
    }
}

/// An element was sized to its parsed source.
pub struct NoesisSvgChanged {
    pub view: u64,
    pub name: String,
    /// Bounds of the outline: x, y, width and height.
    pub bounds: Vec4,
}

/// What came of one source.
#[derive(Clone, Copy, PartialEq, Eq, Debug)]
pub enum SvgOutcome {
    /// There is no such element.
    NotFound,
    /// The source could not be parsed.
    Unparsed,
    /// The outline has these bounds.
    Measured(Vec4),
}

/// The sources that were measured, in order.
pub open spec fn measured(outcomes: Seq<(String, SvgOutcome)>) -> Seq<(Seq<char>, Vec4)>
    decreases outcomes.len(),
{
    if outcomes.len() == 0 {
        Seq::empty()
    } else {
        let rest = measured(outcomes.drop_last());
        match outcomes.last().1 {
            SvgOutcome::Measured(b) => rest.push((outcomes.last().0@, b)),
            _ => rest,
        }
    }
}

/// Messages as names and bounds.
pub open spec fn svg_reports(list: Seq<NoesisSvgChanged>) -> Seq<(Seq<char>, Vec4)> {
    list.map_values(|m: NoesisSvgChanged| (m.name@, m.bounds))
}

/// The messages of a view: one per source that was measured. An element that is
/// not there and a source that does not parse report nothing.
pub fn report_svg(view: u64, outcomes: &Vec<(String, SvgOutcome)>) -> (out: Vec<NoesisSvgChanged>)
    ensures
        svg_reports(out@) == measured(outcomes@),
        forall|i: int| 0 <= i < out@.len() ==> (#[trigger] out@[i]).view == view,
{
    let mut out: Vec<NoesisSvgChanged> = Vec::new();
    let n: usize = outcomes.len();
    let mut i: usize = 0;
    assert(outcomes@.take(0) =~= Seq::<(String, SvgOutcome)>::empty());
    assert(svg_reports(out@) =~= Seq::<(Seq<char>, Vec4)>::empty());
    while i < n
        invariant
            i <= n,
            n == outcomes@.len(),
            svg_reports(out@) == measured(outcomes@.take(i as int)),
            forall|j: int| 0 <= j < out@.len() ==> (#[trigger] out@[j]).view == view,
        decreases n - i,
    {
        let o = &outcomes[i];
        let ghost before = out@;
        proof {
            assert(outcomes@.take(i + 1).drop_last() == outcomes@.take(i as int));
            assert(outcomes@.take(i + 1).last() == *o);
        }
        if let SvgOutcome::Measured(bounds) = o.1 {
            out.push(NoesisSvgChanged { view, name: o.0.clone(), bounds });
            assert(svg_reports(out@) =~= svg_reports(before).push((o.0@, bounds)));
        }
        i = i + 1;
    }
    assert(outcomes@.take(n as int) == outcomes@);
    out
}

/// Each source is reported by itself: one that was measured with its name and
/// bounds behind those before it, any other not at all.
pub proof fn law_measured_sources_are_reported(
    before: Seq<(String, SvgOutcome)>,
    name: String,
    bounds: Vec4,
)
    ensures
        measured(Seq::<(String, SvgOutcome)>::empty()).len() == 0,
        measured(before.push((name, SvgOutcome::Measured(bounds)))) == measured(before).push(
            (name@, bounds),
        ),
        measured(before.push((name, SvgOutcome::NotFound))) == measured(before),
        measured(before.push((name, SvgOutcome::Unparsed))) == measured(before),
{
    assert(before.push((name, SvgOutcome::Measured(bounds))).drop_last() =~= before);
    assert(before.push((name, SvgOutcome::NotFound)).drop_last() =~= before);
    assert(before.push((name, SvgOutcome::Unparsed)).drop_last() =~= before);
}

} // verus!
