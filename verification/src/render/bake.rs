//! Baking of labels: a template is rendered offscreen into a texture, by one
//! rig that is kept as long as the template stays the same.

use vstd::prelude::*;

use crate::render::view::UVec2;
use crate::strings::str_eq;
use crate::xaml::SharedXamlMap;

verus! {

/// The rig.
pub struct BakeRig {
    /// Template it was built from.
    pub built_for_uri: String,
    /// Size of its view.
    pub size: UVec2,
    /// Whether its renderer was initialized.
    pub renderer_initialized: bool,
}

/// The rig, if there is one.
pub struct BakeState {
    pub rig: Option<BakeRig>,
}

/// What a bake has to do first.
#[derive(Clone, Copy, PartialEq, Eq, Debug, Structural)]
pub enum BakeStep {
    /// Come back later: there are no fonts or no template yet.
    NotReady,
    /// Use the rig.
    Reuse,
    /// Build a rig; an old one is gone. `shut_down` tells whether its renderer
    /// has to be shut down.
    Build { shut_down: bool },
}

/// What a bake of a template has to do first.
pub open spec fn bake_step(
    rig: Option<BakeRig>,
    fallbacks_installed: bool,
    uri: Seq<char>,
    has_template: bool,
) -> BakeStep {
    if !fallbacks_installed {
        BakeStep::NotReady
    } else if rig matches Some(r) && r.built_for_uri@ == uri {
        BakeStep::Reuse
    } else if !has_template {
        BakeStep::NotReady
    } else {
        BakeStep::Build { shut_down: rig matches Some(r) && r.renderer_initialized }
    }
}

/// What to tell the rig's view before it is drawn.
#[derive(Clone, Copy, PartialEq, Eq, Debug, Structural)]
pub struct BakeDraw {
    /// Whether it is given the new size.
    pub resize: bool,
    /// Whether its renderer is initialized.
    pub init: bool,
}

/// What to tell a rig's view before it is drawn at `size`.
pub open spec fn bake_draw(rig: BakeRig, size: UVec2) -> BakeDraw {
    BakeDraw { resize: rig.size != size, init: !rig.renderer_initialized }
}

/// The rig once it was drawn at `size`.
pub open spec fn drawn(rig: BakeRig, size: UVec2) -> BakeRig {
    BakeRig { size, renderer_initialized: true, ..rig }
}

impl BakeState {
    /// No rig.
    pub fn new() -> (s: BakeState)
        ensures
            s.rig is None,
    {
        BakeState { rig: None }
    }

    /// Begins a bake of the template `uri`.
    pub fn begin_bake(&mut self, fallbacks_installed: bool, uri: &str, xaml: &SharedXamlMap) -> (r:
        BakeStep)
        ensures
            r == bake_step(old(self).rig, fallbacks_installed, uri@, xaml@.contains_key(uri@)),
            final(self).rig == if r is Build {
                None
            } else {
                old(self).rig
            },
    {
        if !fallbacks_installed {
            return BakeStep::NotReady;
        }
        let (same, shut_down) = match &self.rig {
            Some(rig) => (str_eq(rig.built_for_uri.as_str(), uri), rig.renderer_initialized),
            None => (false, false),
        };
        if same {
            return BakeStep::Reuse;
        }
        if !xaml.contains_key(uri) {
            return BakeStep::NotReady;
        }
        self.rig = None;
        BakeStep::Build { shut_down }
    }

    /// Records the rig that was built.
    pub fn rig_built(&mut self, uri: &str, size: UVec2)
        ensures
            final(self).rig matches Some(rig) && {
                &&& rig.built_for_uri@ == uri@
                &&& rig.size == size
                &&& !rig.renderer_initialized
            },
    {
        self.rig = Some(
            BakeRig { built_for_uri: uri.to_owned(), size, renderer_initialized: false },
        );
    }

    /// Readies the rig for a draw at `size`. `None` without a rig.
    pub fn begin_draw(&mut self, size: UVec2) -> (r: Option<BakeDraw>)
        ensures
            match old(self).rig {
                Some(rig) => {
                    &&& r == Some(bake_draw(rig, size))
                    &&& final(self).rig == Some(drawn(rig, size))
                },
                None => r is None && final(self).rig is None,
            },
    {
        let mut rig: Option<BakeRig> = None;
        core::mem::swap(&mut rig, &mut self.rig);
        match rig {
            Some(rig) => {
                let draw = BakeDraw {
                    resize: rig.size != size,
                    init: !rig.renderer_initialized,
                };
                self.rig = Some(BakeRig { size, renderer_initialized: true, ..rig });
                Some(draw)
            },
            None => None,
        }
    }

    /// Takes the rig down; the answer tells whether its renderer has to be shut
    /// down.
    pub fn teardown_bake_rig(&mut self) -> (shut_down: bool)
        ensures
            shut_down == (old(self).rig matches Some(r) && r.renderer_initialized),
            final(self).rig is None,
    {
        let shut_down = match &self.rig {
            Some(rig) => rig.renderer_initialized,
            None => false,
        };
        self.rig = None;
        shut_down
    }
}

/// The rig is kept: once a template was drawn at a size, baking it again at the
/// same size builds, resizes and initializes nothing.
pub proof fn law_second_bake_builds_nothing(rig: BakeRig, size: UVec2, has_template: bool)
    ensures
        bake_step(Some(drawn(rig, size)), true, rig.built_for_uri@, has_template) is Reuse,
        bake_draw(drawn(rig, size), size) == (BakeDraw { resize: false, init: false }),
{
}

/// A bake that is not ready leaves the rig of another template in place.
pub proof fn law_waiting_keeps_the_rig(
    rig: Option<BakeRig>,
    fallbacks_installed: bool,
    uri: Seq<char>,
)
    ensures
        bake_step(rig, fallbacks_installed, uri, false) !is Build,
        bake_step(rig, false, uri, true) is NotReady,
{
}

/// A rig is used again exactly for the template it was built from, a rig is
/// built exactly where fonts and template are there and no rig fits, and the
/// renderer of the one it replaces is shut down where it was initialized.
pub proof fn law_rigs_fit_their_template(
    rig: Option<BakeRig>,
    fallbacks_installed: bool,
    uri: Seq<char>,
    has_template: bool,
)
    ensures
        ({
            let step = bake_step(rig, fallbacks_installed, uri, has_template);
            let fits = rig is Some && rig->0.built_for_uri@ == uri;
            &&& step is Reuse <==> fallbacks_installed && fits
            &&& step is Build <==> fallbacks_installed && !fits && has_template
            &&& step matches BakeStep::Build { shut_down } ==> (shut_down <==> rig is Some
                && rig->0.renderer_initialized)
        }),
{
}

/// Before a draw a rig's view is told what it does not know: another size where
/// either extent differs, and its renderer once. After it the rig has that size,
/// and the template it had.
pub proof fn law_rigs_are_told_what_changed(rig: BakeRig, size: UVec2)
    ensures
        bake_draw(rig, size).resize <==> rig.size.x != size.x || rig.size.y != size.y,
        bake_draw(rig, size).init <==> !rig.renderer_initialized,
        drawn(rig, size).size == size,
        drawn(rig, size).renderer_initialized,
        drawn(rig, size).built_for_uri == rig.built_for_uri,
{
}

} // verus!
