//! Configuration of a view.

use vstd::prelude::*;

use crate::scalar::{one32, Float32};

verus! {

/// Size in pixels.
#[derive(Clone, Copy, PartialEq, Eq, Debug, Structural)]
pub struct UVec2 {
    pub x: u32,
    pub y: u32,
}

/// Per-view scene configuration: one live engine view, composited onto the
/// camera that carries it.
pub struct NoesisView {
    /// URI of the view's XAML.
    pub xaml_uri: String,
    /// Size of the intermediate that the engine paints into.
    pub size: UVec2,
    /// DPI scale of the content; 1 is 96 pixels per inch.
    pub scale: Float32,
    /// Folders whose fonts must be there before the XAML is parsed.
    pub wait_for_fonts: Vec<String>,
    /// `(folder, filename)` pairs that must be there before the XAML is parsed.
    pub wait_for_font_files: Vec<(String, String)>,
    /// Image URIs that must be there before the XAML is parsed.
    pub wait_for_images: Vec<String>,
    /// Per-primitive antialiasing.
    pub ppaa: bool,
    /// `ResourceDictionary` URIs to merge into the application resources, in
    /// dependency order.
    pub application_resources: Vec<String>,
    /// Font families to fall back to.
    pub font_fallbacks: Vec<String>,
}

impl Default for NoesisView {
    fn default() -> (v: NoesisView)
        ensures
            v.xaml_uri@ == Seq::<char>::empty(),
            v.size == (UVec2 { x: 512, y: 512 }),
            v.scale == one32(),
            v.wait_for_fonts@ == Seq::<String>::empty(),
            v.wait_for_font_files@ == Seq::<(String, String)>::empty(),
            v.wait_for_images@ == Seq::<String>::empty(),
            v.ppaa,
            v.application_resources@ == Seq::<String>::empty(),
            v.font_fallbacks@ == Seq::<String>::empty(),
    {
        NoesisView {
            xaml_uri: String::new(),
            size: UVec2 { x: 512, y: 512 },
            scale: Float32::one(),
            wait_for_fonts: Vec::new(),
            wait_for_font_files: Vec::new(),
            wait_for_images: Vec::new(),
            ppaa: true,
            application_resources: Vec::new(),
            font_fallbacks: Vec::new(),
        }
    }
}

/// Render flag of per-primitive antialiasing.
pub const RENDER_FLAG_PPAA: u32 = 16;

/// Render flags of a view.
pub open spec fn view_flags(ppaa: bool) -> u32 {
    if ppaa {
        RENDER_FLAG_PPAA
    } else {
        0
    }
}

/// Render flags of a view.
pub fn flags_from(config: &NoesisView) -> (f: u32)
    ensures
        f == view_flags(config.ppaa),
{
    if config.ppaa {
        RENDER_FLAG_PPAA
    } else {
        0
    }
}

/// The flags of a view hold one bit, that of antialiasing, set exactly where it
/// is wanted.
pub proof fn law_flags_hold_antialiasing(ppaa: bool)
    ensures
        (view_flags(ppaa) & RENDER_FLAG_PPAA != 0) == ppaa,
        view_flags(ppaa) & !RENDER_FLAG_PPAA == 0,
        view_flags(ppaa) == 16 <==> ppaa,
{
    assert(16u32 & 16 == 16 && 0u32 & 16 == 0 && 16u32 & !16 == 0 && 0u32 & !16 == 0)
        by (bit_vector);
}

} // verus!
