//! Compositing of a painted intermediate onto a camera's target.
//!
//! The engine writes gamma-encoded colours with premultiplied alpha. A target
//! that stores linear values, or encodes what is written, needs them decoded on
//! the way in; a plain 8-bit target is written and displayed as it is.

use vstd::prelude::*;

use crate::render_device::pipeline::{mixed, BlendComponent, BlendFactor, BlendState};
use crate::render_device::sampler::FilterMode;

verus! {

/// Format of a colour target.
#[derive(Clone, Copy, PartialEq, Eq, Debug, Structural)]
pub enum ColorFormat {
    Rgba8Unorm,
    Rgba8UnormSrgb,
    Bgra8Unorm,
    Bgra8UnormSrgb,
    Rgb10a2Unorm,
    Rg11b10Ufloat,
    Rgba16Float,
    Rgba32Float,
    /// Any other format; whether writes to it are gamma-encoded.
    Other { srgb: bool },
}

/// Whether writes to the format are gamma-encoded.
pub open spec fn encodes_srgb(format: ColorFormat) -> bool {
    ||| format == ColorFormat::Rgba8UnormSrgb
    ||| format == ColorFormat::Bgra8UnormSrgb
    ||| format == ColorFormat::Other { srgb: true }
}

/// Whether the format stores linear values that are encoded downstream.
pub open spec fn stores_linear(format: ColorFormat) -> bool {
    format == ColorFormat::Rgba16Float || format == ColorFormat::Rgba32Float || format
        == ColorFormat::Rg11b10Ufloat
}

/// `wgpu::TextureFormat::is_srgb`: true for the two sRGB formats among those
/// that have a name here. It is not asked of any other format.
#[verifier::external_body]
fn is_srgb(format: ColorFormat) -> (r: bool)
    requires
        !(format is Other),
    ensures
        r == encodes_srgb(format),
{
    let f = match format {
        ColorFormat::Rgba8Unorm => wgpu::TextureFormat::Rgba8Unorm,
        ColorFormat::Rgba8UnormSrgb => wgpu::TextureFormat::Rgba8UnormSrgb,
        ColorFormat::Bgra8Unorm => wgpu::TextureFormat::Bgra8Unorm,
        ColorFormat::Bgra8UnormSrgb => wgpu::TextureFormat::Bgra8UnormSrgb,
        ColorFormat::Rgb10a2Unorm => wgpu::TextureFormat::Rgb10a2Unorm,
        ColorFormat::Rg11b10Ufloat => wgpu::TextureFormat::Rg11b10Ufloat,
        ColorFormat::Rgba16Float => wgpu::TextureFormat::Rgba16Float,
        ColorFormat::Rgba32Float => wgpu::TextureFormat::Rgba32Float,
        ColorFormat::Other { .. } => return false,
    };
    f.is_srgb()
}

/// Whether the format stores linear values that are encoded downstream, as the
/// target of a high-dynamic-range camera does.
pub fn is_linear_float(format: ColorFormat) -> (r: bool)
    ensures
        r == stores_linear(format),
{
    match format {
        ColorFormat::Rgba16Float => true,
        ColorFormat::Rgba32Float => true,
        ColorFormat::Rg11b10Ufloat => true,
        _ => false,
    }
}

/// Whether the intermediate is decoded from sRGB when it is sampled for a
/// target of this format.
pub fn decodes_srgb(format: ColorFormat) -> (r: bool)
    ensures
        r == (encodes_srgb(format) || stores_linear(format)),
{
    match format {
        ColorFormat::Other { srgb } => srgb,
        _ => is_srgb(format) || is_linear_float(format),
    }
}

/// The compositing pipeline of a target format.
#[derive(Clone, Copy, PartialEq, Eq, Debug, Structural)]
pub struct BlitDesc {
    /// Format of the target.
    pub format: ColorFormat,
    /// How the intermediate is put over the target.
    pub blend: BlendState,
    /// How the intermediate is sampled when it is magnified or minified.
    pub filter: FilterMode,
    /// Vertices of the one triangle that covers the target.
    pub vertices: u32,
}

/// Source over target with premultiplied alpha: colour and alpha alike are the
/// source plus what its alpha lets through of the target.
pub open spec fn premultiplied_over() -> BlendState {
    let over = BlendComponent {
        src_factor: BlendFactor::One,
        dst_factor: BlendFactor::OneMinusSrcAlpha,
    };
    BlendState { color: over, alpha: over }
}

/// The compositing pipeline of a target format: a covering triangle, linear
/// filtering, premultiplied alpha over whatever the camera left there.
pub fn blit_desc(format: ColorFormat) -> (d: BlitDesc)
    ensures
        d == (BlitDesc {
            format,
            blend: premultiplied_over(),
            filter: FilterMode::Linear,
            vertices: 3,
        }),
{
    let over = BlendComponent {
        src_factor: BlendFactor::One,
        dst_factor: BlendFactor::OneMinusSrcAlpha,
    };
    BlitDesc {
        format,
        blend: BlendState { color: over, alpha: over },
        filter: FilterMode::Linear,
        vertices: 3,
    }
}

/// Compositing puts the painted colours over the camera's: each channel is
/// `cs + cd*(1-as)` and alpha is `as + ad*(1-as)`, for all values.
pub proof fn law_compositing_is_source_over(one: int, cs: int, sa: int, cd: int, da: int)
    ensures
        mixed(premultiplied_over().color, one, cs, sa, cd, cs, sa) == cs * one + cd * (one - sa),
        mixed(premultiplied_over().alpha, one, sa, sa, da, sa, sa) == sa * one + da * (one - sa),
{
}

/// What is gamma-encoded on the way out and what stores linear values never
/// coincide; what is neither is one of the plain formats.
pub proof fn law_what_targets_do_with_colours(format: ColorFormat)
    ensures
        !(encodes_srgb(format) && stores_linear(format)),
        format matches ColorFormat::Other { srgb } ==> encodes_srgb(format) == srgb
            && !stores_linear(format),
        !encodes_srgb(format) && !stores_linear(format) <==> (format is Rgba8Unorm
            || format is Bgra8Unorm || format is Rgb10a2Unorm || (format matches ColorFormat::Other {
            srgb,
        } && !srgb)),
        format is Rgba8UnormSrgb || format is Bgra8UnormSrgb ==> encodes_srgb(format),
        format is Rg11b10Ufloat || format is Rgba16Float || format is Rgba32Float
            ==> stores_linear(format),
{
}

} // verus!
