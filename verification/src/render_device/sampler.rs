//! Sampler state: what a packed sampler byte asks of the GPU.

use vstd::prelude::*;

use crate::render_device::types::{mip_filter_raw, minmag_filter_raw, wrap_mode_raw};

verus! {

/// What happens outside the texture.
#[derive(Clone, Copy, PartialEq, Eq, Debug, Structural)]
pub enum AddressMode {
    ClampToEdge,
    Repeat,
    MirrorRepeat,
}

/// How texels are combined.
#[derive(Clone, Copy, PartialEq, Eq, Debug, Structural)]
pub enum FilterMode {
    Nearest,
    Linear,
}

/// A sampler; the address mode holds on all axes.
#[derive(Clone, Copy, PartialEq, Eq, Debug, Structural)]
pub struct SamplerDesc {
    pub address_mode: AddressMode,
    /// Magnification and minification.
    pub filter: FilterMode,
    /// Between mip levels.
    pub mipmap_filter: FilterMode,
    /// Whether levels below the first are read at all.
    pub use_mipmaps: bool,
}

/// The wrap mode in a sampler byte.
pub open spec fn wrap_mode(sampler: u8) -> u8 {
    sampler & 7
}

/// Whether the wrap mode of a sampler byte is a known one.
pub open spec fn known_wrap(sampler: u8) -> bool {
    wrap_mode(sampler) <= 5
}

/// Address mode of a known wrap mode. Clamping to zero has no counterpart and
/// clamps to the edge; mirroring along one axis mirrors along both.
pub open spec fn address_mode(wrap: u8) -> AddressMode {
    if wrap <= 1 {
        AddressMode::ClampToEdge
    } else if wrap == 2 {
        AddressMode::Repeat
    } else {
        AddressMode::MirrorRepeat
    }
}

/// The sampler of a sampler byte.
pub open spec fn sampler_of(sampler: u8) -> SamplerDesc {
    let mip = (sampler >> 4) & 3;
    SamplerDesc {
        address_mode: address_mode(wrap_mode(sampler)),
        filter: if (sampler >> 3) & 1 == 0 {
            FilterMode::Nearest
        } else {
            FilterMode::Linear
        },
        mipmap_filter: if mip <= 1 {
            FilterMode::Nearest
        } else {
            FilterMode::Linear
        },
        use_mipmaps: mip != 0,
    }
}

/// Address mode of a known wrap mode.
pub fn wgpu_wrap_mode(wrap: u8) -> (r: AddressMode)
    requires
        wrap <= 5,
    ensures
        r == address_mode(wrap),
{
    match wrap {
        0 | 1 => AddressMode::ClampToEdge,
        2 => AddressMode::Repeat,
        _ => AddressMode::MirrorRepeat,
    }
}

/// Whether the wrap mode of a sampler byte is a known one.
pub fn has_known_wrap(sampler: u8) -> (r: bool)
    ensures
        r == known_wrap(sampler),
{
    wrap_mode_raw(sampler) <= 5
}

/// The sampler of a sampler byte with a known wrap mode.
pub fn build_sampler(sampler: u8) -> (r: SamplerDesc)
    requires
        known_wrap(sampler),
    ensures
        r == sampler_of(sampler),
{
    let address_mode = wgpu_wrap_mode(wrap_mode_raw(sampler));
    let filter = match minmag_filter_raw(sampler) {
        0 => FilterMode::Nearest,
        _ => FilterMode::Linear,
    };
    let mip: u8 = mip_filter_raw(sampler);
    let mipmap_filter = match mip {
        0 | 1 => FilterMode::Nearest,
        _ => FilterMode::Linear,
    };
    SamplerDesc { address_mode, filter, mipmap_filter, use_mipmaps: mip != 0 }
}

/// A sampler byte is made of four fields: the wrap mode in the lowest three
/// bits, one bit for the filter, two for the mip filter, and two that nothing
/// reads. Wrap modes 0 and 1 clamp, 2 repeats, 3 to 5 mirror and the others are
/// unknown; the filter is linear where its bit is set; mip levels are read where
/// the mip filter is not 0, and interpolated where it is at least 2.
pub proof fn law_sampler_byte_is_taken_apart(
    sampler: u8,
    wrap: u8,
    minmag: u8,
    mip: u8,
    spare: u8,
)
    requires
        wrap < 8,
        minmag < 2,
        mip < 4,
        spare < 4,
        sampler == wrap + 8 * minmag + 16 * mip + 64 * spare,
    ensures
        known_wrap(sampler) <==> wrap < 6,
        sampler_of(sampler).address_mode is ClampToEdge <==> wrap < 2,
        sampler_of(sampler).address_mode is Repeat <==> wrap == 2,
        sampler_of(sampler).address_mode is MirrorRepeat <==> wrap > 2,
        sampler_of(sampler).filter is Linear <==> minmag == 1,
        sampler_of(sampler).use_mipmaps <==> mip > 0,
        sampler_of(sampler).mipmap_filter is Linear <==> mip > 1,
{
    assert(sampler & 7 == wrap && (sampler >> 3) & 1 == minmag && (sampler >> 4) & 3 == mip)
        by (bit_vector)
        requires
            wrap < 8,
            minmag < 2,
            mip < 4,
            spare < 4,
            sampler == (wrap + 8 * minmag + 16 * mip + 64 * spare) as u8,
    ;
}

/// Wrap modes of a sampler byte by themselves: the address mode is that of the
/// sampler.
pub proof fn law_wrap_modes(wrap: u8)
    requires
        wrap < 8,
    ensures
        address_mode(wrap) == sampler_of(wrap).address_mode,
        address_mode(wrap) is ClampToEdge <==> wrap < 2,
        address_mode(wrap) is Repeat <==> wrap == 2,
{
    assert(wrap & 7 == wrap) by (bit_vector)
        requires
            wrap < 8,
    ;
}

} // verus!
