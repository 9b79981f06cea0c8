//! The engine's plain render-device vocabulary: shader ids, packed state words
//! and the lookup tables that tie shaders to vertex layouts.

use vstd::prelude::*;

verus! {

/// Number of shader ids.
pub const SHADER_COUNT: u8 = 53;

/// Number of vertex shaders.
pub const VERTEX_SHADER_COUNT: u8 = 21;

/// Number of vertex formats.
pub const VERTEX_FORMAT_COUNT: u8 = 16;

/// Number of vertex attributes.
pub const VERTEX_ATTR_COUNT: u8 = 8;

/// Number of attribute storage types.
pub const VERTEX_ATTR_TYPE_COUNT: u8 = 5;

/// What a shader does with the colour its paint yields.
#[derive(Clone, Copy, PartialEq, Eq, Debug, Structural)]
pub enum Effect {
    /// Flat per-vertex colour, for debugging.
    Rgba,
    /// Stencil-only mask.
    Mask,
    /// Clears the target.
    Clear,
    /// Fills a path.
    Path,
    /// Fills a path with antialiased edges.
    PathAa,
    /// Signed-distance-field text.
    Sdf,
    /// Subpixel signed-distance-field text.
    SdfLcd,
    /// Composites a layer with an opacity mask.
    Opacity,
    /// Blur-chain upsample.
    Upsample,
    /// Blur-chain downsample.
    Downsample,
    /// Drop shadow.
    Shadow,
    /// Gaussian blur resolve.
    Blur,
    /// User pixel shader.
    Custom,
}

/// How a pattern paint treats coordinates outside its rectangle.
#[derive(Clone, Copy, PartialEq, Eq, Debug, Structural)]
pub enum PatternWrap {
    Plain,
    Clamp,
    Repeat,
    MirrorU,
    MirrorV,
    Mirror,
}

/// Where a shader takes its colour from.
#[derive(Clone, Copy, PartialEq, Eq, Debug, Structural)]
pub enum Paint {
    /// The vertex colour.
    Solid,
    /// A linear gradient out of the ramps texture.
    Linear,
    /// A radial gradient out of the ramps texture.
    Radial,
    /// A pattern texture.
    Pattern(PatternWrap),
}

/// First id of the families that come in one shader per paint.
pub const FIRST_PAINTED: u8 = 3;

/// First id past those families.
pub const END_PAINTED: u8 = 48;

/// Number of paints, and so of shaders in each such family.
pub const PAINT_COUNT: u8 = 9;

/// The effect of a shader id. The ids from 3 to 47 are five families of nine
/// paints each.
pub open spec fn effect_spec(shader: u8) -> Option<Effect> {
    if FIRST_PAINTED <= shader < END_PAINTED {
        let family = (shader - FIRST_PAINTED) / PAINT_COUNT as int;
        Some(
            if family == 0 {
                Effect::Path
            } else if family == 1 {
                Effect::PathAa
            } else if family == 2 {
                Effect::Sdf
            } else if family == 3 {
                Effect::SdfLcd
            } else {
                Effect::Opacity
            },
        )
    } else if shader == 0 {
        Some(Effect::Rgba)
    } else if shader == 1 {
        Some(Effect::Mask)
    } else if shader == 2 {
        Some(Effect::Clear)
    } else if shader == 48 {
        Some(Effect::Upsample)
    } else if shader == 49 {
        Some(Effect::Downsample)
    } else if shader == 50 {
        Some(Effect::Shadow)
    } else if shader == 51 {
        Some(Effect::Blur)
    } else if shader == 52 {
        Some(Effect::Custom)
    } else {
        None
    }
}

/// The paint of a shader id that belongs to a painted family.
pub open spec fn paint_spec(shader: u8) -> Option<Paint> {
    if FIRST_PAINTED <= shader < END_PAINTED {
        let paint = (shader - FIRST_PAINTED) % PAINT_COUNT as int;
        Some(
            if paint == 0 {
                Paint::Solid
            } else if paint == 1 {
                Paint::Linear
            } else if paint == 2 {
                Paint::Radial
            } else if paint == 3 {
                Paint::Pattern(PatternWrap::Plain)
            } else if paint == 4 {
                Paint::Pattern(PatternWrap::Clamp)
            } else if paint == 5 {
                Paint::Pattern(PatternWrap::Repeat)
            } else if paint == 6 {
                Paint::Pattern(PatternWrap::MirrorU)
            } else if paint == 7 {
                Paint::Pattern(PatternWrap::MirrorV)
            } else {
                Paint::Pattern(PatternWrap::Mirror)
            },
        )
    } else {
        None
    }
}

/// The effect of a shader id, `None` for a byte that names no shader.
pub fn effect_of(shader: u8) -> (r: Option<Effect>)
    ensures
        r == effect_spec(shader),
{
    if FIRST_PAINTED <= shader && shader < END_PAINTED {
        let family: u8 = (shader - FIRST_PAINTED) / PAINT_COUNT;
        Some(
            match family {
                0 => Effect::Path,
                1 => Effect::PathAa,
                2 => Effect::Sdf,
                3 => Effect::SdfLcd,
                _ => Effect::Opacity,
            },
        )
    } else {
        match shader {
            0 => Some(Effect::Rgba),
            1 => Some(Effect::Mask),
            2 => Some(Effect::Clear),
            48 => Some(Effect::Upsample),
            49 => Some(Effect::Downsample),
            50 => Some(Effect::Shadow),
            51 => Some(Effect::Blur),
            52 => Some(Effect::Custom),
            _ => None,
        }
    }
}

/// The paint of a shader id, `None` outside the painted families.
pub fn paint_of(shader: u8) -> (r: Option<Paint>)
    ensures
        r == paint_spec(shader),
{
    if FIRST_PAINTED <= shader && shader < END_PAINTED {
        let paint: u8 = (shader - FIRST_PAINTED) % PAINT_COUNT;
        Some(
            match paint {
                0 => Paint::Solid,
                1 => Paint::Linear,
                2 => Paint::Radial,
                3 => Paint::Pattern(PatternWrap::Plain),
                4 => Paint::Pattern(PatternWrap::Clamp),
                5 => Paint::Pattern(PatternWrap::Repeat),
                6 => Paint::Pattern(PatternWrap::MirrorU),
                7 => Paint::Pattern(PatternWrap::MirrorV),
                _ => Paint::Pattern(PatternWrap::Mirror),
            },
        )
    } else {
        None
    }
}

/// The vertex shader that each shader id runs with.
pub open spec fn vertex_shader_table() -> Seq<u8> {
    seq![
        0, 0, 0, 1, 2, 2, 2, 3, 4, 4, 4, 4, 5, 6, 6, 6, 7, 8, 8, 8, 8, 9, 10, 10, 10, 11, 12, 12,
        12, 12, 9, 10, 10, 10, 11, 12, 12, 12, 12, 13, 14, 14, 14, 15, 16, 16, 16, 16, 17, 18, 19,
        13, 20,
    ]
}

/// The vertex format that each vertex shader consumes.
pub open spec fn vertex_format_table() -> Seq<u8> {
    seq![0, 1, 2, 3, 4, 5, 6, 7, 8, 9, 10, 11, 12, 9, 10, 11, 12, 13, 10, 14, 15]
}

/// Stride in bytes of each vertex format.
pub open spec fn stride_table() -> Seq<u8> {
    seq![8, 12, 16, 24, 40, 16, 20, 28, 44, 20, 24, 32, 48, 28, 28, 44]
}

/// Attributes of each vertex format, bit `n` for attribute `n`.
pub open spec fn attributes_table() -> Seq<u8> {
    seq![1, 3, 5, 37, 101, 19, 21, 53, 117, 11, 13, 45, 109, 15, 43, 167]
}

/// Storage type of each attribute.
pub open spec fn attr_type_table() -> Seq<u8> {
    seq![1, 3, 1, 1, 0, 4, 2, 2]
}

/// Size in bytes of each storage type.
pub open spec fn type_size_table() -> Seq<u8> {
    seq![4, 8, 16, 4, 8]
}

/// Entry `shader` of `noesis_runtime::render_device::types::VERTEX_FOR_SHADER`:
/// the table holds the values of [`vertex_shader_table`].
#[verifier::external_body]
pub(crate) fn vertex_for_shader(shader: u8) -> (r: u8)
    requires
        shader < SHADER_COUNT,
    ensures
        r == vertex_shader_table()[shader as int],
{
    noesis_runtime::render_device::types::VERTEX_FOR_SHADER[shader as usize]
}

/// Entry `vertex` of `noesis_runtime::render_device::types::FORMAT_FOR_VERTEX`:
/// the table holds the values of [`vertex_format_table`].
#[verifier::external_body]
pub(crate) fn format_for_vertex(vertex: u8) -> (r: u8)
    requires
        vertex < VERTEX_SHADER_COUNT,
    ensures
        r == vertex_format_table()[vertex as int],
{
    noesis_runtime::render_device::types::FORMAT_FOR_VERTEX[vertex as usize]
}

/// Entry `format` of `noesis_runtime::render_device::types::SIZE_FOR_FORMAT`:
/// the table holds the values of [`stride_table`].
#[verifier::external_body]
pub(crate) fn size_for_format(format: u8) -> (r: u8)
    requires
        format < VERTEX_FORMAT_COUNT,
    ensures
        r == stride_table()[format as int],
{
    noesis_runtime::render_device::types::SIZE_FOR_FORMAT[format as usize]
}

/// Entry `format` of
/// `noesis_runtime::render_device::types::ATTRIBUTES_FOR_FORMAT`: the table
/// holds the values of [`attributes_table`].
#[verifier::external_body]
pub(crate) fn attributes_mask(format: u8) -> (r: u8)
    requires
        format < VERTEX_FORMAT_COUNT,
    ensures
        r == attributes_table()[format as int],
{
    noesis_runtime::render_device::types::ATTRIBUTES_FOR_FORMAT[format as usize]
}

/// Entry `attr` of `noesis_runtime::render_device::types::TYPE_FOR_ATTR`: the
/// table holds the values of [`attr_type_table`].
#[verifier::external_body]
pub(crate) fn type_for_attr(attr: u8) -> (r: u8)
    requires
        attr < VERTEX_ATTR_COUNT,
    ensures
        r == attr_type_table()[attr as int],
{
    noesis_runtime::render_device::types::TYPE_FOR_ATTR[attr as usize]
}

/// Entry `ty` of `noesis_runtime::render_device::types::SIZE_FOR_TYPE`: the
/// table holds the values of [`type_size_table`].
#[verifier::external_body]
pub(crate) fn size_for_type(ty: u8) -> (r: u8)
    requires
        ty < VERTEX_ATTR_TYPE_COUNT,
    ensures
        r == type_size_table()[ty as int],
{
    noesis_runtime::render_device::types::SIZE_FOR_TYPE[ty as usize]
}

/// `RenderState::color_enable` of `noesis_runtime`: bit 0 of the state byte.
#[verifier::external_body]
pub(crate) fn color_enable(state: u8) -> (r: bool)
    ensures
        r == (state & 1 != 0),
{
    noesis_runtime::render_device::types::RenderState(state).color_enable()
}

/// `RenderState::blend_mode_raw` of `noesis_runtime`: bits 1 to 3 of the state
/// byte.
#[verifier::external_body]
pub(crate) fn blend_mode_raw(state: u8) -> (r: u8)
    ensures
        r == (state >> 1) & 7,
{
    noesis_runtime::render_device::types::RenderState(state).blend_mode_raw()
}

/// `RenderState::stencil_mode_raw` of `noesis_runtime`: bits 4 to 6 of the
/// state byte.
#[verifier::external_body]
pub(crate) fn stencil_mode_raw(state: u8) -> (r: u8)
    ensures
        r == (state >> 4) & 7,
{
    noesis_runtime::render_device::types::RenderState(state).stencil_mode_raw()
}

/// `SamplerState::wrap_mode_raw` of `noesis_runtime`: bits 0 to 2 of the
/// sampler byte.
#[verifier::external_body]
pub(crate) fn wrap_mode_raw(sampler: u8) -> (r: u8)
    ensures
        r == sampler & 7,
{
    noesis_runtime::render_device::types::SamplerState(sampler).wrap_mode_raw()
}

/// `SamplerState::minmag_filter_raw` of `noesis_runtime`: bit 3 of the sampler
/// byte.
#[verifier::external_body]
pub(crate) fn minmag_filter_raw(sampler: u8) -> (r: u8)
    ensures
        r == (sampler >> 3) & 1,
{
    noesis_runtime::render_device::types::SamplerState(sampler).minmag_filter_raw()
}

/// `SamplerState::mip_filter_raw` of `noesis_runtime`: bits 4 and 5 of the
/// sampler byte.
#[verifier::external_body]
pub(crate) fn mip_filter_raw(sampler: u8) -> (r: u8)
    ensures
        r == (sampler >> 4) & 3,
{
    noesis_runtime::render_device::types::SamplerState(sampler).mip_filter_raw()
}

/// A texture and the sampler state it is read with.
#[derive(Clone, Copy, PartialEq, Eq, Debug, Structural)]
pub struct TextureSlot {
    /// Handle that the device gave the texture.
    pub handle: u64,
    /// Packed sampler state.
    pub sampler: u8,
}

/// One indexed-triangle draw call of the engine.
pub struct Batch {
    /// Shader id.
    pub shader: u8,
    /// Packed colour-write, blend, stencil and wireframe flags.
    pub render_state: u8,
    /// Reference value of the stencil test.
    pub stencil_ref: u8,
    /// Byte offset into the most recently mapped vertices.
    pub vertex_offset: u32,
    /// Number of vertices.
    pub num_vertices: u32,
    /// First index to draw, counted in 16-bit indices of the most recently
    /// mapped indices.
    pub start_index: u32,
    /// Number of indices to draw.
    pub num_indices: u32,
    /// Pattern texture.
    pub pattern: Option<u64>,
    /// Gradient ramps texture.
    pub ramps: Option<u64>,
    /// Rendered-layer texture.
    pub image: Option<u64>,
    /// Glyph atlas.
    pub glyphs: Option<u64>,
    /// Blurred-layer texture.
    pub shadow: Option<u64>,
    /// Sampler of `pattern`.
    pub pattern_sampler: u8,
    /// Sampler of `ramps`.
    pub ramps_sampler: u8,
    /// Sampler of `image`.
    pub image_sampler: u8,
    /// Sampler of `glyphs`.
    pub glyphs_sampler: u8,
    /// Sampler of `shadow`.
    pub shadow_sampler: u8,
    /// First vertex-shader constant buffer.
    pub vertex_uniforms0: Vec<u8>,
    /// Second vertex-shader constant buffer.
    pub vertex_uniforms1: Vec<u8>,
    /// First pixel-shader constant buffer.
    pub pixel_uniforms0: Vec<u8>,
    /// Second pixel-shader constant buffer.
    pub pixel_uniforms1: Vec<u8>,
}

/// The vertex format that a shader id draws with.
pub open spec fn format_of(shader: u8) -> u8 {
    vertex_format_table()[vertex_shader_table()[shader as int] as int]
}

/// The vertex format that a shader id draws with.
pub fn format_for_shader(shader: u8) -> (r: u8)
    requires
        shader < SHADER_COUNT,
    ensures
        r == format_of(shader),
        r < VERTEX_FORMAT_COUNT,
{
    let v: u8 = vertex_for_shader(shader);
    let f: u8 = format_for_vertex(v);
    f
}

/// Whether vertex format `format` carries attribute `attr`.
pub open spec fn format_has(format: u8, attr: u8) -> bool {
    attributes_table()[format as int] & (1u8 << attr) != 0
}

/// The attributes of a vertex format as flags.
pub(crate) open spec fn attribute_bits(format: u8) -> Seq<bool> {
    if format == 0 {
        seq![true, false, false, false, false, false, false, false]
    } else if format == 1 {
        seq![true, true, false, false, false, false, false, false]
    } else if format == 2 {
        seq![true, false, true, false, false, false, false, false]
    } else if format == 3 {
        seq![true, false, true, false, false, true, false, false]
    } else if format == 4 {
        seq![true, false, true, false, false, true, true, false]
    } else if format == 5 {
        seq![true, true, false, false, true, false, false, false]
    } else if format == 6 {
        seq![true, false, true, false, true, false, false, false]
    } else if format == 7 {
        seq![true, false, true, false, true, true, false, false]
    } else if format == 8 {
        seq![true, false, true, false, true, true, true, false]
    } else if format == 9 {
        seq![true, true, false, true, false, false, false, false]
    } else if format == 10 {
        seq![true, false, true, true, false, false, false, false]
    } else if format == 11 {
        seq![true, false, true, true, false, true, false, false]
    } else if format == 12 {
        seq![true, false, true, true, false, true, true, false]
    } else if format == 13 {
        seq![true, true, true, true, false, false, false, false]
    } else if format == 14 {
        seq![true, true, false, true, false, true, false, false]
    } else if format == 15 {
        seq![true, true, true, false, false, true, false, true]
    } else {
        seq![false, false, false, false, false, false, false, false]
    }
}

/// The flags agree with the bits of the engine's mask.
pub(crate) proof fn lemma_attribute_bits(format: u8, attr: u8)
    requires
        format < VERTEX_FORMAT_COUNT,
        attr < VERTEX_ATTR_COUNT,
    ensures
        format_has(format, attr) == attribute_bits(format)[attr as int],
{
    assert(1u8 & (1u8 << 0u8) != 0 && 3u8 & (1u8 << 0u8) != 0 && 5u8 & (1u8 << 0u8) != 0 && 11u8 & (1u8 << 0u8) != 0 && 13u8 & (1u8 << 0u8) != 0 && 15u8 & (1u8 << 0u8) != 0 && 19u8 & (1u8 << 0u8) != 0 && 21u8 & (1u8 << 0u8) != 0 && 37u8 & (1u8 << 0u8) != 0 && 43u8 & (1u8 << 0u8) != 0 && 45u8 & (1u8 << 0u8) != 0 && 53u8 & (1u8 << 0u8) != 0 && 101u8 & (1u8 << 0u8) != 0 && 109u8 & (1u8 << 0u8) != 0 && 117u8 & (1u8 << 0u8) != 0 && 167u8 & (1u8 << 0u8) != 0) by (bit_vector);
    assert(1u8 & (1u8 << 1u8) == 0 && 3u8 & (1u8 << 1u8) != 0 && 5u8 & (1u8 << 1u8) == 0 && 11u8 & (1u8 << 1u8) != 0 && 13u8 & (1u8 << 1u8) == 0 && 15u8 & (1u8 << 1u8) != 0 && 19u8 & (1u8 << 1u8) != 0 && 21u8 & (1u8 << 1u8) == 0 && 37u8 & (1u8 << 1u8) == 0 && 43u8 & (1u8 << 1u8) != 0 && 45u8 & (1u8 << 1u8) == 0 && 53u8 & (1u8 << 1u8) == 0 && 101u8 & (1u8 << 1u8) == 0 && 109u8 & (1u8 << 1u8) == 0 && 117u8 & (1u8 << 1u8) == 0 && 167u8 & (1u8 << 1u8) != 0) by (bit_vector);
    assert(1u8 & (1u8 << 2u8) == 0 && 3u8 & (1u8 << 2u8) == 0 && 5u8 & (1u8 << 2u8) != 0 && 11u8 & (1u8 << 2u8) == 0 && 13u8 & (1u8 << 2u8) != 0 && 15u8 & (1u8 << 2u8) != 0 && 19u8 & (1u8 << 2u8) == 0 && 21u8 & (1u8 << 2u8) != 0 && 37u8 & (1u8 << 2u8) != 0 && 43u8 & (1u8 << 2u8) == 0 && 45u8 & (1u8 << 2u8) != 0 && 53u8 & (1u8 << 2u8) != 0 && 101u8 & (1u8 << 2u8) != 0 && 109u8 & (1u8 << 2u8) != 0 && 117u8 & (1u8 << 2u8) != 0 && 167u8 & (1u8 << 2u8) != 0) by (bit_vector);
    assert(1u8 & (1u8 << 3u8) == 0 && 3u8 & (1u8 << 3u8) == 0 && 5u8 & (1u8 << 3u8) == 0 && 11u8 & (1u8 << 3u8) != 0 && 13u8 & (1u8 << 3u8) != 0 && 15u8 & (1u8 << 3u8) != 0 && 19u8 & (1u8 << 3u8) == 0 && 21u8 & (1u8 << 3u8) == 0 && 37u8 & (1u8 << 3u8) == 0 && 43u8 & (1u8 << 3u8) != 0 && 45u8 & (1u8 << 3u8) != 0 && 53u8 & (1u8 << 3u8) == 0 && 101u8 & (1u8 << 3u8) == 0 && 109u8 & (1u8 << 3u8) != 0 && 117u8 & (1u8 << 3u8) == 0 && 167u8 & (1u8 << 3u8) == 0) by (bit_vector);
    assert(1u8 & (1u8 << 4u8) == 0 && 3u8 & (1u8 << 4u8) == 0 && 5u8 & (1u8 << 4u8) == 0 && 11u8 & (1u8 << 4u8) == 0 && 13u8 & (1u8 << 4u8) == 0 && 15u8 & (1u8 << 4u8) == 0 && 19u8 & (1u8 << 4u8) != 0 && 21u8 & (1u8 << 4u8) != 0 && 37u8 & (1u8 << 4u8) == 0 && 43u8 & (1u8 << 4u8) == 0 && 45u8 & (1u8 << 4u8) == 0 && 53u8 & (1u8 << 4u8) != 0 && 101u8 & (1u8 << 4u8) == 0 && 109u8 & (1u8 << 4u8) == 0 && 117u8 & (1u8 << 4u8) != 0 && 167u8 & (1u8 << 4u8) == 0) by (bit_vector);
    assert(1u8 & (1u8 << 5u8) == 0 && 3u8 & (1u8 << 5u8) == 0 && 5u8 & (1u8 << 5u8) == 0 && 11u8 & (1u8 << 5u8) == 0 && 13u8 & (1u8 << 5u8) == 0 && 15u8 & (1u8 << 5u8) == 0 && 19u8 & (1u8 << 5u8) == 0 && 21u8 & (1u8 << 5u8) == 0 && 37u8 & (1u8 << 5u8) != 0 && 43u8 & (1u8 << 5u8) != 0 && 45u8 & (1u8 << 5u8) != 0 && 53u8 & (1u8 << 5u8) != 0 && 101u8 & (1u8 << 5u8) != 0 && 109u8 & (1u8 << 5u8) != 0 && 117u8 & (1u8 << 5u8) != 0 && 167u8 & (1u8 << 5u8) != 0) by (bit_vector);
    assert(1u8 & (1u8 << 6u8) == 0 && 3u8 & (1u8 << 6u8) == 0 && 5u8 & (1u8 << 6u8) == 0 && 11u8 & (1u8 << 6u8) == 0 && 13u8 & (1u8 << 6u8) == 0 && 15u8 & (1u8 << 6u8) == 0 && 19u8 & (1u8 << 6u8) == 0 && 21u8 & (1u8 << 6u8) == 0 && 37u8 & (1u8 << 6u8) == 0 && 43u8 & (1u8 << 6u8) == 0 && 45u8 & (1u8 << 6u8) == 0 && 53u8 & (1u8 << 6u8) == 0 && 101u8 & (1u8 << 6u8) != 0 && 109u8 & (1u8 << 6u8) != 0 && 117u8 & (1u8 << 6u8) != 0 && 167u8 & (1u8 << 6u8) == 0) by (bit_vector);
    assert(1u8 & (1u8 << 7u8) == 0 && 3u8 & (1u8 << 7u8) == 0 && 5u8 & (1u8 << 7u8) == 0 && 11u8 & (1u8 << 7u8) == 0 && 13u8 & (1u8 << 7u8) == 0 && 15u8 & (1u8 << 7u8) == 0 && 19u8 & (1u8 << 7u8) == 0 && 21u8 & (1u8 << 7u8) == 0 && 37u8 & (1u8 << 7u8) == 0 && 43u8 & (1u8 << 7u8) == 0 && 45u8 & (1u8 << 7u8) == 0 && 53u8 & (1u8 << 7u8) == 0 && 101u8 & (1u8 << 7u8) == 0 && 109u8 & (1u8 << 7u8) == 0 && 117u8 & (1u8 << 7u8) == 0 && 167u8 & (1u8 << 7u8) != 0) by (bit_vector);
}

/// A shader id from 3 to 47 is one of five effects in one of nine paints, its
/// place in the one deciding the effect alone and its place in the other the
/// paint alone; ids outside have an effect of their own, or none, and no paint.
pub proof fn law_shader_ids_pair_effect_and_paint(shader: u8, family: u8, paint: u8)
    requires
        family < 5,
        paint < 9,
        shader == 3 + 9 * family + paint,
    ensures
        effect_spec(shader) == Some(Effect::Path) <==> family == 0,
        effect_spec(shader) == Some(Effect::PathAa) <==> family == 1,
        effect_spec(shader) == Some(Effect::Sdf) <==> family == 2,
        effect_spec(shader) == Some(Effect::SdfLcd) <==> family == 3,
        effect_spec(shader) == Some(Effect::Opacity) <==> family == 4,
        paint_spec(shader) == Some(Paint::Solid) <==> paint == 0,
        paint_spec(shader) == Some(Paint::Linear) <==> paint == 1,
        paint_spec(shader) == Some(Paint::Radial) <==> paint == 2,
        paint_spec(shader) == Some(Paint::Pattern(PatternWrap::Plain)) <==> paint == 3,
        paint_spec(shader) == Some(Paint::Pattern(PatternWrap::Clamp)) <==> paint == 4,
        paint_spec(shader) == Some(Paint::Pattern(PatternWrap::Repeat)) <==> paint == 5,
        paint_spec(shader) == Some(Paint::Pattern(PatternWrap::MirrorU)) <==> paint == 6,
        paint_spec(shader) == Some(Paint::Pattern(PatternWrap::MirrorV)) <==> paint == 7,
        paint_spec(shader) == Some(Paint::Pattern(PatternWrap::Mirror)) <==> paint == 8,
{
    assert((shader - 3) / 9 == family && (shader - 3) % 9 == paint) by (nonlinear_arith)
        requires
            shader == 3 + 9 * family + paint,
            0 <= paint < 9,
    ;
}

/// Shader ids outside the painted families have no paint, and effects of their
/// own as far as they are known.
pub proof fn law_unpainted_shader_ids(shader: u8)
    requires
        shader < 3 || shader >= 48,
    ensures
        paint_spec(shader) is None,
        effect_spec(shader) is None <==> shader > 52,
        effect_spec(shader) == Some(Effect::Rgba) <==> shader == 0,
        effect_spec(shader) == Some(Effect::Mask) <==> shader == 1,
        effect_spec(shader) == Some(Effect::Clear) <==> shader == 2,
        effect_spec(shader) == Some(Effect::Upsample) <==> shader == 48,
        effect_spec(shader) == Some(Effect::Downsample) <==> shader == 49,
        effect_spec(shader) == Some(Effect::Shadow) <==> shader == 50,
        effect_spec(shader) == Some(Effect::Blur) <==> shader == 51,
        effect_spec(shader) == Some(Effect::Custom) <==> shader == 52,
{
}

} // verus!
