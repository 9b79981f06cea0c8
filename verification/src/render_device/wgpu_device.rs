//! The render device: textures, render targets, the frame phases and what each
//! draw binds.
//!
//! The device turns the engine's draw stream into plans: which buffers and
//! pipelines to make, what to upload where, and what a draw binds. The GPU
//! calls follow the plans one for one.
//!
//! - Each `begin_*_render` opens its own encoder, submitted at the matching
//!   `end_*_render`.
//! - While the onscreen phase is open, draws go to the onscreen target; while
//!   the offscreen phase is open, to the render target bound last.

use vstd::prelude::*;

use crate::keyed::{Key, KeyedMap};
use crate::render_device::pipeline::{
    key_of, Ensured, PipelineCache, PipelineDesc, PipelineKey,
};
use crate::render_device::rings::{padded, round4, slot_offset, UniformRing, UniformWrite};
use crate::render_device::sampler::{has_known_wrap, known_wrap};
use crate::render_device::shader_defines::{
    defines_of, has_image_texture, has_paint_texture, has_shadow_texture, has_uv0, has_variant,
    is_text, lemma_inputs_defined, shader_has_variant,
};
use crate::render_device::streams::{
    can_unmap, mapped_stream, unmapped_stream, GeometryStream, Upload,
};
use crate::render_device::types::{
    effect_of, effect_spec, format_of, paint_of, paint_spec, size_for_format, stride_table, Batch,
    Effect, Paint, TextureSlot, SHADER_COUNT,
};

verus! {

/// Bytes of the vertex stream at the start.
pub const DYNAMIC_VB_SIZE: u32 = 524288;

/// Bytes of the index stream at the start.
pub const DYNAMIC_IB_SIZE: u32 = 131072;

/// Bytes of a vertex-shader uniform slot: the projection matrix, then the
/// glyph-atlas size padded to four floats.
pub const VS_UNIFORM_SIZE: u64 = 80;

/// Where the glyph-atlas size starts in a vertex-shader slot.
pub const VS_GLYPH_SIZE_OFFSET: usize = 64;

/// Bytes of a slot of the first pixel-shader uniform buffer.
pub const PS_UNIFORM0_SIZE: u64 = 32;

/// Bytes of a slot of the second pixel-shader uniform buffer.
pub const PS_UNIFORM1_SIZE: u64 = 32;

/// Draws that a frame phase has room for.
pub const UNIFORM_RING_SLOTS: u32 = 1024;

/// Pixel layout that the engine asks for.
#[derive(Clone, Copy, PartialEq, Eq, Debug, Structural)]
pub enum TextureFormat {
    Rgba8,
    /// As `Rgba8`, the alpha channel unused.
    Rgbx8,
    R8,
    /// A layout that the engine may come to use; treated as `Rgba8`.
    Other,
}

/// Pixel layout on the GPU.
#[derive(Clone, Copy, PartialEq, Eq, Debug, Structural)]
pub enum GpuFormat {
    Rgba8Unorm,
    R8Unorm,
}

/// GPU layout of an engine format.
pub open spec fn gpu_format(format: TextureFormat) -> GpuFormat {
    if format == TextureFormat::R8 {
        GpuFormat::R8Unorm
    } else {
        GpuFormat::Rgba8Unorm
    }
}

/// Bytes per texel of an engine format.
pub open spec fn texel_size(format: TextureFormat) -> u32 {
    if format == TextureFormat::R8 {
        1
    } else {
        4
    }
}

/// GPU layout of an engine format.
pub fn wgpu_format_for(format: TextureFormat) -> (r: GpuFormat)
    ensures
        r == gpu_format(format),
{
    match format {
        TextureFormat::Rgba8 | TextureFormat::Rgbx8 => GpuFormat::Rgba8Unorm,
        TextureFormat::R8 => GpuFormat::R8Unorm,
        TextureFormat::Other => GpuFormat::Rgba8Unorm,
    }
}

/// Bytes per texel of an engine format.
pub fn bytes_per_pixel(format: TextureFormat) -> (r: u32)
    ensures
        r == texel_size(format),
{
    match format {
        TextureFormat::Rgba8 | TextureFormat::Rgbx8 => 4,
        TextureFormat::R8 => 1,
        TextureFormat::Other => 4,
    }
}

/// Whether a shader variant samples a paint texture.
pub open spec fn uses_paint_texture(shader: u8) -> bool {
    has_variant(shader) && has_paint_texture(shader)
}

/// Whether `shader` reads a texture in the paint slot.
pub fn shader_uses_paint_texture(shader: u8) -> (r: bool)
    ensures
        r == uses_paint_texture(shader),
{
    if !shader_has_variant(shader) {
        return false;
    }
    match paint_of(shader) {
        Some(Paint::Solid) => matches!(effect_of(shader), Some(Effect::Sdf) | Some(Effect::SdfLcd)),
        Some(_) => true,
        None => matches!(
            effect_of(shader),
            Some(Effect::Upsample) | Some(Effect::Downsample)
        ),
    }
}

/// Whether `shader` reads the rendered layer.
pub fn shader_uses_image_texture(shader: u8) -> (r: bool)
    ensures
        r == has_image_texture(shader),
{
    match effect_of(shader) {
        Some(e) => e == Effect::Opacity || e == Effect::Upsample || e == Effect::Shadow || e
            == Effect::Blur,
        None => false,
    }
}

/// Whether `shader` reads the blurred layer too.
pub fn shader_uses_shadow_texture(shader: u8) -> (r: bool)
    ensures
        r == has_shadow_texture(shader),
{
    match effect_of(shader) {
        Some(e) => e == Effect::Shadow || e == Effect::Blur,
        None => false,
    }
}

/// The device binds a texture at a slot exactly when the shader variant
/// declares one there.
pub proof fn law_bindings_match_defines(shader: u8)
    requires
        has_variant(shader),
    ensures
        defines_of(shader).contains("HAS_PAINT_TEXTURE"@) <==> uses_paint_texture(shader),
        defines_of(shader).contains("HAS_IMAGE_TEXTURE"@) <==> has_image_texture(shader),
        defines_of(shader).contains("HAS_SHADOW_TEXTURE"@) <==> has_shadow_texture(shader),
{
    lemma_inputs_defined(shader);
}

/// A texture of the batch with its sampler, where the texture is there.
pub open spec fn slot(handle: Option<u64>, sampler: u8) -> Option<TextureSlot> {
    match handle {
        Some(h) => Some(TextureSlot { handle: h, sampler }),
        None => None,
    }
}

/// The paint texture of a batch: the glyph atlas for text, the gradient ramps
/// for gradients, the pattern for everything else that paints from a texture.
pub open spec fn paint_texture(batch: Batch) -> Option<TextureSlot> {
    let s = batch.shader;
    if !uses_paint_texture(s) {
        None
    } else if is_text(s) {
        slot(batch.glyphs, batch.glyphs_sampler)
    } else if paint_spec(s) == Some(Paint::Linear) || paint_spec(s) == Some(Paint::Radial) {
        slot(batch.ramps, batch.ramps_sampler)
    } else {
        slot(batch.pattern, batch.pattern_sampler)
    }
}

fn slot_for(handle: Option<u64>, sampler: u8) -> (r: Option<TextureSlot>)
    ensures
        r == slot(handle, sampler),
{
    match handle {
        Some(h) => Some(TextureSlot { handle: h, sampler }),
        None => None,
    }
}

/// The paint texture that `batch` binds; `None` also where the engine left the
/// slot empty.
pub fn batch_paint_texture(batch: &Batch) -> (r: Option<TextureSlot>)
    ensures
        r == paint_texture(*batch),
{
    let shader: u8 = batch.shader;
    if !shader_uses_paint_texture(shader) {
        return None;
    }
    match effect_of(shader) {
        Some(Effect::Sdf) | Some(Effect::SdfLcd) => {
            return slot_for(batch.glyphs, batch.glyphs_sampler);
        },
        _ => {},
    }
    match paint_of(shader) {
        Some(Paint::Linear) | Some(Paint::Radial) => slot_for(batch.ramps, batch.ramps_sampler),
        _ => slot_for(batch.pattern, batch.pattern_sampler),
    }
}

/// Which part of a frame is being recorded.
#[derive(Clone, Copy, PartialEq, Eq, Debug, Structural)]
pub enum FramePhase {
    /// Nothing is recorded.
    Idle,
    /// Draws go to the bound render target.
    Offscreen,
    /// Draws go to the onscreen target.
    Onscreen,
}

/// A region of a render target, the origin at its lower left.
#[derive(Clone, Copy, PartialEq, Eq, Debug, Structural)]
pub struct Tile {
    pub x: u32,
    pub y: u32,
    pub width: u32,
    pub height: u32,
}

/// A texture that the device owns.
#[derive(Clone, Copy, PartialEq, Eq, Debug, Structural)]
pub struct GpuTexture {
    pub format: TextureFormat,
    pub width: u32,
    pub height: u32,
    pub num_levels: u32,
}

/// A render target that the device owns. Its colour attachment is also the
/// texture `resolve_handle`.
#[derive(Clone, Copy, PartialEq, Eq, Debug, Structural)]
pub struct GpuRenderTarget {
    pub resolve_handle: u64,
    pub has_stencil: bool,
    pub width: u32,
    pub height: u32,
}

/// What an image bind group holds: the rendered layer, and the blurred one
/// where the shader reads it.
#[derive(Clone, Copy, PartialEq, Eq, Debug)]
pub struct ImageKey {
    pub image: TextureSlot,
    pub shadow: Option<TextureSlot>,
}

impl View for TextureSlot {
    type V = TextureSlot;

    open spec fn view(&self) -> TextureSlot {
        *self
    }
}

impl Key for TextureSlot {
    fn same_key(&self, other: &Self) -> (r: bool) {
        *self == *other
    }

    fn copy_key(&self) -> (r: Self) {
        *self
    }
}

impl View for ImageKey {
    type V = ImageKey;

    open spec fn view(&self) -> ImageKey {
        *self
    }
}

impl Key for ImageKey {
    fn same_key(&self, other: &Self) -> (r: bool) {
        self.image == other.image && match (self.shadow, other.shadow) {
            (None, None) => true,
            (Some(a), Some(b)) => a == b,
            _ => false,
        }
    }

    fn copy_key(&self) -> (r: Self) {
        *self
    }
}

/// The device as a value.
#[verifier::ext_equal]
pub struct Device {
    pub vertex_stream: GeometryStream,
    pub index_stream: GeometryStream,
    pub vs_ring: UniformRing,
    pub ps_ring: UniformRing,
    pub ps1_ring: UniformRing,
    pub template: Seq<char>,
    pub pipelines: Map<PipelineKey, usize>,
    pub pipeline_count: usize,
    pub textures: Map<u64, GpuTexture>,
    pub render_targets: Map<u64, GpuRenderTarget>,
    pub pattern_groups: Map<TextureSlot, u64>,
    pub image_groups: Map<ImageKey, u64>,
    pub next_group: u64,
    pub onscreen_target: bool,
    pub onscreen_stencil: Option<(u32, u32)>,
    pub onscreen_stencil_cleared: bool,
    pub current_rt_stencil_cleared: bool,
    pub phase: FramePhase,
    pub current_rt: Option<u64>,
    pub current_tile: Option<Tile>,
    pub forced_pattern: Option<TextureSlot>,
    pub forced_image: Option<TextureSlot>,
    pub forced_shadow: Option<TextureSlot>,
    pub next_handle: u64,
}

/// A texture that the device still owns, read with a sampler that exists.
pub open spec fn live_slot(textures: Map<u64, GpuTexture>, s: TextureSlot) -> bool {
    textures.contains_key(s.handle) && known_wrap(s.sampler)
}

impl Device {
    /// The textures that an image bind group refers to are live.
    pub open spec fn live_image(&self, k: ImageKey) -> bool {
        live_slot(self.textures, k.image) && (k.shadow matches Some(s) ==> live_slot(
            self.textures,
            s,
        ))
    }

    /// What every operation keeps: rings and streams are sound, no handle is
    /// handed out twice, no cached bind group refers to a texture that is
    /// gone, bind groups have ids of their own, and a target or tile is bound
    /// in the offscreen phase only.
    pub open spec fn wf(&self) -> bool {
        &&& self.vertex_stream.wf()
        &&& self.index_stream.wf()
        &&& self.vs_ring.wf() && self.vs_ring.struct_size == VS_UNIFORM_SIZE
        &&& self.ps_ring.wf() && self.ps_ring.struct_size == PS_UNIFORM0_SIZE
        &&& self.ps1_ring.wf() && self.ps1_ring.struct_size == PS_UNIFORM1_SIZE
        &&& 1 <= self.next_handle
        &&& forall|h: u64| #[trigger] self.textures.contains_key(h) ==> 1 <= h < self.next_handle
        &&& forall|h: u64| #[trigger]
            self.render_targets.contains_key(h) ==> 1 <= h < self.next_handle
        &&& forall|s: TextureSlot| #[trigger]
            self.pattern_groups.contains_key(s) ==> live_slot(self.textures, s)
                && self.pattern_groups[s] < self.next_group
        &&& forall|k: ImageKey| #[trigger]
            self.image_groups.contains_key(k) ==> self.live_image(k) && self.image_groups[k]
                < self.next_group
        &&& forall|a: TextureSlot, b: TextureSlot|
            #![trigger self.pattern_groups[a], self.pattern_groups[b]]
            self.pattern_groups.contains_key(a) && self.pattern_groups.contains_key(b)
                && self.pattern_groups[a] == self.pattern_groups[b] ==> a == b
        &&& forall|a: ImageKey, b: ImageKey|
            #![trigger self.image_groups[a], self.image_groups[b]]
            self.image_groups.contains_key(a) && self.image_groups.contains_key(b)
                && self.image_groups[a] == self.image_groups[b] ==> a == b
        &&& forall|a: TextureSlot, b: ImageKey|
            #![trigger self.pattern_groups[a], self.image_groups[b]]
            self.pattern_groups.contains_key(a) && self.image_groups.contains_key(b)
                ==> self.pattern_groups[a] != self.image_groups[b]
        &&& self.phase != FramePhase::Offscreen ==> self.current_rt is None
        &&& self.current_rt is None ==> self.current_tile is None
    }
}

/// The render device's bookkeeping.
pub struct WgpuRenderDevice {
    vertex_stream: GeometryStream,
    index_stream: GeometryStream,
    vs_ring: UniformRing,
    ps_ring: UniformRing,
    ps1_ring: UniformRing,
    pipelines: PipelineCache,
    textures: KeyedMap<u64, GpuTexture>,
    render_targets: KeyedMap<u64, GpuRenderTarget>,
    pattern_groups: KeyedMap<TextureSlot, u64>,
    image_groups: KeyedMap<ImageKey, u64>,
    next_group: u64,
    onscreen_target: bool,
    onscreen_stencil: Option<(u32, u32)>,
    onscreen_stencil_cleared: bool,
    current_rt_stencil_cleared: bool,
    phase: FramePhase,
    current_rt: Option<u64>,
    current_tile: Option<Tile>,
    forced_pattern: Option<TextureSlot>,
    forced_image: Option<TextureSlot>,
    forced_shadow: Option<TextureSlot>,
    next_handle: u64,
}

impl View for WgpuRenderDevice {
    type V = Device;

    closed spec fn view(&self) -> Device {
        Device {
            vertex_stream: self.vertex_stream,
            index_stream: self.index_stream,
            vs_ring: self.vs_ring,
            ps_ring: self.ps_ring,
            ps1_ring: self.ps1_ring,
            template: self.pipelines.template(),
            pipelines: self.pipelines.places(),
            pipeline_count: self.pipelines.count(),
            textures: self.textures@,
            render_targets: self.render_targets@,
            pattern_groups: self.pattern_groups@,
            image_groups: self.image_groups@,
            next_group: self.next_group,
            onscreen_target: self.onscreen_target,
            onscreen_stencil: self.onscreen_stencil,
            onscreen_stencil_cleared: self.onscreen_stencil_cleared,
            current_rt_stencil_cleared: self.current_rt_stencil_cleared,
            phase: self.phase,
            current_rt: self.current_rt,
            current_tile: self.current_tile,
            forced_pattern: self.forced_pattern,
            forced_image: self.forced_image,
            forced_shadow: self.forced_shadow,
            next_handle: self.next_handle,
        }
    }
}

/// A texture that the engine asks for. `data_levels` counts the mip levels
/// that come with contents, where it comes with any.
#[derive(Clone, Copy, PartialEq, Eq, Debug)]
pub struct TextureDesc {
    pub width: u32,
    pub height: u32,
    pub num_levels: u32,
    pub format: TextureFormat,
    pub data_levels: Option<u32>,
}

/// One mip level to upload.
#[derive(Clone, Copy, PartialEq, Eq, Debug, Structural)]
pub struct LevelUpload {
    pub level: u32,
    pub width: u32,
    pub height: u32,
    pub bytes_per_row: u32,
}

/// What the engine is told of a texture.
#[derive(Clone, Copy, PartialEq, Eq, Debug, Structural)]
pub struct TextureBinding {
    pub handle: u64,
    pub width: u32,
    pub height: u32,
    pub has_mipmaps: bool,
    /// Whether its rows run from the bottom up.
    pub inverted: bool,
    pub has_alpha: bool,
}

/// What the engine is told of a render target: its handle and the texture it
/// is sampled through.
#[derive(Clone, Copy, PartialEq, Eq, Debug, Structural)]
pub struct RenderTargetBinding {
    pub handle: u64,
    pub resolve_texture: TextureBinding,
}

/// A texture to make, and what the engine is told of it.
pub struct CreatedTexture {
    pub binding: TextureBinding,
    pub format: GpuFormat,
    pub uploads: Vec<LevelUpload>,
}

/// What the engine is told of a texture made under `handle`: there are mipmaps
/// where there is more than one level, and alpha unless the format has none.
pub open spec fn texture_binding(handle: u64, desc: TextureDesc) -> TextureBinding {
    TextureBinding {
        handle,
        width: desc.width,
        height: desc.height,
        has_mipmaps: desc.num_levels > 1,
        inverted: false,
        has_alpha: desc.format != TextureFormat::Rgbx8,
    }
}

/// What the engine is told of a render target made under `handle` and the
/// handle after it: its texture has alpha and a single level.
pub open spec fn target_binding(handle: u64, desc: RenderTargetDesc) -> RenderTargetBinding {
    RenderTargetBinding {
        handle,
        resolve_texture: TextureBinding {
            handle: (handle + 1) as u64,
            width: desc.width,
            height: desc.height,
            has_mipmaps: false,
            inverted: false,
            has_alpha: true,
        },
    }
}

/// Extent of a mip level: halved per level, never below 1.
pub open spec fn level_extent(extent: u32, level: u32) -> u32 {
    let e = extent >> level;
    if e == 0 {
        1
    } else {
        e
    }
}

/// The upload of a mip level.
pub open spec fn level_upload(desc: TextureDesc, level: u32) -> LevelUpload {
    let width = level_extent(desc.width, level);
    LevelUpload {
        level,
        width,
        height: level_extent(desc.height, level),
        bytes_per_row: (width * texel_size(desc.format)) as u32,
    }
}

/// The uploads of a texture, level 0 first.
pub open spec fn level_uploads(desc: TextureDesc) -> Seq<LevelUpload> {
    match desc.data_levels {
        Some(n) => Seq::new(n as nat, |i: int| level_upload(desc, i as u32)),
        None => Seq::empty(),
    }
}

/// Contents come for every level or for none, and rows can be measured.
pub open spec fn texture_desc_ok(desc: TextureDesc) -> bool {
    desc.data_levels matches Some(n) ==> n == desc.num_levels && n <= 32 && desc.width * texel_size(
        desc.format,
    ) <= u32::MAX
}

fn level_size(extent: u32, level: u32) -> (r: u32)
    requires
        level < 32,
    ensures
        r == level_extent(extent, level),
        r <= extent || r == 1,
{
    let e: u32 = extent >> level;
    assert(extent >> level <= extent) by (bit_vector);
    if e == 0 {
        1
    } else {
        e
    }
}

/// A region of a texture.
#[derive(Clone, Copy, PartialEq, Eq, Debug, Structural)]
pub struct TextureRect {
    pub x: u32,
    pub y: u32,
    pub width: u32,
    pub height: u32,
}

/// A render target that the engine asks for.
#[derive(Clone, Copy, PartialEq, Eq, Debug, Structural)]
pub struct RenderTargetDesc {
    pub width: u32,
    pub height: u32,
    pub sample_count: u32,
    pub needs_stencil: bool,
}

/// A render target to make, and what the engine is told of it.
#[derive(Clone, Copy, PartialEq, Eq, Debug, Structural)]
pub struct CreatedRenderTarget {
    pub binding: RenderTargetBinding,
    pub needs_stencil: bool,
}

impl Device {
    /// The device with a new texture.
    pub open spec fn with_texture(&self, desc: TextureDesc) -> Device {
        Device {
            textures: self.textures.insert(
                self.next_handle,
                GpuTexture {
                    format: desc.format,
                    width: desc.width,
                    height: desc.height,
                    num_levels: desc.num_levels,
                },
            ),
            next_handle: (self.next_handle + 1) as u64,
            ..*self
        }
    }

    /// The device without a texture, and without the bind groups that read it.
    pub open spec fn without_texture(&self, handle: u64) -> Device {
        Device {
            textures: self.textures.remove(handle),
            pattern_groups: crate::keyed::kept(
                self.pattern_groups,
                |s: TextureSlot| s.handle != handle,
            ),
            image_groups: crate::keyed::kept(
                self.image_groups,
                |k: ImageKey| !image_reads(k, handle),
            ),
            ..*self
        }
    }

    /// Whether the bind group `id` reads a texture.
    pub open spec fn group_reads(&self, id: u64, handle: u64) -> bool {
        ||| exists|s: TextureSlot| #[trigger]
            self.pattern_groups.contains_key(s) && s.handle == handle && self.pattern_groups[s]
                == id
        ||| exists|k: ImageKey| #[trigger]
            self.image_groups.contains_key(k) && image_reads(k, handle) && self.image_groups[k]
                == id
    }

    /// The device with a new render target and its texture.
    pub open spec fn with_render_target(&self, desc: RenderTargetDesc) -> Device {
        let target = self.next_handle;
        let resolve = (self.next_handle + 1) as u64;
        Device {
            textures: self.textures.insert(
                resolve,
                GpuTexture {
                    format: TextureFormat::Rgba8,
                    width: desc.width,
                    height: desc.height,
                    num_levels: 1,
                },
            ),
            render_targets: self.render_targets.insert(
                target,
                GpuRenderTarget {
                    resolve_handle: resolve,
                    has_stencil: desc.needs_stencil,
                    width: desc.width,
                    height: desc.height,
                },
            ),
            next_handle: (self.next_handle + 2) as u64,
            ..*self
        }
    }

    /// The device with the offscreen phase open.
    pub open spec fn offscreen_begun(&self) -> Device {
        Device {
            phase: FramePhase::Offscreen,
            current_rt: None,
            current_tile: None,
            ..self.restarted()
        }
    }

    /// The device with the onscreen phase open.
    pub open spec fn onscreen_begun(&self) -> Device {
        Device {
            phase: FramePhase::Onscreen,
            onscreen_stencil_cleared: false,
            ..self.restarted()
        }
    }

    /// The device with no phase open.
    pub open spec fn ended(&self) -> Device {
        Device { phase: FramePhase::Idle, current_rt: None, current_tile: None, ..*self }
    }

    /// The device with a render target bound.
    pub open spec fn target_bound(&self, handle: u64) -> Device {
        Device {
            current_rt: Some(handle),
            current_tile: None,
            current_rt_stencil_cleared: false,
            ..*self
        }
    }

    /// The device with its rings and streams started over.
    pub open spec fn restarted(&self) -> Device {
        Device {
            vs_ring: UniformRing { next_slot: 0, ..self.vs_ring },
            ps_ring: UniformRing { next_slot: 0, ..self.ps_ring },
            ps1_ring: UniformRing { next_slot: 0, ..self.ps1_ring },
            vertex_stream: GeometryStream { cursor: 0, ..self.vertex_stream },
            index_stream: GeometryStream { cursor: 0, ..self.index_stream },
            ..*self
        }
    }
}

/// Whether an image bind group reads a texture.
pub open spec fn image_reads(k: ImageKey, handle: u64) -> bool {
    k.image.handle == handle || (k.shadow matches Some(s) && s.handle == handle)
}

/// A ring of the device for structs of `size` bytes, with nothing claimed.
pub open spec fn new_ring(size: u64, alignment: u32) -> UniformRing {
    UniformRing {
        struct_size: size,
        slot_stride: crate::render_device::rings::aligned(size, alignment as u64),
        slot_capacity: UNIFORM_RING_SLOTS,
        next_slot: 0,
    }
}

/// A stream over `size` bytes with nothing written.
pub open spec fn new_stream(size: u32) -> GeometryStream {
    GeometryStream {
        capacity: size as u64,
        staging_len: size as u64,
        mapped: None,
        cursor: 0,
        segment_base: 0,
    }
}

/// A device with nothing in it.
pub open spec fn new_device(template: Seq<char>, alignment: u32) -> Device {
    Device {
        vertex_stream: new_stream(DYNAMIC_VB_SIZE),
        index_stream: new_stream(DYNAMIC_IB_SIZE),
        vs_ring: new_ring(VS_UNIFORM_SIZE, alignment),
        ps_ring: new_ring(PS_UNIFORM0_SIZE, alignment),
        ps1_ring: new_ring(PS_UNIFORM1_SIZE, alignment),
        template,
        pipelines: Map::empty(),
        pipeline_count: 0,
        textures: Map::empty(),
        render_targets: Map::empty(),
        pattern_groups: Map::empty(),
        image_groups: Map::empty(),
        next_group: 0,
        onscreen_target: false,
        onscreen_stencil: None,
        onscreen_stencil_cleared: false,
        current_rt_stencil_cleared: false,
        phase: FramePhase::Idle,
        current_rt: None,
        current_tile: None,
        forced_pattern: None,
        forced_image: None,
        forced_shadow: None,
        next_handle: 1,
    }
}

impl WgpuRenderDevice {
    /// What every operation keeps.
    pub closed spec fn wf(&self) -> bool {
        self.pipelines.wf() && self@.wf()
    }

    /// A device with nothing in it. `template` is the WGSL template, whose
    /// directives must pair up; `alignment` is what the GPU asks of uniform
    /// offsets.
    pub fn new(template: String, alignment: u32) -> (d: WgpuRenderDevice)
        requires
            crate::render_device::shader_preproc::balanced(template@),
            1 <= alignment,
        ensures
            d.wf(),
            d@ == new_device(template@, alignment),
    {
        let align: u64 = alignment as u64;
        proof {
            lemma_ring_fits(VS_UNIFORM_SIZE, align);
            lemma_ring_fits(PS_UNIFORM0_SIZE, align);
            lemma_ring_fits(PS_UNIFORM1_SIZE, align);
        }
        WgpuRenderDevice {
            vertex_stream: GeometryStream::new(DYNAMIC_VB_SIZE),
            index_stream: GeometryStream::new(DYNAMIC_IB_SIZE),
            vs_ring: UniformRing::new(VS_UNIFORM_SIZE, UNIFORM_RING_SLOTS, align),
            ps_ring: UniformRing::new(PS_UNIFORM0_SIZE, UNIFORM_RING_SLOTS, align),
            ps1_ring: UniformRing::new(PS_UNIFORM1_SIZE, UNIFORM_RING_SLOTS, align),
            pipelines: PipelineCache::new(template),
            textures: KeyedMap::new(),
            render_targets: KeyedMap::new(),
            pattern_groups: KeyedMap::new(),
            image_groups: KeyedMap::new(),
            next_group: 0,
            onscreen_target: false,
            onscreen_stencil: None,
            onscreen_stencil_cleared: false,
            current_rt_stencil_cleared: false,
            phase: FramePhase::Idle,
            current_rt: None,
            current_tile: None,
            forced_pattern: None,
            forced_image: None,
            forced_shadow: None,
            next_handle: 1,
        }
    }
}

proof fn lemma_ring_fits(size: u64, align: u64)
    requires
        1 <= align <= u32::MAX,
        size <= 80,
    ensures
        slot_offset(
            crate::render_device::rings::aligned(size, align),
            UNIFORM_RING_SLOTS as int,
        ) <= u64::MAX,
{
    let m = (size + align - 1) as u64;
    let low = (align - 1) as u64;
    assert(m & !low <= m) by (bit_vector);
}

impl WgpuRenderDevice {
    /// Makes a texture. Its handle is new.
    pub fn create_texture(&mut self, desc: &TextureDesc) -> (r: CreatedTexture)
        requires
            old(self).wf(),
            texture_desc_ok(*desc),
            old(self)@.next_handle < u64::MAX,
        ensures
            final(self).wf(),
            final(self)@ == old(self)@.with_texture(*desc),
            r.binding == texture_binding(old(self)@.next_handle, *desc),
            r.format == gpu_format(desc.format),
            r.uploads@ == level_uploads(*desc),
    {
        let handle: u64 = self.next_handle;
        self.next_handle = handle + 1;
        let mut uploads: Vec<LevelUpload> = Vec::new();
        match desc.data_levels {
            None => {},
            Some(n) => {
                let bpp: u32 = bytes_per_pixel(desc.format);
                let mut level: u32 = 0;
                while level < n
                    invariant
                        level <= n,
                        n <= 32,
                        bpp == texel_size(desc.format),
                        desc.width * bpp <= u32::MAX,
                        uploads@ == Seq::new(level as nat, |i: int| level_upload(*desc, i as u32)),
                    decreases n - level,
                {
                    let width: u32 = level_size(desc.width, level);
                    let height: u32 = level_size(desc.height, level);
                    assert(width * bpp <= u32::MAX) by (nonlinear_arith)
                        requires
                            width <= desc.width || width == 1,
                            desc.width * bpp <= u32::MAX,
                            bpp <= 4,
                    ;
                    uploads.push(LevelUpload { level, width, height, bytes_per_row: width * bpp });
                    level = level + 1;
                    assert(uploads@ =~= Seq::new(
                        level as nat,
                        |i: int| level_upload(*desc, i as u32),
                    ));
                }
            },
        }
        let has_alpha = desc.format != TextureFormat::Rgbx8;
        self.textures.insert(
            handle,
            GpuTexture {
                format: desc.format,
                width: desc.width,
                height: desc.height,
                num_levels: desc.num_levels,
            },
        );
        CreatedTexture {
            binding: TextureBinding {
                handle,
                width: desc.width,
                height: desc.height,
                has_mipmaps: desc.num_levels > 1,
                inverted: false,
                has_alpha,
            },
            format: wgpu_format_for(desc.format),
            uploads,
        }
    }

    /// What a write of `rect` into a mip level needs: bytes per row. The
    /// texture must be there and have that level.
    pub fn update_texture(&self, handle: u64, level: u32, rect: &TextureRect) -> (r: LevelUpload)
        requires
            self.wf(),
            self@.textures.contains_key(handle),
            level < self@.textures[handle].num_levels,
            rect.width * texel_size(self@.textures[handle].format) <= u32::MAX,
        ensures
            r == (LevelUpload {
                level,
                width: rect.width,
                height: rect.height,
                bytes_per_row: (rect.width * texel_size(self@.textures[handle].format)) as u32,
            }),
    {
        let bpp: u32 = match self.textures.get(&handle) {
            Some(t) => bytes_per_pixel(t.format),
            None => 4,
        };
        LevelUpload {
            level,
            width: rect.width,
            height: rect.height,
            bytes_per_row: rect.width * bpp,
        }
    }

    /// The handle that the next texture or render target gets.
    pub fn next_handle(&self) -> (r: u64)
        ensures
            r == self@.next_handle,
    {
        self.next_handle
    }

    /// What the device knows of a texture; `None` once it is dropped.
    pub fn texture(&self, handle: u64) -> (r: Option<GpuTexture>)
        ensures
            match r {
                Some(t) => self@.textures.contains_key(handle) && t == self@.textures[handle],
                None => !self@.textures.contains_key(handle),
            },
    {
        match self.textures.get(&handle) {
            Some(t) => Some(*t),
            None => None,
        }
    }

    /// Releases a texture and every cached bind group that reads it; the ids
    /// of those bind groups come back.
    pub fn drop_texture(&mut self, handle: u64) -> (gone: Vec<u64>)
        requires
            old(self).wf(),
        ensures
            final(self).wf(),
            final(self)@ == old(self)@.without_texture(handle),
            forall|id: u64| #[trigger] gone@.contains(id) <==> old(self)@.group_reads(id, handle),
    {
        self.textures.remove(&handle);
        let keep_pattern = |s: &TextureSlot, _id: &u64| -> (b: bool)
            ensures
                b == (s.handle != handle),
            { s.handle != handle };
        let mut gone = self.pattern_groups.retain(
            keep_pattern,
            Ghost(|s: TextureSlot| s.handle != handle),
        );
        let keep_image = |k: &ImageKey, _id: &u64| -> (b: bool)
            ensures
                b == !image_reads(*k, handle),
            {
                k.image.handle != handle && match k.shadow {
                    Some(s) => s.handle != handle,
                    None => true,
                }
            };
        let mut more = self.image_groups.retain(
            keep_image,
            Ghost(|k: ImageKey| !image_reads(k, handle)),
        );
        let ghost a = gone@;
        let ghost b = more@;
        gone.append(&mut more);
        proof {
            assert forall|id: u64| (a + b).contains(id) <==> a.contains(id) || b.contains(id) by {
                if a.contains(id) {
                    let i = choose|i: int| 0 <= i < a.len() && a[i] == id;
                    assert((a + b)[i] == id);
                }
                if b.contains(id) {
                    let i = choose|i: int| 0 <= i < b.len() && b[i] == id;
                    assert((a + b)[a.len() + i] == id);
                }
            }
            let before = old(self)@;
            let p = |s: TextureSlot| s.handle != handle;
            let q = |k: ImageKey| !image_reads(k, handle);
            assert forall|id: u64| #[trigger] gone@.contains(id) <==> before.group_reads(id, handle) by {
                if a.contains(id) {
                    let s = choose|s: TextureSlot| #[trigger]
                        before.pattern_groups.contains_key(s) && !p(s) && before.pattern_groups[s]
                            == id;
                    assert(before.pattern_groups.contains_key(s) && s.handle == handle
                        && before.pattern_groups[s] == id);
                }
                if b.contains(id) {
                    let k = choose|k: ImageKey| #[trigger]
                        before.image_groups.contains_key(k) && !q(k) && before.image_groups[k] == id;
                    assert(before.image_groups.contains_key(k) && image_reads(k, handle)
                        && before.image_groups[k] == id);
                }
                if before.group_reads(id, handle) {
                    if exists|s: TextureSlot| #[trigger]
                        before.pattern_groups.contains_key(s) && s.handle == handle
                            && before.pattern_groups[s] == id {
                        let s = choose|s: TextureSlot| #[trigger]
                            before.pattern_groups.contains_key(s) && s.handle == handle
                                && before.pattern_groups[s] == id;
                        assert(before.pattern_groups.contains_key(s) && !p(s)
                            && before.pattern_groups[s] == id);
                        assert(a.contains(id));
                    } else {
                        let k = choose|k: ImageKey| #[trigger]
                            before.image_groups.contains_key(k) && image_reads(k, handle)
                                && before.image_groups[k] == id;
                        assert(before.image_groups.contains_key(k) && !q(k)
                            && before.image_groups[k] == id);
                        assert(b.contains(id));
                    }
                }
            }
            assert(self@.textures =~= before.textures.remove(handle));
            assert forall|s: TextureSlot| #[trigger]
                self@.pattern_groups.contains_key(s) implies live_slot(self@.textures, s)
                && self@.pattern_groups[s] < self@.next_group by {
                assert(before.pattern_groups.contains_key(s));
            }
            assert forall|k: ImageKey| #[trigger] self@.image_groups.contains_key(k) implies self@.live_image(
                k,
            ) && self@.image_groups[k] < self@.next_group by {
                assert(before.image_groups.contains_key(k));
            }
            assert forall|h: u64| #[trigger] self@.textures.contains_key(h) implies 1 <= h
                < self@.next_handle by {
                assert(before.textures.contains_key(h));
            }
        }
        gone
    }

    /// Makes a render target and the texture it is sampled through; both
    /// handles are new. Only single-sampled targets are supported.
    pub fn create_render_target(&mut self, desc: &RenderTargetDesc) -> (r: CreatedRenderTarget)
        requires
            old(self).wf(),
            desc.sample_count == 1,
            old(self)@.next_handle <= u64::MAX - 2,
        ensures
            final(self).wf(),
            final(self)@ == old(self)@.with_render_target(*desc),
            r == (CreatedRenderTarget {
                binding: target_binding(old(self)@.next_handle, *desc),
                needs_stencil: desc.needs_stencil,
            }),
    {
        let handle: u64 = self.next_handle;
        let resolve_handle: u64 = handle + 1;
        self.next_handle = handle + 2;
        self.textures.insert(
            resolve_handle,
            GpuTexture {
                format: TextureFormat::Rgba8,
                width: desc.width,
                height: desc.height,
                num_levels: 1,
            },
        );
        self.render_targets.insert(
            handle,
            GpuRenderTarget {
                resolve_handle,
                has_stencil: desc.needs_stencil,
                width: desc.width,
                height: desc.height,
            },
        );
        CreatedRenderTarget {
            binding: RenderTargetBinding {
                handle,
                resolve_texture: TextureBinding {
                    handle: resolve_handle,
                    width: desc.width,
                    height: desc.height,
                    has_mipmaps: false,
                    inverted: false,
                    has_alpha: true,
                },
            },
            needs_stencil: desc.needs_stencil,
        }
    }

    /// Makes another render target of the size and stencil presence of `src`,
    /// which must be there. Buffers are not shared.
    pub fn clone_render_target(&mut self, src: u64) -> (r: CreatedRenderTarget)
        requires
            old(self).wf(),
            old(self)@.render_targets.contains_key(src),
            old(self)@.next_handle <= u64::MAX - 2,
        ensures
            final(self).wf(),
            ({
                let t = old(self)@.render_targets[src];
                &&& final(self)@ == old(self)@.with_render_target(clone_desc(t))
                &&& r == (CreatedRenderTarget {
                    binding: target_binding(old(self)@.next_handle, clone_desc(t)),
                    needs_stencil: t.has_stencil,
                })
            }),
    {
        let t = match self.render_targets.get(&src) {
            Some(t) => *t,
            None => GpuRenderTarget { resolve_handle: 0, has_stencil: false, width: 0, height: 0 },
        };
        self.create_render_target(
            &RenderTargetDesc {
                width: t.width,
                height: t.height,
                sample_count: 1,
                needs_stencil: t.has_stencil,
            },
        )
    }

    /// Releases a render target. Its texture has a release of its own.
    pub fn drop_render_target(&mut self, handle: u64)
        requires
            old(self).wf(),
        ensures
            final(self).wf(),
            final(self)@ == (Device {
                render_targets: old(self)@.render_targets.remove(handle),
                ..old(self)@
            }),
    {
        self.render_targets.remove(&handle);
    }

    /// Size that a render target was made with; `None` once it is dropped.
    pub fn render_target_size(&self, handle: u64) -> (r: Option<(u32, u32)>)
        ensures
            match r {
                Some(size) => self@.render_targets.contains_key(handle) && size == (
                    self@.render_targets[handle].width,
                    self@.render_targets[handle].height,
                ),
                None => !self@.render_targets.contains_key(handle),
            },
    {
        match self.render_targets.get(&handle) {
            Some(t) => Some((t.width, t.height)),
            None => None,
        }
    }
}

/// What a clone of a render target is made from.
pub open spec fn clone_desc(t: GpuRenderTarget) -> RenderTargetDesc {
    RenderTargetDesc {
        width: t.width,
        height: t.height,
        sample_count: 1,
        needs_stencil: t.has_stencil,
    }
}

impl WgpuRenderDevice {
    /// For tests: paint draws use this texture in place of the batch's.
    pub fn test_set_forced_pattern(&mut self, forced: Option<TextureSlot>)
        requires
            old(self).wf(),
        ensures
            final(self).wf(),
            final(self)@ == (Device { forced_pattern: forced, ..old(self)@ }),
    {
        self.forced_pattern = forced;
    }

    /// For tests: as [`Self::test_set_forced_pattern`], the rendered layer.
    pub fn test_set_forced_image(&mut self, forced: Option<TextureSlot>)
        requires
            old(self).wf(),
        ensures
            final(self).wf(),
            final(self)@ == (Device { forced_image: forced, ..old(self)@ }),
    {
        self.forced_image = forced;
    }

    /// For tests: as [`Self::test_set_forced_pattern`], the blurred layer.
    pub fn test_set_forced_shadow(&mut self, forced: Option<TextureSlot>)
        requires
            old(self).wf(),
        ensures
            final(self).wf(),
            final(self)@ == (Device { forced_shadow: forced, ..old(self)@ }),
    {
        self.forced_shadow = forced;
    }

    /// The phase that is being recorded.
    pub fn phase(&self) -> (r: FramePhase)
        ensures
            r == self@.phase,
    {
        self.phase
    }

    /// Points the onscreen phase at a target of this size, between frames. The
    /// answer tells whether a stencil buffer of that size has to be made: the
    /// one there is kept while the size stays.
    pub fn set_onscreen_target(&mut self, width: u32, height: u32) -> (allocate: bool)
        requires
            old(self).wf(),
            old(self)@.phase == FramePhase::Idle,
        ensures
            final(self).wf(),
            final(self)@ == (Device {
                onscreen_target: true,
                onscreen_stencil: Some((width, height)),
                ..old(self)@
            }),
            allocate == (old(self)@.onscreen_stencil != Some((width, height))),
    {
        let allocate = match self.onscreen_stencil {
            Some((w, h)) => w != width || h != height,
            None => true,
        };
        if allocate {
            self.onscreen_stencil = Some((width, height));
        }
        self.onscreen_target = true;
        allocate
    }

    fn restart(&mut self)
        requires
            old(self).wf(),
        ensures
            final(self).wf(),
            final(self)@ == old(self)@.restarted(),
    {
        self.vs_ring.reset();
        self.ps_ring.reset();
        self.ps1_ring.reset();
        self.vertex_stream.reset();
        self.index_stream.reset();
    }

    /// Opens the offscreen phase; none may be open.
    pub fn begin_offscreen_render(&mut self)
        requires
            old(self).wf(),
            old(self)@.phase == FramePhase::Idle,
        ensures
            final(self).wf(),
            final(self)@ == (Device {
                phase: FramePhase::Offscreen,
                current_rt: None,
                current_tile: None,
                ..old(self)@.restarted()
            }),
            final(self)@ == old(self)@.offscreen_begun(),
    {
        self.restart();
        self.phase = FramePhase::Offscreen;
        self.current_rt = None;
        self.current_tile = None;
    }

    /// Closes the offscreen phase.
    pub fn end_offscreen_render(&mut self)
        requires
            old(self).wf(),
            old(self)@.phase == FramePhase::Offscreen,
        ensures
            final(self).wf(),
            final(self)@ == (Device {
                phase: FramePhase::Idle,
                current_rt: None,
                current_tile: None,
                ..old(self)@
            }),
            final(self)@ == old(self)@.ended(),
    {
        self.phase = FramePhase::Idle;
        self.current_rt = None;
        self.current_tile = None;
    }

    /// Opens the onscreen phase; none may be open. Its first draw will clear
    /// the stencil.
    pub fn begin_onscreen_render(&mut self)
        requires
            old(self).wf(),
            old(self)@.phase == FramePhase::Idle,
        ensures
            final(self).wf(),
            final(self)@ == (Device {
                phase: FramePhase::Onscreen,
                onscreen_stencil_cleared: false,
                ..old(self)@.restarted()
            }),
            final(self)@ == old(self)@.onscreen_begun(),
    {
        self.restart();
        self.phase = FramePhase::Onscreen;
        self.onscreen_stencil_cleared = false;
    }

    /// Closes the onscreen phase.
    pub fn end_onscreen_render(&mut self)
        requires
            old(self).wf(),
            old(self)@.phase == FramePhase::Onscreen,
        ensures
            final(self).wf(),
            final(self)@ == (Device { phase: FramePhase::Idle, ..old(self)@ }),
            final(self)@ == old(self)@.ended(),
    {
        self.phase = FramePhase::Idle;
    }

    /// Binds a render target, in the offscreen phase. Its contents are given
    /// up, so the next draw into it clears its stencil.
    pub fn set_render_target(&mut self, handle: u64)
        requires
            old(self).wf(),
            old(self)@.phase == FramePhase::Offscreen,
            old(self)@.render_targets.contains_key(handle),
        ensures
            final(self).wf(),
            final(self)@ == (Device {
                current_rt: Some(handle),
                current_tile: None,
                current_rt_stencil_cleared: false,
                ..old(self)@
            }),
            final(self)@ == old(self)@.target_bound(handle),
    {
        self.current_rt = Some(handle);
        self.current_tile = None;
        self.current_rt_stencil_cleared = false;
    }

    /// Confines draws to a region of the bound render target.
    pub fn begin_tile(&mut self, handle: u64, tile: Tile)
        requires
            old(self).wf(),
            old(self)@.current_rt == Some(handle),
        ensures
            final(self).wf(),
            final(self)@ == (Device { current_tile: Some(tile), ..old(self)@ }),
    {
        self.current_tile = Some(tile);
    }

    /// Ends the confinement.
    pub fn end_tile(&mut self, handle: u64)
        requires
            old(self).wf(),
            old(self)@.current_rt == Some(handle),
        ensures
            final(self).wf(),
            final(self)@ == (Device { current_tile: None, ..old(self)@ }),
    {
        self.current_tile = None;
    }

    /// The render target that is bound.
    pub fn bound_target(&self) -> (r: Option<u64>)
        ensures
            r == self@.current_rt,
    {
        self.current_rt
    }

    /// Claims staging memory for vertices; its needed length comes back.
    pub fn map_vertices(&mut self, bytes: u32) -> (staging: u64)
        requires
            old(self).wf(),
            old(self)@.vertex_stream.mapped is None,
        ensures
            final(self).wf(),
            final(self)@ == (Device {
                vertex_stream: mapped_stream(old(self)@.vertex_stream, bytes),
                ..old(self)@
            }),
            staging == final(self)@.vertex_stream.staging_len,
            bytes <= staging,
    {
        self.vertex_stream.map(bytes)
    }

    /// Appends the claimed vertices.
    pub fn unmap_vertices(&mut self) -> (u: Upload)
        requires
            old(self).wf(),
            can_unmap(old(self)@.vertex_stream),
        ensures
            final(self).wf(),
            final(self)@ == (Device {
                vertex_stream: unmapped_stream(old(self)@.vertex_stream),
                ..old(self)@
            }),
            upload_of(old(self)@.vertex_stream, u),
    {
        self.vertex_stream.unmap()
    }

    /// Claims staging memory for indices; its needed length comes back.
    pub fn map_indices(&mut self, bytes: u32) -> (staging: u64)
        requires
            old(self).wf(),
            old(self)@.index_stream.mapped is None,
        ensures
            final(self).wf(),
            final(self)@ == (Device {
                index_stream: mapped_stream(old(self)@.index_stream, bytes),
                ..old(self)@
            }),
            staging == final(self)@.index_stream.staging_len,
            bytes <= staging,
    {
        self.index_stream.map(bytes)
    }

    /// Appends the claimed indices.
    pub fn unmap_indices(&mut self) -> (u: Upload)
        requires
            old(self).wf(),
            can_unmap(old(self)@.index_stream),
        ensures
            final(self).wf(),
            final(self)@ == (Device {
                index_stream: unmapped_stream(old(self)@.index_stream),
                ..old(self)@
            }),
            upload_of(old(self)@.index_stream, u),
    {
        self.index_stream.unmap()
    }

    /// State of the vertex stream.
    pub fn vertices(&self) -> (r: GeometryStream)
        ensures
            r == self@.vertex_stream,
    {
        self.vertex_stream
    }

    /// State of the index stream.
    pub fn indices(&self) -> (r: GeometryStream)
        ensures
            r == self@.index_stream,
    {
        self.index_stream
    }
}

/// The upload that appending the claimed bytes of `s` asks for.
pub open spec fn upload_of(s: GeometryStream, u: Upload) -> bool {
    &&& u.offset == s.cursor
    &&& u.len == round4(s.mapped->0 as int)
    &&& u.grow == if unmapped_stream(s).capacity == s.capacity {
        None
    } else {
        Some(unmapped_stream(s).capacity)
    }
}

/// A bind group that a draw uses.
#[derive(Clone, Copy, PartialEq, Eq, Debug, Structural)]
pub struct GroupUse {
    /// Its id.
    pub id: u64,
    /// Whether it has to be made first.
    pub fresh: bool,
}

/// Where a draw goes.
#[derive(Clone, Copy, PartialEq, Eq, Debug, Structural)]
pub enum DrawTarget {
    /// The onscreen target.
    Onscreen,
    /// This render target.
    Offscreen(u64),
}

/// What happens to the stencil before a draw.
#[derive(Clone, Copy, PartialEq, Eq, Debug, Structural)]
pub enum StencilLoad {
    /// The target has none.
    Absent,
    /// It is set to zero.
    Clear,
    /// It is kept.
    Load,
}

/// A region with its origin at the upper left.
#[derive(Clone, Copy, PartialEq, Eq, Debug, Structural)]
pub struct Scissor {
    pub x: u32,
    pub y: u32,
    pub width: u32,
    pub height: u32,
}

/// Width of an index.
#[derive(Clone, Copy, PartialEq, Eq, Debug, Structural)]
pub enum IndexFormat {
    Uint16,
    Uint32,
}

/// The one indexed draw of a pass: how many indices from the first of the bound
/// range, what is added to each, and how often it is drawn.
#[derive(Clone, Copy, PartialEq, Eq, Debug, Structural)]
pub struct IndexedDraw {
    pub format: IndexFormat,
    pub first_index: u32,
    pub num_indices: u32,
    pub base_vertex: i32,
    pub instances: u32,
}

/// A pass with one draw: everything that it binds.
pub struct DrawPlan {
    pub key: PipelineKey,
    pub pipeline: Ensured,
    pub vs: UniformWrite,
    pub ps: UniformWrite,
    pub ps1: UniformWrite,
    /// The paint texture and its bind group; `None` binds the dummy.
    pub pattern: Option<(TextureSlot, GroupUse)>,
    /// The layer textures and their bind group; `None` binds the dummy.
    pub image: Option<(ImageKey, GroupUse)>,
    pub target: DrawTarget,
    /// Whether the target's colour is cleared first; else it is kept.
    pub clears_color: bool,
    pub scissor: Option<Scissor>,
    pub stencil: StencilLoad,
    /// Stencil reference; `None` where the target has no stencil.
    pub stencil_ref: Option<u32>,
    pub vertex_start: u64,
    pub vertex_end: u64,
    pub index_start: u64,
    pub index_end: u64,
    pub indexed: IndexedDraw,
}

/// Why a batch cannot be drawn.
#[derive(Clone, Copy, PartialEq, Eq, Debug, Structural)]
pub enum DrawError {
    /// No phase is open.
    OutsidePhase,
    /// The offscreen phase has no render target bound.
    NoRenderTarget,
    /// The bound render target was dropped.
    DanglingTarget,
    /// The onscreen phase has no target.
    NoOnscreenTarget,
    /// The shader has no variant.
    UnknownShader,
    /// A uniform ring is exhausted.
    RingExhausted,
    /// A texture that the shader reads is missing from the batch.
    MissingTexture,
    /// A texture was dropped, or its sampler is unknown.
    UnknownTexture,
    /// A size or count goes out of range.
    OutOfRange,
}

/// The vertex-shader slot of a batch: the first buffer in the first 64 bytes,
/// the second in the last 16, both cut or filled with zeros.
pub open spec fn vs_bytes(batch: Batch) -> Seq<u8> {
    padded(batch.vertex_uniforms0@, 64) + padded(batch.vertex_uniforms1@, 16)
}

/// The draw of a batch: all of its 16-bit indices once, as they are.
pub open spec fn indexed_draw(batch: Batch) -> IndexedDraw {
    IndexedDraw {
        format: IndexFormat::Uint16,
        first_index: 0,
        num_indices: batch.num_indices,
        base_vertex: 0,
        instances: 1,
    }
}

/// The scissor of a tile in a target of this height: the tile's origin is at
/// the lower left, the scissor's at the upper left.
pub open spec fn scissor_of(tile: Tile, height: u32) -> Scissor {
    let top = height - (tile.y + tile.height);
    Scissor {
        x: tile.x,
        y: if top < 0 {
            0
        } else {
            top as u32
        },
        width: tile.width,
        height: tile.height,
    }
}

impl Device {
    /// Whether the active target has a stencil.
    pub open spec fn has_stencil(&self) -> bool {
        match self.phase {
            FramePhase::Onscreen => self.onscreen_stencil is Some,
            FramePhase::Offscreen => self.render_targets[self.current_rt->0].has_stencil,
            FramePhase::Idle => false,
        }
    }

    /// Whether the active target's stencil was cleared since it was bound.
    pub open spec fn stencil_cleared(&self) -> bool {
        if self.phase == FramePhase::Onscreen {
            self.onscreen_stencil_cleared
        } else {
            self.current_rt_stencil_cleared
        }
    }

    /// The pipeline key of a batch.
    pub open spec fn draw_key(&self, batch: Batch) -> PipelineKey {
        key_of(batch.shader, batch.render_state, self.has_stencil())
    }

    /// The paint texture of a draw.
    pub open spec fn pattern_slot(&self, batch: Batch) -> Option<TextureSlot> {
        if !uses_paint_texture(batch.shader) {
            None
        } else if self.forced_pattern is Some {
            self.forced_pattern
        } else {
            paint_texture(batch)
        }
    }

    /// The layer textures of a draw.
    pub open spec fn image_key(&self, batch: Batch) -> Option<ImageKey> {
        let image = if self.forced_image is Some {
            self.forced_image
        } else {
            slot(batch.image, batch.image_sampler)
        };
        let shadow = if self.forced_shadow is Some {
            self.forced_shadow
        } else {
            slot(batch.shadow, batch.shadow_sampler)
        };
        if !has_image_texture(batch.shader) || image is None {
            None
        } else if has_shadow_texture(batch.shader) {
            if shadow is None {
                None
            } else {
                Some(ImageKey { image: image->0, shadow })
            }
        } else {
            Some(ImageKey { image: image->0, shadow: None })
        }
    }

    /// First byte of a batch's vertices.
    pub open spec fn vertex_start(&self, batch: Batch) -> int {
        self.vertex_stream.segment_base + batch.vertex_offset
    }

    /// End of a batch's vertices.
    pub open spec fn vertex_end(&self, batch: Batch) -> int {
        self.vertex_start(batch) + batch.num_vertices * stride_table()[self.draw_key(
            batch,
        ).vertex_format as int]
    }

    /// First byte of a batch's indices.
    pub open spec fn index_start(&self, batch: Batch) -> int {
        self.index_stream.segment_base + 2 * batch.start_index
    }

    /// End of a batch's indices.
    pub open spec fn index_end(&self, batch: Batch) -> int {
        self.index_start(batch) + 2 * batch.num_indices
    }

    /// Why a batch cannot be drawn; the first reason that holds.
    pub open spec fn refusal(&self, batch: Batch) -> Option<DrawError> {
        if self.phase == FramePhase::Idle {
            Some(DrawError::OutsidePhase)
        } else if self.phase == FramePhase::Offscreen && self.current_rt is None {
            Some(DrawError::NoRenderTarget)
        } else if self.phase == FramePhase::Offscreen && !self.render_targets.contains_key(
            self.current_rt->0,
        ) {
            Some(DrawError::DanglingTarget)
        } else if self.phase == FramePhase::Onscreen && !self.onscreen_target {
            Some(DrawError::NoOnscreenTarget)
        } else if !has_variant(batch.shader) {
            Some(DrawError::UnknownShader)
        } else if !(self.vs_ring.has_room() && self.ps_ring.has_room() && self.ps1_ring.has_room()) {
            Some(DrawError::RingExhausted)
        } else if uses_paint_texture(batch.shader) && self.pattern_slot(batch) is None
            || has_image_texture(batch.shader) && self.image_key(batch) is None {
            Some(DrawError::MissingTexture)
        } else if (self.pattern_slot(batch) matches Some(s) && !live_slot(self.textures, s)) || (
        self.image_key(batch) matches Some(k) && !self.live_image(k)) {
            Some(DrawError::UnknownTexture)
        } else if self.vertex_end(batch) > u64::MAX || self.index_end(batch) > u64::MAX
            || self.pipeline_count == usize::MAX || self.next_group > u64::MAX - 2 || (
        self.current_tile matches Some(t) && t.y + t.height > u32::MAX) {
            Some(DrawError::OutOfRange)
        } else {
            None
        }
    }

    /// The device after its stencil was looked at for a draw.
    pub open spec fn stencil_used(&self) -> Device {
        if self.phase == FramePhase::Onscreen {
            Device { onscreen_stencil_cleared: true, ..*self }
        } else {
            Device { current_rt_stencil_cleared: true, ..*self }
        }
    }

    /// The device after a draw claimed its uniform slots.
    pub open spec fn uniforms_used(&self) -> Device {
        Device {
            vs_ring: UniformRing {
                next_slot: (self.vs_ring.next_slot + 1) as u32,
                ..self.vs_ring
            },
            ps_ring: UniformRing {
                next_slot: (self.ps_ring.next_slot + 1) as u32,
                ..self.ps_ring
            },
            ps1_ring: UniformRing {
                next_slot: (self.ps1_ring.next_slot + 1) as u32,
                ..self.ps1_ring
            },
            ..*self
        }
    }

    /// The device after `key` was given a pipeline.
    pub open spec fn pipeline_used(&self, key: PipelineKey) -> Device {
        if self.pipelines.contains_key(key) {
            *self
        } else {
            Device {
                pipelines: self.pipelines.insert(key, self.pipeline_count),
                pipeline_count: (self.pipeline_count + 1) as usize,
                ..*self
            }
        }
    }

    /// The device after the paint texture was given a bind group.
    pub open spec fn pattern_used(&self, s: Option<TextureSlot>) -> Device {
        match s {
            Some(s) if !self.pattern_groups.contains_key(s) => Device {
                pattern_groups: self.pattern_groups.insert(s, self.next_group),
                next_group: (self.next_group + 1) as u64,
                ..*self
            },
            _ => *self,
        }
    }

    /// The device after the layer textures were given a bind group.
    pub open spec fn image_used(&self, k: Option<ImageKey>) -> Device {
        match k {
            Some(k) if !self.image_groups.contains_key(k) => Device {
                image_groups: self.image_groups.insert(k, self.next_group),
                next_group: (self.next_group + 1) as u64,
                ..*self
            },
            _ => *self,
        }
    }

    /// The device after a draw.
    pub open spec fn drawn(&self, batch: Batch) -> Device {
        self.stencil_used().uniforms_used().pipeline_used(self.draw_key(batch)).pattern_used(
            self.pattern_slot(batch),
        ).image_used(self.image_key(batch))
    }
}

impl UniformWrite {
    /// Whether this write puts `bytes` into the next slot of `ring`.
    pub open spec fn fills(&self, ring: UniformRing, bytes: Seq<u8>) -> bool {
        self.offset == slot_offset(ring.slot_stride, ring.next_slot as int) && self.bytes@ == padded(
            bytes,
            ring.struct_size as nat,
        )
    }
}

impl DrawPlan {
    /// Whether this is what drawing `batch` on `d` takes.
    pub open spec fn draws(&self, d: Device, batch: Batch) -> bool {
        &&& self.key == d.draw_key(batch)
        &&& match self.pipeline {
            Ensured::Cached(at) => d.pipelines.contains_key(self.key) && at
                == d.pipelines[self.key],
            Ensured::Build(at, desc) => !d.pipelines.contains_key(self.key) && at
                == d.pipeline_count && desc.describes(d.template, self.key),
        }
        &&& self.vs.fills(d.vs_ring, vs_bytes(batch))
        &&& self.ps.fills(d.ps_ring, batch.pixel_uniforms0@)
        &&& self.ps1.fills(d.ps1_ring, batch.pixel_uniforms1@)
        &&& match (self.pattern, d.pattern_slot(batch)) {
            (None, None) => true,
            (Some((s, g)), Some(want)) => s == want && g.fresh == !d.pattern_groups.contains_key(s)
                && g.id == if g.fresh {
                d.next_group
            } else {
                d.pattern_groups[s]
            },
            _ => false,
        }
        &&& match (self.image, d.image_key(batch)) {
            (None, None) => true,
            (Some((k, g)), Some(want)) => k == want && g.fresh == !d.image_groups.contains_key(k)
                && g.id == if g.fresh {
                d.pattern_used(d.pattern_slot(batch)).next_group
            } else {
                d.image_groups[k]
            },
            _ => false,
        }
        &&& self.target == match d.phase {
            FramePhase::Offscreen => DrawTarget::Offscreen(d.current_rt->0),
            _ => DrawTarget::Onscreen,
        }
        &&& !self.clears_color
        &&& self.scissor == match d.current_tile {
            Some(t) => Some(scissor_of(t, d.render_targets[d.current_rt->0].height)),
            None => None,
        }
        &&& self.stencil == if !d.has_stencil() {
            StencilLoad::Absent
        } else if d.stencil_cleared() {
            StencilLoad::Load
        } else {
            StencilLoad::Clear
        }
        &&& self.stencil_ref == if d.has_stencil() {
            Some(batch.stencil_ref as u32)
        } else {
            None
        }
        &&& self.vertex_start == d.vertex_start(batch)
        &&& self.vertex_end == d.vertex_end(batch)
        &&& self.index_start == d.index_start(batch)
        &&& self.index_end == d.index_end(batch)
        &&& self.indexed == indexed_draw(batch)
    }
}

impl WgpuRenderDevice {
    fn stencil_present(&self) -> (r: bool)
        requires
            self@.phase == FramePhase::Offscreen ==> self@.current_rt is Some
                && self@.render_targets.contains_key(self@.current_rt->0),
        ensures
            r == self@.has_stencil(),
    {
        match self.phase {
            FramePhase::Onscreen => self.onscreen_stencil.is_some(),
            FramePhase::Offscreen => match self.current_rt {
                Some(rt) => match self.render_targets.get(&rt) {
                    Some(t) => t.has_stencil,
                    None => false,
                },
                None => false,
            },
            FramePhase::Idle => false,
        }
    }

    fn pattern_for(&self, batch: &Batch) -> (r: Option<TextureSlot>)
        ensures
            r == self@.pattern_slot(*batch),
    {
        if !shader_uses_paint_texture(batch.shader) {
            None
        } else if self.forced_pattern.is_some() {
            self.forced_pattern
        } else {
            batch_paint_texture(batch)
        }
    }

    fn image_for(&self, batch: &Batch) -> (r: Option<ImageKey>)
        ensures
            r == self@.image_key(*batch),
    {
        if !shader_uses_image_texture(batch.shader) {
            return None;
        }
        let image = if self.forced_image.is_some() {
            self.forced_image
        } else {
            slot_for(batch.image, batch.image_sampler)
        };
        match image {
            None => None,
            Some(image) => {
                if shader_uses_shadow_texture(batch.shader) {
                    let shadow = if self.forced_shadow.is_some() {
                        self.forced_shadow
                    } else {
                        slot_for(batch.shadow, batch.shadow_sampler)
                    };
                    match shadow {
                        None => None,
                        Some(s) => Some(ImageKey { image, shadow: Some(s) }),
                    }
                } else {
                    Some(ImageKey { image, shadow: None })
                }
            },
        }
    }

    fn slot_live(&self, s: TextureSlot) -> (r: bool)
        ensures
            r == live_slot(self@.textures, s),
    {
        self.textures.contains_key(&s.handle) && has_known_wrap(s.sampler)
    }

    fn textures_live(&self, batch: &Batch) -> (r: bool)
        ensures
            r == !((self@.pattern_slot(*batch) matches Some(s) && !live_slot(self@.textures, s)) || (
            self@.image_key(*batch) matches Some(k) && !self@.live_image(k))),
    {
        match self.pattern_for(batch) {
            Some(s) => {
                if !self.slot_live(s) {
                    return false;
                }
            },
            None => {},
        }
        match self.image_for(batch) {
            Some(k) => {
                if !self.slot_live(k.image) {
                    return false;
                }
                match k.shadow {
                    Some(s) => self.slot_live(s),
                    None => true,
                }
            },
            None => true,
        }
    }

    fn ranges_fit(&self, batch: &Batch) -> (r: bool)
        requires
            self.wf(),
            has_variant(batch.shader),
        ensures
            r == !(self@.vertex_end(*batch) > u64::MAX || self@.index_end(*batch) > u64::MAX
                || self@.pipeline_count == usize::MAX || self@.next_group > u64::MAX - 2 || (
            self@.current_tile matches Some(t) && t.y + t.height > u32::MAX)),
    {
        proof {
            lemma_variant_in_range(batch.shader);
        }
        let format: u8 = crate::render_device::types::format_for_shader(batch.shader);
        let stride: u64 = size_for_format(format) as u64;
        assert(batch.num_vertices * stride <= 0xffff_ffff * 0xff) by (nonlinear_arith)
            requires
                batch.num_vertices <= 0xffff_ffff,
                stride <= 0xff,
        ;
        let vertices: u64 = batch.vertex_offset as u64 + (batch.num_vertices as u64) * stride;
        let indices: u64 = (batch.start_index as u64) * 2 + (batch.num_indices as u64) * 2;
        let tile_fits = match self.current_tile {
            Some(t) => t.y <= u32::MAX - t.height,
            None => true,
        };
        self.vertex_stream.segment_base <= u64::MAX - vertices && self.index_stream.segment_base
            <= u64::MAX - indices && self.pipelines.len() < usize::MAX && self.next_group
            <= u64::MAX - 2 && tile_fits
    }

    /// Why `batch` cannot be drawn now; `None` where it can.
    pub fn check_draw(&self, batch: &Batch) -> (r: Option<DrawError>)
        requires
            self.wf(),
        ensures
            r == self@.refusal(*batch),
    {
        match self.phase {
            FramePhase::Idle => {
                return Some(DrawError::OutsidePhase);
            },
            FramePhase::Offscreen => match self.current_rt {
                None => {
                    return Some(DrawError::NoRenderTarget);
                },
                Some(rt) => {
                    if !self.render_targets.contains_key(&rt) {
                        return Some(DrawError::DanglingTarget);
                    }
                },
            },
            FramePhase::Onscreen => {
                if !self.onscreen_target {
                    return Some(DrawError::NoOnscreenTarget);
                }
            },
        }
        if !shader_has_variant(batch.shader) {
            return Some(DrawError::UnknownShader);
        }
        if !(self.vs_ring.room() && self.ps_ring.room() && self.ps1_ring.room()) {
            return Some(DrawError::RingExhausted);
        }
        if (shader_uses_paint_texture(batch.shader) && self.pattern_for(batch).is_none()) || (
        shader_uses_image_texture(batch.shader) && self.image_for(batch).is_none()) {
            return Some(DrawError::MissingTexture);
        }
        if !self.textures_live(batch) {
            return Some(DrawError::UnknownTexture);
        }
        if !self.ranges_fit(batch) {
            return Some(DrawError::OutOfRange);
        }
        None
    }

    /// Claims uniform slots for a batch.
    fn upload_uniforms(&mut self, batch: &Batch) -> (r: (UniformWrite, UniformWrite, UniformWrite))
        requires
            old(self).wf(),
            old(self)@.vs_ring.has_room(),
            old(self)@.ps_ring.has_room(),
            old(self)@.ps1_ring.has_room(),
        ensures
            final(self).wf(),
            final(self)@ == old(self)@.uniforms_used(),
            r.0.fills(old(self)@.vs_ring, vs_bytes(*batch)),
            r.1.fills(old(self)@.ps_ring, batch.pixel_uniforms0@),
            r.2.fills(old(self)@.ps1_ring, batch.pixel_uniforms1@),
    {
        let packed = pack_vs(&batch.vertex_uniforms0, &batch.vertex_uniforms1);
        let vs = self.vs_ring.write(&packed);
        let ps = self.ps_ring.write(&batch.pixel_uniforms0);
        let ps1 = self.ps1_ring.write(&batch.pixel_uniforms1);
        (vs, ps, ps1)
    }

    /// The bind group for a paint texture, cached or new.
    fn pattern_bind_group_for(&mut self, s: TextureSlot) -> (g: GroupUse)
        requires
            old(self).wf(),
            live_slot(old(self)@.textures, s),
            old(self)@.next_group < u64::MAX,
        ensures
            final(self).wf(),
            final(self)@ == old(self)@.pattern_used(Some(s)),
            g.fresh == !old(self)@.pattern_groups.contains_key(s),
            g.id == if g.fresh {
                old(self)@.next_group
            } else {
                old(self)@.pattern_groups[s]
            },
    {
        match self.pattern_groups.get(&s) {
            Some(id) => GroupUse { id: *id, fresh: false },
            None => {
                let id: u64 = self.next_group;
                self.next_group = id + 1;
                self.pattern_groups.insert(s, id);
                GroupUse { id, fresh: true }
            },
        }
    }

    /// The bind group for layer textures, cached or new.
    fn image_bind_group_for(&mut self, k: ImageKey) -> (g: GroupUse)
        requires
            old(self).wf(),
            old(self)@.live_image(k),
            old(self)@.next_group < u64::MAX,
        ensures
            final(self).wf(),
            final(self)@ == old(self)@.image_used(Some(k)),
            g.fresh == !old(self)@.image_groups.contains_key(k),
            g.id == if g.fresh {
                old(self)@.next_group
            } else {
                old(self)@.image_groups[k]
            },
    {
        match self.image_groups.get(&k) {
            Some(id) => GroupUse { id: *id, fresh: false },
            None => {
                let id: u64 = self.next_group;
                self.next_group = id + 1;
                self.image_groups.insert(k, id);
                GroupUse { id, fresh: true }
            },
        }
    }

    /// Plans the draw of a batch that [`Self::check_draw`] does not refuse.
    pub fn draw_batch(&mut self, batch: &Batch) -> (plan: DrawPlan)
        requires
            old(self).wf(),
            old(self)@.refusal(*batch) is None,
        ensures
            final(self).wf(),
            final(self)@ == old(self)@.drawn(*batch),
            plan.draws(old(self)@, *batch),
            plan.vertex_start == old(self)@.vertex_stream.segment_base + batch.vertex_offset,
            plan.vertex_end == old(self)@.vertex_stream.segment_base + batch.vertex_offset
                + batch.num_vertices * stride_table()[format_of(batch.shader) as int],
            plan.index_start == old(self)@.index_stream.segment_base + 2 * batch.start_index,
            plan.index_end == plan.index_start + 2 * batch.num_indices,
            plan.indexed.num_indices == batch.num_indices,
    {
        proof {
            lemma_variant_in_range(batch.shader);
        }
        let has_stencil = self.stencil_present();
        let cleared = match self.phase {
            FramePhase::Onscreen => self.onscreen_stencil_cleared,
            _ => self.current_rt_stencil_cleared,
        };
        // The first draw into a target clears its stencil; later draws load it
        // so that the clip stack builds up across batches.
        let stencil = if !has_stencil {
            StencilLoad::Absent
        } else if cleared {
            StencilLoad::Load
        } else {
            StencilLoad::Clear
        };
        let key = PipelineKey::from_batch(batch, has_stencil);
        let pattern_slot = self.pattern_for(batch);
        let image_key = self.image_for(batch);

        let stride: u64 = size_for_format(key.vertex_format) as u64;
        assert(batch.num_vertices * stride <= 0xffff_ffff * 0xff) by (nonlinear_arith)
            requires
                batch.num_vertices <= 0xffff_ffff,
                stride <= 0xff,
        ;
        // Offsets are relative to the segment that the last unmap wrote.
        let vertex_start: u64 = self.vertex_stream.segment_base + batch.vertex_offset as u64;
        let vertex_end: u64 = vertex_start + (batch.num_vertices as u64) * stride;
        let index_start: u64 = self.index_stream.segment_base + (batch.start_index as u64) * 2;
        let index_end: u64 = index_start + (batch.num_indices as u64) * 2;

        let (target, scissor) = match self.current_rt {
            Some(rt) => {
                let height: u32 = match self.render_targets.get(&rt) {
                    Some(t) => t.height,
                    None => 0,
                };
                let scissor = match self.current_tile {
                    Some(tile) => Some(tile_scissor(tile, height)),
                    None => None,
                };
                (DrawTarget::Offscreen(rt), scissor)
            },
            None => (DrawTarget::Onscreen, None),
        };

        match self.phase {
            FramePhase::Onscreen => {
                self.onscreen_stencil_cleared = true;
            },
            _ => {
                self.current_rt_stencil_cleared = true;
            },
        }
        assert(self@ == old(self)@.stencil_used());
        let (vs, ps, ps1) = self.upload_uniforms(batch);
        let ghost before_pipeline = self@;
        let pipeline = self.pipelines.ensure(key);
        assert(self@ == before_pipeline.pipeline_used(key));
        let pattern = match pattern_slot {
            Some(s) => Some((s, self.pattern_bind_group_for(s))),
            None => None,
        };
        let image = match image_key {
            Some(k) => Some((k, self.image_bind_group_for(k))),
            None => None,
        };
        DrawPlan {
            key,
            pipeline,
            vs,
            ps,
            ps1,
            pattern,
            image,
            target,
            clears_color: false,
            scissor,
            stencil,
            stencil_ref: if has_stencil {
                Some(batch.stencil_ref as u32)
            } else {
                None
            },
            vertex_start,
            vertex_end,
            index_start,
            index_end,
            indexed: IndexedDraw {
                format: IndexFormat::Uint16,
                first_index: 0,
                num_indices: batch.num_indices,
                base_vertex: 0,
                instances: 1,
            },
        }
    }
}

proof fn lemma_variant_in_range(shader: u8)
    requires
        has_variant(shader),
    ensures
        shader < SHADER_COUNT,
        crate::render_device::types::format_of(shader) < 16,
{
    crate::render_device::shader_defines::law_inputs_match_vertex_format(shader);
}

fn tile_scissor(tile: Tile, height: u32) -> (r: Scissor)
    requires
        tile.y + tile.height <= u32::MAX,
    ensures
        r == scissor_of(tile, height),
{
    let bottom: u32 = tile.y + tile.height;
    let y: u32 = if bottom > height {
        0
    } else {
        height - bottom
    };
    Scissor { x: tile.x, y, width: tile.width, height: tile.height }
}

/// Packs the two vertex-shader buffers into one slot.
fn pack_vs(first: &Vec<u8>, second: &Vec<u8>) -> (r: Vec<u8>)
    ensures
        r@ == padded(first@, 64) + padded(second@, 16),
{
    let mut r = crate::render_device::rings::pad(first, 64);
    let mut tail = crate::render_device::rings::pad(second, 16);
    r.append(&mut tail);
    r
}

/// What a device keeps holds of its value, as the laws below take it.
pub proof fn lemma_wf(d: &WgpuRenderDevice)
    requires
        d.wf(),
    ensures
        d@.wf(),
{
}

/// Every draw keeps what the target shows: nothing is cleared but the stencil,
/// and that with the first draw only.
pub proof fn law_draws_keep_the_picture(plan: DrawPlan, d: Device, batch: Batch)
    requires
        d.refusal(batch) is None,
        plan.draws(d, batch),
    ensures
        !plan.clears_color,
        plan.stencil == StencilLoad::Clear <==> d.has_stencil() && !d.stencil_cleared(),
{
}

/// The handle that the next texture or render target gets was never given to
/// one that is still there, and neither was the one after it.
pub proof fn law_handles_are_fresh(d: Device)
    requires
        d.wf(),
        d.next_handle < u64::MAX,
    ensures
        d.next_handle != 0,
        !d.textures.contains_key(d.next_handle),
        !d.render_targets.contains_key(d.next_handle),
        !d.textures.contains_key((d.next_handle + 1) as u64),
        !d.render_targets.contains_key((d.next_handle + 1) as u64),
{
}

/// The first draw after a phase or target starts clears the stencil; every
/// later draw into the same target keeps it.
pub proof fn law_stencil_is_cleared_once(d: Device, first: Batch)
    requires
        d.refusal(first) is None,
    ensures
        d.drawn(first).stencil_cleared(),
        d.drawn(first).has_stencil() == d.has_stencil(),
        d.drawn(first).phase == d.phase,
        d.drawn(first).current_rt == d.current_rt,
        !(Device {
            phase: FramePhase::Onscreen,
            onscreen_stencil_cleared: false,
            ..d.restarted()
        }).stencil_cleared(),
{
}

/// Drawing the same state again builds nothing: its pipeline and its bind
/// groups are there, under the places and ids that the first draw gave them.
pub proof fn law_redraw_builds_nothing(d: Device, batch: Batch)
    requires
        d.wf(),
        d.refusal(batch) is None,
    ensures
        ({
            let after = d.drawn(batch);
            &&& after.draw_key(batch) == d.draw_key(batch)
            &&& after.pipelines.contains_key(after.draw_key(batch))
            &&& after.pattern_slot(batch) == d.pattern_slot(batch)
            &&& after.pattern_slot(batch) matches Some(s) ==> after.pattern_groups.contains_key(s)
            &&& after.image_key(batch) == d.image_key(batch)
            &&& after.image_key(batch) matches Some(k) ==> after.image_groups.contains_key(k)
        }),
{
}

/// Once a texture is dropped no cached bind group reads it, and every bind
/// group that did not read it is still there.
pub proof fn law_dropped_texture_is_forgotten(d: Device, handle: u64)
    ensures
        !d.without_texture(handle).textures.contains_key(handle),
        forall|id: u64| !d.without_texture(handle).group_reads(id, handle),
        forall|s: TextureSlot| #[trigger]
            d.pattern_groups.contains_key(s) && s.handle != handle
                ==> d.without_texture(handle).pattern_groups.contains_key(s)
                && d.without_texture(handle).pattern_groups[s] == d.pattern_groups[s],
        forall|k: ImageKey| #[trigger]
            d.image_groups.contains_key(k) && !image_reads(k, handle) ==> d.without_texture(
                handle,
            ).image_groups.contains_key(k) && d.without_texture(handle).image_groups[k]
                == d.image_groups[k],
{
}

/// Consecutive draws read distinct uniform slots.
pub proof fn law_draws_have_slots_of_their_own(d: Device, batch: Batch)
    requires
        d.wf(),
        d.refusal(batch) is None,
    ensures
        d.drawn(batch).vs_ring.next_slot == d.vs_ring.next_slot + 1,
        slot_offset(d.vs_ring.slot_stride, d.vs_ring.next_slot as int) + VS_UNIFORM_SIZE
            <= slot_offset(d.drawn(batch).vs_ring.slot_stride, d.drawn(batch).vs_ring.next_slot as int),
        slot_offset(d.ps_ring.slot_stride, d.ps_ring.next_slot as int) + PS_UNIFORM0_SIZE
            <= slot_offset(d.drawn(batch).ps_ring.slot_stride, d.drawn(batch).ps_ring.next_slot as int),
        slot_offset(d.ps1_ring.slot_stride, d.ps1_ring.next_slot as int) + PS_UNIFORM1_SIZE
            <= slot_offset(
            d.drawn(batch).ps1_ring.slot_stride,
            d.drawn(batch).ps1_ring.next_slot as int,
        ),
{
    lemma_next_slot(d.vs_ring);
    lemma_next_slot(d.ps_ring);
    lemma_next_slot(d.ps1_ring);
}

proof fn lemma_next_slot(ring: UniformRing)
    requires
        ring.wf(),
    ensures
        slot_offset(ring.slot_stride, ring.next_slot as int) + ring.struct_size <= slot_offset(
            ring.slot_stride,
            ring.next_slot + 1,
        ),
{
    let n = ring.next_slot as int;
    let s = ring.slot_stride as int;
    assert((n + 1) * s == n * s + s) by (nonlinear_arith);
}

/// A draw reads the batch's own vertices and indices out of what was uploaded
/// last: the vertices start at the batch's byte offset and there are as many
/// bytes as its vertices take, the indices start at its first 16-bit index and
/// there are two bytes for each; all of its indices are drawn, once, as they are.
pub proof fn law_draw_reads_its_own_geometry(plan: DrawPlan, d: Device, batch: Batch)
    requires
        plan.draws(d, batch),
    ensures
        plan.vertex_start == d.vertex_stream.segment_base + batch.vertex_offset,
        plan.vertex_end - plan.vertex_start == batch.num_vertices * stride_table()[format_of(
            batch.shader,
        ) as int],
        plan.index_start - d.index_stream.segment_base == 2 * batch.start_index,
        plan.index_end - plan.index_start == 2 * plan.indexed.num_indices,
        plan.indexed.num_indices == batch.num_indices,
        plan.indexed.first_index == 0,
        plan.indexed.base_vertex == 0,
        plan.indexed.instances == 1,
        plan.indexed.format == IndexFormat::Uint16,
{
}

/// Two batches of one upload are as far apart on the GPU as they are in the
/// upload: batches that do not share vertices or indices are drawn from ranges
/// that do not overlap.
pub proof fn law_batches_keep_their_distance(
    first: DrawPlan,
    second: DrawPlan,
    d: Device,
    e: Device,
    a: Batch,
    b: Batch,
)
    requires
        first.draws(d, a),
        second.draws(e, b),
        d.vertex_stream.segment_base == e.vertex_stream.segment_base,
        d.index_stream.segment_base == e.index_stream.segment_base,
    ensures
        second.vertex_start - first.vertex_start == b.vertex_offset - a.vertex_offset,
        second.index_start - first.index_start == 2 * (b.start_index - a.start_index),
        a.vertex_offset + a.num_vertices * stride_table()[format_of(a.shader) as int]
            <= b.vertex_offset ==> first.vertex_end <= second.vertex_start,
        a.start_index + a.num_indices <= b.start_index ==> first.index_end <= second.index_start,
{
}

/// The constants of a draw are the batch's, byte by byte: the first vertex
/// buffer in the first 64 bytes and the second in the 16 behind them, each pixel
/// buffer in a slot of its own; what is missing reads as zero. They go into the
/// next slot of each ring.
pub proof fn law_draw_uploads_its_constants(plan: DrawPlan, d: Device, batch: Batch, i: int)
    requires
        d.wf(),
        plan.draws(d, batch),
    ensures
        plan.vs.bytes@.len() == 80,
        0 <= i < 64 ==> plan.vs.bytes@[i] == if i < batch.vertex_uniforms0@.len() {
            batch.vertex_uniforms0@[i]
        } else {
            0
        },
        0 <= i < 16 ==> plan.vs.bytes@[64 + i] == if i < batch.vertex_uniforms1@.len() {
            batch.vertex_uniforms1@[i]
        } else {
            0
        },
        plan.ps.bytes@.len() == d.ps_ring.struct_size,
        0 <= i < plan.ps.bytes@.len() ==> plan.ps.bytes@[i] == if i < batch.pixel_uniforms0@.len() {
            batch.pixel_uniforms0@[i]
        } else {
            0
        },
        plan.ps1.bytes@.len() == d.ps1_ring.struct_size,
        0 <= i < plan.ps1.bytes@.len() ==> plan.ps1.bytes@[i] == if i
            < batch.pixel_uniforms1@.len() {
            batch.pixel_uniforms1@[i]
        } else {
            0
        },
        plan.vs.offset == d.vs_ring.next_slot * d.vs_ring.slot_stride,
        plan.ps.offset == d.ps_ring.next_slot * d.ps_ring.slot_stride,
        plan.ps1.offset == d.ps1_ring.next_slot * d.ps1_ring.slot_stride,
{
}

/// The texture that a shader paints from: a glyph atlas for text, a ramp for a
/// gradient, a pattern for a pattern and for resampling, none for a plain colour
/// or for a shader that paints nothing.
pub open spec fn painted_from(batch: Batch) -> Option<(Option<u64>, u8)> {
    match (effect_spec(batch.shader), paint_spec(batch.shader)) {
        (Some(Effect::Sdf), _) | (Some(Effect::SdfLcd), _) => Some(
            (batch.glyphs, batch.glyphs_sampler),
        ),
        (_, Some(Paint::Linear)) | (_, Some(Paint::Radial)) => Some(
            (batch.ramps, batch.ramps_sampler),
        ),
        (_, Some(Paint::Pattern(_))) => Some((batch.pattern, batch.pattern_sampler)),
        (Some(Effect::Upsample), _) | (Some(Effect::Downsample), _) => Some(
            (batch.pattern, batch.pattern_sampler),
        ),
        _ => None,
    }
}

/// A draw that can be made binds exactly the textures that its shader variant
/// declares, each the batch's own one with its own sampler: the paint texture,
/// the rendered layer, and the blurred layer.
pub proof fn law_draw_binds_its_textures(plan: DrawPlan, d: Device, batch: Batch)
    requires
        d.refusal(batch) is None,
        plan.draws(d, batch),
        d.forced_pattern is None,
        d.forced_image is None,
        d.forced_shadow is None,
    ensures
        plan.pattern is Some <==> defines_of(batch.shader).contains("HAS_PAINT_TEXTURE"@),
        plan.image is Some <==> defines_of(batch.shader).contains("HAS_IMAGE_TEXTURE"@),
        (plan.image matches Some((k, _)) && k.shadow is Some) <==> defines_of(
            batch.shader,
        ).contains("HAS_SHADOW_TEXTURE"@),
        plan.pattern is Some <==> painted_from(batch) is Some,
        plan.pattern matches Some((s, _)) ==> {
            let (handle, sampler) = painted_from(batch)->0;
            &&& handle == Some(s.handle) && sampler == s.sampler
            &&& d.textures.contains_key(s.handle)
        },
        plan.image matches Some((k, _)) ==> {
            &&& batch.image == Some(k.image.handle) && batch.image_sampler == k.image.sampler
            &&& d.textures.contains_key(k.image.handle)
            &&& k.shadow matches Some(s) ==> batch.shadow == Some(s.handle) && batch.shadow_sampler
                == s.sampler && d.textures.contains_key(s.handle)
        },
{
    lemma_inputs_defined(batch.shader);
}

/// A bind group stands for its textures: draws share one exactly when they read
/// the same textures with the same samplers, and a new one gets an id that none
/// has.
pub proof fn law_bind_groups_stand_for_their_textures(plan: DrawPlan, d: Device, batch: Batch)
    requires
        d.wf(),
        d.refusal(batch) is None,
        plan.draws(d, batch),
    ensures
        plan.pattern matches Some((s, g)) ==> {
            &&& d.drawn(batch).pattern_groups.contains_key(s)
            &&& d.drawn(batch).pattern_groups[s] == g.id
            &&& g.fresh <==> !d.pattern_groups.contains_key(s)
            &&& forall|o: TextureSlot| #[trigger]
                d.pattern_groups.contains_key(o) && o != s ==> d.pattern_groups[o] != g.id
        },
        plan.image matches Some((k, g)) ==> {
            &&& d.drawn(batch).image_groups.contains_key(k)
            &&& d.drawn(batch).image_groups[k] == g.id
            &&& g.fresh <==> !d.image_groups.contains_key(k)
            &&& forall|o: ImageKey| #[trigger]
                d.image_groups.contains_key(o) && o != k ==> d.image_groups[o] != g.id
            &&& plan.pattern matches Some((_, p)) ==> p.id != g.id
        },
{
}

/// A draw goes where the phase says: onscreen to the picture that was named,
/// offscreen to the bound target, with the batch's shader and render state, and
/// with a stencil exactly where that target has one. The reference is the
/// batch's. The stencil is cleared exactly by the first draw since the target
/// was bound or the phase began.
pub proof fn law_draw_goes_to_its_target(plan: DrawPlan, d: Device, batch: Batch)
    requires
        d.refusal(batch) is None,
        plan.draws(d, batch),
    ensures
        d.phase == FramePhase::Onscreen ==> {
            &&& plan.target == DrawTarget::Onscreen
            &&& plan.key.has_stencil == d.onscreen_stencil is Some
            &&& plan.stencil == StencilLoad::Clear <==> d.onscreen_stencil is Some
                && !d.onscreen_stencil_cleared
        },
        d.phase == FramePhase::Offscreen ==> {
            &&& plan.target == DrawTarget::Offscreen(d.current_rt->0)
            &&& plan.key.has_stencil == d.render_targets[d.current_rt->0].has_stencil
            &&& plan.stencil == StencilLoad::Clear <==> plan.key.has_stencil
                && !d.current_rt_stencil_cleared
        },
        plan.key.shader == batch.shader,
        plan.key.render_state == batch.render_state,
        plan.key.vertex_format == format_of(batch.shader),
        plan.stencil == StencilLoad::Absent <==> !plan.key.has_stencil,
        plan.stencil_ref is Some <==> plan.key.has_stencil,
        plan.stencil_ref matches Some(r) ==> r == batch.stencil_ref,
{
}

/// Draws are confined to the open tile: the scissor has the tile's left edge and
/// extent, and lies as far from the top of the target as the tile's upper edge
/// does; a tile that reaches beyond the top starts at the top. Without a tile
/// nothing is cut off.
pub proof fn law_draws_stay_inside_the_tile(plan: DrawPlan, d: Device, batch: Batch)
    requires
        plan.draws(d, batch),
    ensures
        plan.scissor is Some <==> d.current_tile is Some,
        plan.scissor matches Some(s) ==> {
            let t = d.current_tile->0;
            let height = d.render_targets[d.current_rt->0].height;
            &&& s.x == t.x && s.width == t.width && s.height == t.height
            &&& t.y + t.height <= height ==> s.y + t.height + t.y == height
            &&& t.y + t.height >= height ==> s.y == 0
        },
{
}

/// A pipeline is built once per key, and each key keeps its place: a draw either
/// finds its pipeline or puts a new one at the end, and disturbs no other.
pub proof fn law_pipelines_stay_in_place(plan: DrawPlan, d: Device, batch: Batch, other: PipelineKey)
    requires
        d.refusal(batch) is None,
        plan.draws(d, batch),
    ensures
        plan.pipeline is Build <==> !d.pipelines.contains_key(plan.key),
        plan.pipeline matches Ensured::Build(at, desc) ==> at == d.pipeline_count
            && desc.describes(d.template, plan.key),
        plan.pipeline matches Ensured::Cached(at) ==> at == d.pipelines[plan.key],
        d.drawn(batch).pipelines.contains_key(plan.key),
        d.drawn(batch).pipelines[plan.key] == match plan.pipeline {
            Ensured::Cached(at) => at,
            Ensured::Build(at, _) => at,
        },
        d.pipelines.contains_key(other) ==> d.drawn(batch).pipelines.contains_key(other)
            && d.drawn(batch).pipelines[other] == d.pipelines[other],
        d.drawn(batch).pipelines.contains_key(other) ==> d.pipelines.contains_key(other) || other
            == plan.key,
        d.drawn(batch).pipeline_count == d.pipeline_count + if plan.pipeline is Build {
            1int
        } else {
            0int
        },
{
}

/// A draw changes nothing but what it uses up: textures, targets, streams, the
/// phase and the tile are as before, and one slot of each ring is taken.
pub proof fn law_draws_leave_the_rest_alone(d: Device, batch: Batch)
    requires
        d.wf(),
        d.refusal(batch) is None,
    ensures
        ({
            let after = d.drawn(batch);
            &&& after.textures == d.textures
            &&& after.render_targets == d.render_targets
            &&& after.vertex_stream == d.vertex_stream
            &&& after.index_stream == d.index_stream
            &&& after.phase == d.phase
            &&& after.current_rt == d.current_rt
            &&& after.current_tile == d.current_tile
            &&& after.onscreen_target == d.onscreen_target
            &&& after.onscreen_stencil == d.onscreen_stencil
            &&& after.next_handle == d.next_handle
            &&& after.vs_ring.next_slot == d.vs_ring.next_slot + 1
            &&& after.ps_ring.next_slot == d.ps_ring.next_slot + 1
            &&& after.ps1_ring.next_slot == d.ps1_ring.next_slot + 1
            &&& d.phase == FramePhase::Onscreen ==> after.onscreen_stencil_cleared
                && after.current_rt_stencil_cleared == d.current_rt_stencil_cleared
            &&& d.phase == FramePhase::Offscreen ==> after.current_rt_stencil_cleared
                && after.onscreen_stencil_cleared == d.onscreen_stencil_cleared
        }),
{
}

/// A batch can be drawn exactly when a phase with a target is open, its shader
/// has a variant, each ring has a slot left, every texture that the shader reads
/// is there with a sampler that is known, and no size goes out of range.
pub proof fn law_what_can_be_drawn(d: Device, batch: Batch)
    requires
        d.forced_pattern is None,
        d.forced_image is None,
        d.forced_shadow is None,
    ensures
        d.refusal(batch) is None <==> {
            &&& d.phase != FramePhase::Idle
            &&& d.phase == FramePhase::Onscreen ==> d.onscreen_target
            &&& d.phase == FramePhase::Offscreen ==> d.current_rt is Some
                && d.render_targets.contains_key(d.current_rt->0)
            &&& has_variant(batch.shader)
            &&& d.vs_ring.has_room() && d.ps_ring.has_room() && d.ps1_ring.has_room()
            &&& painted_from(batch) matches Some((handle, sampler)) ==> handle is Some
                && d.textures.contains_key(handle->0) && sampler & 7 <= 5
            &&& has_image_texture(batch.shader) ==> batch.image is Some && d.textures.contains_key(
                batch.image->0,
            ) && batch.image_sampler & 7 <= 5
            &&& has_shadow_texture(batch.shader) ==> batch.shadow is Some
                && d.textures.contains_key(batch.shadow->0) && batch.shadow_sampler & 7 <= 5
            &&& d.vertex_stream.segment_base + batch.vertex_offset + batch.num_vertices
                * stride_table()[format_of(batch.shader) as int] <= u64::MAX
            &&& d.index_stream.segment_base + 2 * (batch.start_index + batch.num_indices)
                <= u64::MAX
            &&& d.pipeline_count < usize::MAX && d.next_group <= u64::MAX - 2
            &&& d.current_tile matches Some(t) ==> t.y + t.height <= u32::MAX
        },
{
}

/// Each refusal names what is wrong.
pub proof fn law_refusals_name_the_reason(d: Device, batch: Batch)
    ensures
        d.refusal(batch) == Some(DrawError::OutsidePhase) <==> d.phase == FramePhase::Idle,
        d.refusal(batch) == Some(DrawError::NoRenderTarget) <==> d.phase == FramePhase::Offscreen
            && d.current_rt is None,
        d.refusal(batch) == Some(DrawError::DanglingTarget) <==> d.phase == FramePhase::Offscreen && (
        d.current_rt matches Some(rt) && !d.render_targets.contains_key(rt)),
        d.refusal(batch) == Some(DrawError::NoOnscreenTarget) <==> d.phase == FramePhase::Onscreen
            && !d.onscreen_target,
        d.refusal(batch) == Some(DrawError::UnknownShader) ==> !has_variant(batch.shader),
        d.refusal(batch) == Some(DrawError::RingExhausted) ==> !d.vs_ring.has_room()
            || !d.ps_ring.has_room() || !d.ps1_ring.has_room(),
        d.refusal(batch) == Some(DrawError::MissingTexture) && d.forced_pattern is None
            && d.forced_image is None && d.forced_shadow is None ==> {
            ||| painted_from(batch) matches Some((handle, _)) && handle is None
            ||| has_image_texture(batch.shader) && batch.image is None
            ||| has_shadow_texture(batch.shader) && batch.shadow is None
        },
{
}

/// A phase starts over: no slot of a ring is taken and nothing is uploaded yet,
/// no target and no tile is bound offscreen, and the first draw will clear the
/// stencil. Textures, targets, pipelines and bind groups stay. A bound target is
/// drawn into in full, and its stencil is cleared first.
pub proof fn law_phases_start_over(d: Device, handle: u64)
    ensures
        ({
            let on = d.onscreen_begun();
            let off = d.offscreen_begun();
            let bound = d.target_bound(handle);
            &&& on.phase == FramePhase::Onscreen && off.phase == FramePhase::Offscreen
            &&& !on.onscreen_stencil_cleared
            &&& off.current_rt is None && off.current_tile is None
            &&& forall|x: Device|
                x == on || x == off ==> #[trigger] started_over(x) && {
                    &&& x.textures == d.textures && x.render_targets == d.render_targets
                    &&& x.pipelines == d.pipelines && x.pipeline_count == d.pipeline_count
                    &&& x.pattern_groups == d.pattern_groups && x.image_groups == d.image_groups
                    &&& x.next_handle == d.next_handle && x.next_group == d.next_group
                    &&& x.onscreen_target == d.onscreen_target && x.onscreen_stencil
                        == d.onscreen_stencil
                    &&& x.vertex_stream.capacity == d.vertex_stream.capacity
                    &&& x.index_stream.capacity == d.index_stream.capacity
                }
            &&& bound.current_rt == Some(handle) && bound.current_tile is None
            &&& !bound.current_rt_stencil_cleared && bound.phase == d.phase
            &&& bound.vs_ring == d.vs_ring && bound.vertex_stream == d.vertex_stream
            &&& bound.render_targets == d.render_targets
            &&& d.ended().phase == FramePhase::Idle && d.ended().current_rt is None
            &&& d.ended().textures == d.textures && d.ended().pipelines == d.pipelines
        }),
{
    assert(started_over(d.onscreen_begun()) && started_over(d.offscreen_begun()));
}

/// Whether nothing of this phase is used up yet.
pub open spec fn started_over(d: Device) -> bool {
    &&& d.vs_ring.next_slot == 0 && d.ps_ring.next_slot == 0 && d.ps1_ring.next_slot == 0
    &&& d.vertex_stream.cursor == 0 && d.index_stream.cursor == 0
}

/// Mip levels halve: level 0 has the texture's extent, each further level half
/// of the one before, and none is without extent.
pub proof fn law_levels_halve(extent: u32, level: u32)
    requires
        level < 31,
    ensures
        extent > 0 ==> level_extent(extent, 0) == extent,
        level_extent(extent, level) >= 1,
        level_extent(extent, (level + 1) as u32) == if level_extent(extent, level) / 2 == 0 {
            1u32
        } else {
            (level_extent(extent, level) / 2) as u32
        },
{
    let next = (level + 1) as u32;
    assert(extent >> 0u32 == extent) by (bit_vector);
    assert(extent >> next == (extent >> level) / 2) by (bit_vector)
        requires
            level < 31,
            next == level + 1,
    ;
}

/// The contents of a texture are uploaded level by level, all of them or none:
/// each in its own extent, in rows without a gap.
pub proof fn law_every_level_is_uploaded(desc: TextureDesc, i: int)
    requires
        texture_desc_ok(desc),
    ensures
        desc.data_levels is None ==> level_uploads(desc).len() == 0,
        desc.data_levels is Some ==> level_uploads(desc).len() == desc.num_levels,
        0 <= i < level_uploads(desc).len() ==> {
            let u = level_uploads(desc)[i];
            &&& u.level == i
            &&& u.width == level_extent(desc.width, i as u32)
            &&& u.height == level_extent(desc.height, i as u32)
            &&& desc.format == TextureFormat::R8 ==> u.bytes_per_row == u.width
            &&& desc.format != TextureFormat::R8 ==> u.bytes_per_row == 4 * u.width
        },
{
    if 0 <= i < level_uploads(desc).len() {
        let level = i as u32;
        let width = desc.width;
        assert(width >> level <= width) by (bit_vector);
        assert(level_uploads(desc)[i] == level_upload(desc, level));
        let w = level_extent(width, level);
        assert(w <= width || w == 1);
        if desc.format == TextureFormat::R8 {
            assert(w * texel_size(desc.format) == w) by (nonlinear_arith)
                requires
                    texel_size(desc.format) == 1,
            ;
        } else {
            assert(w * texel_size(desc.format) == 4 * w) by (nonlinear_arith)
                requires
                    texel_size(desc.format) == 4,
            ;
            assert(width * texel_size(desc.format) == 4 * width) by (nonlinear_arith)
                requires
                    texel_size(desc.format) == 4,
            ;
        }
    }
}

/// The engine is told of a texture what it asked for, under a handle that no
/// texture or target has, and the device remembers it under that handle; every
/// other one stays.
pub proof fn law_created_textures_are_found(d: Device, desc: TextureDesc, other: u64)
    requires
        d.wf(),
        d.next_handle < u64::MAX,
    ensures
        ({
            let told = texture_binding(d.next_handle, desc);
            let after = d.with_texture(desc);
            &&& !d.textures.contains_key(told.handle) && !d.render_targets.contains_key(told.handle)
            &&& told.width == desc.width && told.height == desc.height
            &&& told.has_mipmaps <==> desc.num_levels >= 2
            &&& told.has_alpha <==> desc.format != TextureFormat::Rgbx8
            &&& !told.inverted
            &&& after.textures.contains_key(told.handle)
            &&& after.textures[told.handle].format == desc.format
            &&& after.textures[told.handle].width == desc.width
            &&& after.textures[told.handle].height == desc.height
            &&& after.textures[told.handle].num_levels == desc.num_levels
            &&& other != told.handle ==> after.textures.contains_key(other)
                == d.textures.contains_key(other)
            &&& d.textures.contains_key(other) ==> after.textures[other] == d.textures[other]
            &&& after.render_targets == d.render_targets
            &&& after.next_handle > told.handle
        }),
{
}

/// A render target is made with a texture of the same extent to read it back
/// through, under two handles of their own; both are remembered and everything
/// else stays.
pub proof fn law_created_targets_are_found(d: Device, desc: RenderTargetDesc, other: u64)
    requires
        d.wf(),
        d.next_handle <= u64::MAX - 2,
    ensures
        ({
            let told = target_binding(d.next_handle, desc);
            let read = told.resolve_texture;
            let after = d.with_render_target(desc);
            let made = after.render_targets[told.handle];
            &&& told.handle != read.handle
            &&& !d.textures.contains_key(told.handle) && !d.render_targets.contains_key(told.handle)
            &&& !d.textures.contains_key(read.handle) && !d.render_targets.contains_key(read.handle)
            &&& read.width == desc.width && read.height == desc.height
            &&& !read.has_mipmaps && !read.inverted && read.has_alpha
            &&& after.render_targets.contains_key(told.handle)
            &&& made.resolve_handle == read.handle && made.has_stencil == desc.needs_stencil
            &&& made.width == desc.width && made.height == desc.height
            &&& after.textures.contains_key(read.handle)
            &&& after.textures[read.handle].width == desc.width
            &&& after.textures[read.handle].height == desc.height
            &&& after.textures[read.handle].num_levels == 1
            &&& after.textures[read.handle].format == TextureFormat::Rgba8
            &&& d.textures.contains_key(other) ==> after.textures.contains_key(other)
                && after.textures[other] == d.textures[other]
            &&& d.render_targets.contains_key(other) ==> after.render_targets.contains_key(other)
                && after.render_targets[other] == d.render_targets[other]
            &&& after.next_handle > read.handle && after.next_handle > told.handle
        }),
{
}

/// A clone has the extent and the stencil of what it is cloned from.
pub proof fn law_clones_are_alike(d: Device, src: u64)
    requires
        d.wf(),
        d.next_handle <= u64::MAX - 2,
        d.render_targets.contains_key(src),
    ensures
        ({
            let t = d.render_targets[src];
            let made = d.with_render_target(clone_desc(t)).render_targets[d.next_handle];
            &&& made.width == t.width && made.height == t.height
            &&& made.has_stencil == t.has_stencil
            &&& made.resolve_handle != t.resolve_handle || !d.textures.contains_key(
                t.resolve_handle,
            )
            &&& clone_desc(t).sample_count == 1
        }),
{
}

/// Pixels keep their layout: one byte where there is one channel, four else.
pub proof fn law_formats_keep_their_texels(format: TextureFormat)
    ensures
        gpu_format(format) == GpuFormat::R8Unorm <==> format == TextureFormat::R8,
        texel_size(format) == match gpu_format(format) {
            GpuFormat::R8Unorm => 1u32,
            GpuFormat::Rgba8Unorm => 4u32,
        },
{
}

/// An upload puts the claimed bytes behind everything that was uploaded before,
/// into a buffer that holds them, and draws are relative to where it starts. The
/// buffer is replaced exactly where it was too small.
pub proof fn law_uploads_go_behind_the_last(s: GeometryStream, u: Upload)
    requires
        s.wf(),
        can_unmap(s),
        upload_of(s, u),
    ensures
        ({
            let after = unmapped_stream(s);
            &&& u.offset == s.cursor && after.segment_base == u.offset
            &&& s.mapped->0 <= u.len < s.mapped->0 + 4 && u.len % 4 == 0
            &&& u.len <= s.staging_len
            &&& after.cursor == u.offset + u.len
            &&& after.cursor <= after.capacity
            &&& after.mapped is None
            &&& u.grow is Some <==> u.offset + u.len > s.capacity
            &&& u.grow matches Some(size) ==> size == after.capacity && size >= 2 * s.capacity
            &&& u.grow is None ==> after.capacity == s.capacity
        }),
{
}

/// A new device owns nothing and is in no phase. Its streams have room for half
/// a mebibyte of vertices and a quarter of that of indices, its rings for 1024
/// draws with slots of 80, 32 and 32 bytes, and its first handle is not zero.
pub proof fn law_new_device_is_empty(template: Seq<char>, alignment: u32)
    ensures
        ({
            let d = new_device(template, alignment);
            &&& d.template == template
            &&& forall|h: u64| !d.textures.contains_key(h) && !d.render_targets.contains_key(h)
            &&& forall|k: PipelineKey| !d.pipelines.contains_key(k)
            &&& d.pipeline_count == 0 && d.next_group == 0 && d.next_handle == 1
            &&& d.phase is Idle && d.current_rt is None && d.current_tile is None
            &&& !d.onscreen_target && d.onscreen_stencil is None && !d.has_stencil()
            &&& !d.onscreen_stencil_cleared && !d.current_rt_stencil_cleared
            &&& d.forced_pattern is None && d.forced_image is None && d.forced_shadow is None
            &&& d.vertex_stream.capacity == 512 * 1024 && d.index_stream.capacity == 128 * 1024
            &&& d.vertex_stream.staging_len == d.vertex_stream.capacity
            &&& d.index_stream.staging_len == d.index_stream.capacity
            &&& d.vertex_stream.cursor == 0 && d.index_stream.cursor == 0
            &&& d.vertex_stream.mapped is None && d.index_stream.mapped is None
            &&& d.vs_ring.struct_size == 80 && d.ps_ring.struct_size == 32
            &&& d.ps1_ring.struct_size == 32
            &&& d.vs_ring.slot_capacity == 1024 && d.ps_ring.slot_capacity == 1024
            &&& d.ps1_ring.slot_capacity == 1024
            &&& d.vs_ring.next_slot == 0 && d.ps_ring.next_slot == 0 && d.ps1_ring.next_slot == 0
        }),
{
}

/// The bind groups that go with a texture are exactly those that read it, as
/// paint, as a layer or as a shadow; what is cached afterwards names it nowhere.
pub proof fn law_groups_go_with_their_textures(
    d: Device,
    handle: u64,
    s: TextureSlot,
    k: ImageKey,
    id: u64,
)
    ensures
        d.pattern_groups.contains_key(s) && s.handle == handle ==> d.group_reads(
            d.pattern_groups[s],
            handle,
        ),
        d.image_groups.contains_key(k) && k.image.handle == handle ==> d.group_reads(
            d.image_groups[k],
            handle,
        ),
        d.image_groups.contains_key(k) && (k.shadow matches Some(shadow) && shadow.handle == handle)
            ==> d.group_reads(d.image_groups[k], handle),
        d.group_reads(id, handle) ==> (exists|p: TextureSlot| #[trigger]
            d.pattern_groups.contains_key(p) && p.handle == handle && d.pattern_groups[p] == id) || (
        exists|i: ImageKey| #[trigger]
            d.image_groups.contains_key(i) && d.image_groups[i] == id && (i.image.handle == handle
                || (i.shadow is Some && i.shadow->0.handle == handle))),
        d.without_texture(handle).pattern_groups.contains_key(s) ==> s.handle != handle,
        d.without_texture(handle).image_groups.contains_key(k) ==> k.image.handle != handle && (
        k.shadow matches Some(shadow) ==> shadow.handle != handle),
{
}

/// Contents are refused unless they come for every level, or where the bytes of
/// a row cannot be counted; a texture without contents is never refused.
pub proof fn law_contents_come_for_every_level(desc: TextureDesc)
    ensures
        desc.data_levels is None ==> texture_desc_ok(desc),
        texture_desc_ok(desc) && desc.data_levels is Some ==> desc.data_levels->0 == desc.num_levels,
        desc.data_levels == Some(desc.num_levels) && desc.num_levels <= 32 && desc.width * 4
            <= 0xffff_ffff ==> texture_desc_ok(desc),
{
}

} // verus!
