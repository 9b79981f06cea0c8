//! The render device: resources, frame phases, draws, pipelines, uniform rings
//! and geometry streams.

use noesis_bevy::render_device::pipeline::{
    blend_state_for, build_pipeline, depth_stencil_for, BlendComponent, BlendFactor, BlendState,
    CompareFunction, Ensured, PipelineCache, PipelineKey, StencilOperation,
};
use noesis_bevy::render_device::rings::{align_up_u64, round_up_to_4, UniformRing};
use noesis_bevy::render_device::sampler::{
    build_sampler, has_known_wrap, wgpu_wrap_mode, AddressMode, FilterMode,
};
use noesis_bevy::render_device::streams::GeometryStream;
use noesis_bevy::render_device::types::{Batch, TextureSlot};
use noesis_bevy::render_device::wgpu_device::{
    batch_paint_texture, bytes_per_pixel, wgpu_format_for, DrawError, DrawTarget, FramePhase,
    GpuFormat, IndexFormat, IndexedDraw, RenderTargetDesc, Scissor, StencilLoad, TextureBinding,
    TextureDesc, TextureFormat, TextureRect, Tile,
};
use noesis_bevy::render_device::WgpuRenderDevice;
use noesis_runtime::render_device::types::{
    BlendMode, MinMagFilter, MipFilter, RenderState, SamplerState, Shader, StencilMode, WrapMode,
};

const TEMPLATE: &str = "a\n#ifdef PAINT_SOLID\nsolid\n#endif\n#ifdef HAS_COVERAGE\naa\n#endif\n";

fn device() -> WgpuRenderDevice {
    WgpuRenderDevice::new(TEMPLATE.to_string(), 256)
}

fn batch(shader: Shader) -> Batch {
    Batch {
        shader: shader.0,
        render_state: 1,
        stencil_ref: 3,
        vertex_offset: 0,
        num_vertices: 4,
        start_index: 0,
        num_indices: 6,
        pattern: None,
        ramps: None,
        image: None,
        glyphs: None,
        shadow: None,
        pattern_sampler: 1,
        ramps_sampler: 2,
        image_sampler: 3,
        glyphs_sampler: 4,
        shadow_sampler: 5,
        vertex_uniforms0: vec![1; 64],
        vertex_uniforms1: vec![2; 8],
        pixel_uniforms0: vec![3; 4],
        pixel_uniforms1: vec![],
    }
}

fn texture(width: u32, height: u32, num_levels: u32, format: TextureFormat) -> TextureDesc {
    TextureDesc { width, height, num_levels, format, data_levels: None }
}

#[test]
fn texture_formats_convert() {
    assert_eq!(wgpu_format_for(TextureFormat::Rgba8), GpuFormat::Rgba8Unorm);
    assert_eq!(wgpu_format_for(TextureFormat::Rgbx8), GpuFormat::Rgba8Unorm);
    assert_eq!(wgpu_format_for(TextureFormat::R8), GpuFormat::R8Unorm);
    assert_eq!(bytes_per_pixel(TextureFormat::Rgba8), 4);
    assert_eq!(bytes_per_pixel(TextureFormat::R8), 1);
}

#[test]
fn textures_get_handles_of_their_own() {
    let mut d = device();
    let a = d.create_texture(&texture(8, 4, 1, TextureFormat::R8));
    let b = d.create_texture(&texture(8, 4, 3, TextureFormat::Rgbx8));
    assert_eq!((a.binding.handle, b.binding.handle), (1, 2));
    assert!(!a.binding.has_mipmaps && a.binding.has_alpha && a.uploads.is_empty());
    assert_eq!(
        b.binding,
        TextureBinding {
            handle: 2,
            width: 8,
            height: 4,
            has_mipmaps: true,
            inverted: false,
            has_alpha: false,
        }
    );
    assert_eq!(d.next_handle(), 3);
    assert_eq!(d.texture(a.binding.handle).unwrap().width, 8);
    assert!(d.texture(9).is_none());
    assert!(d.drop_texture(a.binding.handle).is_empty());
    assert!(d.texture(a.binding.handle).is_none());
}

#[test]
fn levels_halve_down_to_one() {
    let mut d = device();
    let t = d.create_texture(&TextureDesc {
        width: 5,
        height: 2,
        num_levels: 3,
        format: TextureFormat::Rgba8,
        data_levels: Some(3),
    });
    let sizes: Vec<(u32, u32, u32)> =
        t.uploads.iter().map(|u| (u.width, u.height, u.bytes_per_row)).collect();
    assert_eq!(sizes, vec![(5, 2, 20), (2, 1, 8), (1, 1, 4)]);
    let part = d.update_texture(t.binding.handle, 1, &TextureRect { x: 0, y: 0, width: 2, height: 1 });
    assert_eq!((part.level, part.width, part.height, part.bytes_per_row), (1, 2, 1, 8));
}

#[test]
fn render_targets_share_a_handle_space_with_their_texture() {
    let mut d = device();
    let t = d.create_render_target(&RenderTargetDesc {
        width: 16,
        height: 8,
        sample_count: 1,
        needs_stencil: true,
    });
    assert_ne!(t.binding.handle, t.binding.resolve_texture.handle);
    assert_eq!(d.render_target_size(t.binding.handle), Some((16, 8)));
    assert!(d.texture(t.binding.resolve_texture.handle).is_some());
    let resolve = t.binding.resolve_texture;
    assert_eq!((resolve.width, resolve.height), (16, 8));
    assert!(resolve.has_alpha && !resolve.has_mipmaps && !resolve.inverted);
    let c = d.clone_render_target(t.binding.handle);
    assert_eq!(d.render_target_size(c.binding.handle), Some((16, 8)));
    assert_ne!(c.binding.handle, t.binding.handle);
    d.drop_render_target(t.binding.handle);
    assert_eq!(d.render_target_size(t.binding.handle), None);
    assert_eq!(d.render_target_size(c.binding.handle), Some((16, 8)));
}

#[test]
fn draws_need_a_phase_and_a_target() {
    let mut d = device();
    let b = batch(Shader::PATH_SOLID);
    assert_eq!(d.check_draw(&b), Some(DrawError::OutsidePhase));
    d.begin_offscreen_render();
    assert_eq!(d.phase(), FramePhase::Offscreen);
    assert_eq!(d.check_draw(&b), Some(DrawError::NoRenderTarget));
    d.end_offscreen_render();
    d.begin_onscreen_render();
    assert_eq!(d.check_draw(&b), Some(DrawError::NoOnscreenTarget));
    d.end_onscreen_render();
    assert!(d.set_onscreen_target(64, 64));
    assert!(!d.set_onscreen_target(64, 64));
    assert!(d.set_onscreen_target(64, 32));
    d.begin_onscreen_render();
    assert_eq!(d.check_draw(&b), None);
    assert_eq!(d.check_draw(&batch(Shader::CUSTOM_EFFECT)), Some(DrawError::UnknownShader));
    assert_eq!(d.check_draw(&batch(Shader(200))), Some(DrawError::UnknownShader));
}

#[test]
fn a_dropped_target_is_not_drawn_into() {
    let mut d = device();
    let t = d.create_render_target(&RenderTargetDesc {
        width: 4,
        height: 4,
        sample_count: 1,
        needs_stencil: false,
    });
    d.begin_offscreen_render();
    d.set_render_target(t.binding.handle);
    assert_eq!(d.bound_target(), Some(t.binding.handle));
    d.drop_render_target(t.binding.handle);
    assert_eq!(d.check_draw(&batch(Shader::PATH_SOLID)), Some(DrawError::DanglingTarget));
}

#[test]
fn draws_claim_slots_of_their_own() {
    let mut d = device();
    d.set_onscreen_target(64, 64);
    d.begin_onscreen_render();
    let b = batch(Shader::PATH_SOLID);
    let first = d.draw_batch(&b);
    let second = d.draw_batch(&b);
    assert_eq!((first.vs.offset, second.vs.offset), (0, 256));
    assert_eq!((first.ps.offset, second.ps.offset), (0, 256));
    assert_eq!(first.vs.bytes.len(), 80);
    assert_eq!(&first.vs.bytes[..64], &[1; 64]);
    assert_eq!(&first.vs.bytes[64..72], &[2; 8]);
    assert_eq!(&first.vs.bytes[72..], &[0; 8]);
    assert_eq!(&first.ps.bytes[..4], &[3; 4]);
    assert_eq!(first.ps.bytes.len(), 32);
    assert_eq!(first.ps1.bytes, vec![0; 32]);
    assert!(matches!(first.pipeline, Ensured::Build(0, _)));
    assert!(matches!(second.pipeline, Ensured::Cached(0)));
}

#[test]
fn stencil_is_cleared_once_per_target() {
    let mut d = device();
    d.set_onscreen_target(64, 64);
    d.begin_onscreen_render();
    let b = batch(Shader::PATH_SOLID);
    let first = d.draw_batch(&b);
    assert_eq!(first.target, DrawTarget::Onscreen);
    assert_eq!((first.stencil, first.stencil_ref), (StencilLoad::Clear, Some(3)));
    assert_eq!(d.draw_batch(&b).stencil, StencilLoad::Load);
    d.end_onscreen_render();
    let t = d.create_render_target(&RenderTargetDesc {
        width: 8,
        height: 10,
        sample_count: 1,
        needs_stencil: false,
    });
    d.begin_offscreen_render();
    d.set_render_target(t.binding.handle);
    d.begin_tile(t.binding.handle, Tile { x: 1, y: 2, width: 3, height: 4 });
    let off = d.draw_batch(&b);
    assert_eq!(off.target, DrawTarget::Offscreen(t.binding.handle));
    assert_eq!((off.stencil, off.stencil_ref), (StencilLoad::Absent, None));
    assert_eq!(off.scissor, Some(Scissor { x: 1, y: 4, width: 3, height: 4 }));
    d.end_tile(t.binding.handle);
    assert_eq!(d.draw_batch(&b).scissor, None);
}

#[test]
fn tiles_are_clamped_at_the_top() {
    let mut d = device();
    let t = d.create_render_target(&RenderTargetDesc {
        width: 8,
        height: 4,
        sample_count: 1,
        needs_stencil: true,
    });
    d.begin_offscreen_render();
    d.set_render_target(t.binding.handle);
    d.begin_tile(t.binding.handle, Tile { x: 0, y: 3, width: 8, height: 4 });
    let plan = d.draw_batch(&batch(Shader::PATH_SOLID));
    assert_eq!(plan.scissor.unwrap().y, 0);
    assert_eq!(plan.stencil, StencilLoad::Clear);
}

#[test]
fn draws_are_relative_to_the_last_upload() {
    let mut d = device();
    assert!(d.map_vertices(100) >= 100);
    assert_eq!(d.unmap_vertices().offset, 0);
    d.map_vertices(50);
    let second = d.unmap_vertices();
    assert_eq!((second.offset, second.len), (100, 52));
    d.map_indices(12);
    d.unmap_indices();
    d.set_onscreen_target(4, 4);
    d.begin_onscreen_render();
    let mut b = batch(Shader::PATH_SOLID);
    b.start_index = 3;
    let plan = d.draw_batch(&b);
    assert_eq!(plan.vertex_start, d.vertices().segment_base);
    assert_eq!(plan.vertex_end - plan.vertex_start, 4 * 12);
    assert_eq!(plan.index_start, d.indices().segment_base + 6);
    assert_eq!(plan.index_end - plan.index_start, 12);
    assert!(!plan.clears_color);
    assert_eq!(
        plan.indexed,
        IndexedDraw {
            format: IndexFormat::Uint16,
            first_index: 0,
            num_indices: 6,
            base_vertex: 0,
            instances: 1,
        }
    );
}

#[test]
fn textured_draws_need_a_live_texture() {
    let mut d = device();
    d.set_onscreen_target(4, 4);
    d.begin_onscreen_render();
    let mut b = batch(Shader::PATH_PATTERN);
    assert_eq!(d.check_draw(&b), Some(DrawError::MissingTexture));
    b.pattern = Some(77);
    assert_eq!(d.check_draw(&b), Some(DrawError::UnknownTexture));
    d.end_onscreen_render();
    let t = d.create_texture(&texture(1, 1, 1, TextureFormat::Rgba8));
    d.begin_onscreen_render();
    b.pattern = Some(t.binding.handle);
    let first = d.draw_batch(&b);
    let (slot, group) = first.pattern.unwrap();
    assert_eq!(slot, TextureSlot { handle: t.binding.handle, sampler: 1 });
    assert!(group.fresh);
    let again = d.draw_batch(&b).pattern.unwrap().1;
    assert_eq!((again.id, again.fresh), (group.id, false));
    assert_eq!(d.drop_texture(t.binding.handle), vec![group.id]);
    assert_eq!(d.check_draw(&b), Some(DrawError::UnknownTexture));
}

#[test]
fn image_draws_bind_layer_and_shadow() {
    let mut d = device();
    let image = d.create_texture(&texture(1, 1, 1, TextureFormat::Rgba8)).binding.handle;
    let shadow = d.create_texture(&texture(1, 1, 1, TextureFormat::Rgba8)).binding.handle;
    d.set_onscreen_target(4, 4);
    d.begin_onscreen_render();
    let mut b = batch(Shader::SHADOW);
    b.image = Some(image);
    b.shadow = Some(shadow);
    let (key, group) = d.draw_batch(&b).image.unwrap();
    assert_eq!(key.image.handle, image);
    assert_eq!(key.shadow.map(|s| s.handle), Some(shadow));
    assert!(group.fresh);
}

#[test]
fn forced_textures_replace_the_batch_ones() {
    let mut d = device();
    let t = d.create_texture(&texture(1, 1, 1, TextureFormat::Rgba8)).binding.handle;
    d.test_set_forced_pattern(Some(TextureSlot { handle: t, sampler: 9 }));
    d.set_onscreen_target(4, 4);
    d.begin_onscreen_render();
    let plan = d.draw_batch(&batch(Shader::PATH_PATTERN));
    assert_eq!(plan.pattern.unwrap().0, TextureSlot { handle: t, sampler: 9 });
    d.test_set_forced_image(Some(TextureSlot { handle: t, sampler: 1 }));
    assert_eq!(d.check_draw(&batch(Shader::SHADOW)), Some(DrawError::MissingTexture));
    d.test_set_forced_shadow(Some(TextureSlot { handle: t, sampler: 2 }));
    let (key, _) = d.draw_batch(&batch(Shader::SHADOW)).image.unwrap();
    assert_eq!(key.image, TextureSlot { handle: t, sampler: 1 });
    assert_eq!(key.shadow, Some(TextureSlot { handle: t, sampler: 2 }));
    d.test_set_forced_image(None);
    assert_eq!(d.check_draw(&batch(Shader::SHADOW)), Some(DrawError::MissingTexture));
}

#[test]
fn rings_run_out() {
    let mut d = device();
    d.set_onscreen_target(4, 4);
    d.begin_onscreen_render();
    let b = batch(Shader::PATH_SOLID);
    for _ in 0..1024 {
        assert_eq!(d.check_draw(&b), None);
        d.draw_batch(&b);
    }
    assert_eq!(d.check_draw(&b), Some(DrawError::RingExhausted));
}

#[test]
fn draws_out_of_range_are_refused() {
    let mut d = device();
    let t = d.create_render_target(&RenderTargetDesc {
        width: 4,
        height: 4,
        sample_count: 1,
        needs_stencil: false,
    });
    d.begin_offscreen_render();
    d.set_render_target(t.binding.handle);
    d.begin_tile(t.binding.handle, Tile { x: 0, y: u32::MAX, width: 1, height: 1 });
    assert_eq!(d.check_draw(&batch(Shader::PATH_SOLID)), Some(DrawError::OutOfRange));
}

#[test]
fn paint_texture_depends_on_the_shader() {
    let mut b = batch(Shader::SDF_SOLID);
    b.glyphs = Some(1);
    b.ramps = Some(2);
    b.pattern = Some(3);
    assert_eq!(batch_paint_texture(&b), Some(TextureSlot { handle: 1, sampler: 4 }));
    b.shader = Shader::PATH_LINEAR.0;
    assert_eq!(batch_paint_texture(&b), Some(TextureSlot { handle: 2, sampler: 2 }));
    b.shader = Shader::PATH_PATTERN_CLAMP.0;
    assert_eq!(batch_paint_texture(&b), Some(TextureSlot { handle: 3, sampler: 1 }));
    b.shader = Shader::PATH_SOLID.0;
    assert_eq!(batch_paint_texture(&b), None);
}

#[test]
fn stencil_modes_map_to_gpu_state() {
    let state = |mode: StencilMode| {
        depth_stencil_for(RenderState::new(true, BlendMode::Src, mode, false).0)
    };
    let keep = state(StencilMode::EqualKeep);
    assert_eq!((keep.compare, keep.pass_op), (CompareFunction::Equal, StencilOperation::Keep));
    assert_eq!(state(StencilMode::EqualIncr).pass_op, StencilOperation::IncrementWrap);
    assert_eq!(state(StencilMode::EqualDecr).pass_op, StencilOperation::DecrementWrap);
    let clear = state(StencilMode::Clear);
    assert_eq!((clear.compare, clear.pass_op), (CompareFunction::Always, StencilOperation::Zero));
    assert_eq!(state(StencilMode::Disabled).compare, CompareFunction::Always);
    assert_eq!(keep.read_mask, 0xff);
}

#[test]
fn blend_modes_map_to_gpu_state() {
    let over = BlendComponent {
        src_factor: BlendFactor::One,
        dst_factor: BlendFactor::OneMinusSrcAlpha,
    };
    assert_eq!(blend_state_for(BlendMode::Src as u8), None);
    assert_eq!(
        blend_state_for(BlendMode::SrcOver as u8),
        Some(BlendState { color: over, alpha: over })
    );
    assert_eq!(blend_state_for(200), Some(BlendState { color: over, alpha: over }));
    assert_eq!(
        blend_state_for(BlendMode::SrcOverMultiply as u8).unwrap().color.src_factor,
        BlendFactor::Dst
    );
}

#[test]
fn pipelines_are_built_once_per_key() {
    let mut cache = PipelineCache::new(TEMPLATE.to_string());
    let solid = PipelineKey::from_batch(&batch(Shader::PATH_SOLID), true);
    let aa = PipelineKey::from_batch(&batch(Shader::PATH_AA_SOLID), true);
    assert_eq!(solid.vertex_format, 1);
    assert!(matches!(cache.ensure(solid), Ensured::Build(0, _)));
    assert!(matches!(cache.ensure(aa), Ensured::Build(1, _)));
    assert!(matches!(cache.ensure(solid), Ensured::Cached(0)));
    assert_eq!(cache.len(), 2);
    assert_eq!(cache.get(aa), Some(1));
    assert_eq!(cache.get(PipelineKey { has_stencil: false, ..aa }), None);
}

#[test]
fn pipeline_state_follows_the_key() {
    let key = PipelineKey::from_batch(&batch(Shader::PATH_AA_SOLID), false);
    let desc = build_pipeline(TEMPLATE, key);
    assert_eq!(desc.source, "a\nsolid\naa\n");
    assert_eq!(desc.depth_stencil, None);
    assert!(desc.write_color);
    assert_eq!(desc.blend, None);
    let masked = PipelineKey { render_state: 0, has_stencil: true, ..key };
    let desc = build_pipeline(TEMPLATE, masked);
    assert!(!desc.write_color);
    assert!(desc.depth_stencil.is_some());
}

#[test]
fn samplers_decode() {
    for (wrap, mode) in [
        (WrapMode::ClampToEdge, AddressMode::ClampToEdge),
        (WrapMode::ClampToZero, AddressMode::ClampToEdge),
        (WrapMode::Repeat, AddressMode::Repeat),
        (WrapMode::MirrorU, AddressMode::MirrorRepeat),
        (WrapMode::MirrorV, AddressMode::MirrorRepeat),
        (WrapMode::Mirror, AddressMode::MirrorRepeat),
    ] {
        assert_eq!(wgpu_wrap_mode(wrap as u8), mode);
        let s = build_sampler(SamplerState::new(wrap, MinMagFilter::Linear, MipFilter::Nearest).0);
        assert_eq!(s.address_mode, mode);
        assert_eq!(s.filter, FilterMode::Linear);
        assert_eq!(s.mipmap_filter, FilterMode::Nearest);
        assert!(s.use_mipmaps);
    }
    let plain = SamplerState::new(WrapMode::Repeat, MinMagFilter::Nearest, MipFilter::Disabled);
    assert_eq!(build_sampler(plain.0).filter, FilterMode::Nearest);
    assert!(!build_sampler(plain.0).use_mipmaps);
    assert!(has_known_wrap(5) && !has_known_wrap(6));
}

#[test]
fn sizes_round_up() {
    assert_eq!([0, 1, 4, 5].map(round_up_to_4), [0, 4, 4, 8]);
    assert_eq!(align_up_u64(80, 256), 256);
    assert_eq!(align_up_u64(256, 256), 256);
    assert_eq!(align_up_u64(257, 256), 512);
    assert_eq!(align_up_u64(9, 1), 9);
}

#[test]
fn ring_slots_do_not_overlap() {
    let mut ring = UniformRing::new(80, 3, 256);
    assert_eq!(ring.buffer_size(), 768);
    let offsets: Vec<u32> = (0..3).map(|_| ring.write(&vec![9; 100]).offset).collect();
    assert_eq!(offsets, vec![0, 256, 512]);
    assert!(!ring.room());
    ring.reset();
    assert!(ring.room());
    let w = ring.write(&vec![9; 100]);
    assert_eq!((w.offset, w.bytes), (0, vec![9; 80]));
}

#[test]
fn stream_segments_do_not_overlap() {
    let mut s = GeometryStream::new(16);
    s.map(6);
    assert!(s.unmappable());
    let a = s.unmap();
    assert_eq!((a.offset, a.len, a.grow), (0, 8, None));
    s.map(20);
    let b = s.unmap();
    assert_eq!((b.offset, b.len), (8, 20));
    assert!(b.grow.is_some());
    assert!(s.capacity >= 28);
    s.reset();
    s.map(4);
    assert_eq!(s.unmap().offset, 0);
}

#[test]
fn claims_of_any_size_can_be_appended() {
    let mut s = GeometryStream::new(16);
    assert_eq!(s.map(101), 104);
    assert!(s.unmappable());
    let a = s.unmap();
    assert_eq!((a.offset, a.len, a.grow), (0, 104, Some(104)));
    assert_eq!(s.map(u32::MAX), 0x1_0000_0000);
    assert!(s.unmappable());
    let b = s.unmap();
    assert_eq!((b.offset, b.len), (104, 0x1_0000_0000));
    assert_eq!(s.segment_base, 104);
}
