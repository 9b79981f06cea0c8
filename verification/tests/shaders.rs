//! Shader ids, their defines and the vertex formats they read.

use noesis_bevy::render_device::shader_defines::{defines_for_shader, shader_has_variant};
use noesis_bevy::render_device::shader_preproc::preprocess;
use noesis_bevy::render_device::types::{
    effect_of, format_for_shader, paint_of, Effect, Paint, PatternWrap, SHADER_COUNT,
};
use noesis_bevy::render_device::vertex_layout::{
    attributes_for_format, stride_for_format, VertexFormat,
};
use noesis_bevy::render_device::wgpu_device::{
    shader_uses_image_texture, shader_uses_paint_texture, shader_uses_shadow_texture,
};
use noesis_runtime::render_device::types::{
    Shader, ATTRIBUTES_FOR_FORMAT, FORMAT_FOR_VERTEX, SIZE_FOR_FORMAT, SIZE_FOR_TYPE,
    TYPE_FOR_ATTR, VERTEX_FOR_SHADER,
};

const ALL_DEFINES: [&str; 34] = [
    "CLAMP_PATTERN",
    "DOWNSAMPLE",
    "EFFECT_BLUR",
    "EFFECT_CLEAR",
    "EFFECT_DOWNSAMPLE",
    "EFFECT_MASK",
    "EFFECT_OPACITY",
    "EFFECT_PATH",
    "EFFECT_PATH_AA",
    "EFFECT_RGBA",
    "EFFECT_SDF",
    "EFFECT_SDF_LCD",
    "EFFECT_SHADOW",
    "EFFECT_UPSAMPLE",
    "HAS_CBUFFER1_PS",
    "HAS_COLOR",
    "HAS_COVERAGE",
    "HAS_IMAGE_TEXTURE",
    "HAS_PAINT_TEXTURE",
    "HAS_RECT",
    "HAS_SHADOW_TEXTURE",
    "HAS_ST1",
    "HAS_TILE",
    "HAS_UV0",
    "HAS_UV1",
    "MIRRORU_PATTERN",
    "MIRRORV_PATTERN",
    "MIRROR_PATTERN",
    "PAINT_LINEAR",
    "PAINT_PATTERN",
    "PAINT_PATTERN_PLAIN",
    "PAINT_RADIAL",
    "PAINT_SOLID",
    "REPEAT_PATTERN",
];

const EXPECTED: [(Shader, &[&str]); 36] = [
    (Shader::RGBA, &["EFFECT_RGBA"]),
    (Shader::MASK, &["EFFECT_MASK"]),
    (Shader::CLEAR, &["EFFECT_CLEAR"]),
    (Shader::PATH_SOLID, &["HAS_COLOR", "PAINT_SOLID", "EFFECT_PATH"]),
    (Shader::PATH_AA_SOLID, &["HAS_COLOR", "HAS_COVERAGE", "PAINT_SOLID", "EFFECT_PATH_AA"]),
    (Shader::PATH_PATTERN, &["HAS_UV0", "HAS_PAINT_TEXTURE", "PAINT_PATTERN", "PAINT_PATTERN_PLAIN", "EFFECT_PATH"]),
    (Shader::PATH_AA_PATTERN, &["HAS_UV0", "HAS_COVERAGE", "HAS_PAINT_TEXTURE", "PAINT_PATTERN", "PAINT_PATTERN_PLAIN", "EFFECT_PATH_AA"]),
    (Shader::PATH_PATTERN_CLAMP, &["HAS_UV0", "HAS_RECT", "HAS_PAINT_TEXTURE", "PAINT_PATTERN", "CLAMP_PATTERN", "EFFECT_PATH"]),
    (Shader::PATH_AA_PATTERN_CLAMP, &["HAS_UV0", "HAS_COVERAGE", "HAS_RECT", "HAS_PAINT_TEXTURE", "PAINT_PATTERN", "CLAMP_PATTERN", "EFFECT_PATH_AA"]),
    (Shader::PATH_PATTERN_REPEAT, &["HAS_UV0", "HAS_RECT", "HAS_TILE", "HAS_PAINT_TEXTURE", "PAINT_PATTERN", "REPEAT_PATTERN", "EFFECT_PATH"]),
    (Shader::PATH_AA_PATTERN_REPEAT, &["HAS_UV0", "HAS_COVERAGE", "HAS_RECT", "HAS_TILE", "HAS_PAINT_TEXTURE", "PAINT_PATTERN", "REPEAT_PATTERN", "EFFECT_PATH_AA"]),
    (Shader::PATH_PATTERN_MIRROR_U, &["HAS_UV0", "HAS_RECT", "HAS_TILE", "HAS_PAINT_TEXTURE", "PAINT_PATTERN", "MIRRORU_PATTERN", "EFFECT_PATH"]),
    (Shader::PATH_AA_PATTERN_MIRROR_U, &["HAS_UV0", "HAS_COVERAGE", "HAS_RECT", "HAS_TILE", "HAS_PAINT_TEXTURE", "PAINT_PATTERN", "MIRRORU_PATTERN", "EFFECT_PATH_AA"]),
    (Shader::PATH_PATTERN_MIRROR_V, &["HAS_UV0", "HAS_RECT", "HAS_TILE", "HAS_PAINT_TEXTURE", "PAINT_PATTERN", "MIRRORV_PATTERN", "EFFECT_PATH"]),
    (Shader::PATH_AA_PATTERN_MIRROR_V, &["HAS_UV0", "HAS_COVERAGE", "HAS_RECT", "HAS_TILE", "HAS_PAINT_TEXTURE", "PAINT_PATTERN", "MIRRORV_PATTERN", "EFFECT_PATH_AA"]),
    (Shader::PATH_PATTERN_MIRROR, &["HAS_UV0", "HAS_RECT", "HAS_TILE", "HAS_PAINT_TEXTURE", "PAINT_PATTERN", "MIRROR_PATTERN", "EFFECT_PATH"]),
    (Shader::PATH_AA_PATTERN_MIRROR, &["HAS_UV0", "HAS_COVERAGE", "HAS_RECT", "HAS_TILE", "HAS_PAINT_TEXTURE", "PAINT_PATTERN", "MIRROR_PATTERN", "EFFECT_PATH_AA"]),
    (Shader::PATH_LINEAR, &["HAS_UV0", "HAS_PAINT_TEXTURE", "PAINT_LINEAR", "EFFECT_PATH"]),
    (Shader::PATH_AA_LINEAR, &["HAS_UV0", "HAS_COVERAGE", "HAS_PAINT_TEXTURE", "PAINT_LINEAR", "EFFECT_PATH_AA"]),
    (Shader::PATH_RADIAL, &["HAS_UV0", "HAS_PAINT_TEXTURE", "PAINT_RADIAL", "EFFECT_PATH"]),
    (Shader::PATH_AA_RADIAL, &["HAS_UV0", "HAS_COVERAGE", "HAS_PAINT_TEXTURE", "PAINT_RADIAL", "EFFECT_PATH_AA"]),
    (Shader::SDF_SOLID, &["HAS_COLOR", "HAS_UV1", "HAS_ST1", "HAS_PAINT_TEXTURE", "PAINT_SOLID", "EFFECT_SDF"]),
    (Shader::SDF_LCD_SOLID, &["HAS_COLOR", "HAS_UV1", "HAS_ST1", "HAS_PAINT_TEXTURE", "PAINT_SOLID", "EFFECT_SDF_LCD"]),
    (Shader::OPACITY_SOLID, &["HAS_COLOR", "HAS_UV1", "HAS_IMAGE_TEXTURE", "PAINT_SOLID", "EFFECT_OPACITY"]),
    (Shader::OPACITY_LINEAR, &["HAS_UV0", "HAS_UV1", "HAS_PAINT_TEXTURE", "HAS_IMAGE_TEXTURE", "PAINT_LINEAR", "EFFECT_OPACITY"]),
    (Shader::OPACITY_RADIAL, &["HAS_UV0", "HAS_UV1", "HAS_PAINT_TEXTURE", "HAS_IMAGE_TEXTURE", "PAINT_RADIAL", "EFFECT_OPACITY"]),
    (Shader::OPACITY_PATTERN, &["HAS_UV0", "HAS_UV1", "HAS_PAINT_TEXTURE", "HAS_IMAGE_TEXTURE", "PAINT_PATTERN_PLAIN", "EFFECT_OPACITY"]),
    (Shader::OPACITY_PATTERN_CLAMP, &["HAS_UV0", "HAS_UV1", "HAS_RECT", "HAS_PAINT_TEXTURE", "HAS_IMAGE_TEXTURE", "CLAMP_PATTERN", "EFFECT_OPACITY"]),
    (Shader::OPACITY_PATTERN_REPEAT, &["HAS_UV0", "HAS_UV1", "HAS_RECT", "HAS_TILE", "HAS_PAINT_TEXTURE", "HAS_IMAGE_TEXTURE", "REPEAT_PATTERN", "EFFECT_OPACITY"]),
    (Shader::OPACITY_PATTERN_MIRROR_U, &["HAS_UV0", "HAS_UV1", "HAS_RECT", "HAS_TILE", "HAS_PAINT_TEXTURE", "HAS_IMAGE_TEXTURE", "MIRRORU_PATTERN", "EFFECT_OPACITY"]),
    (Shader::OPACITY_PATTERN_MIRROR_V, &["HAS_UV0", "HAS_UV1", "HAS_RECT", "HAS_TILE", "HAS_PAINT_TEXTURE", "HAS_IMAGE_TEXTURE", "MIRRORV_PATTERN", "EFFECT_OPACITY"]),
    (Shader::OPACITY_PATTERN_MIRROR, &["HAS_UV0", "HAS_UV1", "HAS_RECT", "HAS_TILE", "HAS_PAINT_TEXTURE", "HAS_IMAGE_TEXTURE", "MIRROR_PATTERN", "EFFECT_OPACITY"]),
    (Shader::DOWNSAMPLE, &["HAS_UV0", "HAS_UV1", "DOWNSAMPLE", "HAS_PAINT_TEXTURE", "EFFECT_DOWNSAMPLE"]),
    (Shader::UPSAMPLE, &["HAS_COLOR", "HAS_UV0", "HAS_UV1", "HAS_PAINT_TEXTURE", "HAS_IMAGE_TEXTURE", "EFFECT_UPSAMPLE"]),
    (Shader::SHADOW, &["HAS_COLOR", "HAS_UV1", "HAS_RECT", "HAS_IMAGE_TEXTURE", "HAS_SHADOW_TEXTURE", "HAS_CBUFFER1_PS", "PAINT_SOLID", "EFFECT_SHADOW"]),
    (Shader::BLUR, &["HAS_COLOR", "HAS_UV1", "HAS_IMAGE_TEXTURE", "HAS_SHADOW_TEXTURE", "HAS_CBUFFER1_PS", "PAINT_SOLID", "EFFECT_BLUR"]),
];

#[test]
fn every_variant_has_its_defines() {
    for (shader, expected) in EXPECTED.iter() {
        assert!(shader_has_variant(shader.0), "{shader:?}");
        let defines = defines_for_shader(shader.0);
        for name in ALL_DEFINES.iter() {
            assert_eq!(defines.contains(name), expected.contains(name), "{shader:?} {name}");
        }
    }
}

#[test]
fn only_the_listed_shaders_have_a_variant() {
    for id in 0..=255u8 {
        let listed = EXPECTED.iter().any(|(s, _)| s.0 == id);
        assert_eq!(shader_has_variant(id), listed, "{id}");
    }
}

#[test]
fn shader_ids_decode_to_effect_and_paint() {
    assert_eq!(effect_of(Shader::RGBA.0), Some(Effect::Rgba));
    assert_eq!(effect_of(Shader::MASK.0), Some(Effect::Mask));
    assert_eq!(effect_of(Shader::CLEAR.0), Some(Effect::Clear));
    assert_eq!(effect_of(Shader::PATH_SOLID.0), Some(Effect::Path));
    assert_eq!(effect_of(Shader::PATH_AA_PATTERN_MIRROR.0), Some(Effect::PathAa));
    assert_eq!(effect_of(Shader::SDF_SOLID.0), Some(Effect::Sdf));
    assert_eq!(effect_of(Shader::SDF_LCD_PATTERN_MIRROR.0), Some(Effect::SdfLcd));
    assert_eq!(effect_of(Shader::OPACITY_SOLID.0), Some(Effect::Opacity));
    assert_eq!(effect_of(Shader::UPSAMPLE.0), Some(Effect::Upsample));
    assert_eq!(effect_of(Shader::DOWNSAMPLE.0), Some(Effect::Downsample));
    assert_eq!(effect_of(Shader::SHADOW.0), Some(Effect::Shadow));
    assert_eq!(effect_of(Shader::BLUR.0), Some(Effect::Blur));
    assert_eq!(effect_of(Shader::CUSTOM_EFFECT.0), Some(Effect::Custom));
    assert_eq!(effect_of(SHADER_COUNT), None);

    assert_eq!(paint_of(Shader::RGBA.0), None);
    assert_eq!(paint_of(Shader::PATH_SOLID.0), Some(Paint::Solid));
    assert_eq!(paint_of(Shader::PATH_AA_LINEAR.0), Some(Paint::Linear));
    assert_eq!(paint_of(Shader::SDF_RADIAL.0), Some(Paint::Radial));
    assert_eq!(paint_of(Shader::SDF_LCD_PATTERN.0), Some(Paint::Pattern(PatternWrap::Plain)));
    assert_eq!(paint_of(Shader::OPACITY_PATTERN_CLAMP.0), Some(Paint::Pattern(PatternWrap::Clamp)));
    assert_eq!(paint_of(Shader::PATH_PATTERN_REPEAT.0), Some(Paint::Pattern(PatternWrap::Repeat)));
    assert_eq!(
        paint_of(Shader::PATH_PATTERN_MIRROR_U.0),
        Some(Paint::Pattern(PatternWrap::MirrorU))
    );
    assert_eq!(
        paint_of(Shader::PATH_PATTERN_MIRROR_V.0),
        Some(Paint::Pattern(PatternWrap::MirrorV))
    );
    assert_eq!(
        paint_of(Shader::PATH_PATTERN_MIRROR.0),
        Some(Paint::Pattern(PatternWrap::Mirror))
    );
}

#[test]
fn texture_slots_follow_the_defines() {
    for (shader, expected) in EXPECTED.iter() {
        assert_eq!(shader_uses_paint_texture(shader.0), expected.contains(&"HAS_PAINT_TEXTURE"));
        assert_eq!(shader_uses_image_texture(shader.0), expected.contains(&"HAS_IMAGE_TEXTURE"));
        assert_eq!(shader_uses_shadow_texture(shader.0), expected.contains(&"HAS_SHADOW_TEXTURE"));
    }
}

#[test]
fn formats_agree_with_the_engine_tables() {
    for id in 0..SHADER_COUNT {
        let format = format_for_shader(id);
        assert_eq!(format, FORMAT_FOR_VERTEX[VERTEX_FOR_SHADER[id as usize] as usize]);
    }
    for format in 0..16u8 {
        assert_eq!(stride_for_format(format), u64::from(SIZE_FOR_FORMAT[format as usize]));
        let attrs = attributes_for_format(format);
        let mut offset: u64 = 0;
        let mut n: usize = 0;
        for attr in 0..8u8 {
            if ATTRIBUTES_FOR_FORMAT[format as usize] & (1 << attr) != 0 {
                let ty = TYPE_FOR_ATTR[attr as usize];
                assert_eq!(attrs[n].shader_location, u32::from(attr));
                assert_eq!(attrs[n].offset, offset);
                offset += u64::from(SIZE_FOR_TYPE[ty as usize]);
                n += 1;
            }
        }
        assert_eq!(attrs.len(), n);
        assert_eq!(offset, stride_for_format(format));
    }
}

#[test]
fn pos_color_layout() {
    let attrs = attributes_for_format(1);
    assert_eq!(attrs.len(), 2);
    assert_eq!(attrs[0].shader_location, 0);
    assert_eq!(attrs[0].offset, 0);
    assert_eq!(attrs[0].format, VertexFormat::Float32x2);
    assert_eq!(attrs[1].shader_location, 1);
    assert_eq!(attrs[1].offset, 8);
    assert_eq!(attrs[1].format, VertexFormat::Unorm8x4);
    assert_eq!(stride_for_format(1), 12);
}

#[test]
fn pos_tex0_rect_tile_layout() {
    let attrs = attributes_for_format(4);
    assert_eq!(attrs.len(), 4);
    assert_eq!(attrs[0].shader_location, 0);
    assert_eq!(attrs[1].shader_location, 2);
    assert_eq!(attrs[2].shader_location, 5);
    assert_eq!(attrs[3].shader_location, 6);
    assert_eq!(stride_for_format(4), 40);
}

#[test]
fn a_define_set_selects_one_shader() {
    let template = "#ifdef EFFECT_RGBA\n0\n#endif\n#ifdef EFFECT_MASK\n1\n#endif\n\
#ifdef EFFECT_CLEAR\n2\n#endif\n#ifdef EFFECT_PATH\n3\n#endif\n#ifdef EFFECT_PATH_AA\n4\n#endif\n\
#ifdef EFFECT_SDF\n5\n#endif\n#ifdef EFFECT_SDF_LCD\n6\n#endif\n#ifdef EFFECT_OPACITY\n7\n#endif\n\
#ifdef EFFECT_UPSAMPLE\n8\n#endif\n#ifdef EFFECT_DOWNSAMPLE\n9\n#endif\n\
#ifdef EFFECT_SHADOW\n10\n#endif\n#ifdef EFFECT_BLUR\n11\n#endif\n";
    let paints = [
        "PAINT_SOLID", "PAINT_LINEAR", "PAINT_RADIAL", "PAINT_PATTERN_PLAIN", "CLAMP_PATTERN",
        "REPEAT_PATTERN", "MIRRORU_PATTERN", "MIRRORV_PATTERN", "MIRROR_PATTERN",
    ];
    let mut seen = Vec::new();
    for shader in (0..=u8::MAX).filter(|s| shader_has_variant(*s)) {
        let defines = defines_for_shader(shader);
        let effects = preprocess(template, &defines);
        assert_eq!(effects.lines().count(), 1, "shader {shader}");
        let paint: Vec<bool> = paints.iter().map(|p| defines.contains(p)).collect();
        let pair = (effects, paint);
        assert!(!seen.contains(&pair), "shader {shader}");
        seen.push(pair);
    }
}
