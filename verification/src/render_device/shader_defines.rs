//! Maps a shader id to the WGSL preprocessor defines that select the matching
//! shader in the template.

use vstd::prelude::*;

use crate::render_device::shader_preproc::{has_prefix, DefineSet};
use crate::render_device::types::{
    attribute_bits, effect_of, effect_spec, format_has, format_of, lemma_attribute_bits, paint_of,
    paint_spec, Effect, Paint, PatternWrap, SHADER_COUNT,
};

verus! {

/// Whether the template has a variant for `shader`: of the two text families
/// only the solid paint, and no user pixel shaders.
pub open spec fn has_variant(shader: u8) -> bool {
    match effect_spec(shader) {
        None | Some(Effect::Custom) => false,
        Some(Effect::Sdf) | Some(Effect::SdfLcd) => paint_spec(shader) == Some(Paint::Solid),
        Some(_) => true,
    }
}

/// The effect define of an effect.
pub open spec fn effect_name(effect: Effect) -> Seq<char> {
    match effect {
        Effect::Rgba => "EFFECT_RGBA"@,
        Effect::Mask => "EFFECT_MASK"@,
        Effect::Clear => "EFFECT_CLEAR"@,
        Effect::Path => "EFFECT_PATH"@,
        Effect::PathAa => "EFFECT_PATH_AA"@,
        Effect::Sdf => "EFFECT_SDF"@,
        Effect::SdfLcd => "EFFECT_SDF_LCD"@,
        Effect::Opacity => "EFFECT_OPACITY"@,
        Effect::Upsample => "EFFECT_UPSAMPLE"@,
        Effect::Downsample => "EFFECT_DOWNSAMPLE"@,
        Effect::Shadow => "EFFECT_SHADOW"@,
        Effect::Blur => "EFFECT_BLUR"@,
        Effect::Custom => ""@,
    }
}

/// The define of a pattern's wrap mode.
pub open spec fn wrap_name(wrap: PatternWrap) -> Seq<char> {
    match wrap {
        PatternWrap::Plain => "PAINT_PATTERN_PLAIN"@,
        PatternWrap::Clamp => "CLAMP_PATTERN"@,
        PatternWrap::Repeat => "REPEAT_PATTERN"@,
        PatternWrap::MirrorU => "MIRRORU_PATTERN"@,
        PatternWrap::MirrorV => "MIRRORV_PATTERN"@,
        PatternWrap::Mirror => "MIRROR_PATTERN"@,
    }
}

/// The vertex carries a colour.
pub open spec fn has_color(shader: u8) -> bool {
    ||| paint_spec(shader) == Some(Paint::Solid)
    ||| effect_spec(shader) == Some(Effect::Upsample)
    ||| has_shadow_texture(shader)
}

/// The vertex carries paint coordinates.
pub open spec fn has_uv0(shader: u8) -> bool {
    ||| paint_spec(shader) is Some && paint_spec(shader) != Some(Paint::Solid)
    ||| effect_spec(shader) == Some(Effect::Upsample)
    ||| effect_spec(shader) == Some(Effect::Downsample)
}

/// The vertex carries image coordinates.
pub open spec fn has_uv1(shader: u8) -> bool {
    ||| is_text(shader)
    ||| has_image_texture(shader)
    ||| effect_spec(shader) == Some(Effect::Downsample)
}

/// Signed-distance-field text.
pub open spec fn is_text(shader: u8) -> bool {
    effect_spec(shader) == Some(Effect::Sdf) || effect_spec(shader) == Some(Effect::SdfLcd)
}

/// The vertex carries edge coverage.
pub open spec fn has_coverage(shader: u8) -> bool {
    effect_spec(shader) == Some(Effect::PathAa)
}

/// The vertex carries a clamp rectangle.
pub open spec fn has_rect(shader: u8) -> bool {
    ||| paint_spec(shader) matches Some(Paint::Pattern(w)) && w != PatternWrap::Plain
    ||| effect_spec(shader) == Some(Effect::Shadow)
}

/// The vertex carries a tile rectangle.
pub open spec fn has_tile(shader: u8) -> bool {
    paint_spec(shader) matches Some(Paint::Pattern(w)) && w != PatternWrap::Plain && w
        != PatternWrap::Clamp
}

/// The shader samples a pattern, a gradient ramp or a glyph atlas.
pub open spec fn has_paint_texture(shader: u8) -> bool {
    has_uv0(shader) || is_text(shader)
}

/// The shader samples a rendered layer.
pub open spec fn has_image_texture(shader: u8) -> bool {
    ||| effect_spec(shader) == Some(Effect::Opacity)
    ||| effect_spec(shader) == Some(Effect::Upsample)
    ||| has_shadow_texture(shader)
}

/// The shader samples a blurred layer too, and reads the second pixel-shader
/// constant buffer.
pub open spec fn has_shadow_texture(shader: u8) -> bool {
    effect_spec(shader) == Some(Effect::Shadow) || effect_spec(shader) == Some(Effect::Blur)
}

/// Whether `name` is defined for `shader`.
pub open spec fn defined(shader: u8, name: Seq<char>) -> bool {
    ||| effect_spec(shader) matches Some(e) && name == effect_name(e)
    ||| has_color(shader) && name == "HAS_COLOR"@
    ||| has_uv0(shader) && name == "HAS_UV0"@
    ||| has_uv1(shader) && name == "HAS_UV1"@
    ||| is_text(shader) && name == "HAS_ST1"@
    ||| has_coverage(shader) && name == "HAS_COVERAGE"@
    ||| has_rect(shader) && name == "HAS_RECT"@
    ||| has_tile(shader) && name == "HAS_TILE"@
    ||| has_paint_texture(shader) && name == "HAS_PAINT_TEXTURE"@
    ||| has_image_texture(shader) && name == "HAS_IMAGE_TEXTURE"@
    ||| has_shadow_texture(shader) && name == "HAS_SHADOW_TEXTURE"@
    ||| has_shadow_texture(shader) && name == "HAS_CBUFFER1_PS"@
    ||| effect_spec(shader) == Some(Effect::Downsample) && name == "DOWNSAMPLE"@
    ||| (paint_spec(shader) == Some(Paint::Solid) || has_shadow_texture(shader)) && name
        == "PAINT_SOLID"@
    ||| paint_spec(shader) == Some(Paint::Linear) && name == "PAINT_LINEAR"@
    ||| paint_spec(shader) == Some(Paint::Radial) && name == "PAINT_RADIAL"@
    ||| paint_spec(shader) matches Some(Paint::Pattern(w)) && name == wrap_name(w)
    ||| paint_spec(shader) matches Some(Paint::Pattern(_)) && effect_spec(shader) != Some(
        Effect::Opacity,
    ) && name == "PAINT_PATTERN"@
}

/// The names that [`defined`] gives `shader`.
pub open spec fn defines_of(shader: u8) -> Set<Seq<char>> {
    Set::new(|name: Seq<char>| defined(shader, name))
}

/// The defines that the paint of `shader` asks for.
fn insert_paint(d: &mut DefineSet, shader: u8, effect: Effect)
    requires
        effect_spec(shader) == Some(effect),
    ensures
        final(d)@ == Set::new(
            |name: Seq<char>|
                old(d)@.contains(name) || {
                    ||| (paint_spec(shader) == Some(Paint::Solid) || has_shadow_texture(shader))
                        && name == "PAINT_SOLID"@
                    ||| paint_spec(shader) == Some(Paint::Linear) && name == "PAINT_LINEAR"@
                    ||| paint_spec(shader) == Some(Paint::Radial) && name == "PAINT_RADIAL"@
                    ||| paint_spec(shader) matches Some(Paint::Pattern(w)) && name == wrap_name(w)
                    ||| paint_spec(shader) matches Some(Paint::Pattern(_)) && effect
                        != Effect::Opacity && name == "PAINT_PATTERN"@
                },
        ),
{
    let paint = paint_of(shader);
    match paint {
        None => {
            if effect == Effect::Shadow || effect == Effect::Blur {
                d.insert("PAINT_SOLID");
            }
        },
        Some(Paint::Solid) => {
            d.insert("PAINT_SOLID");
        },
        Some(Paint::Linear) => {
            d.insert("PAINT_LINEAR");
        },
        Some(Paint::Radial) => {
            d.insert("PAINT_RADIAL");
        },
        Some(Paint::Pattern(wrap)) => {
            // The opacity family gates on the wrap define alone.
            if effect != Effect::Opacity {
                d.insert("PAINT_PATTERN");
            }
            match wrap {
                PatternWrap::Plain => {
                    d.insert("PAINT_PATTERN_PLAIN");
                },
                PatternWrap::Clamp => {
                    d.insert("CLAMP_PATTERN");
                },
                PatternWrap::Repeat => {
                    d.insert("REPEAT_PATTERN");
                },
                PatternWrap::MirrorU => {
                    d.insert("MIRRORU_PATTERN");
                },
                PatternWrap::MirrorV => {
                    d.insert("MIRRORV_PATTERN");
                },
                PatternWrap::Mirror => {
                    d.insert("MIRROR_PATTERN");
                },
            }
        },
    }
}

/// The effect define of an effect.
fn effect_define(effect: Effect) -> (name: &'static str)
    ensures
        name@ == effect_name(effect),
{
    match effect {
        Effect::Rgba => "EFFECT_RGBA",
        Effect::Mask => "EFFECT_MASK",
        Effect::Clear => "EFFECT_CLEAR",
        Effect::Path => "EFFECT_PATH",
        Effect::PathAa => "EFFECT_PATH_AA",
        Effect::Sdf => "EFFECT_SDF",
        Effect::SdfLcd => "EFFECT_SDF_LCD",
        Effect::Opacity => "EFFECT_OPACITY",
        Effect::Upsample => "EFFECT_UPSAMPLE",
        Effect::Downsample => "EFFECT_DOWNSAMPLE",
        Effect::Shadow => "EFFECT_SHADOW",
        Effect::Blur => "EFFECT_BLUR",
        Effect::Custom => "",
    }
}

/// Whether the template has a variant for `shader`.
pub fn shader_has_variant(shader: u8) -> (r: bool)
    ensures
        r == has_variant(shader),
{
    match effect_of(shader) {
        None => false,
        Some(effect) => match effect {
            Effect::Custom => false,
            Effect::Sdf | Effect::SdfLcd => matches!(paint_of(shader), Some(Paint::Solid)),
            _ => true,
        },
    }
}

/// The WGSL define set for `shader`, which must have a variant in the
/// template.
pub fn defines_for_shader(shader: u8) -> (d: DefineSet)
    requires
        has_variant(shader),
    ensures
        d@ == defines_of(shader),
{
    let mut d = DefineSet::new();
    let effect = match effect_of(shader) {
        Some(e) => e,
        None => Effect::Custom,
    };
    let paint = paint_of(shader);
    let text = effect == Effect::Sdf || effect == Effect::SdfLcd;
    let shadow = effect == Effect::Shadow || effect == Effect::Blur;
    let image = effect == Effect::Opacity || effect == Effect::Upsample || shadow;
    let resample = effect == Effect::Upsample || effect == Effect::Downsample;
    let solid = matches!(paint, Some(Paint::Solid));
    let uv0 = (paint.is_some() && !solid) || resample;

    d.insert(effect_define(effect));
    if solid || effect == Effect::Upsample || shadow {
        d.insert("HAS_COLOR");
    }
    if uv0 {
        d.insert("HAS_UV0");
    }
    if text || image || effect == Effect::Downsample {
        d.insert("HAS_UV1");
    }
    if text {
        d.insert("HAS_ST1");
    }
    if effect == Effect::PathAa {
        d.insert("HAS_COVERAGE");
    }
    let (rect, tile) = match paint {
        Some(Paint::Pattern(PatternWrap::Plain)) => (false, false),
        Some(Paint::Pattern(PatternWrap::Clamp)) => (true, false),
        Some(Paint::Pattern(_)) => (true, true),
        _ => (effect == Effect::Shadow, false),
    };
    if rect {
        d.insert("HAS_RECT");
    }
    if tile {
        d.insert("HAS_TILE");
    }
    // The paint slot carries a pattern, a gradient ramp or the glyph atlas.
    if uv0 || text {
        d.insert("HAS_PAINT_TEXTURE");
    }
    if image {
        d.insert("HAS_IMAGE_TEXTURE");
    }
    if shadow {
        d.insert("HAS_SHADOW_TEXTURE");
        d.insert("HAS_CBUFFER1_PS");
    }
    if effect == Effect::Downsample {
        d.insert("DOWNSAMPLE");
    }
    insert_paint(&mut d, shader, effect);
    assert(d@ =~= defines_of(shader));
    d
}

/// Input defines start with `H`; no other define does.
proof fn lemma_inputs_start_apart(effect: Effect, wrap: PatternWrap)
    ensures
        effect_name(effect).len() == 0 || effect_name(effect)[0] != 'H',
        wrap_name(wrap)[0] != 'H',
        "DOWNSAMPLE"@[0] != 'H',
        "PAINT_SOLID"@[0] != 'H',
        "PAINT_LINEAR"@[0] != 'H',
        "PAINT_RADIAL"@[0] != 'H',
        "PAINT_PATTERN"@[0] != 'H',
{
    reveal_strlit("DOWNSAMPLE");
    reveal_strlit("PAINT_SOLID");
    reveal_strlit("PAINT_LINEAR");
    reveal_strlit("PAINT_RADIAL");
    reveal_strlit("PAINT_PATTERN");
    reveal_strlit("PAINT_PATTERN_PLAIN");
    reveal_strlit("CLAMP_PATTERN");
    reveal_strlit("REPEAT_PATTERN");
    reveal_strlit("MIRRORU_PATTERN");
    reveal_strlit("MIRRORV_PATTERN");
    reveal_strlit("MIRROR_PATTERN");
    reveal_strlit("EFFECT_RGBA");
    reveal_strlit("EFFECT_MASK");
    reveal_strlit("EFFECT_CLEAR");
    reveal_strlit("EFFECT_PATH");
    reveal_strlit("EFFECT_PATH_AA");
    reveal_strlit("EFFECT_SDF");
    reveal_strlit("EFFECT_SDF_LCD");
    reveal_strlit("EFFECT_OPACITY");
    reveal_strlit("EFFECT_UPSAMPLE");
    reveal_strlit("EFFECT_DOWNSAMPLE");
    reveal_strlit("EFFECT_SHADOW");
    reveal_strlit("EFFECT_BLUR");
    reveal_strlit("");
}

/// The input defines are pairwise different.
proof fn lemma_inputs_apart()
    ensures
        "HAS_COLOR"@ != "HAS_UV0"@,
        "HAS_COLOR"@ != "HAS_UV1"@,
        "HAS_COLOR"@ != "HAS_ST1"@,
        "HAS_COLOR"@ != "HAS_COVERAGE"@,
        "HAS_COLOR"@ != "HAS_RECT"@,
        "HAS_COLOR"@ != "HAS_TILE"@,
        "HAS_COLOR"@ != "HAS_PAINT_TEXTURE"@,
        "HAS_COLOR"@ != "HAS_IMAGE_TEXTURE"@,
        "HAS_COLOR"@ != "HAS_SHADOW_TEXTURE"@,
        "HAS_COLOR"@ != "HAS_CBUFFER1_PS"@,
        "HAS_UV0"@ != "HAS_UV1"@,
        "HAS_UV0"@ != "HAS_ST1"@,
        "HAS_UV0"@ != "HAS_COVERAGE"@,
        "HAS_UV0"@ != "HAS_RECT"@,
        "HAS_UV0"@ != "HAS_TILE"@,
        "HAS_UV0"@ != "HAS_PAINT_TEXTURE"@,
        "HAS_UV0"@ != "HAS_IMAGE_TEXTURE"@,
        "HAS_UV0"@ != "HAS_SHADOW_TEXTURE"@,
        "HAS_UV0"@ != "HAS_CBUFFER1_PS"@,
        "HAS_UV1"@ != "HAS_ST1"@,
        "HAS_UV1"@ != "HAS_COVERAGE"@,
        "HAS_UV1"@ != "HAS_RECT"@,
        "HAS_UV1"@ != "HAS_TILE"@,
        "HAS_UV1"@ != "HAS_PAINT_TEXTURE"@,
        "HAS_UV1"@ != "HAS_IMAGE_TEXTURE"@,
        "HAS_UV1"@ != "HAS_SHADOW_TEXTURE"@,
        "HAS_UV1"@ != "HAS_CBUFFER1_PS"@,
        "HAS_ST1"@ != "HAS_COVERAGE"@,
        "HAS_ST1"@ != "HAS_RECT"@,
        "HAS_ST1"@ != "HAS_TILE"@,
        "HAS_ST1"@ != "HAS_PAINT_TEXTURE"@,
        "HAS_ST1"@ != "HAS_IMAGE_TEXTURE"@,
        "HAS_ST1"@ != "HAS_SHADOW_TEXTURE"@,
        "HAS_ST1"@ != "HAS_CBUFFER1_PS"@,
        "HAS_COVERAGE"@ != "HAS_RECT"@,
        "HAS_COVERAGE"@ != "HAS_TILE"@,
        "HAS_COVERAGE"@ != "HAS_PAINT_TEXTURE"@,
        "HAS_COVERAGE"@ != "HAS_IMAGE_TEXTURE"@,
        "HAS_COVERAGE"@ != "HAS_SHADOW_TEXTURE"@,
        "HAS_COVERAGE"@ != "HAS_CBUFFER1_PS"@,
        "HAS_RECT"@ != "HAS_TILE"@,
        "HAS_RECT"@ != "HAS_PAINT_TEXTURE"@,
        "HAS_RECT"@ != "HAS_IMAGE_TEXTURE"@,
        "HAS_RECT"@ != "HAS_SHADOW_TEXTURE"@,
        "HAS_RECT"@ != "HAS_CBUFFER1_PS"@,
        "HAS_TILE"@ != "HAS_PAINT_TEXTURE"@,
        "HAS_TILE"@ != "HAS_IMAGE_TEXTURE"@,
        "HAS_TILE"@ != "HAS_SHADOW_TEXTURE"@,
        "HAS_TILE"@ != "HAS_CBUFFER1_PS"@,
        "HAS_PAINT_TEXTURE"@ != "HAS_IMAGE_TEXTURE"@,
        "HAS_PAINT_TEXTURE"@ != "HAS_SHADOW_TEXTURE"@,
        "HAS_PAINT_TEXTURE"@ != "HAS_CBUFFER1_PS"@,
        "HAS_IMAGE_TEXTURE"@ != "HAS_SHADOW_TEXTURE"@,
        "HAS_IMAGE_TEXTURE"@ != "HAS_CBUFFER1_PS"@,
        "HAS_SHADOW_TEXTURE"@ != "HAS_CBUFFER1_PS"@,
        "HAS_COLOR"@.len() > 0 && "HAS_COLOR"@[0] == 'H',
        "HAS_UV0"@.len() > 0 && "HAS_UV0"@[0] == 'H',
        "HAS_UV1"@.len() > 0 && "HAS_UV1"@[0] == 'H',
        "HAS_ST1"@.len() > 0 && "HAS_ST1"@[0] == 'H',
        "HAS_COVERAGE"@.len() > 0 && "HAS_COVERAGE"@[0] == 'H',
        "HAS_RECT"@.len() > 0 && "HAS_RECT"@[0] == 'H',
        "HAS_TILE"@.len() > 0 && "HAS_TILE"@[0] == 'H',
        "HAS_PAINT_TEXTURE"@.len() > 0 && "HAS_PAINT_TEXTURE"@[0] == 'H',
        "HAS_IMAGE_TEXTURE"@.len() > 0 && "HAS_IMAGE_TEXTURE"@[0] == 'H',
        "HAS_SHADOW_TEXTURE"@.len() > 0 && "HAS_SHADOW_TEXTURE"@[0] == 'H',
        "HAS_CBUFFER1_PS"@.len() > 0 && "HAS_CBUFFER1_PS"@[0] == 'H',
{
    reveal_strlit("HAS_COLOR");
    reveal_strlit("HAS_UV0");
    reveal_strlit("HAS_UV1");
    reveal_strlit("HAS_ST1");
    reveal_strlit("HAS_COVERAGE");
    reveal_strlit("HAS_RECT");
    reveal_strlit("HAS_TILE");
    reveal_strlit("HAS_PAINT_TEXTURE");
    reveal_strlit("HAS_IMAGE_TEXTURE");
    reveal_strlit("HAS_SHADOW_TEXTURE");
    reveal_strlit("HAS_CBUFFER1_PS");
    assert("HAS_COLOR"@.len() != "HAS_UV0"@.len());
    assert("HAS_COLOR"@.len() != "HAS_UV1"@.len());
    assert("HAS_COLOR"@.len() != "HAS_ST1"@.len());
    assert("HAS_COLOR"@.len() != "HAS_COVERAGE"@.len());
    assert("HAS_COLOR"@.len() != "HAS_RECT"@.len());
    assert("HAS_COLOR"@.len() != "HAS_TILE"@.len());
    assert("HAS_COLOR"@.len() != "HAS_PAINT_TEXTURE"@.len());
    assert("HAS_COLOR"@.len() != "HAS_IMAGE_TEXTURE"@.len());
    assert("HAS_COLOR"@.len() != "HAS_SHADOW_TEXTURE"@.len());
    assert("HAS_COLOR"@.len() != "HAS_CBUFFER1_PS"@.len());
    assert("HAS_UV0"@[6] != "HAS_UV1"@[6]);
    assert("HAS_UV0"@[4] != "HAS_ST1"@[4]);
    assert("HAS_UV0"@.len() != "HAS_COVERAGE"@.len());
    assert("HAS_UV0"@.len() != "HAS_RECT"@.len());
    assert("HAS_UV0"@.len() != "HAS_TILE"@.len());
    assert("HAS_UV0"@.len() != "HAS_PAINT_TEXTURE"@.len());
    assert("HAS_UV0"@.len() != "HAS_IMAGE_TEXTURE"@.len());
    assert("HAS_UV0"@.len() != "HAS_SHADOW_TEXTURE"@.len());
    assert("HAS_UV0"@.len() != "HAS_CBUFFER1_PS"@.len());
    assert("HAS_UV1"@[4] != "HAS_ST1"@[4]);
    assert("HAS_UV1"@.len() != "HAS_COVERAGE"@.len());
    assert("HAS_UV1"@.len() != "HAS_RECT"@.len());
    assert("HAS_UV1"@.len() != "HAS_TILE"@.len());
    assert("HAS_UV1"@.len() != "HAS_PAINT_TEXTURE"@.len());
    assert("HAS_UV1"@.len() != "HAS_IMAGE_TEXTURE"@.len());
    assert("HAS_UV1"@.len() != "HAS_SHADOW_TEXTURE"@.len());
    assert("HAS_UV1"@.len() != "HAS_CBUFFER1_PS"@.len());
    assert("HAS_ST1"@.len() != "HAS_COVERAGE"@.len());
    assert("HAS_ST1"@.len() != "HAS_RECT"@.len());
    assert("HAS_ST1"@.len() != "HAS_TILE"@.len());
    assert("HAS_ST1"@.len() != "HAS_PAINT_TEXTURE"@.len());
    assert("HAS_ST1"@.len() != "HAS_IMAGE_TEXTURE"@.len());
    assert("HAS_ST1"@.len() != "HAS_SHADOW_TEXTURE"@.len());
    assert("HAS_ST1"@.len() != "HAS_CBUFFER1_PS"@.len());
    assert("HAS_COVERAGE"@.len() != "HAS_RECT"@.len());
    assert("HAS_COVERAGE"@.len() != "HAS_TILE"@.len());
    assert("HAS_COVERAGE"@.len() != "HAS_PAINT_TEXTURE"@.len());
    assert("HAS_COVERAGE"@.len() != "HAS_IMAGE_TEXTURE"@.len());
    assert("HAS_COVERAGE"@.len() != "HAS_SHADOW_TEXTURE"@.len());
    assert("HAS_COVERAGE"@.len() != "HAS_CBUFFER1_PS"@.len());
    assert("HAS_RECT"@[4] != "HAS_TILE"@[4]);
    assert("HAS_RECT"@.len() != "HAS_PAINT_TEXTURE"@.len());
    assert("HAS_RECT"@.len() != "HAS_IMAGE_TEXTURE"@.len());
    assert("HAS_RECT"@.len() != "HAS_SHADOW_TEXTURE"@.len());
    assert("HAS_RECT"@.len() != "HAS_CBUFFER1_PS"@.len());
    assert("HAS_TILE"@.len() != "HAS_PAINT_TEXTURE"@.len());
    assert("HAS_TILE"@.len() != "HAS_IMAGE_TEXTURE"@.len());
    assert("HAS_TILE"@.len() != "HAS_SHADOW_TEXTURE"@.len());
    assert("HAS_TILE"@.len() != "HAS_CBUFFER1_PS"@.len());
    assert("HAS_PAINT_TEXTURE"@[4] != "HAS_IMAGE_TEXTURE"@[4]);
    assert("HAS_PAINT_TEXTURE"@.len() != "HAS_SHADOW_TEXTURE"@.len());
    assert("HAS_PAINT_TEXTURE"@.len() != "HAS_CBUFFER1_PS"@.len());
    assert("HAS_IMAGE_TEXTURE"@.len() != "HAS_SHADOW_TEXTURE"@.len());
    assert("HAS_IMAGE_TEXTURE"@.len() != "HAS_CBUFFER1_PS"@.len());
    assert("HAS_SHADOW_TEXTURE"@.len() != "HAS_CBUFFER1_PS"@.len());
}

/// An input define is set exactly when the shader has that input.
pub(crate) proof fn lemma_inputs_defined(shader: u8)
    requires
        has_variant(shader),
    ensures
        defines_of(shader).contains("HAS_COLOR"@) == has_color(shader),
        defines_of(shader).contains("HAS_UV0"@) == has_uv0(shader),
        defines_of(shader).contains("HAS_UV1"@) == has_uv1(shader),
        defines_of(shader).contains("HAS_ST1"@) == is_text(shader),
        defines_of(shader).contains("HAS_COVERAGE"@) == has_coverage(shader),
        defines_of(shader).contains("HAS_RECT"@) == has_rect(shader),
        defines_of(shader).contains("HAS_TILE"@) == has_tile(shader),
        defines_of(shader).contains("HAS_PAINT_TEXTURE"@) == has_paint_texture(shader),
        defines_of(shader).contains("HAS_IMAGE_TEXTURE"@) == has_image_texture(shader),
        defines_of(shader).contains("HAS_SHADOW_TEXTURE"@) == has_shadow_texture(shader),
        defines_of(shader).contains("HAS_CBUFFER1_PS"@) == has_shadow_texture(shader),
{
    let effect = effect_spec(shader)->0;
    let wrap = match paint_spec(shader) {
        Some(Paint::Pattern(w)) => w,
        _ => PatternWrap::Plain,
    };
    lemma_inputs_apart();
    lemma_inputs_start_apart(effect, wrap);
}

/// The inputs a shader variant declares are exactly the attributes of the
/// vertex format it is drawn with: colour, both texture coordinates, coverage,
/// rectangle and tile.
pub proof fn law_inputs_match_vertex_format(shader: u8)
    requires
        has_variant(shader),
    ensures
        shader < SHADER_COUNT,
        defines_of(shader).contains("HAS_COLOR"@) <==> format_has(format_of(shader), 1),
        defines_of(shader).contains("HAS_UV0"@) <==> format_has(format_of(shader), 2),
        defines_of(shader).contains("HAS_UV1"@) <==> format_has(format_of(shader), 3),
        defines_of(shader).contains("HAS_COVERAGE"@) <==> format_has(format_of(shader), 4),
        defines_of(shader).contains("HAS_RECT"@) <==> format_has(format_of(shader), 5),
        defines_of(shader).contains("HAS_TILE"@) <==> format_has(format_of(shader), 6),
{
    lemma_inputs_defined(shader);
    let format = format_of(shader);
    lemma_formats(shader);
    lemma_attribute_bits(format, 1);
    lemma_attribute_bits(format, 2);
    lemma_attribute_bits(format, 3);
    lemma_attribute_bits(format, 4);
    lemma_attribute_bits(format, 5);
    lemma_attribute_bits(format, 6);
}

/// A shader's inputs, written out per vertex format.
proof fn lemma_formats(shader: u8)
    requires
        has_variant(shader),
    ensures
        format_of(shader) < 16,
        attribute_bits(format_of(shader))[1] == has_color(shader),
        attribute_bits(format_of(shader))[2] == has_uv0(shader),
        attribute_bits(format_of(shader))[3] == has_uv1(shader),
        attribute_bits(format_of(shader))[4] == has_coverage(shader),
        attribute_bits(format_of(shader))[5] == has_rect(shader),
        attribute_bits(format_of(shader))[6] == has_tile(shader),
{
}

/// How effect defines begin.
pub open spec fn is_effect_name(name: Seq<char>) -> bool {
    has_prefix(name, "EFFECT_"@)
}

/// Effect defines begin alike and are told apart by their length and the letter
/// behind that beginning.
proof fn lemma_effect_names(effect: Effect)
    requires
        effect != Effect::Custom,
    ensures
        is_effect_name(effect_name(effect)),
        effect_name(effect)[0] == 'E',
        (effect_name(effect).len(), effect_name(effect)[7]) == match effect {
            Effect::Rgba => (11nat, 'R'),
            Effect::Mask => (11nat, 'M'),
            Effect::Clear => (12nat, 'C'),
            Effect::Path => (11nat, 'P'),
            Effect::PathAa => (14nat, 'P'),
            Effect::Sdf => (10nat, 'S'),
            Effect::SdfLcd => (14nat, 'S'),
            Effect::Opacity => (14nat, 'O'),
            Effect::Upsample => (15nat, 'U'),
            Effect::Downsample => (17nat, 'D'),
            Effect::Shadow => (13nat, 'S'),
            Effect::Blur => (11nat, 'B'),
            Effect::Custom => (0nat, 'X'),
        },
{
    reveal_strlit("EFFECT_");
    reveal_strlit("EFFECT_RGBA");
    reveal_strlit("EFFECT_MASK");
    reveal_strlit("EFFECT_CLEAR");
    reveal_strlit("EFFECT_PATH");
    reveal_strlit("EFFECT_PATH_AA");
    reveal_strlit("EFFECT_SDF");
    reveal_strlit("EFFECT_SDF_LCD");
    reveal_strlit("EFFECT_OPACITY");
    reveal_strlit("EFFECT_UPSAMPLE");
    reveal_strlit("EFFECT_DOWNSAMPLE");
    reveal_strlit("EFFECT_SHADOW");
    reveal_strlit("EFFECT_BLUR");
    assert(effect_name(effect).take(7) =~= "EFFECT_"@);
}

/// The define that tells a paint from every other one.
pub open spec fn paint_name(paint: Paint) -> Seq<char> {
    match paint {
        Paint::Solid => "PAINT_SOLID"@,
        Paint::Linear => "PAINT_LINEAR"@,
        Paint::Radial => "PAINT_RADIAL"@,
        Paint::Pattern(wrap) => wrap_name(wrap),
    }
}

/// Paint defines are told apart by their length and two of their letters; none
/// begins as an input or effect define does.
proof fn lemma_paint_names(paint: Paint)
    ensures
        (paint_name(paint).len(), paint_name(paint)[0], paint_name(paint)[6]) == match paint {
            Paint::Solid => (11nat, 'P', 'S'),
            Paint::Linear => (12nat, 'P', 'L'),
            Paint::Radial => (12nat, 'P', 'R'),
            Paint::Pattern(PatternWrap::Plain) => (19nat, 'P', 'P'),
            Paint::Pattern(PatternWrap::Clamp) => (13nat, 'C', 'P'),
            Paint::Pattern(PatternWrap::Repeat) => (14nat, 'R', '_'),
            Paint::Pattern(PatternWrap::MirrorU) => (15nat, 'M', 'U'),
            Paint::Pattern(PatternWrap::MirrorV) => (15nat, 'M', 'V'),
            Paint::Pattern(PatternWrap::Mirror) => (14nat, 'M', '_'),
        },
        "PAINT_PATTERN"@.len() == 13 && "PAINT_PATTERN"@[0] == 'P',
        "DOWNSAMPLE"@.len() == 10 && "DOWNSAMPLE"@[0] == 'D',
{
    reveal_strlit("DOWNSAMPLE");
    reveal_strlit("PAINT_SOLID");
    reveal_strlit("PAINT_LINEAR");
    reveal_strlit("PAINT_RADIAL");
    reveal_strlit("PAINT_PATTERN");
    reveal_strlit("PAINT_PATTERN_PLAIN");
    reveal_strlit("CLAMP_PATTERN");
    reveal_strlit("REPEAT_PATTERN");
    reveal_strlit("MIRRORU_PATTERN");
    reveal_strlit("MIRRORV_PATTERN");
    reveal_strlit("MIRROR_PATTERN");
}

/// The define set of a shader holds exactly one effect define, that of its
/// effect.
pub proof fn law_one_effect_is_defined(shader: u8, name: Seq<char>)
    requires
        has_variant(shader),
    ensures
        ({
            let effect = effect_name(effect_spec(shader)->0);
            &&& defines_of(shader).contains(effect) && is_effect_name(effect)
            &&& defines_of(shader).contains(name) && is_effect_name(name) <==> name == effect
        }),
{
    let effect = effect_spec(shader)->0;
    lemma_effect_names(effect);
    lemma_inputs_apart();
    lemma_paint_names(Paint::Solid);
    lemma_paint_names(Paint::Linear);
    lemma_paint_names(Paint::Radial);
    if let Some(paint) = paint_spec(shader) {
        lemma_paint_names(paint);
    }
    reveal_strlit("EFFECT_");
    assert(defined(shader, effect_name(effect)));
    if is_effect_name(name) {
        assert(name.take(7)[0] == 'E');
    }
}

/// The paint of a shader is the only one whose define is in its set.
proof fn lemma_one_paint_is_defined(shader: u8, paint: Paint)
    requires
        has_variant(shader),
        paint_spec(shader) is Some,
    ensures
        defines_of(shader).contains(paint_name(paint)) <==> paint_spec(shader) == Some(paint),
{
    let effect = effect_spec(shader)->0;
    lemma_effect_names(effect);
    lemma_inputs_apart();
    lemma_paint_names(paint);
    lemma_paint_names(paint_spec(shader)->0);
    assert(defines_of(shader).contains(paint_name(paint)) == defined(shader, paint_name(paint)));
}

/// A define set selects one shader: two shaders that have variants have the
/// same set only if they are one.
pub proof fn law_define_set_selects_one_shader(a: u8, b: u8)
    requires
        has_variant(a),
        has_variant(b),
    ensures
        defines_of(a) == defines_of(b) <==> a == b,
{
    if defines_of(a) == defines_of(b) {
        let ea = effect_spec(a)->0;
        let eb = effect_spec(b)->0;
        law_one_effect_is_defined(a, effect_name(ea));
        law_one_effect_is_defined(b, effect_name(ea));
        lemma_effect_names(ea);
        lemma_effect_names(eb);
        assert(ea == eb);
        if paint_spec(a) is Some && paint_spec(b) is Some {
            lemma_one_paint_is_defined(a, paint_spec(a)->0);
            lemma_one_paint_is_defined(b, paint_spec(a)->0);
            assert(paint_spec(a) == paint_spec(b));
        }
    }
}

/// A painted shader is one of five families in one of nine paints: it reads a
/// paint texture unless it is solid and no text, a layer exactly in the last
/// family, coverage exactly in the second, and a clamp or tile rectangle by its
/// paint alone.
pub proof fn law_painted_shaders_read_what_they_paint_with(shader: u8, family: u8, paint: u8)
    requires
        family < 5,
        paint < 9,
        shader == 3 + 9 * family + paint,
    ensures
        has_paint_texture(shader) <==> paint != 0 || family == 2 || family == 3,
        has_image_texture(shader) <==> family == 4,
        !has_shadow_texture(shader),
        has_coverage(shader) <==> family == 1,
        has_color(shader) <==> paint == 0,
        has_uv0(shader) <==> paint != 0,
        has_uv1(shader) <==> family >= 2,
        is_text(shader) <==> family == 2 || family == 3,
        has_rect(shader) <==> paint >= 4,
        has_tile(shader) <==> paint >= 5,
        has_variant(shader) <==> paint == 0 || !(family == 2 || family == 3),
{
    assert((shader - 3) / 9 == family && (shader - 3) % 9 == paint) by (nonlinear_arith)
        requires
            shader == 3 + 9 * family + paint,
            0 <= paint < 9,
    ;
}

/// The other shaders: the first three read nothing, both samplings read a layer
/// or what is painted, and only shadow and blur read a blurred layer with the
/// second constant buffer. User pixel shaders and other bytes have no variant.
pub proof fn law_other_shaders_read_layers(shader: u8)
    requires
        shader < 3 || shader >= 48,
    ensures
        has_variant(shader) <==> shader < 3 || 48 <= shader < 52,
        has_shadow_texture(shader) <==> shader == 50 || shader == 51,
        has_image_texture(shader) <==> shader == 48 || shader == 50 || shader == 51,
        has_paint_texture(shader) <==> shader == 48 || shader == 49,
        has_uv1(shader) <==> 48 <= shader < 52,
        has_color(shader) <==> shader == 48 || shader == 50 || shader == 51,
        has_rect(shader) <==> shader == 50,
        !has_tile(shader) && !has_coverage(shader) && !is_text(shader),
{
}

/// A define is set exactly where the shader has what it stands for.
pub proof fn law_defines_tell_what_is_read(shader: u8)
    requires
        has_variant(shader),
    ensures
        defines_of(shader).contains("HAS_ST1"@) == is_text(shader),
        defines_of(shader).contains("HAS_PAINT_TEXTURE"@) == has_paint_texture(shader),
        defines_of(shader).contains("HAS_IMAGE_TEXTURE"@) == has_image_texture(shader),
        defines_of(shader).contains("HAS_SHADOW_TEXTURE"@) == has_shadow_texture(shader),
        defines_of(shader).contains("HAS_CBUFFER1_PS"@) == has_shadow_texture(shader),
        forall|paint: Paint|
            paint_spec(shader) is Some ==> (defines_of(shader).contains(
                #[trigger] paint_name(paint),
            ) <==> paint_spec(shader) == Some(paint)),
        defines_of(shader).contains("DOWNSAMPLE"@) <==> shader == 49,
        shader == 50 || shader == 51 ==> defines_of(shader).contains("PAINT_SOLID"@),
        paint_spec(shader) is Some ==> (defines_of(shader).contains("PAINT_PATTERN"@)
            <==> paint_spec(shader)->0 is Pattern && shader < 39),
{
    lemma_inputs_defined(shader);
    let effect = effect_spec(shader)->0;
    lemma_effect_names(effect);
    lemma_inputs_apart();
    lemma_paint_names(Paint::Solid);
    lemma_paint_names(Paint::Linear);
    lemma_paint_names(Paint::Radial);
    lemma_paint_names(Paint::Pattern(PatternWrap::Plain));
    lemma_paint_names(Paint::Pattern(PatternWrap::Clamp));
    if let Some(Paint::Pattern(wrap)) = paint_spec(shader) {
        lemma_paint_names(Paint::Pattern(wrap));
    }
    assert(defines_of(shader).contains("DOWNSAMPLE"@) == defined(shader, "DOWNSAMPLE"@));
    assert(defines_of(shader).contains("PAINT_SOLID"@) == defined(shader, "PAINT_SOLID"@));
    assert(defines_of(shader).contains("PAINT_PATTERN"@) == defined(shader, "PAINT_PATTERN"@));
    assert forall|paint: Paint| paint_spec(shader) is Some implies (defines_of(shader).contains(
        #[trigger] paint_name(paint),
    ) <==> paint_spec(shader) == Some(paint)) by {
        lemma_one_paint_is_defined(shader, paint);
    }
}

} // verus!
