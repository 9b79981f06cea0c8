//! Pipeline state keyed on shader, render state, vertex format and stencil
//! presence, and the cache that builds each pipeline once.

use vstd::prelude::*;

use crate::keyed::{Key, KeyedMap};
use crate::render_device::shader_defines::{defines_for_shader, defines_of, has_variant};
use crate::render_device::shader_preproc::{balanced, preprocess, stripped};
use crate::render_device::types::{
    blend_mode_raw, color_enable, format_for_shader, format_has, format_of, stencil_mode_raw,
    stride_table,
    Batch, SHADER_COUNT, VERTEX_ATTR_COUNT, VERTEX_FORMAT_COUNT,
};
use crate::render_device::vertex_layout::{
    attributes_for_format, has_location, law_layout_has_every_attribute,
    law_stride_is_sum_of_attributes, layout_of, offset_of, stride_for_format, VertexAttribute,
};

verus! {

/// Identifies a pipeline state combination; each key has one cached pipeline.
#[derive(Clone, Copy, PartialEq, Eq, Debug, Hash, Structural)]
pub struct PipelineKey {
    /// Shader id, which selects the WGSL variant.
    pub shader: u8,
    /// Render-state byte: blend mode, stencil mode, colour writes.
    pub render_state: u8,
    /// Vertex format, which the shader id determines.
    pub vertex_format: u8,
    /// Whether the render pass has a stencil attachment. The pipeline must
    /// declare a stencil state exactly when the pass has one, and the same
    /// shader may be drawn into both kinds of pass.
    pub has_stencil: bool,
}

impl View for PipelineKey {
    type V = PipelineKey;

    open spec fn view(&self) -> PipelineKey {
        *self
    }
}

impl Key for PipelineKey {
    fn same_key(&self, other: &Self) -> (r: bool) {
        *self == *other
    }

    fn copy_key(&self) -> (r: Self) {
        *self
    }
}

impl PipelineKey {
    /// The key for drawing `batch`, whose shader id must be a known one.
    pub fn from_batch(batch: &Batch, has_stencil: bool) -> (key: PipelineKey)
        requires
            batch.shader < SHADER_COUNT,
        ensures
            key == key_of(batch.shader, batch.render_state, has_stencil),
            key.vertex_format < VERTEX_FORMAT_COUNT,
    {
        let vertex_format: u8 = format_for_shader(batch.shader);
        PipelineKey {
            shader: batch.shader,
            render_state: batch.render_state,
            vertex_format,
            has_stencil,
        }
    }
}

/// The key of a shader and render state.
pub open spec fn key_of(shader: u8, render_state: u8, has_stencil: bool) -> PipelineKey {
    PipelineKey { shader, render_state, vertex_format: format_of(shader), has_stencil }
}

/// Test of a stencil value against the reference.
#[derive(Clone, Copy, PartialEq, Eq, Debug, Structural)]
pub enum CompareFunction {
    Always,
    Equal,
}

/// What happens to a stencil value.
#[derive(Clone, Copy, PartialEq, Eq, Debug, Structural)]
pub enum StencilOperation {
    Keep,
    Zero,
    Replace,
    IncrementWrap,
    DecrementWrap,
}

/// Stencil state, the same for both faces. Depth is never tested or written:
/// the attachment carries no depth, and modes that ask for a depth test fall
/// back to their plain twins.
#[derive(Clone, Copy, PartialEq, Eq, Debug, Structural)]
pub struct StencilState {
    pub compare: CompareFunction,
    pub pass_op: StencilOperation,
    pub fail_op: StencilOperation,
    pub depth_fail_op: StencilOperation,
    pub read_mask: u32,
    pub write_mask: u32,
}

/// The stencil state of a stencil mode. An unknown mode tests nothing.
pub open spec fn stencil_state(mode: u8) -> StencilState {
    let (compare, pass_op, fail_op) = if mode == 1 || mode == 6 {
        (CompareFunction::Equal, StencilOperation::Keep, StencilOperation::Keep)
    } else if mode == 2 {
        (CompareFunction::Equal, StencilOperation::IncrementWrap, StencilOperation::Keep)
    } else if mode == 3 {
        (CompareFunction::Equal, StencilOperation::DecrementWrap, StencilOperation::Keep)
    } else if mode == 4 {
        (CompareFunction::Always, StencilOperation::Zero, StencilOperation::Replace)
    } else {
        (CompareFunction::Always, StencilOperation::Keep, StencilOperation::Keep)
    };
    StencilState {
        compare,
        pass_op,
        fail_op,
        depth_fail_op: StencilOperation::Keep,
        read_mask: 0xff,
        write_mask: 0xff,
    }
}

/// The stencil mode in a render-state byte.
pub open spec fn stencil_mode(render_state: u8) -> u8 {
    (render_state >> 4) & 7
}

/// The stencil state that a render-state byte asks for. The reference value is
/// set per draw and is no part of it.
pub fn depth_stencil_for(render_state: u8) -> (r: StencilState)
    ensures
        r == stencil_state(stencil_mode(render_state)),
{
    let mode: u8 = stencil_mode_raw(render_state);
    let (compare, pass_op, fail_op) = match mode {
        // Pass where the value equals the reference; keep it.
        1 | 6 => (CompareFunction::Equal, StencilOperation::Keep, StencilOperation::Keep),
        // Pass where equal; increment.
        2 => (CompareFunction::Equal, StencilOperation::IncrementWrap, StencilOperation::Keep),
        // Pass where equal; decrement.
        3 => (CompareFunction::Equal, StencilOperation::DecrementWrap, StencilOperation::Keep),
        // Always pass; zero the value. The dead `Replace` on failure keeps the
        // reference value in use, so that it is still set for the draw.
        4 => (CompareFunction::Always, StencilOperation::Zero, StencilOperation::Replace),
        // Test off; also for a mode that is not known.
        _ => (CompareFunction::Always, StencilOperation::Keep, StencilOperation::Keep),
    };
    StencilState {
        compare,
        pass_op,
        fail_op,
        depth_fail_op: StencilOperation::Keep,
        read_mask: 0xff,
        write_mask: 0xff,
    }
}

/// Whether a stencil state reads the reference value.
pub open spec fn needs_reference(s: StencilState) -> bool {
    ||| s.compare == CompareFunction::Equal
    ||| s.pass_op == StencilOperation::Replace
    ||| s.fail_op == StencilOperation::Replace
    ||| s.depth_fail_op == StencilOperation::Replace
}

/// Every stencil mode that changes the stencil buffer reads the reference
/// value, so the reference set before such a draw is never dropped.
pub proof fn law_writing_modes_read_reference(mode: u8)
    ensures
        stencil_state(mode).pass_op != StencilOperation::Keep ==> needs_reference(
            stencil_state(mode),
        ),
{
}

/// The modes that also ask for a depth test behave as their plain twins.
pub proof fn law_depth_modes_degrade()
    ensures
        stencil_state(5) == stencil_state(0),
        stencil_state(6) == stencil_state(1),
{
}

/// Factor of a blend equation.
#[derive(Clone, Copy, PartialEq, Eq, Debug, Structural)]
pub enum BlendFactor {
    One,
    Dst,
    OneMinusSrc,
    OneMinusSrcAlpha,
    OneMinusSrc1,
    OneMinusSrc1Alpha,
}

/// Source and destination factor; the two products are added.
#[derive(Clone, Copy, PartialEq, Eq, Debug, Structural)]
pub struct BlendComponent {
    pub src_factor: BlendFactor,
    pub dst_factor: BlendFactor,
}

/// How a fragment is combined with the target.
#[derive(Clone, Copy, PartialEq, Eq, Debug, Structural)]
pub struct BlendState {
    pub color: BlendComponent,
    pub alpha: BlendComponent,
}

/// A component with the given factors.
pub open spec fn component(src_factor: BlendFactor, dst_factor: BlendFactor) -> BlendComponent {
    BlendComponent { src_factor, dst_factor }
}

/// The blend state of a blend mode; `None` overwrites the target. An unknown
/// mode blends as premultiplied source-over.
pub open spec fn blend_state(mode: u8) -> Option<BlendState> {
    let over = component(BlendFactor::One, BlendFactor::OneMinusSrcAlpha);
    if mode == 0 {
        None
    } else if mode == 2 {
        Some(
            BlendState {
                color: component(BlendFactor::Dst, BlendFactor::OneMinusSrcAlpha),
                alpha: over,
            },
        )
    } else if mode == 3 {
        Some(
            BlendState { color: component(BlendFactor::One, BlendFactor::OneMinusSrc), alpha: over },
        )
    } else if mode == 4 {
        Some(BlendState { color: component(BlendFactor::One, BlendFactor::One), alpha: over })
    } else if mode == 5 {
        Some(
            BlendState {
                color: component(BlendFactor::One, BlendFactor::OneMinusSrc1),
                alpha: component(BlendFactor::One, BlendFactor::OneMinusSrc1Alpha),
            },
        )
    } else {
        Some(BlendState { color: over, alpha: over })
    }
}

/// The blend state of a blend mode.
pub fn blend_state_for(mode: u8) -> (r: Option<BlendState>)
    ensures
        r == blend_state(mode),
{
    let over = BlendComponent {
        src_factor: BlendFactor::One,
        dst_factor: BlendFactor::OneMinusSrcAlpha,
    };
    match mode {
        // Straight overwrite.
        0 => None,
        // Multiply: cs*cd + cd*(1-as).
        2 => Some(
            BlendState {
                color: BlendComponent {
                    src_factor: BlendFactor::Dst,
                    dst_factor: BlendFactor::OneMinusSrcAlpha,
                },
                alpha: over,
            },
        ),
        // Screen: cs + cd*(1-cs).
        3 => Some(
            BlendState {
                color: BlendComponent {
                    src_factor: BlendFactor::One,
                    dst_factor: BlendFactor::OneMinusSrc,
                },
                alpha: over,
            },
        ),
        // Additive: cs + cd.
        4 => Some(
            BlendState {
                color: BlendComponent { src_factor: BlendFactor::One, dst_factor: BlendFactor::One },
                alpha: over,
            },
        ),
        // Dual source: the second output carries coverage per channel.
        5 => Some(
            BlendState {
                color: BlendComponent {
                    src_factor: BlendFactor::One,
                    dst_factor: BlendFactor::OneMinusSrc1,
                },
                alpha: BlendComponent {
                    src_factor: BlendFactor::One,
                    dst_factor: BlendFactor::OneMinusSrc1Alpha,
                },
            },
        ),
        // Premultiplied source-over; also for a mode that is not known.
        _ => Some(BlendState { color: over, alpha: over }),
    }
}

/// Everything a pipeline is built from.
pub struct PipelineDesc {
    /// WGSL of the shader variant.
    pub source: String,
    /// Vertex attributes.
    pub attributes: Vec<VertexAttribute>,
    /// Bytes from one vertex to the next.
    pub stride: u64,
    /// Blending; `None` overwrites.
    pub blend: Option<BlendState>,
    /// Whether colour is written at all. Mask draws leave it off.
    pub write_color: bool,
    /// Stencil state; `None` where the pass has no stencil.
    pub depth_stencil: Option<StencilState>,
}

/// Whether a pipeline can be built for `key`: its shader has a variant and the
/// vertex format is that of the shader.
pub open spec fn buildable(key: PipelineKey) -> bool {
    has_variant(key.shader) && key.vertex_format == format_of(key.shader)
}

impl PipelineDesc {
    /// Whether this is the description of `key`'s pipeline with the shaders
    /// out of `template`.
    pub open spec fn describes(&self, template: Seq<char>, key: PipelineKey) -> bool {
        &&& self.source@ == stripped(template, defines_of(key.shader))
        &&& self.attributes@ == layout_of(key.vertex_format, VERTEX_ATTR_COUNT)
        &&& self.stride == stride_table()[key.vertex_format as int]
        &&& self.blend == blend_state((key.render_state >> 1) & 7)
        &&& self.write_color == (key.render_state & 1 != 0)
        &&& self.depth_stencil == if key.has_stencil {
            Some(stencil_state(stencil_mode(key.render_state)))
        } else {
            None
        }
    }
}

/// Describes the pipeline of `key`, with the shaders out of `template`.
pub fn build_pipeline(template: &str, key: PipelineKey) -> (desc: PipelineDesc)
    requires
        balanced(template@),
        buildable(key),
    ensures
        desc.describes(template@, key),
{
    let defines = defines_for_shader(key.shader);
    let source = preprocess(template, &defines);
    proof {
        crate::render_device::shader_defines::law_inputs_match_vertex_format(key.shader);
    }
    let vertex_format: u8 = format_for_shader(key.shader);
    let attributes = attributes_for_format(vertex_format);
    let stride: u64 = stride_for_format(vertex_format);
    let blend = blend_state_for(blend_mode_raw(key.render_state));
    let write_color = color_enable(key.render_state);
    let depth_stencil = if key.has_stencil {
        Some(depth_stencil_for(key.render_state))
    } else {
        None
    };
    PipelineDesc { source, attributes, stride, blend, write_color, depth_stencil }
}

/// What the cache knows of a key.
pub enum Ensured {
    /// The pipeline is at this place.
    Cached(usize),
    /// The pipeline has to be built and put at this place, the next free one.
    Build(usize, PipelineDesc),
}

/// The pipelines that were built, each key at its own place.
pub struct PipelineCache {
    template: String,
    places: KeyedMap<PipelineKey, usize>,
    count: usize,
}

impl PipelineCache {
    /// The WGSL template.
    pub closed spec fn template(&self) -> Seq<char> {
        self.template@
    }

    /// Place of each key's pipeline.
    pub closed spec fn places(&self) -> Map<PipelineKey, usize> {
        self.places@
    }

    /// Number of pipelines.
    pub closed spec fn count(&self) -> usize {
        self.count
    }

    /// The template's directives pair up; places are below the count, and no
    /// two keys share one.
    pub open spec fn wf(&self) -> bool {
        &&& balanced(self.template())
        &&& forall|k: PipelineKey| #[trigger]
            self.places().contains_key(k) ==> self.places()[k] < self.count()
        &&& forall|a: PipelineKey, b: PipelineKey|
            #![trigger self.places()[a], self.places()[b]]
            self.places().contains_key(a) && self.places().contains_key(b) && self.places()[a]
                == self.places()[b] ==> a == b
    }

    /// An empty cache over a template whose directives pair up.
    pub fn new(template: String) -> (c: PipelineCache)
        requires
            balanced(template@),
        ensures
            c.wf(),
            c.template() == template@,
            c.places() == Map::<PipelineKey, usize>::empty(),
            c.count() == 0,
    {
        PipelineCache { template, places: KeyedMap::new(), count: 0 }
    }

    /// Makes sure that `key` has a place, and says what to build where it had
    /// none.
    pub fn ensure(&mut self, key: PipelineKey) -> (r: Ensured)
        requires
            old(self).wf(),
            buildable(key),
            old(self).count() < usize::MAX,
        ensures
            final(self).wf(),
            final(self).template() == old(self).template(),
            match r {
                Ensured::Cached(at) => {
                    &&& old(self).places().contains_key(key)
                    &&& at == old(self).places()[key]
                    &&& final(self).places() == old(self).places()
                    &&& final(self).count() == old(self).count()
                },
                Ensured::Build(at, desc) => {
                    &&& !old(self).places().contains_key(key)
                    &&& at == old(self).count()
                    &&& desc.describes(old(self).template(), key)
                    &&& final(self).places() == old(self).places().insert(key, at)
                    &&& final(self).count() == at + 1
                },
            },
    {
        match self.places.get(&key) {
            Some(at) => Ensured::Cached(*at),
            None => {
                let desc = build_pipeline(self.template.as_str(), key);
                let at: usize = self.count;
                self.places.insert(key, at);
                self.count = at + 1;
                proof {
                    let before = old(self).places();
                    assert forall|k: PipelineKey| #[trigger]
                        self.places().contains_key(k) implies self.places()[k] < self.count() by {
                        if k != key {
                            assert(before.contains_key(k));
                        }
                    }
                    assert forall|a: PipelineKey, b: PipelineKey|
                        #![trigger self.places()[a], self.places()[b]]
                        self.places().contains_key(a) && self.places().contains_key(b)
                            && self.places()[a] == self.places()[b] implies a == b by {
                        if a != key {
                            assert(before.contains_key(a) && before[a] == self.places()[a]);
                        }
                        if b != key {
                            assert(before.contains_key(b) && before[b] == self.places()[b]);
                        }
                    }
                }
                Ensured::Build(at, desc)
            },
        }
    }

    /// Number of pipelines.
    pub fn len(&self) -> (n: usize)
        ensures
            n == self.count(),
    {
        self.count
    }

    /// The place of a pipeline; `ensure` gives a key one.
    pub fn get(&self, key: PipelineKey) -> (r: Option<usize>)
        ensures
            match r {
                Some(at) => self.places().contains_key(key) && at == self.places()[key],
                None => !self.places().contains_key(key),
            },
    {
        match self.places.get(&key) {
            Some(at) => Some(*at),
            None => None,
        }
    }
}

/// What a blend factor weighs with, where `one` stands for 1: `src` and `alpha`
/// are the fragment's channel and alpha, `dst` is the target's channel, `src1`
/// and `alpha1` are those of the second output.
pub open spec fn weight(
    f: BlendFactor,
    one: int,
    src: int,
    alpha: int,
    dst: int,
    src1: int,
    alpha1: int,
) -> int {
    match f {
        BlendFactor::One => one,
        BlendFactor::Dst => dst,
        BlendFactor::OneMinusSrc => one - src,
        BlendFactor::OneMinusSrcAlpha => one - alpha,
        BlendFactor::OneMinusSrc1 => one - src1,
        BlendFactor::OneMinusSrc1Alpha => one - alpha1,
    }
}

/// What a channel becomes, times `one`.
pub open spec fn mixed(
    c: BlendComponent,
    one: int,
    src: int,
    alpha: int,
    dst: int,
    src1: int,
    alpha1: int,
) -> int {
    src * weight(c.src_factor, one, src, alpha, dst, src1, alpha1) + dst * weight(
        c.dst_factor,
        one,
        src,
        alpha,
        dst,
        src1,
        alpha1,
    )
}

/// Each blend mode computes its equation, for all colours: source-over
/// `cs + cd*(1-as)`, multiply `cs*cd + cd*(1-as)`, screen `cs + cd*(1-cs)`,
/// additive `cs + cd`, and with two outputs `cs + cd*(1-c1)`. Alpha is combined
/// as `as + ad*(1-as)`, with two outputs as `as + ad*(1-a1)`. Only the first
/// mode overwrites, and an unknown mode blends as source-over.
pub proof fn law_blend_equations(
    mode: u8,
    one: int,
    cs: int,
    sa: int,
    cd: int,
    da: int,
    c1: int,
    a1: int,
)
    ensures
        blend_state(mode) is None <==> mode == 0,
        blend_state(mode) matches Some(b) ==> {
            let color = mixed(b.color, one, cs, sa, cd, c1, a1);
            let alpha = mixed(b.alpha, one, sa, sa, da, a1, a1);
            &&& color == match mode {
                2 => cs * cd + cd * (one - sa),
                3 => cs * one + cd * (one - cs),
                4 => cs * one + cd * one,
                5 => cs * one + cd * (one - c1),
                _ => cs * one + cd * (one - sa),
            }
            &&& alpha == sa * one + da * (one - if mode == 5 {
                a1
            } else {
                sa
            })
        },
{
}

/// No two of the known blend modes do the same, and no other mode does anything
/// that none of them does.
pub proof fn law_blend_modes_differ(a: u8, b: u8)
    ensures
        a < 6 && b < 6 && a != b ==> blend_state(a) != blend_state(b),
        b >= 6 ==> blend_state(b) == blend_state(1),
{
}

/// Whether a fragment passes the stencil test.
pub open spec fn stencil_passes(s: StencilState, reference: int, value: int) -> bool {
    match s.compare {
        CompareFunction::Always => true,
        CompareFunction::Equal => value == reference,
    }
}

/// A stencil value of 8 bits after an operation.
pub open spec fn stencil_after(op: StencilOperation, reference: int, value: int) -> int {
    match op {
        StencilOperation::Keep => value,
        StencilOperation::Zero => 0,
        StencilOperation::Replace => reference,
        StencilOperation::IncrementWrap => (value + 1) % 256,
        StencilOperation::DecrementWrap => (value + 255) % 256,
    }
}

/// What the stencil modes are for. Clipped drawing passes where the value equals
/// the reference and changes nothing; pushing a clip counts up there, popping it
/// counts down, so that a push and a pop at the same places cancel out; clearing
/// zeroes everywhere; every other mode draws everywhere and changes nothing.
/// What fails the test is never changed, and all 8 bits take part.
pub proof fn law_stencil_modes(mode: u8, reference: int, value: int)
    requires
        0 <= value < 256,
        0 <= reference < 256,
    ensures
        ({
            let s = stencil_state(mode);
            let passes = stencil_passes(s, reference, value);
            let after = if passes {
                stencil_after(s.pass_op, reference, value)
            } else {
                stencil_after(s.fail_op, reference, value)
            };
            let tested = mode == 1 || mode == 2 || mode == 3 || mode == 6;
            &&& passes <==> !tested || value == reference
            &&& mode == 2 && passes ==> after == (value + 1) % 256
            &&& mode == 3 && passes ==> (after + 1) % 256 == value
            &&& mode == 4 ==> after == 0
            &&& !passes || (mode != 2 && mode != 3 && mode != 4) ==> after == value
            &&& s.depth_fail_op == StencilOperation::Keep
            &&& s.read_mask == 255 && s.write_mask == 255
        }),
{
}

/// A clip that is pushed and then popped is gone: what pushing counted up,
/// popping counts down to the value there was.
pub proof fn law_clip_pop_undoes_push(reference: int)
    requires
        0 <= reference < 255,
    ensures
        ({
            let pushed = stencil_after(stencil_state(2).pass_op, reference, reference);
            &&& stencil_passes(stencil_state(2), reference, reference)
            &&& pushed == reference + 1
            &&& stencil_passes(stencil_state(1), pushed, pushed)
            &&& stencil_passes(stencil_state(3), pushed, pushed)
            &&& stencil_after(stencil_state(3).pass_op, pushed, pushed) == reference
        }),
{
}

/// The three settings of a render-state byte reach the pipeline, each by itself:
/// whether colour is written is bit 0, the blend mode is bits 1 to 3, the
/// stencil mode is bits 4 to 6. Without a stencil attachment there is no stencil
/// state, with one there is.
pub proof fn law_render_state_is_taken_apart(
    desc: PipelineDesc,
    template: Seq<char>,
    key: PipelineKey,
    write_color: bool,
    blend: u8,
    stencil: u8,
    spare: u8,
)
    requires
        blend < 8,
        stencil < 8,
        spare < 2,
        key.render_state == (if write_color {
            1int
        } else {
            0int
        }) + 2 * blend + 16 * stencil + 128 * spare,
        desc.describes(template, key),
    ensures
        desc.write_color == write_color,
        desc.blend == blend_state(blend),
        desc.depth_stencil is Some == key.has_stencil,
        desc.depth_stencil matches Some(s) ==> s == stencil_state(stencil),
{
    let w: u8 = if write_color {
        1
    } else {
        0
    };
    let state = key.render_state;
    assert(state == (w + 2 * blend + 16 * stencil + 128 * spare) as u8);
    assert(state & 1 == w && (state >> 1) & 7 == blend && (state >> 4) & 7 == stencil)
        by (bit_vector)
        requires
            w < 2,
            blend < 8,
            stencil < 8,
            spare < 2,
            state == (w + 2 * blend + 16 * stencil + 128 * spare) as u8,
    ;
}

/// A pipeline key is the batch's shader and render state with the shader's own
/// vertex format: two draws share a pipeline exactly when they agree in shader,
/// render state and whether there is a stencil.
pub proof fn law_keys_identify_draws(
    a: u8,
    b: u8,
    state_a: u8,
    state_b: u8,
    stencil_a: bool,
    stencil_b: bool,
)
    ensures
        key_of(a, state_a, stencil_a) == key_of(b, state_b, stencil_b) <==> a == b && state_a
            == state_b && stencil_a == stencil_b,
        key_of(a, state_a, stencil_a).shader == a,
        key_of(a, state_a, stencil_a).render_state == state_a,
        key_of(a, state_a, stencil_a).has_stencil == stencil_a,
        key_of(a, state_a, stencil_a).vertex_format == key_of(a, state_b, stencil_b).vertex_format,
{
}

/// A pipeline draws with its key's shader: its source is what preprocessing
/// leaves of the template under that shader's defines, it reads every attribute
/// of the key's vertex format and no other, and vertices follow each other
/// without gaps.
pub proof fn law_pipelines_draw_with_their_shader(
    desc: PipelineDesc,
    template: Seq<char>,
    key: PipelineKey,
    attr: u8,
)
    requires
        key.vertex_format < VERTEX_FORMAT_COUNT,
        attr < VERTEX_ATTR_COUNT,
        desc.describes(template, key),
    ensures
        desc.source@ == stripped(template, defines_of(key.shader)),
        has_location(desc.attributes@, attr) <==> format_has(key.vertex_format, attr),
        desc.stride == offset_of(key.vertex_format, VERTEX_ATTR_COUNT),
{
    law_layout_has_every_attribute(key.vertex_format, attr);
    law_stride_is_sum_of_attributes(key.vertex_format);
}

/// A pipeline can be built for exactly the shaders that have a variant, drawn
/// with their own vertex format: that of every key that a draw makes.
pub proof fn law_draw_keys_are_buildable(shader: u8, render_state: u8, has_stencil: bool)
    ensures
        buildable(key_of(shader, render_state, has_stencil)) <==> has_variant(shader),
        key_of(shader, render_state, has_stencil).vertex_format == format_of(shader),
{
}

/// The reference value counts exactly where it is compared with or stored.
pub proof fn law_references_count_where_read(s: StencilState)
    ensures
        needs_reference(s) <==> s.compare == CompareFunction::Equal || s.pass_op
            == StencilOperation::Replace || s.fail_op == StencilOperation::Replace
            || s.depth_fail_op == StencilOperation::Replace,
{
}

} // verus!
