//! Vertex-buffer layout of each vertex format, from the engine's lookup
//! tables.
//!
//! A vertex format is a bitmask of attributes; they appear in the buffer in
//! attribute order with no padding. The shader location of an attribute is its
//! number, the convention of the WGSL template.

use vstd::prelude::*;

use crate::render_device::types::{
    attr_type_table, attribute_bits, attributes_mask, attributes_table, format_has,
    lemma_attribute_bits, size_for_format, size_for_type, stride_table, type_for_attr,
    type_size_table, VERTEX_ATTR_COUNT, VERTEX_FORMAT_COUNT,
};

verus! {

/// How the GPU reads one attribute.
#[derive(Clone, Copy, PartialEq, Eq, Debug, Structural)]
pub enum VertexFormat {
    Float32,
    Float32x2,
    Float32x4,
    Unorm8x4,
    Unorm16x4,
}

/// One attribute of a vertex buffer.
#[derive(Clone, Copy, PartialEq, Eq, Debug, Structural)]
pub struct VertexAttribute {
    /// Bytes from the start of the vertex.
    pub offset: u64,
    /// Location in the shader's input.
    pub shader_location: u32,
    /// How it is read.
    pub format: VertexFormat,
}

/// GPU format of a storage type.
pub open spec fn format_of_type(ty: u8) -> VertexFormat {
    if ty == 0 {
        VertexFormat::Float32
    } else if ty == 1 {
        VertexFormat::Float32x2
    } else if ty == 2 {
        VertexFormat::Float32x4
    } else if ty == 3 {
        VertexFormat::Unorm8x4
    } else {
        VertexFormat::Unorm16x4
    }
}

/// Bytes that one vertex attribute takes.
pub open spec fn attr_size(attr: u8) -> int {
    type_size_table()[attr_type_table()[attr as int] as int] as int
}

/// Bytes that the attributes of `format` with a number below `n` take.
pub open spec fn offset_of(format: u8, n: u8) -> int
    decreases n,
{
    if n == 0 {
        0
    } else {
        let below = (n - 1) as u8;
        offset_of(format, below) + if format_has(format, below) {
            attr_size(below)
        } else {
            0
        }
    }
}

/// The attributes of `format` with a number below `n`, in order, each placed
/// right behind the ones before it.
pub open spec fn layout_of(format: u8, n: u8) -> Seq<VertexAttribute>
    decreases n,
{
    if n == 0 {
        Seq::empty()
    } else {
        let below = (n - 1) as u8;
        if format_has(format, below) {
            layout_of(format, below).push(
                VertexAttribute {
                    offset: offset_of(format, below) as u64,
                    shader_location: below as u32,
                    format: format_of_type(attr_type_table()[below as int]),
                },
            )
        } else {
            layout_of(format, below)
        }
    }
}

/// GPU format of a storage type.
fn wgpu_format_for_type(ty: u8) -> (r: VertexFormat)
    requires
        ty < 5,
    ensures
        r == format_of_type(ty),
{
    match ty {
        0 => VertexFormat::Float32,
        1 => VertexFormat::Float32x2,
        2 => VertexFormat::Float32x4,
        3 => VertexFormat::Unorm8x4,
        _ => VertexFormat::Unorm16x4,
    }
}

/// The attributes of a vertex format, in buffer order.
pub fn attributes_for_format(format_idx: u8) -> (attrs: Vec<VertexAttribute>)
    requires
        format_idx < VERTEX_FORMAT_COUNT,
    ensures
        attrs@ == layout_of(format_idx, VERTEX_ATTR_COUNT),
{
    let mask: u8 = attributes_mask(format_idx);
    let mut attrs: Vec<VertexAttribute> = Vec::new();
    let mut offset: u64 = 0;
    let mut attr: u8 = 0;
    while attr < VERTEX_ATTR_COUNT
        invariant
            attr <= VERTEX_ATTR_COUNT,
            format_idx < VERTEX_FORMAT_COUNT,
            mask == attributes_table()[format_idx as int],
            attrs@ == layout_of(format_idx, attr),
            offset == offset_of(format_idx, attr),
            offset <= 16 * attr,
        decreases VERTEX_ATTR_COUNT - attr,
    {
        if mask & (1u8 << attr) != 0 {
            let ty: u8 = type_for_attr(attr);
            let format = wgpu_format_for_type(ty);
            attrs.push(VertexAttribute { offset, shader_location: attr as u32, format });
            let size: u8 = size_for_type(ty);
            offset = offset + size as u64;
        }
        attr = attr + 1;
    }
    attrs
}

/// Bytes from one vertex to the next.
pub fn stride_for_format(format_idx: u8) -> (r: u64)
    requires
        format_idx < VERTEX_FORMAT_COUNT,
    ensures
        r == stride_table()[format_idx as int],
{
    size_for_format(format_idx) as u64
}

/// The attributes of a format fill its vertex: the stride is the sum of their
/// sizes, with no padding anywhere.
pub proof fn law_stride_is_sum_of_attributes(format: u8)
    requires
        format < VERTEX_FORMAT_COUNT,
    ensures
        offset_of(format, VERTEX_ATTR_COUNT) == stride_table()[format as int],
{
    reveal_with_fuel(offset_of, 9);
    assert forall|a: u8| a < VERTEX_ATTR_COUNT implies format_has(format, a) == #[trigger] attribute_bits(
        format,
    )[a as int] by {
        lemma_attribute_bits(format, a);
    }
    assert(format_has(format, 0) == attribute_bits(format)[0]);
    assert(format_has(format, 1) == attribute_bits(format)[1]);
    assert(format_has(format, 2) == attribute_bits(format)[2]);
    assert(format_has(format, 3) == attribute_bits(format)[3]);
    assert(format_has(format, 4) == attribute_bits(format)[4]);
    assert(format_has(format, 5) == attribute_bits(format)[5]);
    assert(format_has(format, 6) == attribute_bits(format)[6]);
    assert(format_has(format, 7) == attribute_bits(format)[7]);
}

/// No two attributes of a format overlap, each lies inside the vertex, and
/// they come in the order of their shader locations.
pub proof fn law_attributes_are_disjoint(format: u8, i: int, j: int)
    requires
        format < VERTEX_FORMAT_COUNT,
        0 <= i < j < layout_of(format, VERTEX_ATTR_COUNT).len(),
    ensures
        ({
            let layout = layout_of(format, VERTEX_ATTR_COUNT);
            let a = layout[i];
            let b = layout[j];
            &&& a.shader_location < b.shader_location < VERTEX_ATTR_COUNT
            &&& a.offset + attr_size(a.shader_location as u8) <= b.offset
            &&& b.offset + attr_size(b.shader_location as u8) <= stride_table()[format as int]
        }),
{
    lemma_layout_ordered(format, VERTEX_ATTR_COUNT, i, j);
    law_stride_is_sum_of_attributes(format);
}

proof fn lemma_layout_entry(format: u8, n: u8, i: int)
    requires
        n <= VERTEX_ATTR_COUNT,
        0 <= i < layout_of(format, n).len(),
    ensures
        ({
            let a = layout_of(format, n)[i];
            &&& a.shader_location < n
            &&& a.offset + attr_size(a.shader_location as u8) <= offset_of(format, n) <= 16 * n
        }),
    decreases n,
{
    if n > 0 {
        let below = (n - 1) as u8;
        lemma_offset_bound(format, below);
        if i < layout_of(format, below).len() {
            lemma_layout_entry(format, below, i);
        }
    }
}

proof fn lemma_offset_bound(format: u8, n: u8)
    requires
        n <= VERTEX_ATTR_COUNT,
    ensures
        0 <= offset_of(format, n) <= 16 * n,
    decreases n,
{
    if n > 0 {
        lemma_offset_bound(format, (n - 1) as u8);
    }
}

proof fn lemma_layout_ordered(format: u8, n: u8, i: int, j: int)
    requires
        n <= VERTEX_ATTR_COUNT,
        0 <= i < j < layout_of(format, n).len(),
    ensures
        ({
            let a = layout_of(format, n)[i];
            let b = layout_of(format, n)[j];
            &&& a.shader_location < b.shader_location < n
            &&& a.offset + attr_size(a.shader_location as u8) <= b.offset
            &&& b.offset + attr_size(b.shader_location as u8) <= offset_of(format, n)
        }),
    decreases n,
{
    if n > 0 {
        let below = (n - 1) as u8;
        lemma_offset_bound(format, below);
        if j < layout_of(format, below).len() {
            lemma_layout_ordered(format, below, i, j);
        } else {
            lemma_layout_entry(format, below, i);
        }
    }
}

/// Bytes that the GPU reads for one attribute.
pub open spec fn bytes_read(format: VertexFormat) -> int {
    match format {
        VertexFormat::Float32 => 4,
        VertexFormat::Float32x2 => 8,
        VertexFormat::Float32x4 => 16,
        VertexFormat::Unorm8x4 => 4,
        VertexFormat::Unorm16x4 => 8,
    }
}

/// A storage type is read as it is stored: as many bytes as it takes, whole
/// numbers as fractions and the others as they are, and no two types alike.
pub proof fn law_types_are_read_as_stored(ty: u8, other: u8)
    requires
        ty < 5,
        other < 5,
    ensures
        bytes_read(format_of_type(ty)) == type_size_table()[ty as int],
        (format_of_type(ty) is Unorm8x4 || format_of_type(ty) is Unorm16x4) <==> ty >= 3,
        format_of_type(ty) == format_of_type(other) <==> ty == other,
{
}

/// Whether the layout has an attribute at a shader location.
pub open spec fn has_location(layout: Seq<VertexAttribute>, attr: u8) -> bool {
    exists|i: int| 0 <= i < layout.len() && (#[trigger] layout[i]).shader_location == attr
}

/// The layout of a format has exactly the attributes that the format carries,
/// and each is read in the format of its type.
pub proof fn law_layout_has_every_attribute(format: u8, attr: u8)
    requires
        format < VERTEX_FORMAT_COUNT,
        attr < VERTEX_ATTR_COUNT,
    ensures
        has_location(layout_of(format, VERTEX_ATTR_COUNT), attr) <==> format_has(format, attr),
        forall|i: int|
            0 <= i < layout_of(format, VERTEX_ATTR_COUNT).len() ==> bytes_read(
                (#[trigger] layout_of(format, VERTEX_ATTR_COUNT)[i]).format,
            ) == attr_size(layout_of(format, VERTEX_ATTR_COUNT)[i].shader_location as u8),
        forall|i: int|
            0 <= i < layout_of(format, VERTEX_ATTR_COUNT).len() && (#[trigger] layout_of(
                format,
                VERTEX_ATTR_COUNT,
            )[i]).shader_location == attr ==> layout_of(format, VERTEX_ATTR_COUNT)[i].format
                == format_of_type(attr_type_table()[attr as int]),
{
    lemma_layout_has(format, VERTEX_ATTR_COUNT, attr);
}

proof fn lemma_layout_has(format: u8, n: u8, attr: u8)
    requires
        n <= VERTEX_ATTR_COUNT,
        attr < VERTEX_ATTR_COUNT,
    ensures
        has_location(layout_of(format, n), attr) <==> attr < n && format_has(format, attr),
        forall|i: int|
            0 <= i < layout_of(format, n).len() ==> {
                let a = #[trigger] layout_of(format, n)[i];
                &&& a.shader_location < n
                &&& bytes_read(a.format) == attr_size(a.shader_location as u8)
                &&& a.format == format_of_type(attr_type_table()[a.shader_location as int])
            },
    decreases n,
{
    if n > 0 {
        let below = (n - 1) as u8;
        lemma_layout_has(format, below, attr);
        let before = layout_of(format, below);
        let now = layout_of(format, n);
        if format_has(format, below) {
            law_types_are_read_as_stored(attr_type_table()[below as int], 0);
            assert(now.len() == before.len() + 1);
            assert(now[before.len() as int].shader_location == below);
            assert(forall|i: int| 0 <= i < before.len() ==> now[i] == #[trigger] before[i]);
            if has_location(before, attr) {
                let i = choose|i: int|
                    0 <= i < before.len() && (#[trigger] before[i]).shader_location == attr;
                assert(now[i].shader_location == attr);
            }
            if has_location(now, attr) && attr != below {
                let i = choose|i: int|
                    0 <= i < now.len() && (#[trigger] now[i]).shader_location == attr;
                assert(before[i].shader_location == attr);
            }
        }
    }
}

} // verus!
