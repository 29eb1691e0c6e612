//! Vertex layouts: the attribute formats, the packed layouts of the engine
//! vertex types, and the byte image of lit vertices.
//!
//! Float components are carried as their IEEE-754 bit patterns (`u32`):
//! the layout logic only moves them, never computes with them.

use vstd::prelude::*;
use crate::debug::DebugVertex;
use vstd::bytes::*;

verus! {

/// The format of one vertex attribute.
#[derive(Clone, Copy, Debug, PartialEq, Eq, Structural)]
pub enum VertexAttributeFormat {
    Float32,
    Float32x2,
    Float32x3,
    Float32x4,
}

/// The size in bytes of an attribute format.
pub open spec fn format_size(format: VertexAttributeFormat) -> nat {
    match format {
        VertexAttributeFormat::Float32 => 4,
        VertexAttributeFormat::Float32x2 => 8,
        VertexAttributeFormat::Float32x3 => 12,
        VertexAttributeFormat::Float32x4 => 16,
    }
}

impl VertexAttributeFormat {
    /// The size in bytes of the format.
    pub fn size(&self) -> (size: u64)
        ensures
            size == format_size(*self),
    {
        match self {
            VertexAttributeFormat::Float32 => 4,
            VertexAttributeFormat::Float32x2 => 8,
            VertexAttributeFormat::Float32x3 => 12,
            VertexAttributeFormat::Float32x4 => 16,
        }
    }
}

/// One attribute of a vertex layout: its shader location, format and byte
/// offset inside the vertex.
#[derive(Clone, Copy, Debug, PartialEq, Eq, Structural)]
pub struct VertexAttribute {
    pub location: u32,
    pub format: VertexAttributeFormat,
    pub offset: u64,
}

/// A vertex buffer layout: the stride and the attributes.
#[derive(Debug)]
pub struct VertexLayout {
    pub stride: u64,
    pub attributes: Vec<VertexAttribute>,
}

/// The summed size of the first `n` formats — the offset of attribute `n`
/// in a packed layout.
pub open spec fn packed_offset(formats: Seq<VertexAttributeFormat>, n: int) -> nat
    decreases n,
{
    if n <= 0 {
        0
    } else {
        packed_offset(formats, n - 1) + format_size(formats[n - 1])
    }
}

proof fn lemma_packed_offset_bound(formats: Seq<VertexAttributeFormat>, n: int)
    requires
        0 <= n,
    ensures
        packed_offset(formats, n) <= 16 * n,
    decreases n,
{
    if n > 0 {
        lemma_packed_offset_bound(formats, n - 1);
    }
}

/// `layout` is the packed layout of `formats`: attribute `i` at location `i`,
/// its offset the sizes of the attributes before it, the stride their total.
pub open spec fn is_packed_layout(layout: VertexLayout, formats: Seq<VertexAttributeFormat>) -> bool {
    &&& layout.attributes@.len() == formats.len()
    &&& layout.stride == packed_offset(formats, formats.len() as int)
    &&& forall|i: int|
        0 <= i < formats.len() ==> {
            &&& (#[trigger] layout.attributes@[i]).location == i
            &&& layout.attributes@[i].format == formats[i]
            &&& layout.attributes@[i].offset == packed_offset(formats, i)
        }
}

/// Two layouts describe the same vertex: same stride, same attributes.
pub open spec fn same_layout(a: VertexLayout, b: VertexLayout) -> bool {
    a.stride == b.stride && a.attributes@ == b.attributes@
}

/// The layout can feed the depth-only shadow pipeline: it carries a
/// `Float32x3` position at location 0.
pub open spec fn spec_has_position(layout: VertexLayout) -> bool {
    exists|i: int|
        0 <= i < layout.attributes@.len() && (#[trigger] layout.attributes@[i]).location == 0
            && layout.attributes@[i].format == VertexAttributeFormat::Float32x3
}

impl VertexLayout {
    /// The packed layout of `formats`: consecutive attributes, locations
    /// 0..n, no padding.
    pub fn packed(formats: &[VertexAttributeFormat]) -> (layout: VertexLayout)
        requires
            formats@.len() < 0x1_0000_0000,
        ensures
            is_packed_layout(layout, formats@),
    {
        let mut attributes: Vec<VertexAttribute> = Vec::new();
        let mut offset: u64 = 0;
        let mut i: usize = 0;
        while i < formats.len()
            invariant
                i <= formats@.len(),
                formats@.len() < 0x1_0000_0000,
                offset == packed_offset(formats@, i as int),
                attributes@.len() == i,
                forall|k: int|
                    0 <= k < i ==> {
                        &&& (#[trigger] attributes@[k]).location == k
                        &&& attributes@[k].format == formats@[k]
                        &&& attributes@[k].offset == packed_offset(formats@, k)
                    },
            decreases formats@.len() - i,
        {
            proof {
                lemma_packed_offset_bound(formats@, i as int);
            }
            let format = formats[i];
            attributes.push(VertexAttribute { location: i as u32, format, offset });
            offset = offset + format.size();
            i = i + 1;
        }
        VertexLayout { stride: offset, attributes }
    }

    /// Whether the layout carries a `Float32x3` position at location 0.
    pub fn has_position(&self) -> (found: bool)
        ensures
            found == spec_has_position(*self),
    {
        let mut i: usize = 0;
        while i < self.attributes.len()
            invariant
                i <= self.attributes@.len(),
                forall|k: int|
                    0 <= k < i ==> !((#[trigger] self.attributes@[k]).location == 0
                        && self.attributes@[k].format == VertexAttributeFormat::Float32x3),
            decreases self.attributes@.len() - i,
        {
            let attribute = self.attributes[i];
            if attribute.location == 0 && attribute.format == VertexAttributeFormat::Float32x3 {
                return true;
            }
            i = i + 1;
        }
        false
    }

    /// Whether two layouts describe the same vertex.
    pub fn same_as(&self, other: &VertexLayout) -> (same: bool)
        ensures
            same == same_layout(*self, *other),
    {
        if self.stride != other.stride || self.attributes.len() != other.attributes.len() {
            return false;
        }
        let mut i: usize = 0;
        while i < self.attributes.len()
            invariant
                i <= self.attributes@.len(),
                self.attributes@.len() == other.attributes@.len(),
                forall|k: int| 0 <= k < i ==> self.attributes@[k] == other.attributes@[k],
            decreases self.attributes@.len() - i,
        {
            if self.attributes[i] != other.attributes[i] {
                return false;
            }
            i = i + 1;
        }
        assert(self.attributes@ =~= other.attributes@);
        true
    }

    /// A copy of the layout.
    pub fn duplicate(&self) -> (copy: VertexLayout)
        ensures
            same_layout(copy, *self),
    {
        let mut attributes: Vec<VertexAttribute> = Vec::new();
        let mut i: usize = 0;
        while i < self.attributes.len()
            invariant
                i <= self.attributes@.len(),
                attributes@ == self.attributes@.subrange(0, i as int),
            decreases self.attributes@.len() - i,
        {
            attributes.push(self.attributes[i]);
            i = i + 1;
            assert(attributes@ =~= self.attributes@.subrange(0, i as int));
        }
        assert(attributes@ =~= self.attributes@);
        VertexLayout { stride: self.stride, attributes }
    }
}

/// The formats of a colored vertex: position, RGBA color.
pub open spec fn color_vertex_formats() -> Seq<VertexAttributeFormat> {
    seq![VertexAttributeFormat::Float32x3, VertexAttributeFormat::Float32x3]
}

/// The formats of a debug line vertex: position, RGBA color.
pub open spec fn debug_vertex_formats() -> Seq<VertexAttributeFormat> {
    seq![VertexAttributeFormat::Float32x3, VertexAttributeFormat::Float32x4]
}

/// The formats of a textured vertex: position, UV.
pub open spec fn textured_vertex_formats() -> Seq<VertexAttributeFormat> {
    seq![VertexAttributeFormat::Float32x3, VertexAttributeFormat::Float32x2]
}

/// The formats of a lit vertex: position, normal, UV.
pub open spec fn lit_vertex_formats() -> Seq<VertexAttributeFormat> {
    seq![
        VertexAttributeFormat::Float32x3,
        VertexAttributeFormat::Float32x3,
        VertexAttributeFormat::Float32x2,
    ]
}

/// A vertex of the vertex-color model: position and RGB color (bit
/// patterns of the float components).
#[derive(Clone, Copy, Debug)]
pub struct ColorVertex {
    pub position: [u32; 3],
    pub color: [u32; 3],
}

/// A vertex of the textured models: position and UV.
#[derive(Clone, Copy, Debug)]
pub struct TexturedVertex {
    pub position: [u32; 3],
    pub uv: [u32; 2],
}

/// A vertex of the lit models: position, normal and UV.
#[derive(Clone, Copy, Debug)]
pub struct LitVertex {
    pub position: [u32; 3],
    pub normal: [u32; 3],
    pub uv: [u32; 2],
}

impl ColorVertex {
    /// The layout of colored vertices (stride 24).
    pub fn layout() -> (layout: VertexLayout)
        ensures
            is_packed_layout(layout, color_vertex_formats()),
    {
        let formats = [VertexAttributeFormat::Float32x3, VertexAttributeFormat::Float32x3];
        let layout = VertexLayout::packed(&formats);
        assert(formats@ =~= color_vertex_formats());
        layout
    }
}

impl DebugVertex {
    /// The layout of debug line vertices (stride 28).
    pub fn layout() -> (layout: VertexLayout)
        ensures
            is_packed_layout(layout, debug_vertex_formats()),
    {
        let formats = [VertexAttributeFormat::Float32x3, VertexAttributeFormat::Float32x4];
        let layout = VertexLayout::packed(&formats);
        assert(formats@ =~= debug_vertex_formats());
        layout
    }
}

impl TexturedVertex {
    /// The layout of textured vertices (stride 20).
    pub fn layout() -> (layout: VertexLayout)
        ensures
            is_packed_layout(layout, textured_vertex_formats()),
    {
        let formats = [VertexAttributeFormat::Float32x3, VertexAttributeFormat::Float32x2];
        let layout = VertexLayout::packed(&formats);
        assert(formats@ =~= textured_vertex_formats());
        layout
    }
}

/// The 32 little-endian bytes of one lit vertex, fields in declaration
/// order.
pub open spec fn lit_vertex_bytes(v: LitVertex) -> Seq<u8> {
    spec_u32_to_le_bytes(v.position[0]) + spec_u32_to_le_bytes(v.position[1])
        + spec_u32_to_le_bytes(v.position[2]) + spec_u32_to_le_bytes(v.normal[0])
        + spec_u32_to_le_bytes(v.normal[1]) + spec_u32_to_le_bytes(v.normal[2])
        + spec_u32_to_le_bytes(v.uv[0]) + spec_u32_to_le_bytes(v.uv[1])
}

/// The byte image of a run of lit vertices.
pub open spec fn lit_vertices_bytes(vertices: Seq<LitVertex>) -> Seq<u8>
    decreases vertices.len(),
{
    if vertices.len() == 0 {
        Seq::empty()
    } else {
        lit_vertices_bytes(vertices.drop_last()) + lit_vertex_bytes(vertices.last())
    }
}

pub(crate) fn append_u32(bytes: &mut Vec<u8>, value: u32)
    ensures
        final(bytes)@ == old(bytes)@ + spec_u32_to_le_bytes(value),
{
    let encoded = u32_to_le_bytes(value);
    let mut i: usize = 0;
    let ghost start = bytes@;
    while i < encoded.len()
        invariant
            i <= encoded@.len(),
            bytes@ == start + encoded@.subrange(0, i as int),
        decreases encoded@.len() - i,
    {
        bytes.push(encoded[i]);
        i = i + 1;
        assert(bytes@ =~= start + encoded@.subrange(0, i as int));
    }
    assert(encoded@.subrange(0, encoded@.len() as int) =~= encoded@);
}

pub(crate) fn append_u16(bytes: &mut Vec<u8>, value: u16)
    ensures
        final(bytes)@ == old(bytes)@ + spec_u16_to_le_bytes(value),
{
    let encoded = u16_to_le_bytes(value);
    let ghost start = bytes@;
    bytes.push(encoded[0]);
    bytes.push(encoded[1]);
    assert(bytes@ =~= start + encoded@);
}

impl LitVertex {
    /// The layout of lit vertices: stride 32, attributes at 0, 12 and 24.
    pub fn layout() -> (layout: VertexLayout)
        ensures
            is_packed_layout(layout, lit_vertex_formats()),
            layout.stride == 32,
    {
        let formats = [
            VertexAttributeFormat::Float32x3,
            VertexAttributeFormat::Float32x3,
            VertexAttributeFormat::Float32x2,
        ];
        let layout = VertexLayout::packed(&formats);
        assert(formats@ =~= lit_vertex_formats());
        reveal_with_fuel(packed_offset, 4);
        layout
    }

    /// The bytes uploaded for `vertices`: each component's bit pattern in
    /// little-endian order, vertex after vertex.
    pub fn bytes_of(vertices: &[LitVertex]) -> (bytes: Vec<u8>)
        ensures
            bytes@ == lit_vertices_bytes(vertices@),
    {
        let mut bytes: Vec<u8> = Vec::new();
        let mut i: usize = 0;
        while i < vertices.len()
            invariant
                i <= vertices@.len(),
                bytes@ == lit_vertices_bytes(vertices@.subrange(0, i as int)),
            decreases vertices@.len() - i,
        {
            let v = vertices[i];
            append_u32(&mut bytes, v.position[0]);
            append_u32(&mut bytes, v.position[1]);
            append_u32(&mut bytes, v.position[2]);
            append_u32(&mut bytes, v.normal[0]);
            append_u32(&mut bytes, v.normal[1]);
            append_u32(&mut bytes, v.normal[2]);
            append_u32(&mut bytes, v.uv[0]);
            append_u32(&mut bytes, v.uv[1]);
            assert(vertices@.subrange(0, i + 1).drop_last() =~= vertices@.subrange(0, i as int));
            i = i + 1;
        }
        assert(vertices@.subrange(0, vertices@.len() as int) =~= vertices@);
        bytes
    }
}

} // verus!
