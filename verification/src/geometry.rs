//! Geometry as meshes are made of: vertices of one of the three engine
//! layouts and optional 16-bit indices, and their little-endian byte
//! images uploaded to vertex and index buffers.

use vstd::prelude::*;
use vstd::bytes::{spec_u16_to_le_bytes, spec_u32_to_le_bytes};
use crate::layout::{append_u16, append_u32, lit_vertices_bytes, ColorVertex, LitVertex, TexturedVertex};

verus! {

/// Colored vertices, optionally indexed.
#[derive(Debug)]
pub struct Geometry {
    pub vertices: Vec<ColorVertex>,
    pub indices: Vec<u16>,
}

/// Textured vertices, optionally indexed.
#[derive(Debug)]
pub struct TexturedGeometry {
    pub vertices: Vec<TexturedVertex>,
    pub indices: Vec<u16>,
}

/// Lit vertices, optionally indexed.
#[derive(Debug)]
pub struct LitGeometry {
    pub vertices: Vec<LitVertex>,
    pub indices: Vec<u16>,
}

/// The 24 bytes of a colored vertex.
pub open spec fn color_vertex_bytes(v: ColorVertex) -> Seq<u8> {
    spec_u32_to_le_bytes(v.position[0]) + spec_u32_to_le_bytes(v.position[1])
        + spec_u32_to_le_bytes(v.position[2]) + spec_u32_to_le_bytes(v.color[0])
        + spec_u32_to_le_bytes(v.color[1]) + spec_u32_to_le_bytes(v.color[2])
}

/// The 20 bytes of a textured vertex.
pub open spec fn textured_vertex_bytes(v: TexturedVertex) -> Seq<u8> {
    spec_u32_to_le_bytes(v.position[0]) + spec_u32_to_le_bytes(v.position[1])
        + spec_u32_to_le_bytes(v.position[2]) + spec_u32_to_le_bytes(v.uv[0]) + spec_u32_to_le_bytes(v.uv[1])
}

/// The byte image of colored vertices.
pub open spec fn color_vertices_bytes(vertices: Seq<ColorVertex>) -> Seq<u8>
    decreases vertices.len(),
{
    if vertices.len() == 0 {
        Seq::empty()
    } else {
        color_vertices_bytes(vertices.drop_last()) + color_vertex_bytes(vertices.last())
    }
}

/// The byte image of textured vertices.
pub open spec fn textured_vertices_bytes(vertices: Seq<TexturedVertex>) -> Seq<u8>
    decreases vertices.len(),
{
    if vertices.len() == 0 {
        Seq::empty()
    } else {
        textured_vertices_bytes(vertices.drop_last()) + textured_vertex_bytes(vertices.last())
    }
}

/// The byte image of 16-bit indices.
pub open spec fn indices_bytes(indices: Seq<u16>) -> Seq<u8>
    decreases indices.len(),
{
    if indices.len() == 0 {
        Seq::empty()
    } else {
        indices_bytes(indices.drop_last()) + spec_u16_to_le_bytes(indices.last())
    }
}

/// The elements a draw of the geometry covers: its indices when indexed,
/// else its vertices (saturating at `u32::MAX`).
pub open spec fn element_count(vertices: nat, indices: nat) -> u32 {
    let n = if indices > 0 { indices } else { vertices };
    if n > u32::MAX { u32::MAX } else { n as u32 }
}

fn count_u32(n: usize) -> (c: u32)
    ensures
        c == (if n > u32::MAX { u32::MAX } else { n as u32 }),
{
    if n > 0xFFFF_FFFF {
        0xFFFF_FFFF
    } else {
        n as u32
    }
}

/// The bytes of indices, each in little-endian order.
pub fn index_bytes(indices: &Vec<u16>) -> (bytes: Vec<u8>)
    ensures
        bytes@ == indices_bytes(indices@),
{
    let mut bytes: Vec<u8> = Vec::new();
    let mut i: usize = 0;
    while i < indices.len()
        invariant
            i <= indices@.len(),
            bytes@ == indices_bytes(indices@.subrange(0, i as int)),
        decreases indices@.len() - i,
    {
        append_u16(&mut bytes, indices[i]);
        assert(indices@.subrange(0, i + 1).drop_last() =~= indices@.subrange(0, i as int));
        i = i + 1;
    }
    assert(indices@.subrange(0, indices@.len() as int) =~= indices@);
    bytes
}

impl Geometry {
    /// The vertex buffer contents.
    pub fn vertex_bytes(&self) -> (bytes: Vec<u8>)
        ensures
            bytes@ == color_vertices_bytes(self.vertices@),
    {
        let mut bytes: Vec<u8> = Vec::new();
        let mut i: usize = 0;
        while i < self.vertices.len()
            invariant
                i <= self.vertices@.len(),
                bytes@ == color_vertices_bytes(self.vertices@.subrange(0, i as int)),
            decreases self.vertices@.len() - i,
        {
            let v = self.vertices[i];
            append_u32(&mut bytes, v.position[0]);
            append_u32(&mut bytes, v.position[1]);
            append_u32(&mut bytes, v.position[2]);
            append_u32(&mut bytes, v.color[0]);
            append_u32(&mut bytes, v.color[1]);
            append_u32(&mut bytes, v.color[2]);
            assert(self.vertices@.subrange(0, i + 1).drop_last() =~= self.vertices@.subrange(0, i as int));
            i = i + 1;
        }
        assert(self.vertices@.subrange(0, self.vertices@.len() as int) =~= self.vertices@);
        bytes
    }

    /// The elements a draw covers.
    pub fn element_count(&self) -> (n: u32)
        ensures
            n == element_count(self.vertices@.len(), self.indices@.len()),
    {
        if self.indices.len() > 0 {
            count_u32(self.indices.len())
        } else {
            count_u32(self.vertices.len())
        }
    }
}

impl TexturedGeometry {
    /// The vertex buffer contents.
    pub fn vertex_bytes(&self) -> (bytes: Vec<u8>)
        ensures
            bytes@ == textured_vertices_bytes(self.vertices@),
    {
        let mut bytes: Vec<u8> = Vec::new();
        let mut i: usize = 0;
        while i < self.vertices.len()
            invariant
                i <= self.vertices@.len(),
                bytes@ == textured_vertices_bytes(self.vertices@.subrange(0, i as int)),
            decreases self.vertices@.len() - i,
        {
            let v = self.vertices[i];
            append_u32(&mut bytes, v.position[0]);
            append_u32(&mut bytes, v.position[1]);
            append_u32(&mut bytes, v.position[2]);
            append_u32(&mut bytes, v.uv[0]);
            append_u32(&mut bytes, v.uv[1]);
            assert(self.vertices@.subrange(0, i + 1).drop_last() =~= self.vertices@.subrange(0, i as int));
            i = i + 1;
        }
        assert(self.vertices@.subrange(0, self.vertices@.len() as int) =~= self.vertices@);
        bytes
    }

    /// The elements a draw covers.
    pub fn element_count(&self) -> (n: u32)
        ensures
            n == element_count(self.vertices@.len(), self.indices@.len()),
    {
        if self.indices.len() > 0 {
            count_u32(self.indices.len())
        } else {
            count_u32(self.vertices.len())
        }
    }
}

impl LitGeometry {
    /// The vertex buffer contents.
    pub fn vertex_bytes(&self) -> (bytes: Vec<u8>)
        ensures
            bytes@ == lit_vertices_bytes(self.vertices@),
    {
        LitVertex::bytes_of(self.vertices.as_slice())
    }

    /// The elements a draw covers.
    pub fn element_count(&self) -> (n: u32)
        ensures
            n == element_count(self.vertices@.len(), self.indices@.len()),
    {
        if self.indices.len() > 0 {
            count_u32(self.indices.len())
        } else {
            count_u32(self.vertices.len())
        }
    }
}

} // verus!
