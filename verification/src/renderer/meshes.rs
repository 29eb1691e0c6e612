//! Meshes: geometry materialized in owned GPU buffers, its local bounds
//! (the matter of culling), inspection, and destruction that takes its
//! buffers along.

use vstd::prelude::*;
use vstd::string::*;
use super::Renderer;
use crate::backend::GraphicsBackend;
use crate::descriptors::BufferDescriptor;
use crate::error::{RenderError, ResourceKind};
use crate::geometry::{
    color_vertices_bytes, element_count, index_bytes, indices_bytes, textured_vertices_bytes, Geometry,
    LitGeometry, TexturedGeometry,
};
use crate::handles::{BufferHandle, MeshHandle};
use crate::layout::{
    color_vertex_formats, is_packed_layout, lit_vertex_formats, lit_vertices_bytes, textured_vertex_formats,
    ColorVertex, LitVertex, TexturedVertex, VertexLayout,
};
use crate::lifetime::BufferInfo;
use crate::math::Aabb;
use crate::pool::PoolHandle;

verus! {

/// A live mesh: its buffers, the elements a draw covers, its vertex
/// layout and its local bounds (`None`: never culled).
#[derive(Debug)]
pub struct MeshRecord {
    pub vertex_buffer: BufferHandle,
    pub index_buffer: Option<BufferHandle>,
    pub element_count: u32,
    pub vertex_layout: VertexLayout,
    pub bounds: Option<Aabb>,
}

/// The pool handle of a mesh handle.
pub open spec fn mesh_key(handle: MeshHandle) -> PoolHandle {
    PoolHandle { index: handle.index, generation: handle.generation }
}

/// The label of a mesh's index buffer.
pub open spec fn index_label(label: Seq<char>) -> Seq<char> {
    label + ".indices"@
}

/// `after` holds one more mesh than `before`, under `handle`, made of the
/// given bytes: a vertex buffer (and an index buffer when `indices` is
/// given) registered as owned by the mesh.
pub open spec fn mesh_created<B: GraphicsBackend>(
    after: Renderer<B>,
    before: Renderer<B>,
    handle: MeshHandle,
    label: Seq<char>,
    vertices: Seq<u8>,
    indices: Option<Seq<u8>>,
    elements: u32,
    layout_formats: Seq<crate::layout::VertexAttributeFormat>,
    bounds: Option<Aabb>,
) -> bool {
    let k = mesh_key(handle);
    let record = after.mesh_pool()@[k];
    let buffers = before.tracker().buffers();
    &&& !before.mesh_pool()@.contains_key(k)
    &&& after.mesh_pool()@ == before.mesh_pool()@.insert(k, record)
    &&& record.element_count == elements
    &&& is_packed_layout(record.vertex_layout, layout_formats)
    &&& record.bounds == bounds
    &&& !buffers.contains_key(record.vertex_buffer.spec_key())
    &&& after.tracker().buffers().contains_key(record.vertex_buffer.spec_key())
    &&& after.tracker().buffers()[record.vertex_buffer.spec_key()].label@ == label
    &&& after.tracker().buffers()[record.vertex_buffer.spec_key()].bytes == vertices.len()
    &&& after.tracker().buffers()[record.vertex_buffer.spec_key()].owner matches Some(o) && o@ == label
    &&& match indices {
        None => {
            &&& record.index_buffer is None
            &&& after.tracker().buffers() == buffers.insert(
                record.vertex_buffer.spec_key(),
                after.tracker().buffers()[record.vertex_buffer.spec_key()],
            )
        },
        Some(bytes) => record.index_buffer matches Some(ib) && {
            &&& !buffers.contains_key(ib.spec_key())
            &&& ib.spec_key() != record.vertex_buffer.spec_key()
            &&& after.tracker().buffers().contains_key(ib.spec_key())
            &&& after.tracker().buffers()[ib.spec_key()].label@ == index_label(label)
            &&& after.tracker().buffers()[ib.spec_key()].bytes == bytes.len()
            &&& after.tracker().buffers()[ib.spec_key()].owner matches Some(o) && o@ == label
            &&& after.tracker().buffers() == buffers.insert(
                record.vertex_buffer.spec_key(),
                after.tracker().buffers()[record.vertex_buffer.spec_key()],
            ).insert(ib.spec_key(), after.tracker().buffers()[ib.spec_key()])
        },
    }
}

/// The live mesh `handle` of `before` was destroyed, taking its buffers
/// along: `after` holds neither the mesh nor its buffers, their backend
/// releases queued.
pub open spec fn mesh_destroyed<B: GraphicsBackend>(after: Renderer<B>, before: Renderer<B>, handle: MeshHandle) -> bool {
    let k = mesh_key(handle);
    let record = before.mesh_pool()@[k];
    let without_vertex = before.tracker().buffers().remove(record.vertex_buffer.spec_key());
    &&& before.mesh_pool()@.contains_key(k)
    &&& after.mesh_pool()@ == before.mesh_pool()@.remove(k)
    &&& after.tracker().buffers() == match record.index_buffer {
        Some(ib) => without_vertex.remove(ib.spec_key()),
        None => without_vertex,
    }
    &&& after.tracker().unchanged_except_buffers(&before.tracker())
}

/// Law: a mesh created then destroyed leaves no trace — the live meshes
/// and the live buffers are those of before.
pub proof fn lemma_mesh_round_trip<B: GraphicsBackend>(
    r0: Renderer<B>,
    r1: Renderer<B>,
    r2: Renderer<B>,
    handle: MeshHandle,
    label: Seq<char>,
    vertices: Seq<u8>,
    indices: Option<Seq<u8>>,
    elements: u32,
    formats: Seq<crate::layout::VertexAttributeFormat>,
    bounds: Option<Aabb>,
)
    requires
        mesh_created(r1, r0, handle, label, vertices, indices, elements, formats, bounds),
        mesh_destroyed(r2, r1, handle),
    ensures
        r2.mesh_pool()@ == r0.mesh_pool()@,
        r2.tracker().buffers() == r0.tracker().buffers(),
{
    let k = mesh_key(handle);
    assert(r2.mesh_pool()@ =~= r0.mesh_pool()@);
    let record = r1.mesh_pool()@[k];
    let b0 = r0.tracker().buffers();
    match record.index_buffer {
        Some(ib) => {
            assert(r2.tracker().buffers() =~= b0);
        },
        None => {
            assert(r2.tracker().buffers() =~= b0);
        },
    }
}

/// Only buffers absent from `buffers` (made by the failed call) were queued
/// for release since `before`, at most two.
pub open spec fn released_fresh(
    after: Seq<crate::lifetime::Retired>,
    before: Seq<crate::lifetime::Retired>,
    buffers: Map<crate::registry::Key, BufferInfo>,
) -> bool {
    &&& before.len() <= after.len() <= before.len() + 2
    &&& after.subrange(0, before.len() as int) == before
    &&& forall|i: int|
        before.len() <= i < after.len() ==> ((#[trigger] after[i]) matches crate::lifetime::Retired::Buffer(b)
            && !buffers.contains_key(b.spec_key()))
}

impl<B: GraphicsBackend> Renderer<B> {
    /// Uploads a mesh's buffers and registers it. The device buffer limit
    /// covers mesh buffers too.
    fn register_mesh(
        &mut self,
        label: &String,
        vertex_bytes: Vec<u8>,
        index_bytes: Option<Vec<u8>>,
        element_count: u32,
        vertex_layout: VertexLayout,
        bounds: Option<Aabb>,
    ) -> (result: Result<MeshHandle, RenderError>)
        requires
            old(self).wf(),
        ensures
            final(self).wf(),
            final(self).same_frame(old(self)),
            final(self).same_settings(old(self)),
            final(self).material_pool() == old(self).material_pool(),
            final(self).texture_cache() == old(self).texture_cache(),
            final(self).fallback_sampler_handle() == old(self).fallback_sampler_handle(),
            final(self).caches() == old(self).caches(),
            final(self).library() == old(self).library(),
            final(self).tracker().unchanged_except_buffers(&old(self).tracker()),
            result is Ok ==> final(self).tracker().retired() == old(self).tracker().retired(),
            result is Err ==> final(self).tracker().buffers() == old(self).tracker().buffers(),
            result is Err ==> released_fresh(final(self).tracker().retired(), old(self).tracker().retired(), old(self).tracker().buffers()),
            result matches Ok(h) ==> {
                let k = mesh_key(h);
                let record = final(self).mesh_pool()@[k];
                &&& !old(self).mesh_pool()@.contains_key(k)
                &&& final(self).mesh_pool()@ == old(self).mesh_pool()@.insert(k, record)
                &&& record.element_count == element_count
                &&& record.vertex_layout.stride == vertex_layout.stride
                &&& record.vertex_layout.attributes@ == vertex_layout.attributes@
                &&& record.bounds == bounds
                &&& !old(self).tracker().buffers().contains_key(record.vertex_buffer.spec_key())
                &&& final(self).tracker().buffers().contains_key(record.vertex_buffer.spec_key())
                &&& final(self).tracker().buffers()[record.vertex_buffer.spec_key()].label@ == label@
                &&& final(self).tracker().buffers()[record.vertex_buffer.spec_key()].bytes == vertex_bytes@.len()
                &&& final(self).tracker().buffers()[record.vertex_buffer.spec_key()].owner matches Some(o) && o@
                    == label@
                &&& match index_bytes {
                    None => {
                        &&& record.index_buffer is None
                        &&& final(self).tracker().buffers() == old(self).tracker().buffers().insert(
                            record.vertex_buffer.spec_key(),
                            final(self).tracker().buffers()[record.vertex_buffer.spec_key()],
                        )
                    },
                    Some(bytes) => record.index_buffer matches Some(ib) && {
                        &&& !old(self).tracker().buffers().contains_key(ib.spec_key())
                        &&& ib.spec_key() != record.vertex_buffer.spec_key()
                        &&& final(self).tracker().buffers().contains_key(ib.spec_key())
                        &&& final(self).tracker().buffers()[ib.spec_key()].label@ == index_label(label@)
                        &&& final(self).tracker().buffers()[ib.spec_key()].bytes == bytes@.len()
                        &&& final(self).tracker().buffers()[ib.spec_key()].owner matches Some(o) && o@ == label@
                        &&& final(self).tracker().buffers() == old(self).tracker().buffers().insert(
                            record.vertex_buffer.spec_key(),
                            final(self).tracker().buffers()[record.vertex_buffer.spec_key()],
                        ).insert(ib.spec_key(), final(self).tracker().buffers()[ib.spec_key()])
                    },
                }
            },
            result is Err ==> final(self).mesh_pool()@ == old(self).mesh_pool()@,
            vertex_bytes@.len() > old(self).limits().max_buffer_bytes ==> {
                &&& result matches Err(RenderError::BufferLimit { label: l, bytes, limit })
                &&& l@ == label@ && bytes == vertex_bytes@.len() && limit == old(self).limits().max_buffer_bytes
                &&& final(self).tracker() == old(self).tracker()
                &&& final(self).backend() == old(self).backend()
            },
    {
        let ghost vertex_len = vertex_bytes@.len();
        let vertex_descriptor = BufferDescriptor::vertex(label.clone(), vertex_bytes);
        proof {
            old(self).tracker().lemma_unchanged_except_buffers_refl();
        }
        let vertex_buffer = match self.create_tracked_buffer(&vertex_descriptor, Some(label.clone())) {
            Ok(handle) => handle,
            Err(e) => {
                assert(self.tracker().retired().subrange(0, self.tracker().retired().len() as int) =~= self.tracker().retired());
                return Err(e);
            },
        };
        let ghost after_vertex = self.tracker().buffers();
        let ghost tracker_vertex = self.tracker();
        let index_buffer = match index_bytes {
            Some(bytes) => {
                let mut index_label = label.clone();
                index_label.append(".indices");
                let index_descriptor = BufferDescriptor::index(index_label, bytes);
                proof {
                    tracker_vertex.lemma_unchanged_except_buffers_refl();
                }
                match self.create_tracked_buffer(&index_descriptor, Some(label.clone())) {
                    Ok(handle) => Some(handle),
                    Err(e) => {
                        let ghost failed = self.tracker();
                        self.lifetime.retire_owned_buffer(vertex_buffer);
                        proof {
                            failed.lemma_unchanged_except_buffers_chain(&tracker_vertex, &old(self).tracker());
                            self.tracker().lemma_unchanged_except_buffers_chain(&failed, &old(self).tracker());
                            assert(self.tracker().buffers() =~= old(self).tracker().buffers());
                            assert(self.tracker().retired().subrange(0, old(self).tracker().retired().len() as int) =~= old(self).tracker().retired());
                        }
                        return Err(e);
                    },
                }
            },
            None => {
                proof {
                    tracker_vertex.lemma_unchanged_except_buffers_refl();
                }
                None
            },
        };
        proof {
            self.tracker().lemma_unchanged_except_buffers_chain(&tracker_vertex, &old(self).tracker());
        }
        let record = MeshRecord { vertex_buffer, index_buffer, element_count, vertex_layout, bounds };
        let pool_handle = match self.meshes.insert(record) {
            Some(h) => h,
            None => {
                assert(self.mesh_pool()@ == old(self).mesh_pool()@);
                let ghost full = self.tracker();
                self.lifetime.retire_owned_buffer(vertex_buffer);
                let ghost without_vertex = self.tracker();
                if let Some(ib) = index_buffer {
                    self.lifetime.retire_owned_buffer(ib);
                }
                proof {
                    without_vertex.lemma_unchanged_except_buffers_chain(&full, &old(self).tracker());
                    if index_buffer is Some {
                        self.tracker().lemma_unchanged_except_buffers_chain(&without_vertex, &old(self).tracker());
                    }
                    assert(self.tracker().buffers() =~= old(self).tracker().buffers());
                    assert(self.tracker().retired().subrange(0, old(self).tracker().retired().len() as int) =~= old(self).tracker().retired());
                }
                return Err(RenderError::PoolFull(ResourceKind::Mesh));
            },
        };
        let handle = MeshHandle { index: pool_handle.index, generation: pool_handle.generation };
        proof {
            assert(mesh_key(handle) == pool_handle);
            if index_buffer is Some {
                let ib = index_buffer->0;
                assert(after_vertex.contains_key(vertex_buffer.spec_key()));
                assert(ib.spec_key() != vertex_buffer.spec_key());
            }
        }
        Ok(handle)
    }

    /// Creates a mesh of colored vertices (layout `ColorVertex`); `bounds`
    /// are the local bounds of its positions (`None`: never culled).
    pub fn create_mesh(&mut self, label: &String, geometry: &Geometry, bounds: Option<Aabb>) -> (result: Result<
        MeshHandle,
        RenderError,
    >)
        requires
            old(self).wf(),
        ensures
            final(self).wf(),
            final(self).same_frame(old(self)),
            final(self).same_settings(old(self)),
            final(self).material_pool() == old(self).material_pool(),
            final(self).texture_cache() == old(self).texture_cache(),
            final(self).caches() == old(self).caches(),
            final(self).library() == old(self).library(),
            result matches Ok(h) ==> mesh_created(
                *final(self),
                *old(self),
                h,
                label@,
                color_vertices_bytes(geometry.vertices@),
                if geometry.indices@.len() > 0 {
                    Some(indices_bytes(geometry.indices@))
                } else {
                    None
                },
                element_count(geometry.vertices@.len(), geometry.indices@.len()),
                color_vertex_formats(),
                bounds,
            ),
            result is Err ==> final(self).mesh_pool()@ == old(self).mesh_pool()@,
            result is Err ==> final(self).tracker().buffers() == old(self).tracker().buffers(),
            result is Err ==> released_fresh(final(self).tracker().retired(), old(self).tracker().retired(), old(self).tracker().buffers()),
            color_vertices_bytes(geometry.vertices@).len() > old(self).limits().max_buffer_bytes ==> {
                &&& result matches Err(RenderError::BufferLimit { label: l, .. })
                &&& l@ == label@
                &&& final(self).tracker() == old(self).tracker()
            },
    {
        let indices = if geometry.indices.len() > 0 {
            Some(index_bytes(&geometry.indices))
        } else {
            None
        };
        self.register_mesh(
            label,
            geometry.vertex_bytes(),
            indices,
            geometry.element_count(),
            ColorVertex::layout(),
            bounds,
        )
    }

    /// Creates a mesh of textured vertices (layout `TexturedVertex`).
    pub fn create_textured_mesh(&mut self, label: &String, geometry: &TexturedGeometry, bounds: Option<Aabb>) -> (result:
        Result<MeshHandle, RenderError>)
        requires
            old(self).wf(),
        ensures
            final(self).wf(),
            final(self).same_frame(old(self)),
            final(self).same_settings(old(self)),
            final(self).material_pool() == old(self).material_pool(),
            final(self).texture_cache() == old(self).texture_cache(),
            final(self).caches() == old(self).caches(),
            final(self).library() == old(self).library(),
            result matches Ok(h) ==> mesh_created(
                *final(self),
                *old(self),
                h,
                label@,
                textured_vertices_bytes(geometry.vertices@),
                if geometry.indices@.len() > 0 {
                    Some(indices_bytes(geometry.indices@))
                } else {
                    None
                },
                element_count(geometry.vertices@.len(), geometry.indices@.len()),
                textured_vertex_formats(),
                bounds,
            ),
            result is Err ==> final(self).mesh_pool()@ == old(self).mesh_pool()@,
            result is Err ==> final(self).tracker().buffers() == old(self).tracker().buffers(),
            result is Err ==> released_fresh(final(self).tracker().retired(), old(self).tracker().retired(), old(self).tracker().buffers()),
            textured_vertices_bytes(geometry.vertices@).len() > old(self).limits().max_buffer_bytes ==> {
                &&& result matches Err(RenderError::BufferLimit { label: l, .. })
                &&& l@ == label@
                &&& final(self).tracker() == old(self).tracker()
            },
    {
        let indices = if geometry.indices.len() > 0 {
            Some(index_bytes(&geometry.indices))
        } else {
            None
        };
        self.register_mesh(
            label,
            geometry.vertex_bytes(),
            indices,
            geometry.element_count(),
            TexturedVertex::layout(),
            bounds,
        )
    }

    /// Creates a lit mesh (layout `LitVertex`: position, normal, UV), the
    /// mesh of lit materials.
    pub fn create_lit_mesh(&mut self, label: &String, geometry: &LitGeometry, bounds: Option<Aabb>) -> (result: Result<
        MeshHandle,
        RenderError,
    >)
        requires
            old(self).wf(),
        ensures
            final(self).wf(),
            final(self).same_frame(old(self)),
            final(self).same_settings(old(self)),
            final(self).material_pool() == old(self).material_pool(),
            final(self).texture_cache() == old(self).texture_cache(),
            final(self).caches() == old(self).caches(),
            final(self).library() == old(self).library(),
            result matches Ok(h) ==> mesh_created(
                *final(self),
                *old(self),
                h,
                label@,
                lit_vertices_bytes(geometry.vertices@),
                if geometry.indices@.len() > 0 {
                    Some(indices_bytes(geometry.indices@))
                } else {
                    None
                },
                element_count(geometry.vertices@.len(), geometry.indices@.len()),
                lit_vertex_formats(),
                bounds,
            ),
            result is Err ==> final(self).mesh_pool()@ == old(self).mesh_pool()@,
            result is Err ==> final(self).tracker().buffers() == old(self).tracker().buffers(),
            result is Err ==> released_fresh(final(self).tracker().retired(), old(self).tracker().retired(), old(self).tracker().buffers()),
            lit_vertices_bytes(geometry.vertices@).len() > old(self).limits().max_buffer_bytes ==> {
                &&& result matches Err(RenderError::BufferLimit { label: l, .. })
                &&& l@ == label@
                &&& final(self).tracker() == old(self).tracker()
            },
    {
        let indices = if geometry.indices.len() > 0 {
            Some(index_bytes(&geometry.indices))
        } else {
            None
        };
        self.register_mesh(
            label,
            geometry.vertex_bytes(),
            indices,
            geometry.element_count(),
            LitVertex::layout(),
            bounds,
        )
    }

    /// The local bounds of a live mesh (`None`: it carries none and is
    /// never culled).
    pub fn mesh_bounds(&self, handle: MeshHandle) -> (result: Result<Option<Aabb>, RenderError>)
        requires
            self.wf(),
        ensures
            match result {
                Ok(bounds) => self.mesh_pool()@.contains_key(mesh_key(handle)) && bounds == self.mesh_pool()@[mesh_key(
                    handle,
                )].bounds,
                Err(e) => !self.mesh_pool()@.contains_key(mesh_key(handle)) && e == RenderError::Stale(
                    ResourceKind::Mesh,
                ),
            },
    {
        match self.meshes.get(PoolHandle { index: handle.index, generation: handle.generation }) {
            Some(record) => Ok(record.bounds),
            None => Err(RenderError::Stale(ResourceKind::Mesh)),
        }
    }

    /// Destroys a mesh: its buffers go with it, released at the next safe
    /// point. A stale handle is refused.
    pub fn destroy_mesh(&mut self, handle: MeshHandle) -> (result: Result<(), RenderError>)
        requires
            old(self).wf(),
        ensures
            final(self).backend_calls() == old(self).backend_calls(),
            final(self).wf(),
            final(self).same_frame(old(self)),
            final(self).same_settings(old(self)),
            final(self).backend() == old(self).backend(),
            final(self).material_pool() == old(self).material_pool(),
            final(self).texture_cache() == old(self).texture_cache(),
            final(self).fallback_sampler_handle() == old(self).fallback_sampler_handle(),
            final(self).caches() == old(self).caches(),
            final(self).library() == old(self).library(),
            ({
                let k = mesh_key(handle);
                let meshes = old(self).mesh_pool()@;
                if meshes.contains_key(k) {
                    &&& result is Ok
                    &&& mesh_destroyed(*final(self), *old(self), handle)
                } else {
                    &&& result == Err::<(), RenderError>(RenderError::Stale(ResourceKind::Mesh))
                    &&& final(self).mesh_pool() == old(self).mesh_pool()
                    &&& final(self).tracker() == old(self).tracker()
                }
            }),
    {
        let pool_handle = PoolHandle { index: handle.index, generation: handle.generation };
        if !self.meshes.contains(pool_handle) {
            return Err(RenderError::Stale(ResourceKind::Mesh));
        }
        let record = match self.meshes.remove(pool_handle) {
            Some(record) => record,
            None => return Err(RenderError::Stale(ResourceKind::Mesh)),
        };
        self.lifetime.retire_owned_buffer(record.vertex_buffer);
        let ghost middle = self.tracker();
        if let Some(index_buffer) = record.index_buffer {
            self.lifetime.retire_owned_buffer(index_buffer);
            proof {
                self.tracker().lemma_unchanged_except_buffers_chain(&middle, &old(self).tracker());
            }
        }
        Ok(())
    }
}

} // verus!
