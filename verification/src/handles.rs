//! Handles: the backend-issued identities of GPU resources, the
//! generational handles of meshes and materials, and pass handles.

use vstd::prelude::*;
use crate::registry::Key;

verus! {

/// A GPU buffer issued by the backend.
#[derive(Clone, Copy, Debug, PartialEq, Eq, Structural)]
pub struct BufferHandle {
    pub index: u32,
    pub generation: u32,
}

/// A GPU texture issued by the backend.
#[derive(Clone, Copy, Debug, PartialEq, Eq, Structural)]
pub struct TextureHandle {
    pub index: u32,
    pub generation: u32,
}

/// A GPU sampler issued by the backend.
#[derive(Clone, Copy, Debug, PartialEq, Eq, Structural)]
pub struct SamplerHandle {
    pub index: u32,
    pub generation: u32,
}

/// An offscreen render target issued by the backend.
#[derive(Clone, Copy, Debug, PartialEq, Eq, Structural)]
pub struct RenderTargetHandle {
    pub index: u32,
    pub generation: u32,
}

/// A material binding (uniforms + textures) issued by the backend.
#[derive(Clone, Copy, Debug, PartialEq, Eq, Structural)]
pub struct BindingHandle {
    pub index: u32,
    pub generation: u32,
}

/// A graphics pipeline issued by the backend.
#[derive(Clone, Copy, Debug, PartialEq, Eq, Structural)]
pub struct PipelineHandle {
    pub index: u32,
}

/// A mesh of the renderer's mesh pool.
#[derive(Clone, Copy, Debug, PartialEq, Eq, Structural)]
pub struct MeshHandle {
    pub index: u32,
    pub generation: u32,
}

/// A material of the renderer's material pool.
#[derive(Clone, Copy, Debug, PartialEq, Eq, Structural)]
pub struct MaterialHandle {
    pub index: u32,
    pub generation: u32,
}

/// A declared render pass (its registration index).
#[derive(Clone, Copy, Debug, PartialEq, Eq, Structural)]
pub struct PassHandle(pub u32);

impl BufferHandle {
    pub open spec fn spec_key(self) -> Key {
        Key { index: self.index, generation: self.generation }
    }

    pub fn key(&self) -> (k: Key)
        ensures
            k == self.spec_key(),
    {
        Key { index: self.index, generation: self.generation }
    }
}

impl TextureHandle {
    pub open spec fn spec_key(self) -> Key {
        Key { index: self.index, generation: self.generation }
    }

    pub fn key(&self) -> (k: Key)
        ensures
            k == self.spec_key(),
    {
        Key { index: self.index, generation: self.generation }
    }
}

impl SamplerHandle {
    pub open spec fn spec_key(self) -> Key {
        Key { index: self.index, generation: self.generation }
    }

    pub fn key(&self) -> (k: Key)
        ensures
            k == self.spec_key(),
    {
        Key { index: self.index, generation: self.generation }
    }
}

impl RenderTargetHandle {
    pub open spec fn spec_key(self) -> Key {
        Key { index: self.index, generation: self.generation }
    }

    pub fn key(&self) -> (k: Key)
        ensures
            k == self.spec_key(),
    {
        Key { index: self.index, generation: self.generation }
    }
}

} // verus!
