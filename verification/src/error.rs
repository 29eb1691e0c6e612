//! The refusals of the renderer, each carrying what its message names.

use vstd::prelude::*;

verus! {

/// The family of a resource named by a refusal.
#[derive(Clone, Copy, Debug, PartialEq, Eq, Structural)]
pub enum ResourceKind {
    Buffer,
    Texture,
    Sampler,
    RenderTarget,
    Material,
    Mesh,
    Pass,
}

/// A material property that its model would ignore.
#[derive(Clone, Copy, Debug, PartialEq, Eq, Structural)]
pub enum PbrProperty {
    Metallic,
    Roughness,
    MetallicRoughnessTexture,
    NormalMap,
    OcclusionTexture,
    Emissive,
    EmissiveTexture,
}

/// Why a material descriptor or update was refused.
#[derive(Clone, Copy, Debug, PartialEq, Eq, Structural)]
pub enum MaterialRule {
    /// A texture or sampler on a model without material inputs.
    TextureWithoutInputs,
    /// A sampler on a model without material inputs.
    SamplerWithoutInputs,
    /// A non-white base color on a model without material inputs.
    BaseColorWithoutInputs,
    /// A PBR property on a model that does not read it.
    PbrWithoutPbr(PbrProperty),
    /// `receive_shadows` off on a model that ignores lighting.
    ReceiveShadowsWithoutLighting,
    /// `Masked` opacity on a model without material inputs (no alpha).
    MaskedWithoutInputs,
    /// An alpha cutoff outside 0..=1 or not finite.
    AlphaCutoffRange,
    /// A non-default alpha cutoff on a non-`Masked` material.
    AlphaCutoffWithoutMask,
}

/// A refusal of the renderer. No refusal ever changes the renderer state.
#[derive(Debug)]
#[allow(inconsistent_fields)]
pub enum RenderError {
    /// The handle is stale, already destroyed or unknown.
    Stale(ResourceKind),
    /// A builtin fallback texture or sampler is protected.
    BuiltinFallback { kind: ResourceKind, label: String },
    /// The texture or sampler is still shared by `materials` materials.
    StillShared { kind: ResourceKind, label: String, materials: u32 },
    /// The buffer belongs to a mesh: destroy the mesh instead.
    OwnedByMesh { label: String, mesh: String },
    /// The texture is the active environment: clear it first.
    ActiveEnvironment { label: String },
    /// The texture exceeds the device texture limit.
    TextureLimit { label: String, width: u32, height: u32, limit: u32 },
    /// The buffer exceeds the device buffer limit.
    BufferLimit { label: String, bytes: u64, limit: u64 },
    /// The sampler anisotropy exceeds the device ceiling.
    AnisotropyLimit { label: String, anisotropy: u32, ceiling: u32 },
    /// The shadow map resolution exceeds the device texture limit.
    ShadowResolutionLimit { resolution: u32, limit: u32 },
    /// Only single-level 2D textures accept in-place updates.
    NotUpdatable { label: String },
    /// An update carries the wrong number of bytes.
    UpdateSize { label: String, expected: u128, got: u64 },
    /// A material slot received a cubemap.
    CubemapInMaterial { material: String, texture: String },
    /// The environment expects a cubemap.
    NotACubemap { label: String },
    /// A material input that its model or opacity would ignore.
    Material { material: String, rule: MaterialRule },
    /// The pool of meshes or materials is full.
    PoolFull(ResourceKind),
    /// A pass label is empty.
    EmptyPassLabel,
    /// The `chaos.` pass label prefix is reserved for engine passes.
    ReservedPassLabel { label: String },
    /// Pass labels are unique.
    DuplicatePassLabel { label: String },
    /// The main pass renders to the surface.
    MainPassDestination,
    /// The main pass label cannot change.
    MainPassLabel,
    /// A pass destination target is stale.
    StaleDestination { pass: String },
    /// A pass declared read is stale.
    StaleRead { pass: String },
    /// A pass writes a target after another pass reads it.
    ScheduleConflict { writer: String, reader: String, target: String },
    /// A pass samples its own destination.
    FeedbackLoop { pass: String },
    /// A value that must be finite and positive (or non-negative) is not.
    InvalidValue,
    /// A texture or render target with a zero dimension.
    ZeroDimensions { label: String },
    /// The pixels do not match the described texture.
    PixelSize { label: String, expected: u128, got: u64 },
    /// A render-target texture carries initial pixels.
    RenderTargetPixels { label: String },
    /// A cubemap must be square.
    CubeNotSquare { label: String },
    /// Provided mip levels outside 1..=the full chain.
    MipLevels { label: String, levels: u32, max: u32 },
    /// An anisotropy outside 1..=16.
    AnisotropyRange { label: String, anisotropy: u32 },
    /// Anisotropic filtering needs Linear filtering everywhere.
    AnisotropyFiltering { label: String },
    /// A shadow map resolution outside 16..=8192.
    ShadowResolutionRange { resolution: u32 },
    /// A shadow volume whose half extents are not all finite and positive
    /// (or whose center is not finite).
    ShadowVolume,
    /// A shadow bias that is not finite and non-negative.
    ShadowBias,
    /// An environment intensity that is not finite and non-negative.
    EnvironmentIntensity { label: String },
    /// An exposure that is not finite and positive.
    Exposure,
    /// A named shader missing from the library.
    UnknownShader { name: String },
    /// The backend handed out a handle that is still registered.
    BackendHandleReused(ResourceKind),
    /// The backend refused the operation.
    Backend(BackendError),
}

/// A refusal reported by the graphics backend.
#[derive(Debug)]
pub struct BackendError {
    pub message: String,
}

} // verus!
