//! The graphics backend the renderer drives: every GPU object is created,
//! updated and released through it, and it executes the frame plans.
//! Nothing is assumed of what it answers: the renderer is verified for
//! every backend behaviour.

use vstd::prelude::*;
use crate::descriptors::{BufferDescriptor, RenderTargetDescriptor, SamplerDescriptor, TextureDescriptor};
use crate::error::{BackendError, RenderError};
use crate::frame::{FrameOutcome, FramePlan, GpuFrameTime};
use crate::handles::{
    BindingHandle, BufferHandle, PipelineHandle, RenderTargetHandle, SamplerHandle, TextureHandle,
};
use crate::materials::{MaterialBindingDescriptor, MaterialParams};
use crate::pipelines::PipelineDescriptor;
use crate::shaders::ShaderSource;

verus! {

/// The limits the device imposes, enforced by the renderer before any
/// backend call.
#[derive(Clone, Copy, Debug, PartialEq, Eq, Structural)]
pub struct DeviceLimits {
    /// The largest 2D texture (and cube face) side.
    pub max_texture_2d: u32,
    /// The largest buffer, in bytes.
    pub max_buffer_bytes: u64,
    /// The highest sampler anisotropy.
    pub max_anisotropy: u32,
}

/// The shadow map the backend keeps.
#[derive(Clone, Copy, Debug, PartialEq, Eq, Structural)]
pub struct ShadowConfig {
    pub resolution: u32,
}

/// A call the renderer made to its backend, with the backend's answer.
/// Pipeline creations are recorded in the pipeline caches instead.
pub enum BackendCall {
    CreateBuffer(BufferDescriptor, Result<BufferHandle, BackendError>),
    CreateTexture(TextureDescriptor, Result<TextureHandle, BackendError>),
    UpdateTexture(TextureHandle, Seq<u8>, Result<(), BackendError>),
    CreateSampler(SamplerDescriptor, Result<SamplerHandle, BackendError>),
    CreateRenderTarget(RenderTargetDescriptor, Result<(RenderTargetHandle, TextureHandle), BackendError>),
    CreateMaterialBinding(MaterialBindingDescriptor, Result<BindingHandle, BackendError>),
    UpdateMaterialBinding(BindingHandle, MaterialParams, Result<(), BackendError>),
    DestroyBuffer(BufferHandle),
    DestroyTexture(TextureHandle),
    DestroySampler(SamplerHandle),
    DestroyMaterialBinding(BindingHandle),
    DestroyRenderTarget(RenderTargetHandle),
    SetEnvironment(Option<TextureHandle>, Result<(), BackendError>),
    SetShadow(Option<ShadowConfig>, Result<(), BackendError>),
    Render(FramePlan, Result<FrameOutcome, BackendError>),
    Resize(u32, u32),
}

/// The refusal a recorded call was answered with, if any.
pub open spec fn call_error(c: BackendCall) -> Option<BackendError> {
    match c {
        BackendCall::CreateBuffer(_, Err(e)) => Some(e),
        BackendCall::CreateTexture(_, Err(e)) => Some(e),
        BackendCall::UpdateTexture(_, _, Err(e)) => Some(e),
        BackendCall::CreateSampler(_, Err(e)) => Some(e),
        BackendCall::CreateRenderTarget(_, Err(e)) => Some(e),
        BackendCall::CreateMaterialBinding(_, Err(e)) => Some(e),
        BackendCall::UpdateMaterialBinding(_, _, Err(e)) => Some(e),
        BackendCall::SetEnvironment(_, Err(e)) => Some(e),
        BackendCall::SetShadow(_, Err(e)) => Some(e),
        BackendCall::Render(_, Err(e)) => Some(e),
        _ => None,
    }
}

/// A backend refusal `e` is the answer of the last call made since
/// `before`: a backend error is never made up.
pub open spec fn refused_by_backend(after: Seq<BackendCall>, before: Seq<BackendCall>, e: BackendError) -> bool {
    &&& after.len() > before.len()
    &&& call_error(after.last()) == Some(e)
}

/// Since `before`, calls were only added, and the last one added, if any,
/// is no binding creation.
pub open spec fn binding_free(after: Seq<BackendCall>, before: Seq<BackendCall>) -> bool {
    &&& after.len() >= before.len()
    &&& after.subrange(0, before.len() as int) == before
    &&& after.len() > before.len() ==> !(after.last() is CreateMaterialBinding)
}

/// `result` is the backend's answer `a` to a call that returns nothing.
pub open spec fn answered_unit(a: Result<(), BackendError>, result: Result<(), RenderError>) -> bool {
    match a {
        Ok(_) => result is Ok,
        Err(e) => result == Err::<(), RenderError>(RenderError::Backend(e)),
    }
}

/// Exactly one environment binding of `cubemap` was made since `before`,
/// and `result` is its answer.
pub open spec fn environment_bound(
    after: Seq<BackendCall>,
    before: Seq<BackendCall>,
    cubemap: Option<TextureHandle>,
    result: Result<(), RenderError>,
) -> bool {
    exists|a: Result<(), BackendError>|
        #![trigger one_call(after, before, BackendCall::SetEnvironment(cubemap, a))]
        one_call(after, before, BackendCall::SetEnvironment(cubemap, a)) && answered_unit(a, result)
}

/// Exactly one shadow configuration `config` was made since `before`,
/// and `result` is its answer.
pub open spec fn shadow_bound(
    after: Seq<BackendCall>,
    before: Seq<BackendCall>,
    config: Option<ShadowConfig>,
    result: Result<(), RenderError>,
) -> bool {
    exists|a: Result<(), BackendError>|
        #![trigger one_call(after, before, BackendCall::SetShadow(config, a))]
        one_call(after, before, BackendCall::SetShadow(config, a)) && answered_unit(a, result)
}

/// A backend error `e` is the answer of the last call made since
/// `before`; a reused handle came with a call made since `before`. Other
/// refusals are the library's own.
pub open spec fn answer_recorded(e: RenderError, after: Seq<BackendCall>, before: Seq<BackendCall>) -> bool {
    match e {
        RenderError::Backend(be) => refused_by_backend(after, before, be),
        RenderError::BackendHandleReused(_) => after.len() > before.len(),
        _ => true,
    }
}

/// Exactly `call` was made since `before`.
pub open spec fn one_call(after: Seq<BackendCall>, before: Seq<BackendCall>, call: BackendCall) -> bool {
    after == before.push(call)
}

/// A graphics backend (the production one, or a test double).
pub trait GraphicsBackend {
    /// The capability report: names, limits and the decision taken for
    /// each optional domain.
    fn capabilities(&self) -> crate::capabilities::RendererCapabilities;

    /// A human description of the adapter and API.
    fn description(&self) -> String;

    fn create_buffer(&mut self, descriptor: &BufferDescriptor) -> Result<BufferHandle, BackendError>;

    fn create_texture(&mut self, descriptor: &TextureDescriptor) -> Result<TextureHandle, BackendError>;

    /// Replaces the pixels of level 0 of a texture.
    fn update_texture(&mut self, texture: TextureHandle, pixels: &[u8]) -> Result<(), BackendError>;

    fn create_sampler(&mut self, descriptor: &SamplerDescriptor) -> Result<SamplerHandle, BackendError>;

    /// Creates a render target and its sampleable color texture.
    fn create_render_target(&mut self, descriptor: &RenderTargetDescriptor) -> Result<
        (RenderTargetHandle, TextureHandle),
        BackendError,
    >;

    fn create_pipeline(&mut self, descriptor: &PipelineDescriptor, shader: &ShaderSource) -> Result<
        PipelineHandle,
        BackendError,
    >;

    fn create_material_binding(&mut self, descriptor: &MaterialBindingDescriptor) -> Result<
        BindingHandle,
        BackendError,
    >;

    /// Rewrites the uniforms of a binding in place.
    fn update_material_binding(&mut self, binding: BindingHandle, params: &MaterialParams) -> Result<
        (),
        BackendError,
    >;

    fn destroy_buffer(&mut self, buffer: BufferHandle) -> Result<(), BackendError>;

    fn destroy_texture(&mut self, texture: TextureHandle) -> Result<(), BackendError>;

    fn destroy_sampler(&mut self, sampler: SamplerHandle) -> Result<(), BackendError>;

    fn destroy_material_binding(&mut self, binding: BindingHandle) -> Result<(), BackendError>;

    fn destroy_render_target(&mut self, target: RenderTargetHandle) -> Result<(), BackendError>;

    /// Binds the environment cubemap (`None`: the black fallback).
    fn set_environment(&mut self, cubemap: Option<TextureHandle>) -> Result<(), BackendError>;

    /// Creates the shadow map at a resolution (`None`: releases it).
    fn set_shadow(&mut self, config: Option<ShadowConfig>) -> Result<(), BackendError>;

    /// Executes a frame plan.
    fn render(&mut self, plan: &FramePlan) -> Result<FrameOutcome, BackendError>;

    /// Reconfigures the surface (a zero side suspends rendering).
    fn resize(&mut self, width: u32, height: u32);

    /// The GPU time of the last frame, when measured.
    fn gpu_frame_time(&self) -> GpuFrameTime;
}

} // verus!
