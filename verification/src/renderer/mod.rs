//! The renderer: it drives a graphics backend, owns the GPU resources,
//! the meshes and materials, the declared passes and their queues, the
//! persistent lighting settings and the debug store, and plans each frame.
//! Each family of operations lives in a child module.

use vstd::prelude::*;
use vstd::string::*;
use crate::backend::{BackendCall, DeviceLimits, GraphicsBackend};
use crate::debug::DebugStore;
use crate::frame::{
    BudgetStats, CpuCost, FallbackStats, FrameReport, FrameTotals, GpuFrameTime, RendererDiagnostics,
    ResourceStats, SurfaceStats,
};
use crate::handles::{PassHandle, SamplerHandle, TextureHandle};
use crate::lifetime::{KindStats, LifetimeTracker};
use crate::lights::Light;
use crate::materials::MaterialRecord;
use crate::math::{Color, Mat4, Vec3};
use crate::passes::{DrawCommand, PassLoad, PassRegistry, PassSpec};
use crate::pipelines::PipelineCaches;
use crate::pool::{PoolHandle, ResourcePool};
use crate::shaders::ShaderLibrary;

pub mod debug_draws;
pub mod lighting;
pub mod meshes;
pub mod orchestrate;
pub mod resolve;
pub mod resources;
pub mod schedule;
pub mod surfaces;

pub use lighting::{DirectionalShadowDescriptor, EnvironmentState};
pub use meshes::MeshRecord;

verus! {

/// The renderer of the engine over a graphics backend.
pub struct Renderer<B: GraphicsBackend> {
    backend: B,
    limits: DeviceLimits,
    capabilities: crate::capabilities::RendererCapabilities,
    shaders: ShaderLibrary,
    meshes: ResourcePool<MeshRecord>,
    materials: ResourcePool<MaterialRecord>,
    lifetime: LifetimeTracker,
    texture_cache: Vec<(String, TextureHandle)>,
    fallback_sampler: Option<SamplerHandle>,
    surface_size: (u32, u32),
    passes: PassRegistry,
    report: FrameReport,
    last_clear_color: Color,
    pipelines: PipelineCaches,
    frame_lights: Vec<Light>,
    ambient_color: Color,
    ambient_intensity: u32,
    environment: Option<EnvironmentState>,
    exposure: u32,
    directional_shadow: Option<DirectionalShadowDescriptor>,
    debug: DebugStore,
    diagnostics: RendererDiagnostics,
    /// The calls made to the backend so far, with its answers.
    sent: Ghost<Seq<BackendCall>>,
}

impl<B: GraphicsBackend> Renderer<B> {
    /// The renderer's invariant.
    pub closed spec fn wf(&self) -> bool {
        &&& self.shaders.wf()
        &&& self.meshes.wf()
        &&& self.materials.wf()
        &&& self.lifetime.wf()
        &&& self.passes.wf()
        &&& self.debug.wf()
        &&& self.pipelines.wf()
        &&& crate::pipelines::unique_keys(self.texture_cache())
        &&& (self.passes.passes().len() > 0 ==> (self.passes.passes()[0].load matches PassLoad::Clear(c) ==> self.last_clear_color == c))
    }

    /// The backend.
    pub closed spec fn backend(&self) -> B {
        self.backend
    }

    /// The calls the renderer made to its backend, oldest first, each with
    /// the backend's answer (pipeline creations excepted: the pipeline
    /// caches record them).
    pub closed spec fn backend_calls(&self) -> Seq<BackendCall> {
        self.sent@
    }

    /// The device limits, read from the backend at construction.
    pub closed spec fn limits(&self) -> DeviceLimits {
        self.limits
    }

    /// The capability report, read from the backend at construction.
    pub closed spec fn capability_report(&self) -> crate::capabilities::RendererCapabilities {
        self.capabilities
    }

    /// The shader library.
    pub closed spec fn library(&self) -> ShaderLibrary {
        self.shaders
    }

    /// The registry of owned GPU resources.
    pub closed spec fn tracker(&self) -> LifetimeTracker {
        self.lifetime
    }

    /// The live meshes.
    pub closed spec fn mesh_pool(&self) -> ResourcePool<MeshRecord> {
        self.meshes
    }

    /// The live materials.
    pub closed spec fn material_pool(&self) -> ResourcePool<MaterialRecord> {
        self.materials
    }

    /// The texture cache: labels and the textures created under them.
    pub closed spec fn texture_cache(&self) -> Seq<(Seq<char>, TextureHandle)> {
        Seq::new(self.texture_cache@.len(), |i: int| (self.texture_cache@[i].0@, self.texture_cache@[i].1))
    }

    /// The builtin fallback sampler, once created.
    pub closed spec fn fallback_sampler_handle(&self) -> Option<SamplerHandle> {
        self.fallback_sampler
    }

    /// The last known surface size.
    pub closed spec fn surface(&self) -> (u32, u32) {
        self.surface_size
    }

    /// The declared passes, in registration order.
    pub closed spec fn passes(&self) -> Seq<PassSpec> {
        self.passes.passes()
    }

    /// The draw queue of each pass.
    pub closed spec fn queues(&self) -> Seq<Seq<DrawCommand>> {
        self.passes.queues()
    }

    /// The last clear color set on the main pass.
    pub closed spec fn last_clear(&self) -> Color {
        self.last_clear_color
    }

    /// The pipeline caches.
    pub closed spec fn caches(&self) -> PipelineCaches {
        self.pipelines
    }

    /// The lights submitted for the current frame.
    pub closed spec fn submitted_lights(&self) -> Seq<Light> {
        self.frame_lights@
    }

    /// The ambient light: color and intensity (bit pattern).
    pub closed spec fn ambient(&self) -> (Color, u32) {
        (self.ambient_color, self.ambient_intensity)
    }

    /// The active environment.
    pub closed spec fn environment(&self) -> Option<EnvironmentState> {
        self.environment
    }

    /// The exposure (bit pattern).
    pub closed spec fn exposure_bits(&self) -> u32 {
        self.exposure
    }

    /// The directional shadow settings.
    pub closed spec fn shadow_settings(&self) -> Option<DirectionalShadowDescriptor> {
        self.directional_shadow
    }

    /// The debug store.
    pub closed spec fn debug_store(&self) -> DebugStore {
        self.debug
    }

    /// The report of the last orchestrated frame.
    pub closed spec fn last_report(&self) -> FrameReport {
        self.report
    }

    /// The diagnostics snapshot.
    pub closed spec fn last_diagnostics(&self) -> RendererDiagnostics {
        self.diagnostics
    }

    /// The owned resources (tracker, meshes, materials, caches, fallbacks)
    /// are those of `other`.
    pub open spec fn same_resources(&self, other: &Self) -> bool {
        &&& self.tracker() == other.tracker()
        &&& self.mesh_pool() == other.mesh_pool()
        &&& self.material_pool() == other.material_pool()
        &&& self.texture_cache() == other.texture_cache()
        &&& self.fallback_sampler_handle() == other.fallback_sampler_handle()
        &&& self.caches() == other.caches()
        &&& self.library() == other.library()
    }

    /// The passes, queues, lights, debug store, report and diagnostics are
    /// those of `other`.
    pub open spec fn same_frame(&self, other: &Self) -> bool {
        &&& self.passes() == other.passes()
        &&& self.queues() == other.queues()
        &&& self.submitted_lights() == other.submitted_lights()
        &&& self.debug_store() == other.debug_store()
        &&& self.last_report() == other.last_report()
        &&& self.last_diagnostics() == other.last_diagnostics()
    }

    /// The persistent settings are those of `other`.
    pub open spec fn same_settings(&self, other: &Self) -> bool {
        &&& self.surface() == other.surface()
        &&& self.last_clear() == other.last_clear()
        &&& self.ambient() == other.ambient()
        &&& self.environment() == other.environment()
        &&& self.exposure_bits() == other.exposure_bits()
        &&& self.shadow_settings() == other.shadow_settings()
        &&& self.limits() == other.limits()
        &&& self.capability_report() == other.capability_report()
    }

    /// Only the tracker, the texture cache, the fallback sampler and the
    /// backend may differ from `other`.
    pub open spec fn same_but_resources(&self, other: &Self) -> bool {
        &&& self.same_frame(other)
        &&& self.same_settings(other)
        &&& self.mesh_pool() == other.mesh_pool()
        &&& self.material_pool() == other.material_pool()
        &&& self.caches() == other.caches()
        &&& self.library() == other.library()
    }

    /// Nothing but the backend differs from `other`.
    pub open spec fn same_state(&self, other: &Self) -> bool {
        self.same_resources(other) && self.same_frame(other) && self.same_settings(other)
    }

    /// Attaches a renderer to an initialized backend presenting to a
    /// surface of `width`×`height`: as `with_backend`, with that surface
    /// size.
    pub fn attach(backend: B, width: u32, height: u32) -> (renderer: Self)
        ensures
            renderer.wf(),
            renderer.backend() == backend,
            renderer.passes().len() == 1,
            renderer.queues() == seq![Seq::<DrawCommand>::empty()],
            renderer.mesh_pool()@ == Map::<PoolHandle, MeshRecord>::empty(),
            renderer.material_pool()@ == Map::<PoolHandle, MaterialRecord>::empty(),
            renderer.texture_cache() == Seq::<(Seq<char>, TextureHandle)>::empty(),
            renderer.surface() == (width, height),
            renderer.submitted_lights() == Seq::<Light>::empty(),
            renderer.environment() is None,
            renderer.shadow_settings() is None,
            renderer.exposure_bits() == crate::math::ONE_BITS,
            renderer.debug_store().is_enabled(),
    {
        let mut renderer = Self::with_backend(backend);
        renderer.surface_size = (width, height);
        renderer
    }

    /// A renderer over `backend`: the main pass `chaos.main` (surface,
    /// cleared to black), no resources, a 1×1 surface, no light, no
    /// environment, exposure 1, no shadows, debug rendering on.
    pub fn with_backend(backend: B) -> (renderer: Self)
        ensures
            renderer.wf(),
            renderer.backend() == backend,
            renderer.passes().len() == 1,
            renderer.queues() == seq![Seq::<DrawCommand>::empty()],
            renderer.mesh_pool()@ == Map::<PoolHandle, MeshRecord>::empty(),
            renderer.material_pool()@ == Map::<PoolHandle, MaterialRecord>::empty(),
            renderer.texture_cache() == Seq::<(Seq<char>, TextureHandle)>::empty(),
            renderer.surface() == (1u32, 1u32),
            renderer.submitted_lights() == Seq::<Light>::empty(),
            renderer.environment() is None,
            renderer.shadow_settings() is None,
            renderer.exposure_bits() == crate::math::ONE_BITS,
            renderer.debug_store().is_enabled(),
            renderer.passes()[0].label == crate::passes::main_label(),
            renderer.passes()[0].destination == crate::passes::RenderDestination::Surface,
            renderer.passes()[0].order == 0,
            renderer.passes()[0].enabled,
            renderer.passes()[0].load == PassLoad::Clear(
                Color { r: crate::math::ZERO_BITS, g: crate::math::ZERO_BITS, b: crate::math::ZERO_BITS, a: crate::math::ONE_BITS },
            ),
            renderer.last_clear() == (Color {
                r: crate::math::ZERO_BITS,
                g: crate::math::ZERO_BITS,
                b: crate::math::ZERO_BITS,
                a: crate::math::ONE_BITS,
            }),
            renderer.ambient() == (
                Color { r: crate::math::ZERO_BITS, g: crate::math::ZERO_BITS, b: crate::math::ZERO_BITS, a: crate::math::ONE_BITS },
                crate::math::ZERO_BITS,
            ),
            renderer.last_report().passes@.len() == 0,
            renderer.last_report().shadow is None,
            renderer.last_diagnostics().budget.budget_ms is None,
            renderer.backend_calls() == Seq::<BackendCall>::empty(),
            renderer.limits() == renderer.capability_report().limits,
            renderer.debug_store().frame_draws().len() == 0,
            renderer.debug_store().retained_draws().len() == 0,
            renderer.debug_store().disabled_categories() == Set::<Seq<char>>::empty(),
    {
        let capabilities = backend.capabilities();
        let limits = capabilities.limits;
        let mut no_frame = String::new();
        no_frame.append("no frame has been measured yet");
        let renderer = Renderer {
            backend,
            limits,
            capabilities,
            shaders: ShaderLibrary::new(),
            meshes: ResourcePool::new(),
            materials: ResourcePool::new(),
            lifetime: LifetimeTracker::new(),
            texture_cache: Vec::new(),
            fallback_sampler: None,
            surface_size: (1, 1),
            passes: PassRegistry::new(),
            report: FrameReport { passes: Vec::new(), shadow: None },
            last_clear_color: Color::black(),
            pipelines: PipelineCaches::new(),
            frame_lights: Vec::new(),
            ambient_color: Color::black(),
            ambient_intensity: crate::math::ZERO_BITS,
            environment: None,
            exposure: crate::math::ONE_BITS,
            directional_shadow: None,
            debug: DebugStore::new(),
            diagnostics: RendererDiagnostics {
                frame: FrameTotals {
                    submitted: 0,
                    resolved: 0,
                    injected: 0,
                    classic_draws: 0,
                    instanced_draws: 0,
                    instances: 0,
                    culled: 0,
                    triangles: 0,
                    pipeline_switches: 0,
                    material_switches: 0,
                    debug_segments: 0,
                    passes_executed: 0,
                    passes_skipped: 0,
                },
                passes: Vec::new(),
                shadow: None,
                surface: SurfaceStats { presented: 0, skipped_unavailable: 0, reconfigured: 0, zero_area: 0 },
                budget: BudgetStats { budget_ms: None, over_budget_frames: 0, last_frame_over: false },
                fallbacks: FallbackStats { degraded_permutations: 0, fallback_textures: 0, fallback_samplers: 0 },
                cpu: CpuCost { resolve_ms: 0, backend_ms: 0, total_ms: 0 },
                gpu: GpuFrameTime::Unavailable(no_frame),
                resources: ResourceStats {
                    buffers: KindStats { alive: 0, bytes: 0 },
                    textures: KindStats { alive: 0, bytes: 0 },
                    samplers: 0,
                    pipelines: 0,
                    meshes: 0,
                    materials: 0,
                    bindings: 0,
                    render_targets: KindStats { alive: 0, bytes: 0 },
                    shadow_maps: KindStats { alive: 0, bytes: 0 },
                    retired: 0,
                    estimated_bytes: 0,
                },
            },
            sent: Ghost(Seq::empty()),
        };
        assert(renderer.texture_cache() =~= Seq::<(Seq<char>, TextureHandle)>::empty());
        renderer
    }
}

} // verus!
