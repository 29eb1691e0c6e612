//! The frame: the plan handed to the backend, the report of what each
//! pass did, and the diagnostics snapshot with its cumulative counters.

use vstd::prelude::*;
use crate::analysis::{DrawAnalysis, FrameDebugBatch};
use crate::batching::{FrameDraw, InstanceTransforms};
use crate::debug::DebugVertex;
use crate::lifetime::KindStats;
use crate::lights::FrameLights;
use crate::math::{Mat4, Vec3};
use crate::passes::{PassLoad, RenderDestination};

verus! {

/// One pass of the plan, resolved.
#[derive(Debug)]
pub struct FramePass {
    pub label: String,
    pub destination: RenderDestination,
    pub load: PassLoad,
    pub view_projection: Mat4,
    pub camera_position: Vec3,
    pub draws: Vec<FrameDraw>,
    pub instances: Vec<InstanceTransforms>,
    pub debug: Vec<FrameDebugBatch>,
    pub debug_vertices: Vec<DebugVertex>,
}

/// The directional shadow pass of the plan.
#[derive(Debug)]
pub struct FrameShadowPass {
    pub view_projection: Mat4,
    pub resolution: u32,
    pub depth_bias: u32,
    pub normal_bias: u32,
    /// The position of the casting light in the plan's lights.
    pub light_index: u32,
    pub draws: Vec<FrameDraw>,
    pub instances: Vec<InstanceTransforms>,
}

/// The environment terms of the frame (bit patterns): the active
/// environment intensity (zero without one) and the exposure.
#[derive(Clone, Copy, Debug)]
pub struct FrameEnvironment {
    pub intensity: u32,
    pub exposure: u32,
}

/// What the backend executes for a frame.
#[derive(Debug)]
pub struct FramePlan {
    pub passes: Vec<FramePass>,
    pub lights: FrameLights,
    pub environment: FrameEnvironment,
    pub shadow: Option<FrameShadowPass>,
}

/// Why the backend skipped presenting a frame.
#[derive(Clone, Copy, Debug, PartialEq, Eq, Structural)]
pub enum FrameSkipReason {
    SurfaceUnavailable,
    SurfaceReconfigured,
    ZeroArea,
}

/// What became of a frame.
#[derive(Clone, Copy, Debug, PartialEq, Eq, Structural)]
pub enum FrameOutcome {
    Rendered,
    Skipped(FrameSkipReason),
}

/// What became of one declared pass in a frame.
#[derive(Clone, Copy, Debug, PartialEq, Eq, Structural)]
pub enum PassOutcome {
    Executed,
    Disabled,
    /// Its destination target was stale: the pass disabled itself.
    StaleTarget,
    /// Executed, but the surface frame was skipped by the backend.
    SurfaceSkipped,
}

/// The logical objects of a pass by category.
#[derive(Clone, Copy, Debug, PartialEq, Eq, Structural, Default)]
pub struct DrawBreakdown {
    pub opaque: usize,
    pub masked: usize,
    pub transparent: usize,
    /// Objects the renderer added (the sky, debug primitives).
    pub injected: usize,
}

/// The report of one pass.
#[derive(Debug)]
pub struct PassReport {
    pub label: String,
    pub destination: RenderDestination,
    /// Logical objects drawn.
    pub draws: usize,
    /// Submissions to the GPU.
    pub draw_calls: usize,
    /// Objects rejected by the pass frustum.
    pub culled: usize,
    pub breakdown: DrawBreakdown,
    pub outcome: PassOutcome,
}

/// The report of the shadow pass.
#[derive(Clone, Copy, Debug, PartialEq, Eq, Structural)]
pub struct ShadowReport {
    pub draws: usize,
    pub draw_calls: usize,
    pub culled: usize,
    pub resolution: u32,
}

/// The report of the last orchestrated frame, passes in execution order.
#[derive(Debug)]
pub struct FrameReport {
    pub passes: Vec<PassReport>,
    pub shadow: Option<ShadowReport>,
}

/// The diagnostics of one executed pass.
#[derive(Debug)]
pub struct PassStats {
    pub label: String,
    pub draws: usize,
    pub draw_calls: usize,
    pub culled: usize,
    pub triangles: usize,
    pub classic_draws: usize,
    pub instanced_draws: usize,
    pub instances: usize,
    pub pipeline_switches: usize,
    pub material_switches: usize,
}

/// The totals of a frame over its passes.
#[derive(Clone, Copy, Debug, PartialEq, Eq, Structural, Default)]
pub struct FrameTotals {
    pub submitted: usize,
    pub resolved: usize,
    pub injected: usize,
    pub classic_draws: usize,
    pub instanced_draws: usize,
    pub instances: usize,
    pub culled: usize,
    pub triangles: usize,
    pub pipeline_switches: usize,
    pub material_switches: usize,
    pub debug_segments: usize,
    pub passes_executed: usize,
    pub passes_skipped: usize,
}

/// The diagnostics of the shadow pass.
#[derive(Clone, Copy, Debug, PartialEq, Eq, Structural)]
pub struct ShadowStats {
    pub draws: usize,
    pub draw_calls: usize,
    pub culled: usize,
    pub instances: usize,
    pub triangles: usize,
}

/// Surface events since the renderer started (cumulative).
#[derive(Clone, Copy, Debug, PartialEq, Eq, Structural, Default)]
pub struct SurfaceStats {
    pub presented: u64,
    pub skipped_unavailable: u64,
    pub reconfigured: u64,
    pub zero_area: u64,
}

/// The CPU budget and the frames over it (cumulative).
#[derive(Clone, Copy, Debug, PartialEq, Eq, Structural, Default)]
pub struct BudgetStats {
    /// Milliseconds per frame (bit pattern); `None`: no budget.
    pub budget_ms: Option<u32>,
    pub over_budget_frames: u64,
    pub last_frame_over: bool,
}

/// The degraded paths in use.
#[derive(Clone, Copy, Debug, PartialEq, Eq, Structural, Default)]
pub struct FallbackStats {
    /// Pipeline permutations whose creation failed (memoized).
    pub degraded_permutations: usize,
    pub fallback_textures: usize,
    pub fallback_samplers: usize,
}

/// The CPU cost of the last frame in milliseconds (bit patterns).
#[derive(Clone, Copy, Debug, PartialEq, Eq, Structural, Default)]
pub struct CpuCost {
    pub resolve_ms: u32,
    pub backend_ms: u32,
    pub total_ms: u32,
}

/// The GPU time of a frame, when the backend can measure it.
#[derive(Debug)]
pub enum GpuFrameTime {
    /// Milliseconds (bit pattern).
    Measured(u32),
    /// Why no measure exists.
    Unavailable(String),
}

/// The owned GPU resources: counts, exact byte costs, pending releases.
#[derive(Clone, Copy, Debug, PartialEq, Eq, Structural, Default)]
pub struct ResourceStats {
    pub buffers: KindStats,
    pub textures: KindStats,
    pub samplers: usize,
    pub pipelines: u64,
    pub meshes: usize,
    pub materials: usize,
    pub bindings: usize,
    pub render_targets: KindStats,
    pub shadow_maps: KindStats,
    pub retired: usize,
    pub estimated_bytes: u64,
}

/// The diagnostics snapshot of the last orchestrated frame; the surface
/// and budget counters are cumulative.
#[derive(Debug)]
pub struct RendererDiagnostics {
    pub frame: FrameTotals,
    pub passes: Vec<PassStats>,
    pub shadow: Option<ShadowStats>,
    pub surface: SurfaceStats,
    pub budget: BudgetStats,
    pub fallbacks: FallbackStats,
    pub cpu: CpuCost,
    pub gpu: GpuFrameTime,
    pub resources: ResourceStats,
}

/// A count as a `usize`, saturating.
pub open spec fn sat(n: int) -> usize {
    if n > usize::MAX {
        usize::MAX
    } else if n < 0 {
        0
    } else {
        n as usize
    }
}

/// Adds two counts, saturating.
pub fn sat_add(a: usize, b: usize) -> (sum: usize)
    ensures
        sum == sat(a + b),
{
    a.saturating_add(b)
}

/// A counter advanced by one, saturating.
pub open spec fn bump(n: u64) -> u64 {
    if n == u64::MAX {
        u64::MAX
    } else {
        (n + 1) as u64
    }
}

} // verus!
