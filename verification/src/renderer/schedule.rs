//! The declared passes and their queues, as the renderer exposes them:
//! the main pass settings, the registry (validated declarations), the
//! per-pass cameras, the draw submissions, the surface.

use vstd::prelude::*;
use super::Renderer;
use crate::backend::{BackendCall, DeviceLimits, GraphicsBackend};
use crate::error::{RenderError, ResourceKind};
use crate::frame::{FrameReport, RendererDiagnostics};
use crate::handles::PassHandle;
use crate::lights::Light;
use crate::math::{Color, Mat4, Vec3};
use crate::passes::{
    broken_rule, capped_count, has_conflict, main_label, reports_rule, schedule_valid, total_draws, DrawCommand,
    PassLoad, PassSpec, RenderDestination, RenderPassDescriptor,
};
use crate::shaders::{ShaderLibrary, ShaderRefView};
use crate::pipelines::{pipeline_registered, unknown_shader, PipelineDescriptor};
use crate::handles::PipelineHandle;

verus! {

/// The index of the main pass `chaos.main`.
pub const MAIN_PASS: u32 = 0;

impl<B: GraphicsBackend> Renderer<B> {
    /// A human description of the backend (adapter, API).
    pub fn description(&self) -> String {
        self.backend.description()
    }

    /// The capability report captured at initialization: what the device
    /// offers, what the renderer decided of each domain and why; its
    /// limits are those the renderer enforces before the backend.
    pub fn capabilities(&self) -> (report: &crate::capabilities::RendererCapabilities)
        ensures
            *report == self.capability_report(),
    {
        &self.capabilities
    }

    /// The device limits the renderer enforces before the backend.
    pub fn device_limits(&self) -> (limits: DeviceLimits)
        ensures
            limits == self.limits(),
    {
        self.limits
    }

    /// The shader library.
    pub fn shaders(&self) -> (library: &ShaderLibrary)
        ensures
            *library == self.library(),
    {
        &self.shaders
    }

    /// The shader library, mutable — the extension point of custom
    /// materials (sources registered by name). Nothing else of the
    /// renderer changes through it.
    pub fn shaders_mut(&mut self) -> (library: &mut ShaderLibrary)
        requires
            old(self).wf(),
        ensures
            *library == old(self).library(),
            final(self).library() == *final(library),
            final(library).wf() ==> final(self).wf(),
            final(self).tracker() == old(self).tracker(),
            final(self).mesh_pool() == old(self).mesh_pool(),
            final(self).material_pool() == old(self).material_pool(),
            final(self).texture_cache() == old(self).texture_cache(),
            final(self).fallback_sampler_handle() == old(self).fallback_sampler_handle(),
            final(self).caches() == old(self).caches(),
            final(self).same_frame(old(self)),
            final(self).same_settings(old(self)),
            final(self).backend() == old(self).backend(),
    {
        &mut self.shaders
    }

    /// Creates a raw pipeline: its shader resolved in the library (an
    /// unknown named shader is refused before the backend), a created
    /// pipeline counted for good.
    pub fn create_pipeline(&mut self, descriptor: &PipelineDescriptor) -> (result: Result<PipelineHandle, RenderError>)
        requires
            old(self).wf(),
        ensures
            final(self).wf(),
            final(self).same_frame(old(self)),
            final(self).same_settings(old(self)),
            final(self).mesh_pool() == old(self).mesh_pool(),
            final(self).material_pool() == old(self).material_pool(),
            final(self).texture_cache() == old(self).texture_cache(),
            final(self).caches() == old(self).caches(),
            final(self).library() == old(self).library(),
            unknown_shader(old(self).library()@, descriptor.shader@) ==> {
                &&& result matches Err(RenderError::UnknownShader { name: n })
                &&& descriptor.shader@ == ShaderRefView::Named(n@)
                &&& final(self).tracker() == old(self).tracker()
            },
            !unknown_shader(old(self).library()@, descriptor.shader@) ==> match result {
                Ok(_) => pipeline_registered(final(self).tracker(), old(self).tracker()),
                Err(e) => e is Backend && final(self).tracker() == old(self).tracker(),
            },
    {
        crate::pipelines::create_pipeline(&mut self.backend, &self.shaders, &mut self.lifetime, descriptor)
    }

    /// Sets the clear color of the main pass: its load becomes
    /// `Clear(color)`.
    pub fn set_clear_color(&mut self, color: Color)
        requires
            old(self).wf(),
        ensures
            final(self).wf(),
            final(self).passes() == old(self).passes().update(
                0,
                PassSpec { load: PassLoad::Clear(color), ..old(self).passes()[0] },
            ),
            final(self).queues() == old(self).queues(),
            final(self).last_clear() == color,
            final(self).same_resources(old(self)),
            final(self).backend() == old(self).backend(),
            final(self).submitted_lights() == old(self).submitted_lights(),
            final(self).debug_store() == old(self).debug_store(),
    {
        proof {
            self.passes.lemma_main();
        }
        self.passes.set_main_load(PassLoad::Clear(color));
        self.last_clear_color = color;
    }

    /// The clear color of the main pass; the last one set when its load
    /// was switched to `Keep`.
    pub fn clear_color(&self) -> (color: Color)
        requires
            self.wf(),
        ensures
            color == match self.passes()[0].load {
                PassLoad::Clear(c) => c,
                PassLoad::Keep => self.last_clear(),
            },
    {
        proof {
            self.passes.lemma_main();
        }
        match self.passes.descriptor(0).load {
            PassLoad::Clear(c) => c,
            PassLoad::Keep => self.last_clear_color,
        }
    }

    /// Sets the camera (view-projection) of the main pass.
    pub fn set_view_projection(&mut self, view_projection: Mat4)
        requires
            old(self).wf(),
        ensures
            final(self).wf(),
            final(self).passes() == old(self).passes().update(
                0,
                PassSpec { view_projection, ..old(self).passes()[0] },
            ),
            final(self).queues() == old(self).queues(),
            final(self).same_resources(old(self)),
            final(self).same_settings(old(self)),
            final(self).backend() == old(self).backend(),
    {
        proof {
            self.passes.lemma_main();
        }
        let _ = self.passes.set_pass_camera(PassHandle(MAIN_PASS), view_projection);
    }

    /// Sets the world position of the main pass camera.
    pub fn set_camera_position(&mut self, camera_position: Vec3)
        requires
            old(self).wf(),
        ensures
            final(self).wf(),
            final(self).passes() == old(self).passes().update(
                0,
                PassSpec { camera_position, ..old(self).passes()[0] },
            ),
            final(self).queues() == old(self).queues(),
            final(self).same_resources(old(self)),
            final(self).same_settings(old(self)),
            final(self).backend() == old(self).backend(),
    {
        proof {
            self.passes.lemma_main();
        }
        let _ = self.passes.set_pass_camera_position(PassHandle(MAIN_PASS), camera_position);
    }

    /// Resizes the surface. A zero side (a minimized window) suspends
    /// rendering at the backend and keeps the last real size.
    pub fn resize(&mut self, width: u32, height: u32)
        ensures
            final(self).surface() == if width > 0 && height > 0 {
                (width, height)
            } else {
                old(self).surface()
            },
            final(self).same_resources(old(self)),
            final(self).same_frame(old(self)),
            final(self).last_clear() == old(self).last_clear(),
            final(self).ambient() == old(self).ambient(),
            final(self).environment() == old(self).environment(),
            final(self).exposure_bits() == old(self).exposure_bits(),
            final(self).shadow_settings() == old(self).shadow_settings(),
            final(self).limits() == old(self).limits(),
            final(self).wf() == old(self).wf(),
            final(self).backend_calls() == old(self).backend_calls().push(BackendCall::Resize(width, height)),
    {
        if width > 0 && height > 0 {
            self.surface_size = (width, height);
        }
        self.backend.resize(width, height);
        proof {
            self.sent@ = self.sent@.push(BackendCall::Resize(width, height));
        }
    }

    /// The last known surface size.
    pub fn surface_size(&self) -> (size: (u32, u32))
        ensures
            size == self.surface(),
    {
        self.surface_size
    }

    /// The handle of the main pass `chaos.main`, always present.
    pub fn main_pass(&self) -> (pass: PassHandle)
        ensures
            pass == PassHandle(MAIN_PASS),
    {
        PassHandle(MAIN_PASS)
    }

    /// Submits a draw to the main pass for the current simulation frame.
    pub fn queue_draw(&mut self, command: DrawCommand)
        requires
            old(self).wf(),
        ensures
            final(self).wf(),
            final(self).queues() == old(self).queues().update(0, old(self).queues()[0].push(command)),
            final(self).passes() == old(self).passes(),
            final(self).same_resources(old(self)),
            final(self).same_settings(old(self)),
            final(self).backend() == old(self).backend(),
            final(self).submitted_lights() == old(self).submitted_lights(),
            final(self).debug_store() == old(self).debug_store(),
    {
        proof {
            self.passes.lemma_main();
        }
        let _ = self.passes.queue_draw_to(PassHandle(MAIN_PASS), command);
    }

    /// Submits a draw to a declared pass (a disabled pass accepts it and
    /// renders nothing); an unknown handle is refused.
    pub fn queue_draw_to(&mut self, pass: PassHandle, command: DrawCommand) -> (result: Result<(), RenderError>)
        requires
            old(self).wf(),
        ensures
            final(self).wf(),
            final(self).passes() == old(self).passes(),
            final(self).same_resources(old(self)),
            final(self).same_settings(old(self)),
            final(self).backend() == old(self).backend(),
            final(self).submitted_lights() == old(self).submitted_lights(),
            final(self).debug_store() == old(self).debug_store(),
            pass.0 < old(self).passes().len() ==> result is Ok && final(self).queues() == old(self).queues().update(
                pass.0 as int,
                old(self).queues()[pass.0 as int].push(command),
            ),
            pass.0 >= old(self).passes().len() ==> (result matches Err(RenderError::Stale(ResourceKind::Pass)))
                && final(self).queues() == old(self).queues(),
    {
        self.passes.queue_draw_to(pass, command)
    }

    /// Empties the queues of every pass, the submitted lights and the
    /// frame debug primitives — called at the start of each simulation
    /// frame; retained debug primitives survive.
    pub fn clear_draws(&mut self)
        requires
            old(self).wf(),
        ensures
            final(self).wf(),
            final(self).passes() == old(self).passes(),
            final(self).queues().len() == old(self).queues().len(),
            forall|i: int|
                0 <= i < final(self).queues().len() ==> #[trigger] final(self).queues()[i] == Seq::<
                    DrawCommand,
                >::empty(),
            final(self).submitted_lights() == Seq::<Light>::empty(),
            final(self).debug_store().frame_draws().len() == 0,
            final(self).debug_store().retained_draws() == old(self).debug_store().retained_draws(),
            final(self).debug_store().is_enabled() == old(self).debug_store().is_enabled(),
            final(self).debug_store().disabled_categories() == old(self).debug_store().disabled_categories(),
            final(self).same_resources(old(self)),
            final(self).same_settings(old(self)),
            final(self).backend() == old(self).backend(),
            final(self).backend_calls() == old(self).backend_calls(),
            final(self).last_report() == old(self).last_report(),
            final(self).last_diagnostics() == old(self).last_diagnostics(),
    {
        self.passes.clear_queues();
        self.frame_lights.clear();
        self.debug.clear_frame();
    }

    /// The draws submitted for the current frame, all passes together.
    pub fn draw_count(&self) -> (n: usize)
        requires
            self.wf(),
        ensures
            n == capped_count(total_draws(self.queues())),
    {
        self.passes.draw_count()
    }

    /// Declares a pass, validated before it enters the registry: a
    /// non-empty, unique label outside the reserved `chaos.` prefix; a live
    /// destination and live reads; no declared feedback loop; and the
    /// schedule invariant — a pass writing a target another pass reads
    /// runs before it. A refusal names the rule and changes nothing.
    pub fn add_pass(&mut self, descriptor: &RenderPassDescriptor) -> (result: Result<PassHandle, RenderError>)
        requires
            old(self).wf(),
        ensures
            final(self).wf(),
            final(self).same_resources(old(self)),
            final(self).same_settings(old(self)),
            final(self).backend() == old(self).backend(),
            final(self).submitted_lights() == old(self).submitted_lights(),
            final(self).debug_store() == old(self).debug_store(),
            match broken_rule(old(self).passes(), old(self).tracker().targets(), old(self).passes().len() as int, descriptor@) {
                Some(rule) => result matches Err(e) && reports_rule(
                    e,
                    rule,
                    old(self).passes(),
                    old(self).tracker().targets(),
                    old(self).passes().len() as int,
                    descriptor@,
                ),
                None => if old(self).passes().len() + 1 < u32::MAX {
                    &&& result == Ok::<PassHandle, RenderError>(PassHandle(old(self).passes().len() as u32))
                    &&& final(self).passes() == old(self).passes().push(descriptor@)
                    &&& final(self).queues() == old(self).queues().push(Seq::empty())
                } else {
                    result matches Err(RenderError::PoolFull(ResourceKind::Pass))
                },
            },
            result is Err ==> final(self).passes() == old(self).passes() && final(self).queues() == old(self).queues(),
            result is Ok ==> !has_conflict(final(self).passes()),
    {
        proof {
            self.passes.lemma_main();
        }
        let result = self.passes.add_pass(descriptor, &self.lifetime);
        proof {
            if result is Ok {
                assert(self.passes.passes()[0] == old(self).passes()[0]);
            }
        }
        result
    }

    /// Replaces the descriptor of a declared pass, keeping its queue: the
    /// same validations over the whole registry; a refusal changes nothing.
    /// The main pass keeps its surface destination and its label. Setting
    /// a `Clear` load on the main pass records its clear color.
    pub fn update_pass(&mut self, pass: PassHandle, descriptor: &RenderPassDescriptor) -> (result: Result<(), RenderError>)
        requires
            old(self).wf(),
        ensures
            final(self).wf(),
            final(self).same_resources(old(self)),
            final(self).backend() == old(self).backend(),
            final(self).submitted_lights() == old(self).submitted_lights(),
            final(self).debug_store() == old(self).debug_store(),
            final(self).surface() == old(self).surface(),
            final(self).ambient() == old(self).ambient(),
            final(self).environment() == old(self).environment(),
            final(self).exposure_bits() == old(self).exposure_bits(),
            final(self).shadow_settings() == old(self).shadow_settings(),
            pass.0 >= old(self).passes().len() ==> (result matches Err(RenderError::Stale(ResourceKind::Pass))),
            pass.0 < old(self).passes().len() ==> match broken_rule(
                old(self).passes(),
                old(self).tracker().targets(),
                pass.0 as int,
                descriptor@,
            ) {
                Some(rule) => result matches Err(e) && reports_rule(
                    e,
                    rule,
                    old(self).passes(),
                    old(self).tracker().targets(),
                    pass.0 as int,
                    descriptor@,
                ),
                None => {
                    &&& result is Ok
                    &&& final(self).passes() == old(self).passes().update(pass.0 as int, descriptor@)
                    &&& final(self).queues() == old(self).queues()
                },
            },
            result is Err ==> final(self).passes() == old(self).passes() && final(self).queues() == old(self).queues()
                && final(self).last_clear() == old(self).last_clear(),
            result is Ok ==> !has_conflict(final(self).passes()),
            result is Ok ==> final(self).last_clear() == if pass.0 == MAIN_PASS && descriptor.load is Clear {
                descriptor.load->Clear_0
            } else {
                old(self).last_clear()
            },
            old(self).passes()[0].load matches PassLoad::Clear(c) ==> final(self).last_clear() == if result is Ok
                && pass.0 == MAIN_PASS && descriptor.load is Clear {
                descriptor.load->Clear_0
            } else {
                c
            },
    {
        proof {
            self.passes.lemma_main();
        }
        let result = self.passes.update_pass(pass, descriptor, &self.lifetime);
        if result.is_ok() && pass.0 == MAIN_PASS {
            if let PassLoad::Clear(color) = descriptor.load {
                self.last_clear_color = color;
            }
        }
        result
    }

    /// Enables or disables a pass (a disabled pass is skipped each frame,
    /// visible in the report).
    pub fn set_pass_enabled(&mut self, pass: PassHandle, enabled: bool) -> (result: Result<(), RenderError>)
        requires
            old(self).wf(),
        ensures
            final(self).wf(),
            final(self).queues() == old(self).queues(),
            final(self).same_resources(old(self)),
            final(self).same_settings(old(self)),
            final(self).backend() == old(self).backend(),
            pass.0 < old(self).passes().len() ==> result is Ok && final(self).passes() == old(self).passes().update(
                pass.0 as int,
                PassSpec { enabled, ..old(self).passes()[pass.0 as int] },
            ),
            pass.0 >= old(self).passes().len() ==> (result matches Err(RenderError::Stale(ResourceKind::Pass)))
                && final(self).passes() == old(self).passes(),
    {
        self.passes.set_pass_enabled(pass, enabled)
    }

    /// Replaces the camera of a pass.
    pub fn set_pass_camera(&mut self, pass: PassHandle, view_projection: Mat4) -> (result: Result<(), RenderError>)
        requires
            old(self).wf(),
        ensures
            final(self).wf(),
            final(self).queues() == old(self).queues(),
            final(self).same_resources(old(self)),
            final(self).same_settings(old(self)),
            final(self).backend() == old(self).backend(),
            pass.0 < old(self).passes().len() ==> result is Ok && final(self).passes() == old(self).passes().update(
                pass.0 as int,
                PassSpec { view_projection, ..old(self).passes()[pass.0 as int] },
            ),
            pass.0 >= old(self).passes().len() ==> (result matches Err(RenderError::Stale(ResourceKind::Pass)))
                && final(self).passes() == old(self).passes(),
    {
        self.passes.set_pass_camera(pass, view_projection)
    }

    /// Replaces the camera world position of a pass.
    pub fn set_pass_camera_position(&mut self, pass: PassHandle, camera_position: Vec3) -> (result: Result<
        (),
        RenderError,
    >)
        requires
            old(self).wf(),
        ensures
            final(self).wf(),
            final(self).queues() == old(self).queues(),
            final(self).same_resources(old(self)),
            final(self).same_settings(old(self)),
            final(self).backend() == old(self).backend(),
            pass.0 < old(self).passes().len() ==> result is Ok && final(self).passes() == old(self).passes().update(
                pass.0 as int,
                PassSpec { camera_position, ..old(self).passes()[pass.0 as int] },
            ),
            pass.0 >= old(self).passes().len() ==> (result matches Err(RenderError::Stale(ResourceKind::Pass)))
                && final(self).passes() == old(self).passes(),
    {
        self.passes.set_pass_camera_position(pass, camera_position)
    }

    /// The report of the last orchestrated frame.
    pub fn frame_report(&self) -> (report: &FrameReport)
        ensures
            *report == self.last_report(),
    {
        &self.report
    }

    /// The diagnostics of the last orchestrated frame.
    pub fn diagnostics(&self) -> (diagnostics: &RendererDiagnostics)
        ensures
            *diagnostics == self.last_diagnostics(),
    {
        &self.diagnostics
    }

    /// The draws queued on a pass, in submission order.
    pub fn queued_draws(&self, pass: PassHandle) -> (draws: Option<&Vec<DrawCommand>>)
        requires
            self.wf(),
        ensures
            pass.0 < self.queues().len() ==> (draws matches Some(q) && q@ == self.queues()[pass.0 as int]),
            pass.0 >= self.queues().len() ==> draws is None,
    {
        proof {
            self.passes.lemma_main();
        }
        if (pass.0 as usize) < self.passes.len() {
            Some(self.passes.queue(pass.0 as usize))
        } else {
            None
        }
    }

    /// The descriptor of a declared pass, as last added or updated.
    pub fn pass_descriptor(&self, pass: PassHandle) -> (d: Option<&RenderPassDescriptor>)
        requires
            self.wf(),
        ensures
            pass.0 < self.passes().len() ==> (d matches Some(r) && r@ == self.passes()[pass.0 as int]),
            pass.0 >= self.passes().len() ==> d is None,
    {
        if (pass.0 as usize) < self.passes.len() {
            Some(self.passes.descriptor(pass.0 as usize))
        } else {
            None
        }
    }

    /// Law: in every state a renderer reaches, its declared schedule is
    /// valid — the main pass comes first, labelled `chaos.main` and drawing
    /// to the surface; pass labels are unique; no pass samples its own
    /// destination; and no pass writes a render target after a pass that
    /// reads it.
    pub proof fn lemma_schedule_always_valid(&self)
        requires
            self.wf(),
        ensures
            self.passes().len() >= 1,
            self.passes()[0].label == main_label(),
            self.passes()[0].destination == RenderDestination::Surface,
            schedule_valid(self.passes()),
    {
        self.passes.lemma_main();
    }

    /// The number of declared passes.
    pub fn pass_count(&self) -> (n: usize)
        requires
            self.wf(),
        ensures
            n == self.passes().len(),
    {
        self.passes.len()
    }
}

} // verus!
