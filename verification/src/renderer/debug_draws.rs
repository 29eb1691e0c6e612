//! Debug rendering at the renderer: submission, the time the consumer
//! provides, the toggles, and the resolution of a pass's debug lines into
//! batches (scene then overlay).

use vstd::prelude::*;
use super::Renderer;
use crate::analysis::FrameDebugBatch;
use crate::backend::GraphicsBackend;
use crate::debug::{all_vertices, selected, shape_ok, shape_valid, DebugDrawView, DebugDepth, DebugDraw, DebugStats, DebugStore, DebugVertex};
use crate::floats::{finite_non_negative, is_finite_non_negative, is_positive};
use crate::handles::{PassHandle, PipelineHandle};
use crate::pipelines::{
    cached_result, find_entry, lemma_find_entry_grows, lemma_find_entry_none_push, lemma_find_entry_push_other,
    lemma_grows_chain, lemma_grows_push, pipeline_registered, PipelineCaches,
};
use crate::textures::TextureFormat;

verus! {

/// A length as a `u32`, saturating.
pub open spec fn sat32(n: nat) -> u32 {
    if n > u32::MAX {
        u32::MAX
    } else {
        n as u32
    }
}

/// The debug batches of a pass: the scene lines then the overlay lines,
/// each range present when it holds vertices and its pipeline exists.
pub open spec fn debug_plan(
    scene: Seq<DebugVertex>,
    scene_pipeline: Option<PipelineHandle>,
    overlay: Seq<DebugVertex>,
    overlay_pipeline: Option<PipelineHandle>,
) -> (Seq<FrameDebugBatch>, Seq<DebugVertex>) {
    let with_scene = scene.len() > 0 && scene_pipeline is Some;
    let with_overlay = overlay.len() > 0 && overlay_pipeline is Some;
    let scene_batch = FrameDebugBatch { pipeline: scene_pipeline->0, first_vertex: 0, vertex_count: sat32(scene.len()) };
    let base = if with_scene { scene.len() } else { 0 };
    let overlay_batch = FrameDebugBatch {
        pipeline: overlay_pipeline->0,
        first_vertex: sat32(base),
        vertex_count: sat32(overlay.len()),
    };
    (
        (if with_scene { seq![scene_batch] } else { Seq::empty() }) + (if with_overlay {
            seq![overlay_batch]
        } else {
            Seq::empty()
        }),
        (if with_scene { scene } else { Seq::empty() }) + (if with_overlay { overlay } else { Seq::empty() }),
    )
}

/// The debug batches, vertices and drawn primitive count of pass `pass`
/// on a destination of `format`, with the permutations of `caches`:
/// nothing when debug rendering is off; else the shown scene then overlay
/// primitives, each range present when it holds vertices and its
/// permutation exists.
pub open spec fn debug_of(
    store: DebugStore,
    pass: int,
    format: Option<TextureFormat>,
    caches: PipelineCaches,
) -> (Seq<FrameDebugBatch>, Seq<DebugVertex>, usize) {
    if !store.is_enabled() {
        (Seq::empty(), Seq::empty(), 0)
    } else {
        let scene = selected(store.all_draws(), store.disabled_categories(), pass, DebugDepth::Scene);
        let overlay = selected(store.all_draws(), store.disabled_categories(), pass, DebugDepth::Overlay);
        let sp = cached_result(caches.debug_entries(), (format, DebugDepth::Scene));
        let op = cached_result(caches.debug_entries(), (format, DebugDepth::Overlay));
        let plan = debug_plan(all_vertices(scene), sp, all_vertices(overlay), op);
        (
            plan.0,
            plan.1,
            crate::frame::sat(
                ((if all_vertices(scene).len() > 0 && sp is Some { scene.len() } else { 0 }) + (if all_vertices(
                    overlay,
                ).len() > 0 && op is Some {
                    overlay.len()
                } else {
                    0
                })) as int,
            ),
        )
    }
}

/// The debug permutations a pass draws with are settled in `caches`.
pub open spec fn debug_settled(store: DebugStore, pass: int, format: Option<TextureFormat>, caches: PipelineCaches) -> bool {
    let scene = selected(store.all_draws(), store.disabled_categories(), pass, DebugDepth::Scene);
    let overlay = selected(store.all_draws(), store.disabled_categories(), pass, DebugDepth::Overlay);
    store.is_enabled() ==> {
        &&& all_vertices(scene).len() > 0 ==> find_entry(caches.debug_entries(), (format, DebugDepth::Scene)) is Some
        &&& all_vertices(overlay).len() > 0 ==> find_entry(caches.debug_entries(), (format, DebugDepth::Overlay)) is Some
    }
}

/// A pass's debug lines stay what they were as the caches grow.
pub proof fn lemma_debug_grows(
    store: DebugStore,
    pass: int,
    format: Option<TextureFormat>,
    before: PipelineCaches,
    after: PipelineCaches,
)
    requires
        debug_settled(store, pass, format, before),
        after.grows_from(&before),
    ensures
        debug_settled(store, pass, format, after),
        debug_of(store, pass, format, after) == debug_of(store, pass, format, before),
{
    if store.is_enabled() {
        let scene = selected(store.all_draws(), store.disabled_categories(), pass, DebugDepth::Scene);
        let overlay = selected(store.all_draws(), store.disabled_categories(), pass, DebugDepth::Overlay);
        if all_vertices(scene).len() > 0 {
            lemma_find_entry_grows(after.debug_entries(), before.debug_entries(), (format, DebugDepth::Scene));
        }
        if all_vertices(overlay).len() > 0 {
            lemma_find_entry_grows(after.debug_entries(), before.debug_entries(), (format, DebugDepth::Overlay));
        }
        let sp = cached_result(after.debug_entries(), (format, DebugDepth::Scene));
        let op = cached_result(after.debug_entries(), (format, DebugDepth::Overlay));
        let sp0 = cached_result(before.debug_entries(), (format, DebugDepth::Scene));
        let op0 = cached_result(before.debug_entries(), (format, DebugDepth::Overlay));
        assert(debug_plan(all_vertices(scene), sp, all_vertices(overlay), op) == debug_plan(
            all_vertices(scene),
            sp0,
            all_vertices(overlay),
            op0,
        ));
    }
}

fn len32(n: usize) -> (r: u32)
    ensures
        r == sat32(n as nat),
{
    if n > 0xFFFF_FFFF {
        0xFFFF_FFFF
    } else {
        n as u32
    }
}

/// A debug primitive is refused when its duration is not finite and
/// non-negative, when it is aimed at an unknown pass, or when its line
/// list cannot be drawn (see [`shape_ok`]).
pub open spec fn refused_debug(draw: DebugDrawView, passes: nat) -> bool {
    ||| !is_finite_non_negative(draw.duration)
    ||| (draw.pass matches Some(p) && p.0 >= passes)
    ||| !shape_ok(draw.vertices)
}

impl<B: GraphicsBackend> Renderer<B> {
    /// Submits a debug primitive: a positive duration retains it until it
    /// expires, a zero one keeps it for the current simulation frame. A
    /// primitive with a negative or non-finite duration, aimed at an
    /// unknown pass, or whose line list cannot be drawn (empty, a half
    /// segment, a non-finite vertex, no extent) is dropped.
    pub fn queue_debug(&mut self, draw: DebugDraw)
        requires
            old(self).wf(),
        ensures
            final(self).wf(),
            final(self).same_resources(old(self)),
            final(self).same_settings(old(self)),
            final(self).backend() == old(self).backend(),
            final(self).passes() == old(self).passes(),
            final(self).queues() == old(self).queues(),
            final(self).submitted_lights() == old(self).submitted_lights(),
            final(self).debug_store().is_enabled() == old(self).debug_store().is_enabled(),
            final(self).debug_store().disabled_categories() == old(self).debug_store().disabled_categories(),
            refused_debug(draw@, old(self).passes().len()) ==> final(self).debug_store()
                == old(self).debug_store(),
            !refused_debug(draw@, old(self).passes().len()) ==> if is_positive(draw.duration) {
                &&& final(self).debug_store().retained_draws() == old(self).debug_store().retained_draws().push(
                    (draw@, draw.duration),
                )
                &&& final(self).debug_store().frame_draws() == old(self).debug_store().frame_draws()
            } else {
                &&& final(self).debug_store().frame_draws() == old(self).debug_store().frame_draws().push(draw@)
                &&& final(self).debug_store().retained_draws() == old(self).debug_store().retained_draws()
            },
    {
        if !finite_non_negative(draw.duration) || !shape_valid(&draw.vertices) {
            return;
        }
        if let Some(p) = draw.pass {
            if (p.0 as usize) >= self.passes.len() {
                return;
            }
        }
        self.debug.push(draw);
    }

    /// The remaining lifetimes of the retained debug primitives, in order.
    pub fn debug_remaining(&self) -> (remaining: Vec<u32>)
        ensures
            remaining@.len() == self.debug_store().retained_draws().len(),
            forall|i: int|
                0 <= i < remaining@.len() ==> remaining@[i] == #[trigger] self.debug_store().retained_draws()[i].1,
    {
        self.debug.remaining()
    }

    /// Advances the debug time by `delta` seconds: each retained primitive
    /// takes its new remaining lifetime from `remaining` (its old one less
    /// `delta`) and expires without a positive one. A delta that is not
    /// finite and non-negative is ignored.
    pub fn advance_debug_time(&mut self, delta: u32, remaining: Vec<u32>)
        requires
            old(self).wf(),
            remaining@.len() == old(self).debug_store().retained_draws().len(),
        ensures
            final(self).wf(),
            final(self).same_resources(old(self)),
            final(self).same_settings(old(self)),
            final(self).backend() == old(self).backend(),
            final(self).passes() == old(self).passes(),
            final(self).queues() == old(self).queues(),
            final(self).debug_store().frame_draws() == old(self).debug_store().frame_draws(),
            final(self).debug_store().retained_draws() == if is_finite_non_negative(delta) {
                crate::debug::survivors(old(self).debug_store().retained_draws(), remaining@)
            } else {
                old(self).debug_store().retained_draws()
            },
    {
        self.debug.advance(delta, remaining);
    }

    /// Turns all debug rendering on or off (on by default); submissions
    /// stay accepted and retained primitives keep expiring.
    pub fn set_debug_enabled(&mut self, enabled: bool)
        ensures
            final(self).debug_store().is_enabled() == enabled,
            final(self).debug_store().disabled_categories() == old(self).debug_store().disabled_categories(),
            final(self).debug_store().frame_draws() == old(self).debug_store().frame_draws(),
            final(self).debug_store().retained_draws() == old(self).debug_store().retained_draws(),
            final(self).same_resources(old(self)),
            final(self).same_settings(old(self)),
            final(self).backend() == old(self).backend(),
            final(self).passes() == old(self).passes(),
            final(self).queues() == old(self).queues(),
            final(self).wf() == old(self).wf(),
    {
        self.debug.set_enabled(enabled);
    }

    /// Whether debug rendering is on.
    pub fn debug_enabled(&self) -> (enabled: bool)
        ensures
            enabled == self.debug_store().is_enabled(),
    {
        self.debug.enabled()
    }

    /// Turns a debug category on or off (all on by default); the filter
    /// acts at render time.
    pub fn set_debug_category_enabled(&mut self, category: &String, enabled: bool)
        requires
            old(self).wf(),
        ensures
            final(self).wf(),
            final(self).debug_store().disabled_categories() == if enabled {
                old(self).debug_store().disabled_categories().remove(category@)
            } else {
                old(self).debug_store().disabled_categories().insert(category@)
            },
            final(self).debug_store().is_enabled() == old(self).debug_store().is_enabled(),
            final(self).debug_store().frame_draws() == old(self).debug_store().frame_draws(),
            final(self).debug_store().retained_draws() == old(self).debug_store().retained_draws(),
            final(self).same_resources(old(self)),
            final(self).same_settings(old(self)),
            final(self).backend() == old(self).backend(),
            final(self).passes() == old(self).passes(),
            final(self).queues() == old(self).queues(),
    {
        self.debug.set_category_enabled(category, enabled);
    }

    /// Whether a debug category is on.
    pub fn debug_category_enabled(&self, category: &String) -> (enabled: bool)
        ensures
            enabled == !self.debug_store().disabled_categories().contains(category@),
    {
        self.debug.category_enabled(category)
    }

    /// The counts of frame and retained debug primitives.
    pub fn debug_stats(&self) -> (stats: DebugStats)
        ensures
            stats.frame == self.debug_store().frame_draws().len(),
            stats.retained == self.debug_store().retained_draws().len(),
    {
        self.debug.stats()
    }

    /// The debug lines of a pass: nothing when debug rendering is off;
    /// else the shown primitives' vertices, scene then overlay, each range
    /// with its debug pipeline permutation (a range whose permutation fails
    /// is dropped). Also returns the number of primitives drawn.
    pub(crate) fn resolve_pass_debug(&mut self, pass: u32, format: Option<TextureFormat>) -> (result: (
        Vec<FrameDebugBatch>,
        Vec<DebugVertex>,
        usize,
    ))
        requires
            old(self).wf(),
        ensures
            final(self).backend_calls() == old(self).backend_calls(),
            final(self).wf(),
            final(self).same_frame(old(self)),
            final(self).same_settings(old(self)),
            final(self).mesh_pool() == old(self).mesh_pool(),
            final(self).material_pool() == old(self).material_pool(),
            final(self).texture_cache() == old(self).texture_cache(),
            final(self).fallback_sampler_handle() == old(self).fallback_sampler_handle(),
            final(self).library() == old(self).library(),
            final(self).caches().material_entries() == old(self).caches().material_entries(),
            final(self).caches().instanced_entries() == old(self).caches().instanced_entries(),
            final(self).caches().sky_entries() == old(self).caches().sky_entries(),
            final(self).caches().shadow_entries() == old(self).caches().shadow_entries(),
            final(self).tracker().keeps_registries(&old(self).tracker()),
            final(self).tracker().retired() == old(self).tracker().retired(),
            final(self).caches().grows_from(&old(self).caches()),
            !old(self).debug_store().is_enabled() ==> *final(self) == *old(self),
            (result.0@, result.1@, result.2) == debug_of(old(self).debug_store(), pass as int, format, final(self).caches()),
            debug_settled(old(self).debug_store(), pass as int, format, final(self).caches()),
    {
        let mut batches: Vec<FrameDebugBatch> = Vec::new();
        let mut vertices: Vec<DebugVertex> = Vec::new();
        if !self.debug.enabled() {
            proof {
                self.tracker().lemma_keeps_registries_refl();
                self.caches().lemma_grows_refl();
            }
            return (batches, vertices, 0);
        }
        let (scene, scene_count) = self.debug.pass_vertices(pass, DebugDepth::Scene);
        let (overlay, overlay_count) = self.debug.pass_vertices(pass, DebugDepth::Overlay);
        let ghost start = *self;
        let mut primitives: usize = 0;
        let scene_pipeline = if scene.len() > 0 {
            self.pipelines.resolve_debug(&mut self.backend, &self.shaders, &mut self.lifetime, format, DebugDepth::Scene)
        } else {
            None
        };
        let ghost after_scene = *self;
        proof {
            if after_scene.tracker() == start.tracker() {
                start.tracker().lemma_keeps_registries_refl();
            }
            if scene@.len() > 0 {
                if find_entry(start.caches().debug_entries(), (format, DebugDepth::Scene)) is None {
                    lemma_find_entry_none_push(start.caches().debug_entries(), (format, DebugDepth::Scene), scene_pipeline);
                }
            } else {
                after_scene.tracker().lemma_keeps_registries_refl();
            }
        }
        if let Some(p) = scene_pipeline {
            let count = len32(scene.len());
            let mut i: usize = 0;
            while i < scene.len()
                invariant
                    i <= scene@.len(),
                    vertices@ == scene@.subrange(0, i as int),
                decreases scene@.len() - i,
            {
                vertices.push(scene[i]);
                i = i + 1;
                assert(vertices@ =~= scene@.subrange(0, i as int));
            }
            assert(scene@.subrange(0, i as int) =~= scene@);
            batches.push(FrameDebugBatch { pipeline: p, first_vertex: 0, vertex_count: count });
            primitives = scene_count;
        }
        let overlay_pipeline = if overlay.len() > 0 {
            self.pipelines.resolve_debug(&mut self.backend, &self.shaders, &mut self.lifetime, format, DebugDepth::Overlay)
        } else {
            None
        };
        proof {
            if overlay@.len() > 0 {
                if find_entry(after_scene.caches().debug_entries(), (format, DebugDepth::Overlay)) is None {
                    lemma_find_entry_none_push(after_scene.caches().debug_entries(), (format, DebugDepth::Overlay), overlay_pipeline);
                    if scene@.len() > 0 {
                        lemma_find_entry_push_other(after_scene.caches().debug_entries(), (format, DebugDepth::Scene), (format, DebugDepth::Overlay), overlay_pipeline);
                    }
                }
            }
        }
        proof {
            if self.tracker() == after_scene.tracker() {
                after_scene.tracker().lemma_keeps_registries_refl();
            }
            self.tracker().lemma_keeps_registries_chain(&after_scene.tracker(), &start.tracker());
            lemma_grows_push(start.caches().debug_entries(), ((format, DebugDepth::Scene), scene_pipeline));
            lemma_grows_push(after_scene.caches().debug_entries(), ((format, DebugDepth::Overlay), overlay_pipeline));
            lemma_grows_chain(self.caches().debug_entries(), after_scene.caches().debug_entries(), start.caches().debug_entries());
            lemma_grows_push(self.caches().material_entries(), arbitrary());
            lemma_grows_push(self.caches().instanced_entries(), arbitrary());
            lemma_grows_push(self.caches().sky_entries(), arbitrary());
            lemma_grows_push(self.caches().shadow_entries(), arbitrary());
            lemma_grows_push(start.caches().requested(), arbitrary());
            lemma_grows_push(after_scene.caches().requested(), arbitrary());
            lemma_grows_chain(self.caches().requested(), after_scene.caches().requested(), start.caches().requested());
        }
        if let Some(p) = overlay_pipeline {
            let first = len32(vertices.len());
            let count = len32(overlay.len());
            let ghost before = vertices@;
            let mut i: usize = 0;
            while i < overlay.len()
                invariant
                    i <= overlay@.len(),
                    vertices@ == before + overlay@.subrange(0, i as int),
                decreases overlay@.len() - i,
            {
                vertices.push(overlay[i]);
                i = i + 1;
                assert(vertices@ =~= before + overlay@.subrange(0, i as int));
            }
            assert(overlay@.subrange(0, i as int) =~= overlay@);
            batches.push(FrameDebugBatch { pipeline: p, first_vertex: first, vertex_count: count });
            primitives = primitives.saturating_add(overlay_count);
        }
        (batches, vertices, primitives)
    }
}

} // verus!
