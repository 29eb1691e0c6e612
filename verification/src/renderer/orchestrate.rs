//! The orchestrated frame: the declared passes run in their schedule, each
//! resolved from its queue (sorted by material), the shadow casters of all
//! passes batched into the shadow pass, the plan handed to the backend,
//! then the report, the safe point and the diagnostics. Also the immediate
//! off-screen path.

use vstd::prelude::*;
use vstd::string::*;
use super::Renderer;
use super::lighting::EnvironmentState;
use super::meshes::MeshRecord;
use super::resolve::{
    assembled, harvested_draws, harvested_keys, lemma_assembled_grows, lemma_outcome_ok_grows, light_culled,
    outcome_ok, outcomes_ok, pipelines_owed, lemma_pipelines_owed_earlier, shadow_key_of, sky_drawn, CommandOutcome, DrawFacts,
};
use super::debug_draws::{debug_of, debug_settled, lemma_debug_grows};
use crate::analysis::{analysis_of, analyze_draws};
use crate::backend::{BackendCall, GraphicsBackend};
use crate::error::BackendError;
use crate::lights::FrameLights;
use super::resources::releases;
use crate::batching::{
    batch_class, batch_from, caster_key, fusable, fusable_keys, lemma_batch_from_congruent, lemma_lookup_push, lookup,
    objects, sort_casters, BatchKey, FrameDraw, InstanceTransforms,
};
use crate::analysis::FrameDebugBatch;
use crate::floats::{exceeds, finite_positive, greater, is_finite_positive};
use crate::frame::{
    bump, BudgetStats, CpuCost, FallbackStats, FrameEnvironment, FramePlan, FrameReport, RendererDiagnostics, FrameOutcome, FrameShadowPass, FrameSkipReason, FrameTotals, ShadowReport, ShadowStats,
    SurfaceStats,
};
use crate::lights::{first_directional, shadow_light_index, Light};
use crate::math::Mat4;
use crate::pipelines::{
    cached_result, find_entry, grows, lemma_find_entry_grows, lemma_find_entry_none_push, lemma_grows_push,
    pipeline_registered, ShadowKey,
};
use super::lighting::DirectionalShadowDescriptor;
use crate::frame::{sat, sat_add, DrawBreakdown, FramePass, PassOutcome, PassReport, PassStats};
use crate::handles::{PassHandle, TextureHandle};
use crate::lifetime::LifetimeTracker;
use crate::materials::MaterialRecord;
use crate::order::{is_permutation, stable_order, stably_sorted};
use crate::passes::{capped_count, material_keys, total_draws, DrawCommand, PassLoad, PassSpec, RenderDestination};
use crate::error::{RenderError, ResourceKind};
use crate::math::{Color, Vec3, ZERO_BITS};
use crate::lights::collected;
use crate::pipelines::PipelineCaches;
use crate::pool::ResourcePool;
use crate::debug::DebugStore;
use crate::textures::TextureFormat;

verus! {

/// A sequence reordered by positions.
pub open spec fn permuted<T>(s: Seq<T>, order: Seq<usize>) -> Seq<T> {
    Seq::new(order.len(), |i: int| s[order[i] as int])
}

/// A destination a pass can render to: the surface, or a live target.
pub open spec fn destination_live(tracker: LifetimeTracker, d: RenderDestination) -> bool {
    match d {
        RenderDestination::Surface => true,
        RenderDestination::Target(t) => tracker.targets().contains_key(t.spec_key()),
    }
}

/// The color format of a destination (`None` for the surface).
pub open spec fn destination_format(tracker: LifetimeTracker, d: RenderDestination) -> Option<TextureFormat> {
    match d {
        RenderDestination::Surface => None,
        RenderDestination::Target(t) => Some(tracker.targets()[t.spec_key()].format),
    }
}

/// The texture a destination renders into, which its draws may not
/// sample (`None` for the surface).
pub open spec fn destination_color(tracker: LifetimeTracker, d: RenderDestination) -> Option<TextureHandle> {
    match d {
        RenderDestination::Surface => None,
        RenderDestination::Target(t) => Some(tracker.targets()[t.spec_key()].color),
    }
}

/// A pass draws the sky when the environment shows one and the pass
/// clears its destination.
pub open spec fn wants_sky(environment: Option<EnvironmentState>, load: PassLoad) -> bool {
    &&& environment matches Some(e) && e.sky
    &&& load is Clear
}

/// The objects a pass reports: its category counts summed (saturating).
pub open spec fn objects_of(b: DrawBreakdown) -> usize {
    sat(b.opaque + b.masked + b.transparent + b.injected)
}

/// What the renderer knows while resolving passes: the live materials and
/// meshes, the registry of targets, the environment and the debug store.
pub struct FrameInputs {
    pub materials: ResourcePool<MaterialRecord>,
    pub meshes: ResourcePool<MeshRecord>,
    pub tracker: LifetimeTracker,
    pub environment: Option<EnvironmentState>,
    pub store: DebugStore,
    pub caches: PipelineCaches,
    pub library: Map<Seq<char>, Seq<char>>,
}

/// An executed pass: `fp` is the plan of pass `index` (declared as `spec`
/// with queue `queue`, its draws described by `facts`), `report` and
/// `stats` what it reports. Its queue was resolved in `order` (by
/// material, stable) with the outcomes `outcomes`, assembled into the
/// pass's draws; the debug lines of the pass follow; `segments` counts the
/// debug segments drawn.
pub open spec fn executed_pass(
    fp: FramePass,
    report: PassReport,
    stats: PassStats,
    segments: usize,
    spec: PassSpec,
    index: int,
    queue: Seq<DrawCommand>,
    facts: Seq<DrawFacts>,
    order: Seq<usize>,
    outcomes: Seq<CommandOutcome>,
    inputs: FrameInputs,
    harvesting: bool,
    caches: PipelineCaches,
) -> bool {
    let format = destination_format(inputs.tracker, spec.destination);
    let blocked = destination_color(inputs.tracker, spec.destination);
    let sky = wants_sky(inputs.environment, spec.load);
    let debug = debug_of(inputs.store, index, format, caches);
    let base = DrawBreakdown {
        injected: if sky_drawn(sky, format, caches) is Some { 1 } else { 0 },
        ..report.breakdown
    };
    let analysis = analysis_of(fp.draws@, fp.debug@);
    &&& fp.label@ == spec.label
    &&& fp.destination == spec.destination
    &&& fp.load == spec.load
    &&& fp.view_projection == spec.view_projection
    &&& fp.camera_position == spec.camera_position
    &&& is_permutation(order, queue.len())
    &&& stably_sorted(material_keys(queue), order)
    &&& outcomes_ok(
        outcomes,
        permuted(queue, order),
        permuted(facts, order),
        inputs.materials@,
        inputs.meshes@,
        blocked,
        format,
        harvesting,
        caches,
    )
    &&& pipelines_owed(
        outcomes,
        permuted(queue, order),
        inputs.materials@,
        format,
        inputs.caches,
        caches.requested(),
        inputs.library,
    )
    &&& assembled(fp.draws@, fp.instances@, base, report.culled, outcomes, sky, inputs.materials, format, caches)
    &&& debug_settled(inputs.store, index, format, caches)
    &&& fp.debug@ == debug.0
    &&& fp.debug_vertices@ == debug.1
    &&& report.breakdown.injected == sat(base.injected + debug.2)
    &&& report.label@ == spec.label
    &&& report.destination == spec.destination
    &&& report.outcome == PassOutcome::Executed
    &&& report.draws == objects_of(report.breakdown)
    &&& report.draw_calls == sat((fp.draws@.len() + fp.debug@.len()) as int)
    &&& stats.label@ == spec.label
    &&& stats.draws == report.draws
    &&& stats.draw_calls == report.draw_calls
    &&& stats.culled == report.culled
    &&& stats.triangles == analysis.triangles
    &&& stats.classic_draws == analysis.classic_draws
    &&& stats.instanced_draws == analysis.instanced_draws
    &&& stats.instances == analysis.instances
    &&& stats.pipeline_switches == analysis.pipeline_switches
    &&& stats.material_switches == analysis.material_switches
    &&& segments == analysis.debug_segments
}

/// Outcomes stay correct as the caches grow.
pub proof fn lemma_outcomes_ok_grows(
    outcomes: Seq<CommandOutcome>,
    commands: Seq<DrawCommand>,
    facts: Seq<DrawFacts>,
    materials: Map<crate::pool::PoolHandle, MaterialRecord>,
    meshes: Map<crate::pool::PoolHandle, MeshRecord>,
    blocked: Option<TextureHandle>,
    format: Option<TextureFormat>,
    harvesting: bool,
    before: PipelineCaches,
    after: PipelineCaches,
)
    requires
        outcomes_ok(outcomes, commands, facts, materials, meshes, blocked, format, harvesting, before),
        after.grows_from(&before),
    ensures
        outcomes_ok(outcomes, commands, facts, materials, meshes, blocked, format, harvesting, after),
{
    assert forall|i: int| 0 <= i < outcomes.len() implies outcome_ok(
        #[trigger] outcomes[i],
        commands[i],
        facts[i],
        materials,
        meshes,
        blocked,
        format,
        harvesting,
        after,
    ) by {
        lemma_outcome_ok_grows(outcomes[i], commands[i], facts[i], materials, meshes, blocked, format, harvesting, before, after);
    }
}

/// An executed pass stays described as the caches grow.
pub proof fn lemma_executed_grows(
    fp: FramePass,
    report: PassReport,
    stats: PassStats,
    segments: usize,
    spec: PassSpec,
    index: int,
    queue: Seq<DrawCommand>,
    facts: Seq<DrawFacts>,
    order: Seq<usize>,
    outcomes: Seq<CommandOutcome>,
    inputs: FrameInputs,
    harvesting: bool,
    before: PipelineCaches,
    after: PipelineCaches,
)
    requires
        executed_pass(fp, report, stats, segments, spec, index, queue, facts, order, outcomes, inputs, harvesting, before),
        after.grows_from(&before),
    ensures
        executed_pass(fp, report, stats, segments, spec, index, queue, facts, order, outcomes, inputs, harvesting, after),
{
    let format = destination_format(inputs.tracker, spec.destination);
    let blocked = destination_color(inputs.tracker, spec.destination);
    let sky = wants_sky(inputs.environment, spec.load);
    lemma_outcomes_ok_grows(
        outcomes,
        permuted(queue, order),
        permuted(facts, order),
        inputs.materials@,
        inputs.meshes@,
        blocked,
        format,
        harvesting,
        before,
        after,
    );
    let base = DrawBreakdown {
        injected: if sky_drawn(sky, format, before) is Some { 1 } else { 0 },
        ..report.breakdown
    };
    lemma_assembled_grows(fp.draws@, fp.instances@, base, report.culled, outcomes, sky, inputs.materials, format, before, after);
    if sky {
        crate::pipelines::lemma_find_entry_grows(after.sky_entries(), before.sky_entries(), format);
    }
    lemma_debug_grows(inputs.store, index, format, before, after);
}

/// An executed pass is described alike under inputs that agree on what
/// resolution reads.
pub proof fn lemma_executed_inputs(
    fp: FramePass,
    report: PassReport,
    stats: PassStats,
    segments: usize,
    spec: PassSpec,
    index: int,
    queue: Seq<DrawCommand>,
    facts: Seq<DrawFacts>,
    order: Seq<usize>,
    outcomes: Seq<CommandOutcome>,
    a: FrameInputs,
    b: FrameInputs,
    harvesting: bool,
    caches: PipelineCaches,
)
    requires
        executed_pass(fp, report, stats, segments, spec, index, queue, facts, order, outcomes, a, harvesting, caches),
        a.materials == b.materials,
        a.meshes == b.meshes,
        a.environment == b.environment,
        a.store == b.store,
        a.tracker.targets() == b.tracker.targets(),
        a.caches.grows_from(&b.caches),
        a.library == b.library,
    ensures
        executed_pass(fp, report, stats, segments, spec, index, queue, facts, order, outcomes, b, harvesting, caches),
{
    assert(destination_format(a.tracker, spec.destination) == destination_format(b.tracker, spec.destination));
    assert(destination_color(a.tracker, spec.destination) == destination_color(b.tracker, spec.destination));
    lemma_grows_push(caches.requested(), arbitrary());
    lemma_pipelines_owed_earlier(
        outcomes,
        permuted(queue, order),
        a.materials@,
        destination_format(a.tracker, spec.destination),
        a.caches,
        b.caches,
        caches.requested(),
        caches.requested(),
        a.library,
    );
}

/// A pass executed before position `k` of the schedule comes before the
/// count at `k`.
proof fn lemma_executed_count_mono(passes: Seq<PassSpec>, schedule: Seq<usize>, tracker: LifetimeTracker, m: int, k: int)
    requires
        0 <= m < k,
    ensures
        executed_count(passes, schedule, tracker, m) + (if executable(passes[schedule[m] as int], tracker) {
            1int
        } else {
            0int
        }) <= executed_count(passes, schedule, tracker, k),
    decreases k,
{
    if m < k - 1 {
        lemma_executed_count_mono(passes, schedule, tracker, m, k - 1);
    }
}

/// Commands and their facts in resolution order: by material index,
/// submissions of one material in submission order.
fn by_material(commands: &Vec<DrawCommand>, facts: &Vec<DrawFacts>) -> (r: (
    Vec<DrawCommand>,
    Vec<DrawFacts>,
    Ghost<Seq<usize>>,
))
    requires
        facts@.len() == commands@.len(),
    ensures
        is_permutation(r.2@, commands@.len()),
        stably_sorted(material_keys(commands@), r.2@),
        r.0@ == permuted(commands@, r.2@),
        r.1@ == permuted(facts@, r.2@),
{
    let mut keys: Vec<u64> = Vec::new();
    let mut i: usize = 0;
    while i < commands.len()
        invariant
            i <= commands@.len(),
            keys@ == material_keys(commands@).subrange(0, i as int),
        decreases commands@.len() - i,
    {
        keys.push(commands[i].material.index as u64);
        i = i + 1;
        assert(keys@ =~= material_keys(commands@).subrange(0, i as int));
    }
    assert(keys@ =~= material_keys(commands@));
    let order = stable_order(&keys);
    let mut ordered: Vec<DrawCommand> = Vec::new();
    let mut ordered_facts: Vec<DrawFacts> = Vec::new();
    let mut j: usize = 0;
    while j < order.len()
        invariant
            j <= order@.len(),
            is_permutation(order@, commands@.len()),
            facts@.len() == commands@.len(),
            ordered@ == permuted(commands@, order@).subrange(0, j as int),
            ordered_facts@ == permuted(facts@, order@).subrange(0, j as int),
        decreases order@.len() - j,
    {
        ordered.push(commands[order[j]]);
        ordered_facts.push(facts[order[j]]);
        j = j + 1;
        assert(ordered@ =~= permuted(commands@, order@).subrange(0, j as int));
        assert(ordered_facts@ =~= permuted(facts@, order@).subrange(0, j as int));
    }
    assert(ordered@ =~= permuted(commands@, order@));
    assert(ordered_facts@ =~= permuted(facts@, order@));
    (ordered, ordered_facts, Ghost(order@))
}

/// A pass after the frame: an enabled pass whose destination target no
/// longer lives disables itself.
pub open spec fn after_frame(spec: PassSpec, tracker: LifetimeTracker) -> PassSpec {
    if spec.enabled && !destination_live(tracker, spec.destination) {
        PassSpec { enabled: false, ..spec }
    } else {
        spec
    }
}

/// A pass that executes: enabled, its destination live.
pub open spec fn executable(spec: PassSpec, tracker: LifetimeTracker) -> bool {
    spec.enabled && destination_live(tracker, spec.destination)
}

/// The passes executed among the first `k` of the schedule.
pub open spec fn executed_count(passes: Seq<PassSpec>, schedule: Seq<usize>, tracker: LifetimeTracker, k: int) -> nat
    decreases k,
{
    if k <= 0 {
        0
    } else {
        executed_count(passes, schedule, tracker, k - 1) + if executable(passes[schedule[k - 1] as int], tracker) {
            1nat
        } else {
            0nat
        }
    }
}

/// The report of a pass that did not run.
pub open spec fn skipped_report(r: PassReport, spec: PassSpec, outcome: PassOutcome) -> bool {
    &&& r.label@ == spec.label
    &&& r.destination == spec.destination
    &&& r.draws == 0
    &&& r.draw_calls == 0
    &&& r.culled == 0
    &&& r.breakdown == DrawBreakdown { opaque: 0, masked: 0, transparent: 0, injected: 0 }
    &&& r.outcome == outcome
}

/// The facts of every pass.
pub open spec fn facts_view(facts: Seq<Vec<DrawFacts>>) -> Seq<Seq<DrawFacts>> {
    Seq::new(facts.len(), |i: int| facts[i]@)
}

/// The `m`-th scheduled pass is reported (and planned, if it executes) as
/// it should: disabled, its target stale, or executed as
/// `executed_pass` says with the trace `traces[m]` (order, outcomes, debug
/// segments).
pub open spec fn scheduled_ok(
    plan: Seq<FramePass>,
    reports: Seq<PassReport>,
    stats: Seq<PassStats>,
    passes: Seq<PassSpec>,
    queues: Seq<Seq<DrawCommand>>,
    facts: Seq<Seq<DrawFacts>>,
    schedule: Seq<usize>,
    traces: Seq<(Seq<usize>, Seq<CommandOutcome>, usize)>,
    m: int,
    inputs: FrameInputs,
    harvesting: bool,
    caches: PipelineCaches,
) -> bool {
    let i = schedule[m] as int;
    let spec = passes[i];
    let e = executed_count(passes, schedule, inputs.tracker, m) as int;
    if !spec.enabled {
        skipped_report(reports[m], spec, PassOutcome::Disabled) && traces[m].1.len() == 0 && traces[m].2 == 0
    } else if !destination_live(inputs.tracker, spec.destination) {
        skipped_report(reports[m], spec, PassOutcome::StaleTarget) && traces[m].1.len() == 0 && traces[m].2 == 0
    } else {
        executed_pass(
            plan[e],
            reports[m],
            stats[e],
            traces[m].2,
            spec,
            i,
            queues[i],
            facts[i],
            traces[m].0,
            traces[m].1,
            inputs,
            harvesting,
            caches,
        )
    }
}

/// The shadow casters harvested over the traces, in order.
pub open spec fn harvest_draws_of(traces: Seq<(Seq<usize>, Seq<CommandOutcome>, usize)>) -> Seq<FrameDraw>
    decreases traces.len(),
{
    if traces.len() == 0 {
        Seq::empty()
    } else {
        harvest_draws_of(traces.drop_last()) + harvested_draws(traces.last().1)
    }
}

/// The keys of the harvested casters, in order.
pub open spec fn harvest_keys_of(traces: Seq<(Seq<usize>, Seq<CommandOutcome>, usize)>) -> Seq<BatchKey>
    decreases traces.len(),
{
    if traces.len() == 0 {
        Seq::empty()
    } else {
        harvest_keys_of(traces.drop_last()) + harvested_keys(traces.last().1)
    }
}

/// The casters the light frustum rejected (saturating).
pub open spec fn harvest_culled_of(traces: Seq<(Seq<usize>, Seq<CommandOutcome>, usize)>) -> usize
    decreases traces.len(),
{
    if traces.len() == 0 {
        0
    } else {
        sat(harvest_culled_of(traces.drop_last()) + light_culled(traces.last().1))
    }
}

/// The debug segments drawn over the traces (saturating).
pub open spec fn segments_of(traces: Seq<(Seq<usize>, Seq<CommandOutcome>, usize)>) -> usize
    decreases traces.len(),
{
    if traces.len() == 0 {
        0
    } else {
        sat(segments_of(traces.drop_last()) + traces.last().2)
    }
}

/// The passes of a frame, planned: the scheduled passes in order, each
/// reported, the executed ones planned; the shadow harvest and the debug
/// segments over all of them.
pub struct ScheduledPasses {
    pub plan: Vec<FramePass>,
    pub reports: Vec<PassReport>,
    pub stats: Vec<PassStats>,
    pub debug_segments: usize,
    pub casters: Vec<FrameDraw>,
    pub caster_keys: Vec<BatchKey>,
    pub casters_culled: usize,
    pub schedule: Ghost<Seq<usize>>,
    pub traces: Ghost<Seq<(Seq<usize>, Seq<CommandOutcome>, usize)>>,
}

/// `s` plans the passes of a frame started with `passes`, `queues`,
/// `inputs`, and `facts`.
pub open spec fn scheduled(
    s: ScheduledPasses,
    passes: Seq<PassSpec>,
    queues: Seq<Seq<DrawCommand>>,
    facts: Seq<Seq<DrawFacts>>,
    inputs: FrameInputs,
    harvesting: bool,
    caches: PipelineCaches,
) -> bool {
    let schedule = s.schedule@;
    let traces = s.traces@;
    &&& crate::passes::is_schedule(passes, schedule)
    &&& traces.len() == schedule.len()
    &&& s.reports@.len() == schedule.len()
    &&& s.plan@.len() == executed_count(passes, schedule, inputs.tracker, schedule.len() as int)
    &&& s.stats@.len() == s.plan@.len()
    &&& forall|m: int|
        0 <= m < schedule.len() ==> #[trigger] scheduled_ok(
            s.plan@,
            s.reports@,
            s.stats@,
            passes,
            queues,
            facts,
            schedule,
            traces,
            m,
            inputs,
            harvesting,
            caches,
        )
    &&& s.casters@ == harvest_draws_of(traces)
    &&& s.caster_keys@ == harvest_keys_of(traces)
    &&& s.casters_culled == harvest_culled_of(traces)
    &&& s.debug_segments == segments_of(traces)
}

/// The instanced shadow permutation expected for a caster key: that of
/// the layout of the live mesh and the sidedness of the live material of
/// its slots, if both live.
pub open spec fn shadow_instanced_for(
    k: BatchKey,
    materials: ResourcePool<MaterialRecord>,
    meshes: ResourcePool<MeshRecord>,
    caches: PipelineCaches,
) -> Option<crate::handles::PipelineHandle> {
    let hm = materials.slot_handle(k.material);
    let hh = meshes.slot_handle(k.mesh);
    if materials@.contains_key(hm) && meshes@.contains_key(hh) {
        cached_result(caches.shadow_entries(), shadow_key_of(meshes@[hh], materials@[hm], true))
    } else {
        None
    }
}

/// The instanced shadow permutation of a caster key is settled.
pub open spec fn shadow_settled(
    k: BatchKey,
    materials: ResourcePool<MaterialRecord>,
    meshes: ResourcePool<MeshRecord>,
    caches: PipelineCaches,
) -> bool {
    let hm = materials.slot_handle(k.material);
    let hh = meshes.slot_handle(k.mesh);
    materials@.contains_key(hm) && meshes@.contains_key(hh) ==> find_entry(
        caches.shadow_entries(),
        shadow_key_of(meshes@[hh], materials@[hm], true),
    ) is Some
}

proof fn lemma_shadow_for_grows(
    k: BatchKey,
    materials: ResourcePool<MaterialRecord>,
    meshes: ResourcePool<MeshRecord>,
    before: PipelineCaches,
    after: PipelineCaches,
)
    requires
        shadow_settled(k, materials, meshes, before),
        grows(after.shadow_entries(), before.shadow_entries()),
    ensures
        shadow_settled(k, materials, meshes, after),
        shadow_instanced_for(k, materials, meshes, after) == shadow_instanced_for(k, materials, meshes, before),
{
    let hm = materials.slot_handle(k.material);
    let hh = meshes.slot_handle(k.mesh);
    if materials@.contains_key(hm) && meshes@.contains_key(hh) {
        lemma_find_entry_grows(after.shadow_entries(), before.shadow_entries(), shadow_key_of(meshes@[hh], materials@[hm], true));
    }
}

/// `table` gives every fusable key its instanced shadow permutation.
pub open spec fn shadow_table_ok(
    table: Seq<(BatchKey, crate::handles::PipelineHandle)>,
    keys: Seq<BatchKey>,
    materials: ResourcePool<MaterialRecord>,
    meshes: ResourcePool<MeshRecord>,
    caches: PipelineCaches,
) -> bool {
    forall|k: BatchKey| #[trigger] fusable(keys, k) ==> lookup(table, k) == shadow_instanced_for(k, materials, meshes, caches)
}

/// The shadow pass of a frame: present when shadows are configured, a
/// directional light is collected and its view is known; it renders the
/// harvested casters sorted by key (stable), runs of a key fused on the
/// instanced shadow permutation, and shades with the first directional
/// light.
pub open spec fn shadow_planned(
    shadow: Option<FrameShadowPass>,
    settings: Option<DirectionalShadowDescriptor>,
    lights: Seq<Light>,
    light_view: Option<Mat4>,
    casters: Seq<FrameDraw>,
    keys: Seq<BatchKey>,
    materials: ResourcePool<MaterialRecord>,
    meshes: ResourcePool<MeshRecord>,
    caches: PipelineCaches,
) -> bool {
    match shadow {
        None => settings is None || first_directional(lights) is None || light_view is None,
        Some(sp) => {
            &&& settings matches Some(st)
            &&& first_directional(lights) matches Some(li)
            &&& light_view matches Some(view)
            &&& sp.view_projection == view
            &&& sp.resolution == st.resolution
            &&& sp.depth_bias == st.depth_bias
            &&& sp.normal_bias == st.normal_bias
            &&& sp.light_index == if li <= u32::MAX { li as u32 } else { 0 }
            &&& exists|order: Seq<usize>|
                #![trigger is_permutation(order, keys.len())]
                is_permutation(order, keys.len()) && stably_sorted(
                    Seq::new(keys.len(), |i: int| caster_key(keys[i])),
                    order,
                ) && forall|table: Seq<(BatchKey, crate::handles::PipelineHandle)>|
                    #[trigger] shadow_table_ok(table, permuted(keys, order), materials, meshes, caches) ==> {
                        let b = batch_from(permuted(casters, order), permuted(keys, order), table, 0, 0);
                        sp.draws@ == b.0 && sp.instances@ == b.1
                    }
        },
    }
}

/// What the shadow pass reports.
pub open spec fn shadow_reported(
    report: Option<ShadowReport>,
    stats: Option<ShadowStats>,
    shadow: Option<FrameShadowPass>,
    culled: usize,
) -> bool {
    match shadow {
        None => report is None && stats is None,
        Some(sp) => {
            let analysis = analysis_of(sp.draws@, Seq::empty());
            let r = ShadowReport {
                draws: sat(objects(sp.draws@) as int),
                draw_calls: sp.draws@.len() as usize,
                culled,
                resolution: sp.resolution,
            };
            &&& report == Some(r)
            &&& stats == Some(
                ShadowStats {
                    draws: r.draws,
                    draw_calls: r.draw_calls,
                    culled,
                    instances: analysis.instances,
                    triangles: analysis.triangles,
                },
            )
        },
    }
}

/// The logical objects of draws, saturating.
fn object_count(draws: &Vec<FrameDraw>) -> (n: usize)
    ensures
        n == sat(objects(draws@) as int),
{
    let mut n: usize = 0;
    let mut i: usize = 0;
    while i < draws.len()
        invariant
            i <= draws@.len(),
            n == sat(objects(draws@.subrange(0, i as int)) as int),
        decreases draws@.len() - i,
    {
        proof {
            assert(draws@.subrange(0, i + 1).drop_last() =~= draws@.subrange(0, i as int));
        }
        let count: usize = match draws[i].instances {
            Some(range) => range.count as usize,
            None => 1,
        };
        n = n.saturating_add(count);
        i = i + 1;
    }
    assert(draws@.subrange(0, i as int) =~= draws@);
    n
}

/// A per-pass counter of the diagnostics.
pub enum StatField {
    Draws,
    ClassicDraws,
    InstancedDraws,
    Instances,
    Culled,
    Triangles,
    PipelineSwitches,
    MaterialSwitches,
}

/// The value of a per-pass counter.
pub open spec fn stat(p: PassStats, field: StatField) -> usize {
    match field {
        StatField::Draws => p.draws,
        StatField::ClassicDraws => p.classic_draws,
        StatField::InstancedDraws => p.instanced_draws,
        StatField::Instances => p.instances,
        StatField::Culled => p.culled,
        StatField::Triangles => p.triangles,
        StatField::PipelineSwitches => p.pipeline_switches,
        StatField::MaterialSwitches => p.material_switches,
    }
}

/// A per-pass counter summed over the passes (saturating).
pub open spec fn stats_sum(stats: Seq<PassStats>, field: StatField) -> usize
    decreases stats.len(),
{
    if stats.len() == 0 {
        0
    } else {
        sat(stats_sum(stats.drop_last(), field) + stat(stats.last(), field))
    }
}

/// The injected objects of the reported passes (saturating).
pub open spec fn injected_sum(reports: Seq<PassReport>) -> usize
    decreases reports.len(),
{
    if reports.len() == 0 {
        0
    } else {
        sat(injected_sum(reports.drop_last()) + reports.last().breakdown.injected)
    }
}

/// The reported passes that executed.
pub open spec fn executed_reports(reports: Seq<PassReport>) -> nat
    decreases reports.len(),
{
    if reports.len() == 0 {
        0
    } else {
        executed_reports(reports.drop_last()) + if reports.last().outcome == PassOutcome::Executed {
            1nat
        } else {
            0nat
        }
    }
}

/// The frame totals: the counters of the passes summed, the injected
/// objects and executed passes of the report, the submitted draws and the
/// debug segments.
pub open spec fn totals_of(
    submitted: usize,
    stats: Seq<PassStats>,
    reports: Seq<PassReport>,
    debug_segments: usize,
) -> FrameTotals {
    FrameTotals {
        submitted,
        resolved: stats_sum(stats, StatField::Draws),
        injected: injected_sum(reports),
        classic_draws: stats_sum(stats, StatField::ClassicDraws),
        instanced_draws: stats_sum(stats, StatField::InstancedDraws),
        instances: stats_sum(stats, StatField::Instances),
        culled: stats_sum(stats, StatField::Culled),
        triangles: stats_sum(stats, StatField::Triangles),
        pipeline_switches: stats_sum(stats, StatField::PipelineSwitches),
        material_switches: stats_sum(stats, StatField::MaterialSwitches),
        debug_segments,
        passes_executed: executed_reports(reports) as usize,
        passes_skipped: (reports.len() - executed_reports(reports)) as usize,
    }
}

/// The surface counters after a frame: the backend's outcome counted, none
/// when nothing went to the backend.
pub open spec fn surface_after(s: SurfaceStats, outcome: Option<FrameOutcome>) -> SurfaceStats {
    match outcome {
        None => s,
        Some(FrameOutcome::Rendered) => SurfaceStats { presented: bump(s.presented), ..s },
        Some(FrameOutcome::Skipped(FrameSkipReason::SurfaceUnavailable)) => SurfaceStats {
            skipped_unavailable: bump(s.skipped_unavailable),
            ..s
        },
        Some(FrameOutcome::Skipped(FrameSkipReason::SurfaceReconfigured)) => SurfaceStats {
            reconfigured: bump(s.reconfigured),
            ..s
        },
        Some(FrameOutcome::Skipped(FrameSkipReason::ZeroArea)) => SurfaceStats { zero_area: bump(s.zero_area), ..s },
    }
}

proof fn lemma_executed_reports_bound(reports: Seq<PassReport>)
    ensures
        executed_reports(reports) <= reports.len(),
    decreases reports.len(),
{
    if reports.len() > 0 {
        lemma_executed_reports_bound(reports.drop_last());
    }
}

fn bump_counter(n: u64) -> (m: u64)
    ensures
        m == bump(n),
{
    n.saturating_add(1)
}

/// The scheduled passes stay described as the caches grow.
pub proof fn lemma_scheduled_grows(
    s: ScheduledPasses,
    passes: Seq<PassSpec>,
    queues: Seq<Seq<DrawCommand>>,
    facts: Seq<Seq<DrawFacts>>,
    inputs: FrameInputs,
    harvesting: bool,
    before: PipelineCaches,
    after: PipelineCaches,
)
    requires
        scheduled(s, passes, queues, facts, inputs, harvesting, before),
        after.grows_from(&before),
    ensures
        scheduled(s, passes, queues, facts, inputs, harvesting, after),
{
    let schedule = s.schedule@;
    let traces = s.traces@;
    assert forall|m: int| 0 <= m < schedule.len() implies #[trigger] scheduled_ok(
        s.plan@,
        s.reports@,
        s.stats@,
        passes,
        queues,
        facts,
        schedule,
        traces,
        m,
        inputs,
        harvesting,
        after,
    ) by {
        assert(scheduled_ok(s.plan@, s.reports@, s.stats@, passes, queues, facts, schedule, traces, m, inputs, harvesting, before));
        let i = schedule[m] as int;
        let e = executed_count(passes, schedule, inputs.tracker, m) as int;
        if executable(passes[i], inputs.tracker) {
            lemma_executed_grows(
                s.plan@[e],
                s.reports@[m],
                s.stats@[e],
                traces[m].2,
                passes[i],
                i,
                queues[i],
                facts[i],
                traces[m].0,
                traces[m].1,
                inputs,
                harvesting,
                before,
                after,
            );
        }
    }
}

proof fn lemma_harvest_lengths(traces: Seq<(Seq<usize>, Seq<CommandOutcome>, usize)>)
    ensures
        harvest_draws_of(traces).len() == harvest_keys_of(traces).len(),
    decreases traces.len(),
{
    if traces.len() > 0 {
        lemma_harvest_lengths(traces.drop_last());
        super::resolve::lemma_harvested_lengths(traces.last().1);
    }
}

/// A report after the backend answered `outcome`: an executed surface pass
/// of a skipped frame is reported skipped.
pub open spec fn marked_report(r: PassReport, outcome: FrameOutcome) -> PassReport {
    if outcome is Skipped && r.destination == RenderDestination::Surface && r.outcome == PassOutcome::Executed {
        PassReport { outcome: PassOutcome::SurfaceSkipped, ..r }
    } else {
        r
    }
}

/// The reports after the backend answered `outcome`.
pub open spec fn marked_reports(reports: Seq<PassReport>, outcome: FrameOutcome) -> Seq<PassReport> {
    Seq::new(reports.len(), |i: int| marked_report(reports[i], outcome))
}

/// The diagnostics of a frame planned as `s`, whose passes report
/// `reports`, the backend having answered `outcome` (`None`: nothing went
/// to it).
pub open spec fn frame_diagnosed(
    diagnostics: RendererDiagnostics,
    earlier: RendererDiagnostics,
    submitted: usize,
    s: ScheduledPasses,
    reports: Seq<PassReport>,
    outcome: Option<FrameOutcome>,
) -> bool {
    &&& diagnostics.frame == totals_of(submitted, s.stats@, reports, s.debug_segments)
    &&& diagnostics.passes@ == s.stats@
    &&& diagnostics.surface == surface_after(earlier.surface, outcome)
    &&& diagnostics.budget == earlier.budget
    &&& diagnostics.cpu == earlier.cpu
}

/// The backend received one frame plan `p` and answered `a`; once it
/// accepted, the resources retired before the frame were released.
pub open spec fn frame_sent(
    after: Seq<BackendCall>,
    before: Seq<BackendCall>,
    retired: Seq<crate::lifetime::Retired>,
    p: FramePlan,
    a: Result<FrameOutcome, BackendError>,
) -> bool {
    after == before.push(BackendCall::Render(p, a)) + if a is Ok {
        releases(retired)
    } else {
        Seq::<BackendCall>::empty()
    }
}

/// A frame whose plan the backend accepted releases what was retired
/// before it, after the plan, in retirement order: the resource retired
/// last is released by the frame's last call.
pub proof fn lemma_frame_releases_retired(
    retired: Seq<crate::lifetime::Retired>,
    before: Seq<BackendCall>,
    after: Seq<BackendCall>,
    p: FramePlan,
    a: Result<FrameOutcome, BackendError>,
    i: int,
)
    requires
        frame_sent(after, before, retired, p, a),
        a is Ok,
        0 <= i < retired.len(),
    ensures
        after.len() == before.len() + 1 + retired.len(),
        after[before.len() as int] == BackendCall::Render(p, a),
        after[before.len() + 1 + i] == super::resources::release_call(retired[i]),
{
    super::resources::lemma_retired_released(retired, before.push(BackendCall::Render(p, a)), after, i);
}

/// The backend received one plan `p`, answering `a`, and nothing else.
pub open spec fn plan_sent(
    after: Seq<BackendCall>,
    before: Seq<BackendCall>,
    p: FramePlan,
    a: Result<FrameOutcome, BackendError>,
) -> bool {
    after == before.push(BackendCall::Render(p, a))
}

/// The lighting a plan carries is that of the renderer: its ambient term
/// and its collected lights.
pub open spec fn lights_sent<B: GraphicsBackend>(lights: FrameLights, r: Renderer<B>) -> bool {
    &&& lights.ambient_color == r.ambient().0
    &&& lights.ambient_intensity == r.ambient().1
    &&& lights.lights@ == collected(r.submitted_lights())
}

/// The environment terms a plan carries are those of the renderer.
pub open spec fn environment_sent<B: GraphicsBackend>(environment: FrameEnvironment, r: Renderer<B>) -> bool {
    &&& environment.intensity == match r.environment() {
        Some(e) => e.intensity,
        None => crate::math::ZERO_BITS,
    }
    &&& environment.exposure == r.exposure_bits()
}

/// The result is the backend's answer: its outcome, or its refusal.
pub open spec fn answered(result: Result<FrameOutcome, RenderError>, a: Result<FrameOutcome, BackendError>) -> bool {
    match a {
        Ok(o) => result == Ok::<FrameOutcome, RenderError>(o),
        Err(e) => result == Err::<FrameOutcome, RenderError>(RenderError::Backend(e)),
    }
}

/// The label of the immediate off-screen pass.
pub open spec fn offscreen_label() -> Seq<char> {
    seq!['c', 'h', 'a', 'o', 's', '.', 'o', 'f', 'f', 's', 'c', 'r', 'e', 'e', 'n']
}

/// The single pass of an immediate off-screen render to `target`: cleared
/// to `clear_color`, seen through `view_projection` from the origin, its
/// draws (sorted by material in `order`, resolved as `outcomes`) assembled
/// like those of a declared pass, no debug lines, no shadow harvest.
pub open spec fn offscreen_planned(
    fp: FramePass,
    target: crate::handles::RenderTargetHandle,
    clear_color: Color,
    view_projection: Mat4,
    commands: Seq<DrawCommand>,
    facts: Seq<DrawFacts>,
    order: Seq<usize>,
    outcomes: Seq<CommandOutcome>,
    inputs: FrameInputs,
    caches: PipelineCaches,
) -> bool {
    let destination = RenderDestination::Target(target);
    let format = destination_format(inputs.tracker, destination);
    let sky = wants_sky(inputs.environment, PassLoad::Clear(clear_color));
    &&& fp.label@ == offscreen_label()
    &&& fp.destination == destination
    &&& fp.load == PassLoad::Clear(clear_color)
    &&& fp.view_projection == view_projection
    &&& fp.camera_position == (Vec3 { x: ZERO_BITS, y: ZERO_BITS, z: ZERO_BITS })
    &&& fp.debug@.len() == 0
    &&& fp.debug_vertices@.len() == 0
    &&& is_permutation(order, commands.len())
    &&& stably_sorted(material_keys(commands), order)
    &&& outcomes_ok(
        outcomes,
        permuted(commands, order),
        permuted(facts, order),
        inputs.materials@,
        inputs.meshes@,
        destination_color(inputs.tracker, destination),
        format,
        false,
        caches,
    )
    &&& pipelines_owed(
        outcomes,
        permuted(commands, order),
        inputs.materials@,
        format,
        inputs.caches,
        caches.requested(),
        inputs.library,
    )
    &&& assembled_somehow(fp.draws@, fp.instances@, outcomes, sky, inputs.materials, format, caches)
}

/// Draws and instances assemble `outcomes`, whatever they count.
pub open spec fn assembled_somehow(
    draws: Seq<FrameDraw>,
    instances: Seq<InstanceTransforms>,
    outcomes: Seq<CommandOutcome>,
    sky: bool,
    materials: ResourcePool<MaterialRecord>,
    format: Option<TextureFormat>,
    caches: PipelineCaches,
) -> bool {
    exists|breakdown: DrawBreakdown, culled: usize|
        #[trigger] assembled(draws, instances, breakdown, culled, outcomes, sky, materials, format, caches)
}

impl<B: GraphicsBackend> Renderer<B> {
    /// The inputs the passes of a frame are resolved with.
    pub open spec fn frame_inputs(&self) -> FrameInputs {
        FrameInputs {
            materials: self.material_pool(),
            meshes: self.mesh_pool(),
            tracker: self.tracker(),
            environment: self.environment(),
            store: self.debug_store(),
            caches: self.caches(),
            library: self.library()@,
        }
    }

    /// Plans the declared passes in their schedule: a disabled pass is
    /// reported and skipped; an enabled pass whose target no longer lives
    /// disables itself and is reported stale; every other pass is planned.
    /// The shadow casters are harvested when shadows are configured.
    fn plan_scheduled(&mut self, facts: &Vec<Vec<DrawFacts>>) -> (s: ScheduledPasses)
        requires
            old(self).wf(),
            facts@.len() == old(self).passes().len(),
            forall|i: int| 0 <= i < facts@.len() ==> (#[trigger] facts@[i])@.len() == old(self).queues()[i].len(),
        ensures
            final(self).backend_calls() == old(self).backend_calls(),
            final(self).wf(),
            final(self).passes() == Seq::new(
                old(self).passes().len(),
                |i: int| after_frame(old(self).passes()[i], old(self).tracker()),
            ),
            final(self).queues() == old(self).queues(),
            final(self).submitted_lights() == old(self).submitted_lights(),
            final(self).debug_store() == old(self).debug_store(),
            final(self).last_report() == old(self).last_report(),
            final(self).last_diagnostics() == old(self).last_diagnostics(),
            final(self).same_settings(old(self)),
            final(self).mesh_pool() == old(self).mesh_pool(),
            final(self).material_pool() == old(self).material_pool(),
            final(self).texture_cache() == old(self).texture_cache(),
            final(self).fallback_sampler_handle() == old(self).fallback_sampler_handle(),
            final(self).library() == old(self).library(),
            final(self).caches().grows_from(&old(self).caches()),
            final(self).tracker().keeps_registries(&old(self).tracker()),
            final(self).tracker().retired() == old(self).tracker().retired(),
            scheduled(
                s,
                old(self).passes(),
                old(self).queues(),
                facts_view(facts@),
                old(self).frame_inputs(),
                old(self).shadow_settings() is Some,
                final(self).caches(),
            ),
    {
        let ghost start = *self;
        proof {
            start.tracker().lemma_keeps_registries_refl();
            start.caches().lemma_grows_refl();
            self.passes.lemma_main();
        }
        let harvesting = self.directional_shadow.is_some();
        let schedule = self.passes.schedule();
        let mut plan: Vec<FramePass> = Vec::new();
        let mut reports: Vec<PassReport> = Vec::new();
        let mut stats: Vec<PassStats> = Vec::new();
        let mut debug_segments: usize = 0;
        let mut casters: Vec<FrameDraw> = Vec::new();
        let mut caster_keys: Vec<BatchKey> = Vec::new();
        let mut casters_culled: usize = 0;
        let ghost mut traces: Seq<(Seq<usize>, Seq<CommandOutcome>, usize)> = Seq::empty();
        let ghost inputs = start.frame_inputs();
        let ghost all_facts = facts_view(facts@);
        let mut k: usize = 0;
        while k < schedule.len()
            invariant
                self.backend_calls() == start.backend_calls(),
                k <= schedule@.len(),
                crate::passes::is_schedule(start.passes(), schedule@),
                start == *old(self),
                inputs == start.frame_inputs(),
                all_facts == facts_view(facts@),
                facts@.len() == start.passes().len(),
                forall|i: int| 0 <= i < facts@.len() ==> (#[trigger] facts@[i])@.len() == start.queues()[i].len(),
                harvesting == (start.shadow_settings() is Some),
                self.wf(),
                self.queues() == start.queues(),
                self.submitted_lights() == start.submitted_lights(),
                self.debug_store() == start.debug_store(),
                self.last_report() == start.last_report(),
                self.last_diagnostics() == start.last_diagnostics(),
                self.same_settings(&start),
                self.mesh_pool() == start.mesh_pool(),
                self.material_pool() == start.material_pool(),
                self.texture_cache() == start.texture_cache(),
                self.fallback_sampler_handle() == start.fallback_sampler_handle(),
                self.library() == start.library(),
                self.caches().grows_from(&start.caches()),
                self.tracker().keeps_registries(&start.tracker()),
                self.tracker().retired() == start.tracker().retired(),
                self.passes().len() == start.passes().len(),
                forall|i: int|
                    0 <= i < start.passes().len() ==> #[trigger] self.passes()[i] == if schedule@.subrange(
                        0,
                        k as int,
                    ).contains(i as usize) {
                        after_frame(start.passes()[i], start.tracker())
                    } else {
                        start.passes()[i]
                    },
                traces.len() == k,
                reports@.len() == k,
                plan@.len() == executed_count(start.passes(), schedule@, start.tracker(), k as int),
                stats@.len() == plan@.len(),
                forall|m: int|
                    0 <= m < k ==> #[trigger] scheduled_ok(
                        plan@,
                        reports@,
                        stats@,
                        start.passes(),
                        start.queues(),
                        all_facts,
                        schedule@,
                        traces,
                        m,
                        inputs,
                        harvesting,
                        self.caches(),
                    ),
                casters@ == harvest_draws_of(traces),
                caster_keys@ == harvest_keys_of(traces),
                casters_culled == harvest_culled_of(traces),
                debug_segments == segments_of(traces),
            decreases schedule@.len() - k,
        {
            let index = schedule[k];
            let ghost before = *self;
            let ghost prev = traces;
            let ghost plan0 = plan@;
            let ghost reports0 = reports@;
            let ghost stats0 = stats@;
            let ghost prefix = schedule@.subrange(0, k as int);
            proof {
                self.passes.lemma_main();
                self.tracker().lemma_keeps_registries(&start.tracker());
                assert(!prefix.contains(index)) by {
                    if prefix.contains(index) {
                        let w = choose|w: int| 0 <= w < prefix.len() && prefix[w] == index;
                        assert(schedule@[w] == schedule@[k as int]);
                    }
                }
                assert(self.passes()[index as int] == start.passes()[index as int]);
            }
            let d = self.passes.descriptor(index);
            let label = d.label.clone();
            let destination = d.destination;
            let zero = DrawBreakdown { opaque: 0, masked: 0, transparent: 0, injected: 0 };
            if !d.enabled {
                reports.push(PassReport {
                    label,
                    destination,
                    draws: 0,
                    draw_calls: 0,
                    culled: 0,
                    breakdown: zero,
                    outcome: PassOutcome::Disabled,
                });
                proof {
                    traces = traces.push((Seq::empty(), Seq::empty(), 0usize));
                    assert(self.passes()[index as int] == after_frame(start.passes()[index as int], start.tracker()));
                }
            } else {
                let live = match destination {
                    RenderDestination::Surface => true,
                    RenderDestination::Target(t) => self.lifetime.render_target_info(t).is_some(),
                };
                if !live {
                    let _ = self.passes.set_pass_enabled(PassHandle(index as u32), false);
                    reports.push(PassReport {
                        label,
                        destination,
                        draws: 0,
                        draw_calls: 0,
                        culled: 0,
                        breakdown: zero,
                        outcome: PassOutcome::StaleTarget,
                    });
                    proof {
                        traces = traces.push((Seq::empty(), Seq::empty(), 0usize));
                        assert(self.passes()[index as int] == after_frame(start.passes()[index as int], start.tracker()));
                        assert forall|i: int| 0 <= i < self.passes().len() && i != index implies #[trigger] self.passes()[i]
                            == before.passes()[i] by {}
                    }
                } else {
                    let (fp, report, st, seg, order, outcomes) = self.plan_pass(
                        index,
                        &facts[index],
                        harvesting,
                        &mut casters,
                        &mut caster_keys,
                        &mut casters_culled,
                    );
                    plan.push(fp);
                    reports.push(report);
                    stats.push(st);
                    debug_segments = sat_add(debug_segments, seg);
                    proof {
                        traces = traces.push((order@, outcomes@, seg));
                        lemma_executed_inputs(
                            plan@.last(),
                            reports@.last(),
                            stats@.last(),
                            seg,
                            start.passes()[index as int],
                            index as int,
                            start.queues()[index as int],
                            all_facts[index as int],
                            order@,
                            outcomes@,
                            before.frame_inputs(),
                            inputs,
                            harvesting,
                            self.caches(),
                        );
                        self.caches().lemma_grows_from_chain(&before.caches(), &start.caches());
                        self.tracker().lemma_keeps_registries_chain(&before.tracker(), &start.tracker());
                        assert(self.passes()[index as int] == after_frame(start.passes()[index as int], start.tracker()));
                    }
                }
            }
            proof {
                if self.caches() == before.caches() {
                    before.caches().lemma_grows_refl();
                }
                assert(traces.drop_last() =~= prev);
                assert(schedule@.subrange(0, k + 1) =~= prefix.push(index));
                assert(harvested_draws(Seq::<CommandOutcome>::empty()) =~= Seq::<FrameDraw>::empty());
                assert(harvested_keys(Seq::<CommandOutcome>::empty()) =~= Seq::<BatchKey>::empty());
                assert(light_culled(Seq::<CommandOutcome>::empty()) == 0);
                assert(casters@ =~= harvest_draws_of(traces));
                assert(caster_keys@ =~= harvest_keys_of(traces));
                assert forall|m: int| 0 <= m < k + 1 implies #[trigger] scheduled_ok(
                    plan@,
                    reports@,
                    stats@,
                    start.passes(),
                    start.queues(),
                    all_facts,
                    schedule@,
                    traces,
                    m,
                    inputs,
                    harvesting,
                    self.caches(),
                ) by {
                    if m < k {
                        assert(scheduled_ok(
                            plan0,
                            reports0,
                            stats0,
                            start.passes(),
                            start.queues(),
                            all_facts,
                            schedule@,
                            prev,
                            m,
                            inputs,
                            harvesting,
                            before.caches(),
                        ));
                        let i = schedule@[m] as int;
                        if executable(start.passes()[i], start.tracker()) {
                            lemma_executed_count_mono(start.passes(), schedule@, start.tracker(), m, k as int);
                            let e = executed_count(start.passes(), schedule@, start.tracker(), m) as int;
                            assert(plan@[e] == plan0[e]);
                            assert(stats@[e] == stats0[e]);
                            lemma_executed_grows(
                                plan0[e],
                                reports0[m],
                                stats0[e],
                                prev[m].2,
                                start.passes()[i],
                                i,
                                start.queues()[i],
                                all_facts[i],
                                prev[m].0,
                                prev[m].1,
                                inputs,
                                harvesting,
                                before.caches(),
                                self.caches(),
                            );
                        }
                        assert(reports@[m] == reports0[m]);
                        assert(traces[m] == prev[m]);
                    }
                }
                assert forall|i: int|
                    0 <= i < start.passes().len() implies #[trigger] self.passes()[i] == if schedule@.subrange(
                        0,
                        k + 1,
                    ).contains(i as usize) {
                        after_frame(start.passes()[i], start.tracker())
                    } else {
                        start.passes()[i]
                    } by {
                    if i == index as int {
                        assert(prefix.push(index)[k as int] == index);
                    } else {
                        assert(prefix.push(index).contains(i as usize) == prefix.contains(i as usize)) by {
                            if prefix.push(index).contains(i as usize) {
                                let w = choose|w: int| 0 <= w < prefix.push(index).len() && prefix.push(index)[w] == i as usize;
                                assert(w < prefix.len());
                            }
                        }
                    }
                }
            }
            k = k + 1;
        }
        proof {
            assert(schedule@.subrange(0, k as int) =~= schedule@);
            assert(self.passes() =~= Seq::new(start.passes().len(), |i: int| after_frame(start.passes()[i], start.tracker())));
        }
        ScheduledPasses {
            plan,
            reports,
            stats,
            debug_segments,
            casters,
            caster_keys,
            casters_culled,
            schedule: Ghost(schedule@),
            traces: Ghost(traces),
        }
    }

    /// Resolves the instanced shadow permutation of each candidate caster
    /// key, in order; the table lists the keys whose permutation exists.
    fn shadow_table(&mut self, candidates: &Vec<BatchKey>) -> (table: Vec<(BatchKey, crate::handles::PipelineHandle)>)
        requires
            old(self).wf(),
        ensures
            final(self).backend_calls() == old(self).backend_calls(),
            final(self).wf(),
            final(self).same_frame(old(self)),
            final(self).same_settings(old(self)),
            final(self).mesh_pool() == old(self).mesh_pool(),
            final(self).material_pool() == old(self).material_pool(),
            final(self).texture_cache() == old(self).texture_cache(),
            final(self).fallback_sampler_handle() == old(self).fallback_sampler_handle(),
            final(self).library() == old(self).library(),
            final(self).caches().grows_from(&old(self).caches()),
            final(self).tracker().keeps_registries(&old(self).tracker()),
            final(self).tracker().retired() == old(self).tracker().retired(),
            forall|k: BatchKey|
                #[trigger] candidates@.contains(k) ==> lookup(table@, k) == shadow_instanced_for(
                    k,
                    final(self).material_pool(),
                    final(self).mesh_pool(),
                    final(self).caches(),
                ),
    {
        let ghost start = *self;
        proof {
            start.tracker().lemma_keeps_registries_refl();
            start.caches().lemma_grows_refl();
        }
        let mut table: Vec<(BatchKey, crate::handles::PipelineHandle)> = Vec::new();
        let mut j: usize = 0;
        while j < candidates.len()
            invariant
                self.backend_calls() == start.backend_calls(),
                j <= candidates@.len(),
                self.wf(),
                start == *old(self),
                self.same_frame(&start),
                self.same_settings(&start),
                self.mesh_pool() == start.mesh_pool(),
                self.material_pool() == start.material_pool(),
                self.texture_cache() == start.texture_cache(),
                self.fallback_sampler_handle() == start.fallback_sampler_handle(),
                self.library() == start.library(),
                self.caches().grows_from(&start.caches()),
                self.tracker().keeps_registries(&start.tracker()),
                self.tracker().retired() == start.tracker().retired(),
                forall|k: BatchKey|
                    #[trigger] candidates@.subrange(0, j as int).contains(k) ==> lookup(table@, k) == shadow_instanced_for(
                        k,
                        self.material_pool(),
                        self.mesh_pool(),
                        self.caches(),
                    ) && shadow_settled(k, self.material_pool(), self.mesh_pool(), self.caches()),
                forall|k: BatchKey| !(#[trigger] candidates@.subrange(0, j as int).contains(k)) ==> lookup(table@, k) is None,
            decreases candidates@.len() - j,
        {
            let k = candidates[j];
            let ghost before = *self;
            let ghost t0 = table@;
            let ghost materials = self.material_pool();
            let ghost meshes = self.mesh_pool();
            let ghost prefix = candidates@.subrange(0, j as int);
            let material = self.materials.get_slot(k.material);
            let mesh = self.meshes.get_slot(k.mesh);
            match (material, mesh) {
                (Some(record), Some(mesh_record)) => {
                    let key = ShadowKey {
                        vertex_layout: mesh_record.vertex_layout.duplicate(),
                        double_sided: record.double_sided,
                        instanced: true,
                    };
                    let ghost rec = *record;
                    let ghost mrec = *mesh_record;
                    let result = self.pipelines.resolve_shadow(&mut self.backend, &self.shaders, &mut self.lifetime, &key);
                    proof {
                        if pipeline_registered(self.tracker(), before.tracker()) {
                            self.tracker().lemma_keeps_registries(&before.tracker());
                        } else {
                            before.tracker().lemma_keeps_registries_refl();
                        }
                        self.tracker().lemma_keeps_registries_chain(&before.tracker(), &start.tracker());
                        assert(key@ == shadow_key_of(mrec, rec, true));
                        if find_entry(before.caches().shadow_entries(), key@) is None {
                            lemma_find_entry_none_push(before.caches().shadow_entries(), key@, result);
                            lemma_grows_push(before.caches().shadow_entries(), (key@, result));
                        } else {
                            lemma_grows_push(before.caches().shadow_entries(), arbitrary());
                        }
                        lemma_grows_push(self.caches().material_entries(), arbitrary());
                        lemma_grows_push(self.caches().instanced_entries(), arbitrary());
                        lemma_grows_push(self.caches().sky_entries(), arbitrary());
                        lemma_grows_push(self.caches().debug_entries(), arbitrary());
                        self.caches().lemma_grows_from_chain(&before.caches(), &start.caches());
                    }
                    match result {
                        Some(p) => {
                            table.push((k, p));
                        },
                        None => {},
                    }
                },
                _ => {},
            }
            proof {
                lemma_grows_push(before.caches().shadow_entries(), arbitrary());
                assert(candidates@.subrange(0, j + 1) =~= prefix.push(k));
                assert forall|k2: BatchKey| #[trigger] prefix.push(k).contains(k2) implies lookup(table@, k2)
                    == shadow_instanced_for(k2, self.material_pool(), self.mesh_pool(), self.caches()) && shadow_settled(
                    k2,
                    self.material_pool(),
                    self.mesh_pool(),
                    self.caches(),
                ) by {
                    if table@.len() > t0.len() {
                        lemma_lookup_push(t0, table@.last(), k2);
                        assert(table@ == t0.push(table@.last()));
                    }
                    if prefix.contains(k2) {
                        lemma_shadow_for_grows(k2, materials, meshes, before.caches(), self.caches());
                    } else {
                        assert(k2 == k);
                    }
                }
                assert forall|k2: BatchKey| !(#[trigger] prefix.push(k).contains(k2)) implies lookup(table@, k2) is None by {
                    assert(!prefix.contains(k2));
                    if table@.len() > t0.len() {
                        lemma_lookup_push(t0, table@.last(), k2);
                        assert(table@ == t0.push(table@.last()));
                        assert(prefix.push(k)[prefix.len() as int] == k);
                        assert(prefix.push(k).contains(k));
                    }
                }
            }
            j = j + 1;
        }
        proof {
            assert(candidates@.subrange(0, j as int) =~= candidates@);
        }
        table
    }

    /// The shadow pass of the frame, batched from the harvested casters
    /// (when shadows are configured), with its report and stats.
    fn plan_shadow(
        &mut self,
        lights: &Vec<Light>,
        casters: &Vec<FrameDraw>,
        caster_keys: &Vec<BatchKey>,
        casters_culled: usize,
        light_view: Option<Mat4>,
    ) -> (r: (Option<FrameShadowPass>, Option<ShadowReport>, Option<ShadowStats>))
        requires
            old(self).wf(),
            casters@.len() == caster_keys@.len(),
        ensures
            final(self).backend_calls() == old(self).backend_calls(),
            final(self).wf(),
            final(self).same_frame(old(self)),
            final(self).same_settings(old(self)),
            final(self).mesh_pool() == old(self).mesh_pool(),
            final(self).material_pool() == old(self).material_pool(),
            final(self).texture_cache() == old(self).texture_cache(),
            final(self).fallback_sampler_handle() == old(self).fallback_sampler_handle(),
            final(self).library() == old(self).library(),
            final(self).caches().grows_from(&old(self).caches()),
            final(self).tracker().keeps_registries(&old(self).tracker()),
            final(self).tracker().retired() == old(self).tracker().retired(),
            shadow_planned(
                r.0,
                old(self).shadow_settings(),
                lights@,
                light_view,
                casters@,
                caster_keys@,
                old(self).material_pool(),
                old(self).mesh_pool(),
                final(self).caches(),
            ),
            shadow_reported(r.1, r.2, r.0, casters_culled),
    {
        let ghost start = *self;
        proof {
            start.tracker().lemma_keeps_registries_refl();
            start.caches().lemma_grows_refl();
        }
        let settings = match self.directional_shadow {
            Some(s) => s,
            None => {
                return (None, None, None);
            },
        };
        let (sorted_draws, sorted_keys) = sort_casters(casters, caster_keys);
        let candidates = fusable_keys(&sorted_keys);
        let table = self.shadow_table(&candidates);
        let mut instances: Vec<InstanceTransforms> = Vec::new();
        let draws = batch_class(&sorted_draws, &sorted_keys, &table, &mut instances);
        let view = match light_view {
            Some(v) => v,
            None => {
                return (None, None, None);
            },
        };
        let light_count = lights.len();
        proof {
            crate::lights::lemma_first_directional_bound(lights@);
        }
        let light_index = match shadow_light_index(lights) {
            Some(i) => i,
            None => {
                return (None, None, None);
            },
        };
        let light_index: u32 = if light_index <= 0xFFFF_FFFF { light_index as u32 } else { 0 };
        let objects = object_count(&draws);
        let no_debug: Vec<FrameDebugBatch> = Vec::new();
        let analysis = analyze_draws(draws.as_slice(), no_debug.as_slice());
        let draw_calls = draws.len();
        let report = ShadowReport { draws: objects, draw_calls, culled: casters_culled, resolution: settings.resolution };
        let stats = ShadowStats {
            draws: objects,
            draw_calls,
            culled: casters_culled,
            instances: analysis.instances,
            triangles: analysis.triangles,
        };
        let shadow = FrameShadowPass {
            view_projection: view,
            resolution: settings.resolution,
            depth_bias: settings.depth_bias,
            normal_bias: settings.normal_bias,
            light_index,
            draws,
            instances,
        };
        proof {
            let materials = start.material_pool();
            let meshes = start.mesh_pool();
            let caches = self.caches();
            let order = choose|order: Seq<usize>|
                #![trigger is_permutation(order, caster_keys@.len())]
                is_permutation(order, caster_keys@.len()) && stably_sorted(
                    Seq::new(caster_keys@.len(), |i: int| caster_key(caster_keys@[i])),
                    order,
                ) && sorted_draws@ == Seq::new(order.len(), |i: int| casters@[order[i] as int]) && sorted_keys@
                    == Seq::new(order.len(), |i: int| caster_keys@[order[i] as int]);
            assert(sorted_draws@ == permuted(casters@, order));
            assert(sorted_keys@ == permuted(caster_keys@, order));
            assert forall|t2: Seq<(BatchKey, crate::handles::PipelineHandle)>|
                #[trigger] shadow_table_ok(t2, permuted(caster_keys@, order), materials, meshes, caches) implies ({
                let b = batch_from(permuted(casters@, order), permuted(caster_keys@, order), t2, 0, 0);
                shadow.draws@ == b.0 && shadow.instances@ == b.1
            }) by {
                assert forall|key: BatchKey| #[trigger] fusable(sorted_keys@, key) implies lookup(table@, key) == lookup(
                    t2,
                    key,
                ) by {
                    assert(candidates@.contains(key));
                }
                lemma_batch_from_congruent(sorted_draws@, sorted_keys@, table@, t2, 0, 0);
                assert(instances@ =~= Seq::<InstanceTransforms>::empty() + batch_from(
                    sorted_draws@,
                    sorted_keys@,
                    table@,
                    0,
                    0,
                ).1);
            }
        }
        (Some(shadow), Some(report), Some(stats))
    }

    /// Closes the diagnostics of a frame: the totals summed over the passes
    /// and the report, the surface counters advanced by what the backend
    /// answered (nothing when nothing went to it), the active fallbacks, the
    /// GPU time of the backend and the owned resources.
    fn finish_diagnostics(
        &mut self,
        submitted: usize,
        passes: Vec<PassStats>,
        shadow: Option<ShadowStats>,
        debug_segments: usize,
        outcome: Option<FrameOutcome>,
    )
        requires
            old(self).wf(),
        ensures
            final(self).backend_calls() == old(self).backend_calls(),
            final(self).wf(),
            final(self).same_resources(old(self)),
            final(self).same_settings(old(self)),
            final(self).passes() == old(self).passes(),
            final(self).queues() == old(self).queues(),
            final(self).submitted_lights() == old(self).submitted_lights(),
            final(self).debug_store() == old(self).debug_store(),
            final(self).last_report() == old(self).last_report(),
            final(self).last_diagnostics().frame == totals_of(
                submitted,
                passes@,
                old(self).last_report().passes@,
                debug_segments,
            ),
            final(self).last_diagnostics().passes@ == passes@,
            final(self).last_diagnostics().shadow == shadow,
            final(self).last_diagnostics().surface == surface_after(old(self).last_diagnostics().surface, outcome),
            final(self).last_diagnostics().budget == old(self).last_diagnostics().budget,
            final(self).last_diagnostics().cpu == old(self).last_diagnostics().cpu,
            final(self).last_diagnostics().fallbacks == (FallbackStats {
                degraded_permutations: sat(old(self).caches().degraded() as int),
                fallback_textures: old(self).tracker().fallback_textures() as usize,
                fallback_samplers: old(self).tracker().fallback_samplers() as usize,
            }),
            old(self).resources_reported(final(self).last_diagnostics().resources),
    {
        let mut sums: [usize; 8] = [0, 0, 0, 0, 0, 0, 0, 0];
        let mut i: usize = 0;
        while i < passes.len()
            invariant
                i <= passes@.len(),
                sums@.len() == 8,
                sums@[0] == stats_sum(passes@.subrange(0, i as int), StatField::Draws),
                sums@[1] == stats_sum(passes@.subrange(0, i as int), StatField::ClassicDraws),
                sums@[2] == stats_sum(passes@.subrange(0, i as int), StatField::InstancedDraws),
                sums@[3] == stats_sum(passes@.subrange(0, i as int), StatField::Instances),
                sums@[4] == stats_sum(passes@.subrange(0, i as int), StatField::Culled),
                sums@[5] == stats_sum(passes@.subrange(0, i as int), StatField::Triangles),
                sums@[6] == stats_sum(passes@.subrange(0, i as int), StatField::PipelineSwitches),
                sums@[7] == stats_sum(passes@.subrange(0, i as int), StatField::MaterialSwitches),
            decreases passes@.len() - i,
        {
            proof {
                assert(passes@.subrange(0, i + 1).drop_last() =~= passes@.subrange(0, i as int));
            }
            let p = &passes[i];
            sums[0] = sat_add(sums[0], p.draws);
            sums[1] = sat_add(sums[1], p.classic_draws);
            sums[2] = sat_add(sums[2], p.instanced_draws);
            sums[3] = sat_add(sums[3], p.instances);
            sums[4] = sat_add(sums[4], p.culled);
            sums[5] = sat_add(sums[5], p.triangles);
            sums[6] = sat_add(sums[6], p.pipeline_switches);
            sums[7] = sat_add(sums[7], p.material_switches);
            i = i + 1;
        }
        proof {
            assert(passes@.subrange(0, i as int) =~= passes@);
        }
        let mut injected: usize = 0;
        let mut executed: usize = 0;
        let mut j: usize = 0;
        while j < self.report.passes.len()
            invariant
                j <= self.report.passes@.len(),
                injected == injected_sum(self.report.passes@.subrange(0, j as int)),
                executed == executed_reports(self.report.passes@.subrange(0, j as int)),
            decreases self.report.passes@.len() - j,
        {
            proof {
                assert(self.report.passes@.subrange(0, j + 1).drop_last() =~= self.report.passes@.subrange(0, j as int));
                lemma_executed_reports_bound(self.report.passes@.subrange(0, j as int));
            }
            injected = sat_add(injected, self.report.passes[j].breakdown.injected);
            if self.report.passes[j].outcome == PassOutcome::Executed {
                executed = executed + 1;
            }
            j = j + 1;
        }
        proof {
            assert(self.report.passes@.subrange(0, j as int) =~= self.report.passes@);
            lemma_executed_reports_bound(self.report.passes@);
        }
        let skipped = self.report.passes.len() - executed;
        let totals = FrameTotals {
            submitted,
            resolved: sums[0],
            injected,
            classic_draws: sums[1],
            instanced_draws: sums[2],
            instances: sums[3],
            culled: sums[4],
            triangles: sums[5],
            pipeline_switches: sums[6],
            material_switches: sums[7],
            debug_segments,
            passes_executed: executed,
            passes_skipped: skipped,
        };
        let mut surface = self.diagnostics.surface;
        match outcome {
            Some(FrameOutcome::Rendered) => {
                surface.presented = bump_counter(surface.presented);
            },
            Some(FrameOutcome::Skipped(FrameSkipReason::SurfaceUnavailable)) => {
                surface.skipped_unavailable = bump_counter(surface.skipped_unavailable);
            },
            Some(FrameOutcome::Skipped(FrameSkipReason::SurfaceReconfigured)) => {
                surface.reconfigured = bump_counter(surface.reconfigured);
            },
            Some(FrameOutcome::Skipped(FrameSkipReason::ZeroArea)) => {
                surface.zero_area = bump_counter(surface.zero_area);
            },
            None => {},
        }
        let fallbacks = FallbackStats {
            degraded_permutations: self.pipelines.degraded_count(),
            fallback_textures: self.lifetime.fallback_texture_count(),
            fallback_samplers: self.lifetime.fallback_sampler_count(),
        };
        let gpu = self.backend.gpu_frame_time();
        let resources = self.resource_stats();
        self.diagnostics.frame = totals;
        self.diagnostics.passes = passes;
        self.diagnostics.shadow = shadow;
        self.diagnostics.surface = surface;
        self.diagnostics.fallbacks = fallbacks;
        self.diagnostics.gpu = gpu;
        self.diagnostics.resources = resources;
    }

    /// Renders the orchestrated frame: the declared passes in their
    /// schedule (`facts` tells of each queued draw, pass by pass in
    /// submission order; `light_view` is the view of the shadow light).
    /// A disabled pass is skipped; a pass whose target died disables
    /// itself; a draw that samples its own destination is dropped. The
    /// casters of all passes make the shadow pass. The plan goes to the
    /// backend (nothing goes when no pass executes); the report is rebuilt,
    /// the retired resources released, the diagnostics closed. The queues
    /// stay as they are until the next `clear_draws`.
    pub fn render_frame(&mut self, facts: &Vec<Vec<DrawFacts>>, light_view: Option<Mat4>) -> (result: Result<
        FrameOutcome,
        RenderError,
    >)
        requires
            old(self).wf(),
            facts@.len() == old(self).passes().len(),
            forall|i: int| 0 <= i < facts@.len() ==> (#[trigger] facts@[i])@.len() == old(self).queues()[i].len(),
        ensures
            final(self).wf(),
            final(self).passes() == Seq::new(
                old(self).passes().len(),
                |i: int| after_frame(old(self).passes()[i], old(self).tracker()),
            ),
            final(self).queues() == old(self).queues(),
            final(self).submitted_lights() == old(self).submitted_lights(),
            final(self).debug_store() == old(self).debug_store(),
            final(self).same_settings(old(self)),
            final(self).mesh_pool() == old(self).mesh_pool(),
            final(self).material_pool() == old(self).material_pool(),
            final(self).texture_cache() == old(self).texture_cache(),
            final(self).fallback_sampler_handle() == old(self).fallback_sampler_handle(),
            final(self).library() == old(self).library(),
            final(self).caches().grows_from(&old(self).caches()),
            final(self).tracker().keeps_registries(&old(self).tracker()),
            result is Err ==> {
                &&& result matches Err(RenderError::Backend(_))
                &&& final(self).last_report() == old(self).last_report()
                &&& final(self).last_diagnostics() == old(self).last_diagnostics()
                &&& final(self).tracker().retired() == old(self).tracker().retired()
            },
            result is Ok ==> {
                &&& final(self).tracker().retired() == Seq::<crate::lifetime::Retired>::empty()
                &&& final(self).last_diagnostics().fallbacks == (FallbackStats {
                    degraded_permutations: sat(final(self).caches().degraded() as int),
                    fallback_textures: final(self).tracker().fallback_textures() as usize,
                    fallback_samplers: final(self).tracker().fallback_samplers() as usize,
                })
                &&& final(self).resources_reported(final(self).last_diagnostics().resources)
            },
            exists|s: ScheduledPasses|
                #![trigger scheduled(s, old(self).passes(), old(self).queues(), facts_view(facts@), old(self).frame_inputs(), old(self).shadow_settings() is Some, final(self).caches())]
                scheduled(
                    s,
                    old(self).passes(),
                    old(self).queues(),
                    facts_view(facts@),
                    old(self).frame_inputs(),
                    old(self).shadow_settings() is Some,
                    final(self).caches(),
                ) && if s.plan@.len() == 0 {
                    &&& result == Ok::<FrameOutcome, RenderError>(FrameOutcome::Rendered)
                    &&& final(self).backend_calls() == old(self).backend_calls() + releases(old(self).tracker().retired())
                    &&& final(self).last_report().passes@ == s.reports@
                    &&& final(self).last_report().shadow is None
                    &&& final(self).last_diagnostics().shadow is None
                    &&& frame_diagnosed(
                        final(self).last_diagnostics(),
                        old(self).last_diagnostics(),
                        capped_count(total_draws(old(self).queues())),
                        s,
                        s.reports@,
                        None,
                    )
                } else {
                    &&& exists|p: FramePlan, a: Result<FrameOutcome, BackendError>|
                        #![trigger frame_sent(final(self).backend_calls(), old(self).backend_calls(), old(self).tracker().retired(), p, a)]
                        frame_sent(final(self).backend_calls(), old(self).backend_calls(), old(self).tracker().retired(), p, a)
                            && p.passes@ == s.plan@ && lights_sent(p.lights, *old(self)) && environment_sent(
                            p.environment,
                            *old(self),
                        ) && answered(result, a)
                    &&& result matches Ok(outcome) ==> {
                        &&& final(self).last_report().passes@ == marked_reports(s.reports@, outcome)
                        &&& exists|shadow: Option<FrameShadowPass>|
                            #![trigger shadow_reported(final(self).last_report().shadow, final(self).last_diagnostics().shadow, shadow, s.casters_culled)]
                            shadow_planned(
                                shadow,
                                old(self).shadow_settings(),
                                collected(old(self).submitted_lights()),
                                light_view,
                                s.casters@,
                                s.caster_keys@,
                                old(self).material_pool(),
                                old(self).mesh_pool(),
                                final(self).caches(),
                            ) && shadow_reported(
                                final(self).last_report().shadow,
                                final(self).last_diagnostics().shadow,
                                shadow,
                                s.casters_culled,
                            )
                        &&& frame_diagnosed(
                            final(self).last_diagnostics(),
                            old(self).last_diagnostics(),
                            capped_count(total_draws(old(self).queues())),
                            s,
                            marked_reports(s.reports@, outcome),
                            Some(outcome),
                        )
                    }
                },
    {
        let ghost start = *self;
        let submitted = self.draw_count();
        let lights = self.frame_lights();
        let passes_planned = self.plan_scheduled(facts);
        let ghost after_passes = *self;
        let ghost planned = passes_planned;
        if passes_planned.plan.len() == 0 {
            let ScheduledPasses { plan: _, reports, stats, debug_segments, casters: _, caster_keys: _, casters_culled: _, schedule: _, traces: _ } = passes_planned;
            self.report = FrameReport { passes: reports, shadow: None };
            let ghost reported = *self;
            self.flush_retired();
            let ghost flushed = *self;
            self.finish_diagnostics(submitted, stats, None, debug_segments, None);
            proof {
                flushed.tracker().lemma_keeps_resources_registries(&reported.tracker());
                flushed.tracker().lemma_keeps_registries_chain(&after_passes.tracker(), &start.tracker());
                assert(scheduled(
                    planned,
                    start.passes(),
                    start.queues(),
                    facts_view(facts@),
                    start.frame_inputs(),
                    start.shadow_settings() is Some,
                    self.caches(),
                ));
            }
            return Ok(FrameOutcome::Rendered);
        }
        proof {
            lemma_harvest_lengths(passes_planned.traces@);
        }
        let (shadow, shadow_report, shadow_stats) = self.plan_shadow(
            &lights.lights,
            &passes_planned.casters,
            &passes_planned.caster_keys,
            passes_planned.casters_culled,
            light_view,
        );
        let ghost after_shadow = *self;
        let ghost shadow_plan = shadow;
        proof {
            after_shadow.caches().lemma_grows_from_chain(&after_passes.caches(), &start.caches());
            after_shadow.tracker().lemma_keeps_registries_chain(&after_passes.tracker(), &start.tracker());
            lemma_scheduled_grows(
                planned,
                start.passes(),
                start.queues(),
                facts_view(facts@),
                start.frame_inputs(),
                start.shadow_settings() is Some,
                after_passes.caches(),
                after_shadow.caches(),
            );
        }
        let environment = self.frame_environment();
        let ScheduledPasses { plan: passes, reports, stats, debug_segments, casters, caster_keys, casters_culled, schedule, traces } = passes_planned;
        let plan = FramePlan { passes, lights, environment, shadow };
        let answer = self.backend.render(&plan);
        let ghost sent_before = self.sent@;
        proof {
            self.sent@ = self.sent@.push(BackendCall::Render(plan, answer));
        }
        let outcome = match answer {
            Ok(o) => o,
            Err(e) => {
                proof {
                    assert(self.sent@ =~= sent_before.push(BackendCall::Render(plan, answer)) + Seq::<BackendCall>::empty());
                    assert(frame_sent(self.backend_calls(), start.backend_calls(), start.tracker().retired(), plan, answer));
                    assert(scheduled(
                        planned,
                        start.passes(),
                        start.queues(),
                        facts_view(facts@),
                        start.frame_inputs(),
                        start.shadow_settings() is Some,
                        self.caches(),
                    ));
                }
                return Err(RenderError::Backend(e));
            },
        };
        let mut reports = reports;
        let skipped = match outcome {
            FrameOutcome::Skipped(_) => true,
            FrameOutcome::Rendered => false,
        };
        if skipped {
            let ghost before_marks = reports@;
            let mut j: usize = 0;
            while j < reports.len()
                invariant
                    j <= reports@.len(),
                    reports@.len() == before_marks.len(),
                    outcome is Skipped,
                    forall|m: int| 0 <= m < j ==> #[trigger] reports@[m] == marked_report(before_marks[m], outcome),
                    forall|m: int| j <= m < reports@.len() ==> #[trigger] reports@[m] == before_marks[m],
                decreases reports@.len() - j,
            {
                if reports[j].destination == RenderDestination::Surface && reports[j].outcome == PassOutcome::Executed {
                    reports[j].outcome = PassOutcome::SurfaceSkipped;
                }
                j = j + 1;
            }
        }
        proof {
            assert(reports@ =~= marked_reports(planned.reports@, outcome));
        }
        self.report = FrameReport { passes: reports, shadow: shadow_report };
        let ghost reported = *self;
        self.flush_retired();
        let ghost flushed = *self;
        self.finish_diagnostics(submitted, stats, shadow_stats, debug_segments, Some(outcome));
        proof {
            flushed.tracker().lemma_keeps_resources_registries(&reported.tracker());
            flushed.tracker().lemma_keeps_registries_chain(&after_shadow.tracker(), &start.tracker());
            assert(scheduled(
                planned,
                start.passes(),
                start.queues(),
                facts_view(facts@),
                start.frame_inputs(),
                start.shadow_settings() is Some,
                self.caches(),
            ));
            assert(shadow_reported(self.last_report().shadow, self.last_diagnostics().shadow, shadow_plan, planned.casters_culled));
            assert(frame_sent(self.backend_calls(), start.backend_calls(), start.tracker().retired(), plan, answer));
        }
        Ok(outcome)
    }

    /// Renders one pass into an off-screen target immediately, outside the
    /// orchestrated frame (thumbnails, bakes): `commands` (told of by
    /// `facts`, in order) sorted by material in a local copy, resolved like
    /// the frame's (stale and feedback draws dropped alike), then executed
    /// as the single pass `chaos.offscreen`, without debug lines or shadow
    /// pass. The declared passes, their queues and the frame report are
    /// untouched. A stale target is refused.
    pub fn render_to_target(
        &mut self,
        target: crate::handles::RenderTargetHandle,
        clear_color: Color,
        view_projection: Mat4,
        commands: &Vec<DrawCommand>,
        facts: &Vec<DrawFacts>,
    ) -> (result: Result<FrameOutcome, RenderError>)
        requires
            old(self).wf(),
            facts@.len() == commands@.len(),
        ensures
            final(self).wf(),
            final(self).same_frame(old(self)),
            final(self).same_settings(old(self)),
            final(self).mesh_pool() == old(self).mesh_pool(),
            final(self).material_pool() == old(self).material_pool(),
            final(self).texture_cache() == old(self).texture_cache(),
            final(self).fallback_sampler_handle() == old(self).fallback_sampler_handle(),
            final(self).library() == old(self).library(),
            final(self).caches().grows_from(&old(self).caches()),
            final(self).tracker().keeps_registries(&old(self).tracker()),
            final(self).tracker().retired() == old(self).tracker().retired(),
            !old(self).tracker().targets().contains_key(target.spec_key()) ==> {
                &&& result matches Err(RenderError::Stale(ResourceKind::RenderTarget))
                &&& *final(self) == *old(self)
            },
            old(self).tracker().targets().contains_key(target.spec_key()) ==> {
                &&& (result is Err ==> (result matches Err(RenderError::Backend(_))))
                &&& exists|fp: FramePass, order: Seq<usize>, outcomes: Seq<CommandOutcome>|
                    #![trigger offscreen_planned(fp, target, clear_color, view_projection, commands@, facts@, order, outcomes, old(self).frame_inputs(), final(self).caches())]
                    offscreen_planned(
                        fp,
                        target,
                        clear_color,
                        view_projection,
                        commands@,
                        facts@,
                        order,
                        outcomes,
                        old(self).frame_inputs(),
                        final(self).caches(),
                    ) && exists|p: FramePlan, a: Result<FrameOutcome, BackendError>|
                        #![trigger plan_sent(final(self).backend_calls(), old(self).backend_calls(), p, a)]
                        plan_sent(final(self).backend_calls(), old(self).backend_calls(), p, a)
                            && p.passes@ == seq![fp] && p.shadow is None && lights_sent(p.lights, *old(self))
                            && environment_sent(p.environment, *old(self)) && answered(result, a)
            },
    {
        let ghost start = *self;
        proof {
            start.tracker().lemma_keeps_registries_refl();
            start.caches().lemma_grows_refl();
        }
        let (blocked, format) = match self.lifetime.render_target_info(target) {
            Some(info) => (Some(info.color), Some(info.format)),
            None => {
                return Err(RenderError::Stale(ResourceKind::RenderTarget));
            },
        };
        let sky = match &self.environment {
            Some(e) => e.sky,
            None => false,
        };
        let (ordered, ordered_facts, order) = by_material(commands, facts);
        let mut casters: Vec<FrameDraw> = Vec::new();
        let mut caster_keys: Vec<BatchKey> = Vec::new();
        let mut casters_culled: usize = 0;
        let outcomes = self.resolve_commands(
            &ordered,
            &ordered_facts,
            format,
            blocked,
            false,
            &mut casters,
            &mut caster_keys,
            &mut casters_culled,
        );
        let ghost after_resolve = *self;
        let resolved = self.assemble_pass(&outcomes, format, sky);
        let ghost after_assemble = *self;
        let super::resolve::ResolvedPass { draws, breakdown, instances, culled } = resolved;
        let label = String::from_str("chaos.offscreen");
        proof {
            reveal_strlit("chaos.offscreen");
        }
        let fp = FramePass {
            label,
            destination: RenderDestination::Target(target),
            load: PassLoad::Clear(clear_color),
            view_projection,
            camera_position: Vec3::zero(),
            draws,
            instances,
            debug: Vec::new(),
            debug_vertices: Vec::new(),
        };
        let ghost pass = fp;
        let lights = self.frame_lights();
        let environment = self.frame_environment();
        let plan = FramePlan { passes: vec![fp], lights, environment, shadow: None };
        let answer = self.backend.render(&plan);
        proof {
            self.sent@ = self.sent@.push(BackendCall::Render(plan, answer));
        }
        let result = match answer {
            Ok(o) => Ok(o),
            Err(e) => Err(RenderError::Backend(e)),
        };
        proof {
            after_assemble.tracker().lemma_keeps_registries_chain(&after_resolve.tracker(), &start.tracker());
            after_assemble.caches().lemma_grows_from_chain(&after_resolve.caches(), &start.caches());
            lemma_outcomes_ok_grows(
                outcomes@,
                ordered@,
                ordered_facts@,
                start.material_pool()@,
                start.mesh_pool()@,
                blocked,
                format,
                false,
                after_resolve.caches(),
                self.caches(),
            );
            assert(pass.label@ == offscreen_label());
            assert(sky == wants_sky(start.environment(), PassLoad::Clear(clear_color)));
            assert(assembled(pass.draws@, pass.instances@, breakdown, culled, outcomes@, sky, start.material_pool(), format, self.caches()));
            assert(outcomes_ok(
                outcomes@,
                permuted(commands@, order@),
                permuted(facts@, order@),
                start.material_pool()@,
                start.mesh_pool()@,
                blocked,
                format,
                false,
                self.caches(),
            ));
            assert(assembled_somehow(pass.draws@, pass.instances@, outcomes@, sky, start.material_pool(), format, self.caches()));
            assert(plan.passes@ =~= seq![pass]);
            assert(plan_sent(self.backend_calls(), start.backend_calls(), plan, answer));
            assert(lights_sent(plan.lights, start));
            assert(environment_sent(plan.environment, start));
            assert(answered(result, answer));
            assert(offscreen_planned(
                pass,
                target,
                clear_color,
                view_projection,
                commands@,
                facts@,
                order@,
                outcomes@,
                start.frame_inputs(),
                self.caches(),
            ));
        }
        result
    }

    /// Sets the CPU budget per frame, in milliseconds (an `f32` bit
    /// pattern); `None`, the default, never puts a frame over budget. A
    /// budget that is not finite and positive is ignored.
    pub fn set_cpu_budget(&mut self, budget_ms: Option<u32>)
        requires
            old(self).wf(),
        ensures
            final(self).wf(),
            final(self).same_resources(old(self)),
            final(self).same_settings(old(self)),
            final(self).backend() == old(self).backend(),
            final(self).passes() == old(self).passes(),
            final(self).queues() == old(self).queues(),
            final(self).submitted_lights() == old(self).submitted_lights(),
            final(self).debug_store() == old(self).debug_store(),
            final(self).last_report() == old(self).last_report(),
            (budget_ms matches Some(b) && !is_finite_positive(b)) ==> final(self).last_diagnostics()
                == old(self).last_diagnostics(),
            !(budget_ms matches Some(b) && !is_finite_positive(b)) ==> final(self).last_diagnostics() == (
            RendererDiagnostics {
                budget: BudgetStats { budget_ms, ..old(self).last_diagnostics().budget },
                ..old(self).last_diagnostics()
            }),
    {
        if let Some(b) = budget_ms {
            if !finite_positive(b) {
                return;
            }
        }
        self.diagnostics.budget.budget_ms = budget_ms;
    }

    /// Records what the last frame cost the CPU, in milliseconds (`f32` bit
    /// patterns, measured around `render_frame`): the resolution, the
    /// backend, the whole frame. A frame whose total exceeds the budget is
    /// counted over budget.
    pub fn record_cpu_cost(&mut self, resolve_ms: u32, backend_ms: u32, total_ms: u32)
        requires
            old(self).wf(),
        ensures
            final(self).wf(),
            final(self).same_resources(old(self)),
            final(self).same_settings(old(self)),
            final(self).backend() == old(self).backend(),
            final(self).passes() == old(self).passes(),
            final(self).queues() == old(self).queues(),
            final(self).submitted_lights() == old(self).submitted_lights(),
            final(self).debug_store() == old(self).debug_store(),
            final(self).last_report() == old(self).last_report(),
            ({
                let earlier = old(self).last_diagnostics();
                let over = match earlier.budget.budget_ms {
                    Some(b) => exceeds(total_ms, b),
                    None => false,
                };
                final(self).last_diagnostics() == RendererDiagnostics {
                    cpu: CpuCost { resolve_ms, backend_ms, total_ms },
                    budget: BudgetStats {
                        last_frame_over: over,
                        over_budget_frames: if over {
                            bump(earlier.budget.over_budget_frames)
                        } else {
                            earlier.budget.over_budget_frames
                        },
                        ..earlier.budget
                    },
                    ..earlier
                }
            }),
    {
        let over = match self.diagnostics.budget.budget_ms {
            Some(b) => greater(total_ms, b),
            None => false,
        };
        self.diagnostics.cpu = CpuCost { resolve_ms, backend_ms, total_ms };
        self.diagnostics.budget.last_frame_over = over;
        if over {
            self.diagnostics.budget.over_budget_frames = bump_counter(self.diagnostics.budget.over_budget_frames);
        }
    }

    /// Plans an enabled pass whose destination lives: its queue resolved
    /// in material order (the shadow casters harvested when `harvesting`),
    /// assembled, its debug lines appended; with its report and stats.
    fn plan_pass(
        &mut self,
        index: usize,
        facts: &Vec<DrawFacts>,
        harvesting: bool,
        casters: &mut Vec<FrameDraw>,
        caster_keys: &mut Vec<BatchKey>,
        casters_culled: &mut usize,
    ) -> (r: (FramePass, PassReport, PassStats, usize, Ghost<Seq<usize>>, Ghost<Seq<CommandOutcome>>))
        requires
            old(self).wf(),
            index < old(self).passes().len(),
            facts@.len() == old(self).queues()[index as int].len(),
            destination_live(old(self).tracker(), old(self).passes()[index as int].destination),
        ensures
            final(self).backend_calls() == old(self).backend_calls(),
            final(self).wf(),
            final(self).same_frame(old(self)),
            final(self).same_settings(old(self)),
            final(self).mesh_pool() == old(self).mesh_pool(),
            final(self).material_pool() == old(self).material_pool(),
            final(self).texture_cache() == old(self).texture_cache(),
            final(self).fallback_sampler_handle() == old(self).fallback_sampler_handle(),
            final(self).library() == old(self).library(),
            final(self).caches().grows_from(&old(self).caches()),
            final(self).tracker().keeps_registries(&old(self).tracker()),
            final(self).tracker().retired() == old(self).tracker().retired(),
            executed_pass(
                r.0,
                r.1,
                r.2,
                r.3,
                old(self).passes()[index as int],
                index as int,
                old(self).queues()[index as int],
                facts@,
                r.4@,
                r.5@,
                old(self).frame_inputs(),
                harvesting,
                final(self).caches(),
            ),
            final(casters)@ == old(casters)@ + harvested_draws(r.5@),
            final(caster_keys)@ == old(caster_keys)@ + harvested_keys(r.5@),
            *final(casters_culled) == sat(*old(casters_culled) + light_culled(r.5@)),
    {
        let ghost start = *self;
        proof {
            self.passes.lemma_main();
        }
        let d = self.passes.descriptor(index);
        let label = d.label.clone();
        let destination = d.destination;
        let load = d.load;
        let view_projection = d.view_projection;
        let camera_position = d.camera_position;
        let (blocked, format) = match destination {
            RenderDestination::Surface => (None, None),
            RenderDestination::Target(t) => match self.lifetime.render_target_info(t) {
                Some(info) => (Some(info.color), Some(info.format)),
                None => (None, None),
            },
        };
        let shows_sky = match &self.environment {
            Some(e) => e.sky,
            None => false,
        };
        let sky = shows_sky && match load {
            PassLoad::Clear(_) => true,
            PassLoad::Keep => false,
        };
        let (ordered, ordered_facts, order) = by_material(self.passes.queue(index), facts);
        let outcomes = self.resolve_commands(
            &ordered,
            &ordered_facts,
            format,
            blocked,
            harvesting,
            casters,
            caster_keys,
            casters_culled,
        );
        let ghost after_resolve = *self;
        let resolved = self.assemble_pass(&outcomes, format, sky);
        let ghost after_assemble = *self;
        let (debug, debug_vertices, primitives) = self.resolve_pass_debug(index as u32, format);
        let super::resolve::ResolvedPass { draws, breakdown, instances, culled } = resolved;
        let ghost base = breakdown;
        let mut breakdown = breakdown;
        breakdown.injected = sat_add(breakdown.injected, primitives);
        let objects = sat_add(sat_add(sat_add(breakdown.opaque, breakdown.masked), breakdown.transparent), breakdown.injected);
        let analysis = analyze_draws(draws.as_slice(), debug.as_slice());
        let draw_calls = sat_add(draws.len(), debug.len());
        let stats = PassStats {
            label: label.clone(),
            draws: objects,
            draw_calls,
            culled,
            triangles: analysis.triangles,
            classic_draws: analysis.classic_draws,
            instanced_draws: analysis.instanced_draws,
            instances: analysis.instances,
            pipeline_switches: analysis.pipeline_switches,
            material_switches: analysis.material_switches,
        };
        let report = PassReport {
            label: label.clone(),
            destination,
            draws: objects,
            draw_calls,
            culled,
            breakdown,
            outcome: PassOutcome::Executed,
        };
        let fp = FramePass {
            label,
            destination,
            load,
            view_projection,
            camera_position,
            draws,
            instances,
            debug,
            debug_vertices,
        };
        proof {
            after_assemble.tracker().lemma_keeps_registries_chain(&after_resolve.tracker(), &start.tracker());
            self.tracker().lemma_keeps_registries_chain(&after_assemble.tracker(), &start.tracker());
            after_assemble.caches().lemma_grows_from_chain(&after_resolve.caches(), &start.caches());
            self.caches().lemma_grows_from_chain(&after_assemble.caches(), &start.caches());
            self.caches().lemma_grows_from_chain(&after_assemble.caches(), &after_resolve.caches());
            self.tracker().lemma_keeps_registries(&start.tracker());
            lemma_outcomes_ok_grows(
                outcomes@,
                ordered@,
                ordered_facts@,
                start.material_pool()@,
                start.mesh_pool()@,
                blocked,
                format,
                harvesting,
                after_resolve.caches(),
                self.caches(),
            );
            lemma_assembled_grows(
                fp.draws@,
                fp.instances@,
                base,
                culled,
                outcomes@,
                sky,
                start.material_pool(),
                format,
                after_assemble.caches(),
                self.caches(),
            );
            if sky {
                crate::pipelines::lemma_find_entry_grows(
                    self.caches().sky_entries(),
                    after_assemble.caches().sky_entries(),
                    format,
                );
            }
            assert(sky_drawn(sky, format, self.caches()) == sky_drawn(sky, format, after_assemble.caches()));
            assert(base == DrawBreakdown {
                injected: if sky_drawn(sky, format, self.caches()) is Some { 1 } else { 0 },
                ..report.breakdown
            });
        }
        (fp, report, stats, analysis.debug_segments, order, Ghost(outcomes@))
    }
}

} // verus!
