//! The resolution of a pass: each queued draw checked against its
//! contracts (live material and mesh, no feedback, a resolvable
//! permutation, a matching vertex layout, visible in the pass frustum),
//! the shadow casters harvested with the light's visibility, then the
//! pass assembled in four steps — opaque, masked (both instanced where
//! runs repeat), the sky, the transparent sorted back to front.

use vstd::prelude::*;
use super::Renderer;
use super::meshes::{mesh_key, MeshRecord};
use super::surfaces::material_key;
use crate::backend::GraphicsBackend;
use crate::batching::{
    batch_class, batch_from, fusable, fusable_keys, lemma_batch_from_congruent, lemma_lookup_first, lemma_lookup_push, lookup, BatchKey,
    FrameDraw, InstanceTransforms,
};
use crate::frame::DrawBreakdown;
use crate::math::{identity_matrix, spec_total_key, total_key};
use crate::order::{is_permutation, stable_order, stably_sorted};
use crate::pool::ResourcePool;
use crate::handles::TextureHandle;
use crate::layout::same_layout;
use crate::materials::{fits_model, lemma_fits_model_same, record_textures, spec_casts_shadows, MaterialOpacity, MaterialRecord};
use crate::math::Mat4;
use crate::passes::DrawCommand;
use crate::pipelines::{
    cached_result, find_entry, grows, lemma_find_entry_grows, lemma_find_entry_none_push, lemma_grows_chain,
    lemma_grows_push, pipeline_registered, is_material_pipeline, unknown_shader, KeyView, PipelineCaches, PipelineKey,
    PipelineRequest, ShadowKey, ShadowKeyView,
};
use crate::pool::PoolHandle;
use crate::textures::TextureFormat;

verus! {

/// What the float math outside the library tells of a queued draw: its
/// model and normal matrices, whether its world bounds meet the pass
/// frustum and the light frustum (always, for a mesh without bounds or a
/// frame without a light frustum), and the squared distance of its origin
/// to the pass camera (bit pattern).
#[derive(Clone, Copy, Debug)]
pub struct DrawFacts {
    pub model: Mat4,
    pub normal: Mat4,
    pub in_view: bool,
    pub in_light: bool,
    pub depth: u32,
}

/// What became of a queued draw in its pass.
#[derive(Clone, Copy, Debug, PartialEq, Eq, Structural)]
pub enum DrawFate {
    StaleMaterial,
    /// The material samples the pass destination.
    Feedback,
    /// The material's pipeline permutation could not be created.
    NoPipeline,
    StaleMesh,
    /// The mesh's vertex layout is not the one the model expects.
    LayoutMismatch,
    /// Outside the pass frustum.
    Culled,
    Opaque,
    Masked,
    Transparent,
}

/// What became of a queued draw in the shadow harvest.
#[derive(Clone, Copy, Debug)]
pub enum ShadowFate {
    /// Not a caster of this frame.
    Skipped,
    /// Outside the light frustum.
    LightCulled,
    /// Its layout has no shadow pipeline.
    NoPipeline,
    /// Harvested as this depth-only draw.
    Harvested(FrameDraw),
}

/// The outcome of one queued draw.
#[derive(Clone, Copy, Debug)]
pub struct CommandOutcome {
    pub fate: DrawFate,
    /// The resolved draw (meaningful once the layout matched).
    pub draw: FrameDraw,
    pub key: BatchKey,
    pub depth: u32,
    pub shadow: ShadowFate,
}

/// The draw got past every contract check (it may still be culled).
pub open spec fn resolved(fate: DrawFate) -> bool {
    fate == DrawFate::Culled || fate == DrawFate::Opaque || fate == DrawFate::Masked || fate
        == DrawFate::Transparent
}

/// The fate of a draw when its permutation resolves: culled only when its
/// material is frustum-culled, its mesh has bounds and they miss the view
/// (a mesh without bounds is never culled).
pub open spec fn expected_fate(
    c: DrawCommand,
    f: DrawFacts,
    materials: Map<PoolHandle, MaterialRecord>,
    meshes: Map<PoolHandle, MeshRecord>,
    blocked: Option<TextureHandle>,
) -> DrawFate {
    let mk = material_key(c.material);
    let hk = mesh_key(c.mesh);
    if !materials.contains_key(mk) {
        DrawFate::StaleMaterial
    } else if blocked matches Some(b) && record_textures(materials[mk]).contains(b) {
        DrawFate::Feedback
    } else if !meshes.contains_key(hk) {
        DrawFate::StaleMesh
    } else if !fits_model(meshes[hk].vertex_layout, materials[mk].model@) {
        DrawFate::LayoutMismatch
    } else if materials[mk].frustum_culled && meshes[hk].bounds is Some && !f.in_view {
        DrawFate::Culled
    } else {
        match materials[mk].opacity {
            MaterialOpacity::Opaque => DrawFate::Opaque,
            MaterialOpacity::Masked => DrawFate::Masked,
            MaterialOpacity::Transparent => DrawFate::Transparent,
        }
    }
}

/// The permutation key of a material for a destination.
pub open spec fn pass_key(r: MaterialRecord, format: Option<TextureFormat>, instanced: bool) -> KeyView {
    KeyView { model: r.model@, double_sided: r.double_sided, opacity: r.opacity, color_format: format, instanced }
}

/// The shadow permutation key of a caster.
pub open spec fn shadow_key_of(m: MeshRecord, r: MaterialRecord, instanced: bool) -> ShadowKeyView {
    ShadowKeyView {
        stride: m.vertex_layout.stride,
        attributes: m.vertex_layout.attributes@,
        double_sided: r.double_sided,
        instanced,
    }
}

/// The draw of a resolved command.
pub open spec fn drawn(f: DrawFacts, r: MaterialRecord, m: MeshRecord, pipeline: crate::handles::PipelineHandle) -> FrameDraw {
    FrameDraw {
        pipeline,
        vertex_buffer: Some(m.vertex_buffer),
        index_buffer: m.index_buffer,
        element_count: m.element_count,
        model: f.model,
        normal: f.normal,
        binding: Some(r.binding),
        instances: None,
    }
}

/// `o` is a correct outcome for command `c`: the expected fate (or a
/// failed permutation, past the material checks), the draw on the cached
/// permutation, the shadow harvest by the light's visibility.
pub open spec fn outcome_ok(
    o: CommandOutcome,
    c: DrawCommand,
    f: DrawFacts,
    materials: Map<PoolHandle, MaterialRecord>,
    meshes: Map<PoolHandle, MeshRecord>,
    blocked: Option<TextureHandle>,
    format: Option<TextureFormat>,
    harvesting: bool,
    caches: PipelineCaches,
) -> bool {
    let e = expected_fate(c, f, materials, meshes, blocked);
    let r = materials[material_key(c.material)];
    let m = meshes[mesh_key(c.mesh)];
    &&& o.fate == e || (o.fate == DrawFate::NoPipeline && e != DrawFate::StaleMaterial && e != DrawFate::Feedback)
    &&& o.key == BatchKey { material: c.material.index, mesh: c.mesh.index }
    &&& o.depth == f.depth
    &&& resolved(o.fate) ==> (find_entry(caches.material_entries(), pass_key(r, format, false)) matches Some(p)
        && o.draw == drawn(f, r, m, p))
    &&& if resolved(o.fate) && harvesting && spec_casts_shadows(r.opacity) && r.cast_shadows {
        if r.frustum_culled && m.bounds is Some && !f.in_light {
            o.shadow is LightCulled
        } else {
            &&& find_entry(caches.shadow_entries(), shadow_key_of(m, r, false)) is Some
            &&& match cached_result(
                caches.shadow_entries(),
                shadow_key_of(m, r, false),
            ) {
                Some(sp) => o.shadow matches ShadowFate::Harvested(d) && d == FrameDraw {
                    pipeline: sp,
                    binding: None,
                    ..o.draw
                },
                None => o.shadow is NoPipeline,
            }
        }
    } else {
        o.shadow is Skipped
    }
}

/// Outcomes stay correct as the caches grow.
pub proof fn lemma_outcome_ok_grows(
    o: CommandOutcome,
    c: DrawCommand,
    f: DrawFacts,
    materials: Map<PoolHandle, MaterialRecord>,
    meshes: Map<PoolHandle, MeshRecord>,
    blocked: Option<TextureHandle>,
    format: Option<TextureFormat>,
    harvesting: bool,
    before: PipelineCaches,
    after: PipelineCaches,
)
    requires
        outcome_ok(o, c, f, materials, meshes, blocked, format, harvesting, before),
        after.grows_from(&before),
    ensures
        outcome_ok(o, c, f, materials, meshes, blocked, format, harvesting, after),
{
    let r = materials[material_key(c.material)];
    let m = meshes[mesh_key(c.mesh)];
    if resolved(o.fate) {
        lemma_find_entry_grows(after.material_entries(), before.material_entries(), pass_key(r, format, false));
        if harvesting && spec_casts_shadows(r.opacity) && r.cast_shadows && !(r.frustum_culled && m.bounds is Some && !f.in_light) {
            lemma_find_entry_grows(after.shadow_entries(), before.shadow_entries(), shadow_key_of(m, r, false));
        }
    }
}


/// The casters harvested by a run of outcomes, in order.
pub open spec fn harvested_draws(outcomes: Seq<CommandOutcome>) -> Seq<FrameDraw>
    decreases outcomes.len(),
{
    if outcomes.len() == 0 {
        Seq::empty()
    } else {
        let rest = harvested_draws(outcomes.drop_last());
        match outcomes.last().shadow {
            ShadowFate::Harvested(d) => rest.push(d),
            _ => rest,
        }
    }
}

/// The keys of the harvested casters, in order.
pub open spec fn harvested_keys(outcomes: Seq<CommandOutcome>) -> Seq<BatchKey>
    decreases outcomes.len(),
{
    if outcomes.len() == 0 {
        Seq::empty()
    } else {
        let rest = harvested_keys(outcomes.drop_last());
        match outcomes.last().shadow {
            ShadowFate::Harvested(_) => rest.push(outcomes.last().key),
            _ => rest,
        }
    }
}

/// Each harvested caster has its key.
pub proof fn lemma_harvested_lengths(outcomes: Seq<CommandOutcome>)
    ensures
        harvested_draws(outcomes).len() == harvested_keys(outcomes).len(),
    decreases outcomes.len(),
{
    if outcomes.len() > 0 {
        lemma_harvested_lengths(outcomes.drop_last());
    }
}

/// The casters outside the light frustum.
pub open spec fn light_culled(outcomes: Seq<CommandOutcome>) -> nat
    decreases outcomes.len(),
{
    if outcomes.len() == 0 {
        0
    } else {
        light_culled(outcomes.drop_last()) + if outcomes.last().shadow is LightCulled { 1nat } else { 0nat }
    }
}

/// The material permutation `k` cannot be had: its shader is missing from
/// the library, or a creation of it asked since request `from` of `log`
/// was refused.
pub open spec fn refused_since(
    log: Seq<PipelineRequest>,
    from: int,
    library: Map<Seq<char>, Seq<char>>,
    k: KeyView,
) -> bool {
    ||| unknown_shader(library, crate::materials::spec_shader_ref(k.model))
    ||| exists|j: int| from <= j < log.len() && #[trigger] is_material_pipeline(log[j].0, k) && log[j].1 is Err
}

/// A refusal recorded in a log stays recorded as the log grows, and counts
/// from any earlier point.
pub proof fn lemma_refused_since_grows(
    later: Seq<PipelineRequest>,
    earlier: Seq<PipelineRequest>,
    from_later: int,
    from_earlier: int,
    library: Map<Seq<char>, Seq<char>>,
    k: KeyView,
)
    requires
        refused_since(earlier, from_later, library, k),
        grows(later, earlier),
        0 <= from_earlier <= from_later,
    ensures
        refused_since(later, from_earlier, library, k),
{
    if !unknown_shader(library, crate::materials::spec_shader_ref(k.model)) {
        let j = choose|j: int| from_later <= j < earlier.len() && #[trigger] is_material_pipeline(earlier[j].0, k) && earlier[j].1 is Err;
        assert(later.subrange(0, earlier.len() as int)[j] == later[j]);
        assert(is_material_pipeline(later[j].0, k));
    }
}

/// The material whose permutation just failed, if any, lives, its
/// permutation is not cached and its creation was refused since `from`.
pub open spec fn failed_uncached(
    failed: Option<PoolHandle>,
    materials: Map<PoolHandle, MaterialRecord>,
    format: Option<TextureFormat>,
    caches: PipelineCaches,
    library: Map<Seq<char>, Seq<char>>,
    from: int,
) -> bool {
    failed matches Some(h) ==> materials.contains_key(h) && find_entry(
        caches.material_entries(),
        pass_key(materials[h], format, false),
    ) is None && refused_since(caches.requested(), from, library, pass_key(materials[h], format, false))
}

/// A draw marked `NoPipeline` has a permutation that `cached` did not
/// hold, and whose creation since then (in `log`) was refused or could not
/// be asked: a draw whose permutation was cached, or was created, is
/// never dropped for it.
pub open spec fn pipelines_owed(
    outcomes: Seq<CommandOutcome>,
    commands: Seq<DrawCommand>,
    materials: Map<PoolHandle, MaterialRecord>,
    format: Option<TextureFormat>,
    cached: PipelineCaches,
    log: Seq<PipelineRequest>,
    library: Map<Seq<char>, Seq<char>>,
) -> bool {
    forall|i: int|
        0 <= i < outcomes.len() && 0 <= i < commands.len() && (#[trigger] outcomes[i]).fate == DrawFate::NoPipeline
            ==> {
            let k = pass_key(materials[material_key(commands[i].material)], format, false);
            &&& find_entry(cached.material_entries(), k) is None
            &&& refused_since(log, cached.requested().len() as int, library, k)
        }
}

/// What a later cache lacked, an earlier one lacked too; what a log
/// recorded, a longer one records.
pub proof fn lemma_pipelines_owed_earlier(
    outcomes: Seq<CommandOutcome>,
    commands: Seq<DrawCommand>,
    materials: Map<PoolHandle, MaterialRecord>,
    format: Option<TextureFormat>,
    later: PipelineCaches,
    earlier: PipelineCaches,
    log: Seq<PipelineRequest>,
    longer: Seq<PipelineRequest>,
    library: Map<Seq<char>, Seq<char>>,
)
    requires
        pipelines_owed(outcomes, commands, materials, format, later, log, library),
        later.grows_from(&earlier),
        grows(longer, log),
    ensures
        pipelines_owed(outcomes, commands, materials, format, earlier, longer, library),
{
    assert forall|i: int|
        0 <= i < outcomes.len() && 0 <= i < commands.len() && (#[trigger] outcomes[i]).fate == DrawFate::NoPipeline
            implies ({
            let k = pass_key(materials[material_key(commands[i].material)], format, false);
            &&& find_entry(earlier.material_entries(), k) is None
            &&& refused_since(longer, earlier.requested().len() as int, library, k)
        }) by {
        let k = pass_key(materials[material_key(commands[i].material)], format, false);
        if find_entry(earlier.material_entries(), k) is Some {
            lemma_find_entry_grows(later.material_entries(), earlier.material_entries(), k);
        }
        lemma_refused_since_grows(longer, log, later.requested().len() as int, earlier.requested().len() as int, library, k);
    }
}

/// Each outcome is correct for its command.
pub open spec fn outcomes_ok(
    outcomes: Seq<CommandOutcome>,
    commands: Seq<DrawCommand>,
    facts: Seq<DrawFacts>,
    materials: Map<PoolHandle, MaterialRecord>,
    meshes: Map<PoolHandle, MeshRecord>,
    blocked: Option<TextureHandle>,
    format: Option<TextureFormat>,
    harvesting: bool,
    caches: PipelineCaches,
) -> bool {
    &&& outcomes.len() == commands.len()
    &&& facts.len() == commands.len()
    &&& forall|i: int|
        0 <= i < outcomes.len() ==> outcome_ok(
            #[trigger] outcomes[i],
            commands[i],
            facts[i],
            materials,
            meshes,
            blocked,
            format,
            harvesting,
            caches,
        )
}


/// The outcomes of one fate, in order.
pub open spec fn class_of(outcomes: Seq<CommandOutcome>, fate: DrawFate) -> Seq<CommandOutcome>
    decreases outcomes.len(),
{
    if outcomes.len() == 0 {
        Seq::empty()
    } else {
        let rest = class_of(outcomes.drop_last(), fate);
        if outcomes.last().fate == fate {
            rest.push(outcomes.last())
        } else {
            rest
        }
    }
}

/// The draws of outcomes.
pub open spec fn draws_of(outcomes: Seq<CommandOutcome>) -> Seq<FrameDraw> {
    Seq::new(outcomes.len(), |i: int| outcomes[i].draw)
}

/// The batch keys of outcomes.
pub open spec fn keys_of(outcomes: Seq<CommandOutcome>) -> Seq<BatchKey> {
    Seq::new(outcomes.len(), |i: int| outcomes[i].key)
}

/// The sort key putting the farthest first (descending `total_cmp` of
/// the squared distance).
pub open spec fn back_to_front(depth: u32) -> u64 {
    (0xFFFF_FFFFu32 - spec_total_key(depth)) as u64
}

/// Draws sort back to front: of two non-negative squared distances, the
/// strictly farther one gets the strictly smaller sort key (it is drawn
/// first), and equal distances get equal keys (submission order decides).
pub proof fn lemma_back_to_front_orders(near: u32, far: u32)
    requires
        near < 0x8000_0000,
        far < 0x8000_0000,
    ensures
        near < far ==> back_to_front(far) < back_to_front(near),
        near == far ==> back_to_front(far) == back_to_front(near),
{
    crate::math::lemma_total_key_orders(near, far);
}

/// The back-to-front sort keys of outcomes.
pub open spec fn depth_keys(outcomes: Seq<CommandOutcome>) -> Seq<u64> {
    Seq::new(outcomes.len(), |i: int| back_to_front(outcomes[i].depth))
}

/// The full-screen sky triangle on its pipeline.
pub open spec fn sky_draw(pipeline: crate::handles::PipelineHandle) -> FrameDraw {
    FrameDraw {
        pipeline,
        vertex_buffer: None,
        index_buffer: None,
        element_count: 3,
        model: identity_matrix(),
        normal: identity_matrix(),
        binding: None,
        instances: None,
    }
}

/// The instanced permutation expected for a batch key: that of the live
/// material of its material slot, if any.
pub open spec fn instanced_for(
    k: BatchKey,
    pool: ResourcePool<MaterialRecord>,
    format: Option<TextureFormat>,
    caches: PipelineCaches,
) -> Option<crate::handles::PipelineHandle> {
    let h = pool.slot_handle(k.material);
    if pool@.contains_key(h) {
        cached_result(caches.instanced_entries(), pass_key(pool@[h], format, true))
    } else {
        None
    }
}

/// `table` gives every fusable key of either class its instanced
/// permutation.
pub open spec fn instanced_table_ok(
    table: Seq<(BatchKey, crate::handles::PipelineHandle)>,
    opaque_keys: Seq<BatchKey>,
    masked_keys: Seq<BatchKey>,
    pool: ResourcePool<MaterialRecord>,
    format: Option<TextureFormat>,
    caches: PipelineCaches,
) -> bool {
    forall|k: BatchKey|
        #![trigger fusable(opaque_keys, k)]
        #![trigger fusable(masked_keys, k)]
        fusable(opaque_keys, k) || fusable(masked_keys, k) ==> lookup(table, k) == instanced_for(
            k,
            pool,
            format,
            caches,
        )
}

/// A resolved pass: its draws in execution order, its objects by
/// category, its instance transforms, the objects its frustum rejected.
#[derive(Debug)]
pub struct ResolvedPass {
    pub draws: Vec<FrameDraw>,
    pub breakdown: DrawBreakdown,
    pub instances: Vec<InstanceTransforms>,
    pub culled: usize,
}

/// `draws` and `instances` lay out the classes with `table` as instanced
/// permutations: the opaque then masked draws batched (their transforms in
/// that order in the instance buffer), the sky when drawn, then the
/// transparent draws in `order`.
pub open spec fn laid_out(
    draws: Seq<FrameDraw>,
    instances: Seq<InstanceTransforms>,
    op: Seq<CommandOutcome>,
    ma: Seq<CommandOutcome>,
    tr: Seq<CommandOutcome>,
    order: Seq<usize>,
    table: Seq<(BatchKey, crate::handles::PipelineHandle)>,
    sky: Option<crate::handles::PipelineHandle>,
) -> bool {
    let ob = batch_from(draws_of(op), keys_of(op), table, 0, 0);
    let mb = batch_from(draws_of(ma), keys_of(ma), table, 0, ob.1.len() as int);
    &&& instances == ob.1 + mb.1
    &&& draws == ob.0 + mb.0 + (if sky is Some {
        seq![sky_draw(sky->0)]
    } else {
        Seq::empty()
    }) + Seq::new(tr.len(), |i: int| tr[order[i] as int].draw)
}

/// The sky pipeline drawn in a pass: the cached permutation of its
/// destination when the pass wants the sky.
pub open spec fn sky_drawn(sky: bool, format: Option<TextureFormat>, caches: PipelineCaches) -> Option<
    crate::handles::PipelineHandle,
> {
    if sky {
        cached_result(caches.sky_entries(), format)
    } else {
        None
    }
}

/// The draws, instances, category counts and culled count of a pass are
/// the assembly of `outcomes`: opaque then masked draws (runs of a key
/// fused on their instanced permutation), the sky when wanted and its
/// permutation exists, then the transparent draws sorted back to front
/// (ties in submission order). The permutations used are settled in
/// `caches`.
pub open spec fn assembled(
    draws: Seq<FrameDraw>,
    instances: Seq<InstanceTransforms>,
    breakdown: DrawBreakdown,
    culled: usize,
    outcomes: Seq<CommandOutcome>,
    sky: bool,
    pool: ResourcePool<MaterialRecord>,
    format: Option<TextureFormat>,
    caches: PipelineCaches,
) -> bool {
    let op = class_of(outcomes, DrawFate::Opaque);
    let ma = class_of(outcomes, DrawFate::Masked);
    let tr = class_of(outcomes, DrawFate::Transparent);
    let sky_pipeline = sky_drawn(sky, format, caches);
    &&& breakdown == DrawBreakdown {
        opaque: op.len() as usize,
        masked: ma.len() as usize,
        transparent: tr.len() as usize,
        injected: if sky_pipeline is Some { 1 } else { 0 },
    }
    &&& culled == class_of(outcomes, DrawFate::Culled).len()
    &&& sky ==> find_entry(caches.sky_entries(), format) is Some
    &&& forall|k: BatchKey|
        #![trigger fusable(keys_of(op), k)]
        #![trigger fusable(keys_of(ma), k)]
        fusable(keys_of(op), k) || fusable(keys_of(ma), k) ==> settled(k, pool, format, caches)
    &&& exists|order: Seq<usize>|
        #![trigger is_permutation(order, tr.len())]
        is_permutation(order, tr.len()) && stably_sorted(depth_keys(tr), order) && forall|
            table: Seq<(BatchKey, crate::handles::PipelineHandle)>,
        |
            #![trigger instanced_table_ok(table, keys_of(op), keys_of(ma), pool, format, caches)]
            instanced_table_ok(table, keys_of(op), keys_of(ma), pool, format, caches) ==> laid_out(
                draws,
                instances,
                op,
                ma,
                tr,
                order,
                table,
                sky_pipeline,
            )
}

/// The instanced permutation of a key's live material has been resolved
/// (successfully or not) in the caches.
pub open spec fn settled(
    k: BatchKey,
    pool: ResourcePool<MaterialRecord>,
    format: Option<TextureFormat>,
    caches: PipelineCaches,
) -> bool {
    let h = pool.slot_handle(k.material);
    pool@.contains_key(h) ==> find_entry(caches.instanced_entries(), pass_key(pool@[h], format, true)) is Some
}

proof fn lemma_instanced_for_grows(
    k: BatchKey,
    pool: ResourcePool<MaterialRecord>,
    format: Option<TextureFormat>,
    before: PipelineCaches,
    after: PipelineCaches,
)
    requires
        settled(k, pool, format, before),
        grows(after.instanced_entries(), before.instanced_entries()),
    ensures
        settled(k, pool, format, after),
        instanced_for(k, pool, format, after) == instanced_for(k, pool, format, before),
{
    let h = pool.slot_handle(k.material);
    if pool@.contains_key(h) {
        lemma_find_entry_grows(after.instanced_entries(), before.instanced_entries(), pass_key(pool@[h], format, true));
    }
}

/// An assembly stays one as the caches grow: the permutations it used are
/// settled.
pub proof fn lemma_assembled_grows(
    draws: Seq<FrameDraw>,
    instances: Seq<InstanceTransforms>,
    breakdown: DrawBreakdown,
    culled: usize,
    outcomes: Seq<CommandOutcome>,
    sky: bool,
    pool: ResourcePool<MaterialRecord>,
    format: Option<TextureFormat>,
    before: PipelineCaches,
    after: PipelineCaches,
)
    requires
        assembled(draws, instances, breakdown, culled, outcomes, sky, pool, format, before),
        after.grows_from(&before),
    ensures
        assembled(draws, instances, breakdown, culled, outcomes, sky, pool, format, after),
{
    let op = class_of(outcomes, DrawFate::Opaque);
    let ma = class_of(outcomes, DrawFate::Masked);
    let tr = class_of(outcomes, DrawFate::Transparent);
    if sky {
        lemma_find_entry_grows(after.sky_entries(), before.sky_entries(), format);
    }
    assert(sky_drawn(sky, format, after) == sky_drawn(sky, format, before));
    assert forall|k: BatchKey|
        fusable(keys_of(op), k) || fusable(keys_of(ma), k) implies #[trigger] settled(k, pool, format, after)
            && instanced_for(k, pool, format, after) == instanced_for(k, pool, format, before) by {
        lemma_instanced_for_grows(k, pool, format, before, after);
    }
    let order = choose|order: Seq<usize>|
        #![trigger is_permutation(order, tr.len())]
        is_permutation(order, tr.len()) && stably_sorted(depth_keys(tr), order) && forall|
            table: Seq<(BatchKey, crate::handles::PipelineHandle)>,
        |
            #![trigger instanced_table_ok(table, keys_of(op), keys_of(ma), pool, format, before)]
            instanced_table_ok(table, keys_of(op), keys_of(ma), pool, format, before) ==> laid_out(
                draws,
                instances,
                op,
                ma,
                tr,
                order,
                table,
                sky_drawn(sky, format, before),
            );
    assert forall|table: Seq<(BatchKey, crate::handles::PipelineHandle)>|
        #[trigger] instanced_table_ok(table, keys_of(op), keys_of(ma), pool, format, after) implies laid_out(
        draws,
        instances,
        op,
        ma,
        tr,
        order,
        table,
        sky_drawn(sky, format, after),
    ) by {
        assert forall|k: BatchKey|
            #![trigger fusable(keys_of(op), k)]
            #![trigger fusable(keys_of(ma), k)]
            fusable(keys_of(op), k) || fusable(keys_of(ma), k) implies lookup(table, k) == instanced_for(
            k,
            pool,
            format,
            before,
        ) by {
            assert(settled(k, pool, format, after));
        }
        assert(instanced_table_ok(table, keys_of(op), keys_of(ma), pool, format, before));
    }
    assert(is_permutation(order, tr.len()));
}

proof fn lemma_class_step(s: Seq<CommandOutcome>, i: int, fate: DrawFate)
    requires
        0 <= i < s.len(),
    ensures
        class_of(s.subrange(0, i + 1), fate) == if s[i].fate == fate {
            class_of(s.subrange(0, i), fate).push(s[i])
        } else {
            class_of(s.subrange(0, i), fate)
        },
{
    assert(s.subrange(0, i + 1).drop_last() =~= s.subrange(0, i));
}

/// Whether a material samples a texture.
fn samples(material: &MaterialRecord, texture: TextureHandle) -> (found: bool)
    ensures
        found == record_textures(*material).contains(texture),
{
    let slots = material.textures();
    let mut i: usize = 0;
    while i < 5
        invariant
            i <= 5,
            slots@ == record_textures(*material),
            forall|j: int| 0 <= j < i ==> slots@[j] != texture,
        decreases 5 - i,
    {
        if slots[i] == texture {
            assert(slots@[i as int] == texture);
            return true;
        }
        i = i + 1;
    }
    false
}

impl<B: GraphicsBackend> Renderer<B> {
    /// Resolves one queued draw of a pass whose destination has the given
    /// format and whose sampled destination is `blocked`. `failed` holds
    /// the material index whose permutation just failed: its draws are
    /// dropped without a new attempt.
    fn resolve_command(
        &mut self,
        c: &DrawCommand,
        f: &DrawFacts,
        format: Option<TextureFormat>,
        blocked: Option<TextureHandle>,
        harvesting: bool,
        failed: &mut Option<PoolHandle>,
        Ghost(from): Ghost<int>,
    ) -> (o: CommandOutcome)
        requires
            old(self).wf(),
            0 <= from <= old(self).caches().requested().len(),
            failed_uncached(*old(failed), old(self).material_pool()@, format, old(self).caches(), old(self).library()@, from),
        ensures
            failed_uncached(*final(failed), old(self).material_pool()@, format, final(self).caches(), old(self).library()@, from),
            o.fate == DrawFate::NoPipeline ==> find_entry(
                old(self).caches().material_entries(),
                pass_key(old(self).material_pool()@[material_key(c.material)], format, false),
            ) is None && refused_since(
                final(self).caches().requested(),
                from,
                old(self).library()@,
                pass_key(old(self).material_pool()@[material_key(c.material)], format, false),
            ),
            final(self).backend_calls() == old(self).backend_calls(),
            final(self).wf(),
            final(self).same_frame(old(self)),
            final(self).same_settings(old(self)),
            final(self).mesh_pool() == old(self).mesh_pool(),
            final(self).material_pool() == old(self).material_pool(),
            final(self).texture_cache() == old(self).texture_cache(),
            final(self).fallback_sampler_handle() == old(self).fallback_sampler_handle(),
            final(self).library() == old(self).library(),
            final(self).caches().grows_from(&old(self).caches()),
            final(self).tracker().keeps_registries(&old(self).tracker()),
            final(self).tracker().retired() == old(self).tracker().retired(),
            outcome_ok(
                o,
                *c,
                *f,
                old(self).material_pool()@,
                old(self).mesh_pool()@,
                blocked,
                format,
                harvesting,
                final(self).caches(),
            ),
    {
        let ghost start = *self;
        proof {
            start.tracker().lemma_keeps_registries_refl();
            start.caches().lemma_grows_refl();
        }
        let key = BatchKey { material: c.material.index, mesh: c.mesh.index };
        let mut outcome = CommandOutcome {
            fate: DrawFate::StaleMaterial,
            draw: FrameDraw {
                pipeline: crate::handles::PipelineHandle { index: 0 },
                vertex_buffer: None,
                index_buffer: None,
                element_count: 0,
                model: f.model,
                normal: f.normal,
                binding: None,
                instances: None,
            },
            key,
            depth: f.depth,
            shadow: ShadowFate::Skipped,
        };
        let mk = PoolHandle { index: c.material.index, generation: c.material.generation };
        let material = match self.materials.get(mk) {
            Some(m) => m,
            None => return outcome,
        };
        if let Some(b) = blocked {
            if samples(material, b) {
                outcome.fate = DrawFate::Feedback;
                return outcome;
            }
        }
        outcome.fate = DrawFate::NoPipeline;
        if let Some(h) = *failed {
            if h.index == mk.index && h.generation == mk.generation {
                assert(h == mk);
                return outcome;
            }
        }
        let pkey = PipelineKey {
            model: material.model.duplicate(),
            double_sided: material.double_sided,
            opacity: material.opacity,
            color_format: format,
            instanced: false,
        };
        let expected = material.model.expected_vertex_layout();
        let double_sided = material.double_sided;
        let opacity = material.opacity;
        let casts = material.opacity.casts_shadows() && material.cast_shadows;
        let frustum_culled = material.frustum_culled;
        let binding = material.binding;
        let ghost record = *material;
        let pipeline = match self.pipelines.resolve_material(&mut self.backend, &self.shaders, &mut self.lifetime, &pkey) {
            Ok(p) => {
                *failed = None;
                p
            },
            Err(_) => {
                *failed = Some(mk);
                proof {
                    let k = pkey@;
                    assert(k == pass_key(record, format, false));
                    if !unknown_shader(start.library()@, crate::materials::spec_shader_ref(k.model)) {
                        let j = start.caches().requested().len() as int;
                        assert(is_material_pipeline(self.caches().requested()[j].0, k));
                    }
                }
                return outcome;
            },
        };
        let ghost after_material = *self;
        proof {
            if pipeline_registered(after_material.tracker(), start.tracker()) {
                after_material.tracker().lemma_keeps_registries(&start.tracker());
            }
            if find_entry(start.caches().material_entries(), pkey@) is None {
                lemma_find_entry_none_push(start.caches().material_entries(), pkey@, pipeline);
                lemma_grows_push(start.caches().material_entries(), (pkey@, pipeline));
            }
            assert(pkey@ == pass_key(record, format, false));
        }
        let hk = PoolHandle { index: c.mesh.index, generation: c.mesh.generation };
        let mesh = match self.meshes.get(hk) {
            Some(m) => m,
            None => {
                outcome.fate = DrawFate::StaleMesh;
                return outcome;
            },
        };
        proof {
            lemma_fits_model_same(mesh.vertex_layout, expected, record.model@);
        }
        if !mesh.vertex_layout.same_as(&expected) {
            outcome.fate = DrawFate::LayoutMismatch;
            return outcome;
        }
        let draw = FrameDraw {
            pipeline,
            vertex_buffer: Some(mesh.vertex_buffer),
            index_buffer: mesh.index_buffer,
            element_count: mesh.element_count,
            model: f.model,
            normal: f.normal,
            binding: Some(binding),
            instances: None,
        };
        outcome.draw = draw;
        let bounded = mesh.bounds.is_some();
        outcome.fate = if frustum_culled && bounded && !f.in_view {
            DrawFate::Culled
        } else {
            match opacity {
                MaterialOpacity::Opaque => DrawFate::Opaque,
                MaterialOpacity::Masked => DrawFate::Masked,
                MaterialOpacity::Transparent => DrawFate::Transparent,
            }
        };
        if harvesting && casts {
            if frustum_culled && bounded && !f.in_light {
                outcome.shadow = ShadowFate::LightCulled;
            } else {
                let skey = ShadowKey { vertex_layout: mesh.vertex_layout.duplicate(), double_sided, instanced: false };
                let ghost before_shadow = *self;
                let shadow = self.pipelines.resolve_shadow(&mut self.backend, &self.shaders, &mut self.lifetime, &skey);
                proof {
                    if pipeline_registered(self.tracker(), before_shadow.tracker()) {
                        self.tracker().lemma_keeps_registries(&before_shadow.tracker());
                    } else {
                        before_shadow.tracker().lemma_keeps_registries_refl();
                    }
                    self.tracker().lemma_keeps_registries_chain(&before_shadow.tracker(), &start.tracker());
                    assert(skey@ == shadow_key_of(self.mesh_pool()@[hk], record, false));
                    if find_entry(before_shadow.caches().shadow_entries(), skey@) is None {
                        lemma_find_entry_none_push(before_shadow.caches().shadow_entries(), skey@, shadow);
                        lemma_grows_push(before_shadow.caches().shadow_entries(), (skey@, shadow));
                    } else {
                        lemma_grows_push(before_shadow.caches().shadow_entries(), arbitrary());
                    }
                    lemma_grows_chain(
                        self.caches().shadow_entries(),
                        before_shadow.caches().shadow_entries(),
                        start.caches().shadow_entries(),
                    );
                    lemma_grows_chain(
                        self.caches().requested(),
                        before_shadow.caches().requested(),
                        start.caches().requested(),
                    );
                    lemma_grows_push(self.caches().material_entries(), arbitrary());
                    lemma_find_entry_grows(
                        self.caches().material_entries(),
                        after_material.caches().material_entries(),
                        pkey@,
                    );
                }
                outcome.shadow = match shadow {
                    Some(sp) => ShadowFate::Harvested(FrameDraw { pipeline: sp, binding: None, ..draw }),
                    None => ShadowFate::NoPipeline,
                };
            }
        }
        outcome
    }

    /// Resolves the queued draws of a pass in order, harvesting shadow
    /// casters into `casters`/`caster_keys`/`casters_culled` when
    /// `harvesting`.
    pub(crate) fn resolve_commands(
        &mut self,
        commands: &Vec<DrawCommand>,
        facts: &Vec<DrawFacts>,
        format: Option<TextureFormat>,
        blocked: Option<TextureHandle>,
        harvesting: bool,
        casters: &mut Vec<FrameDraw>,
        caster_keys: &mut Vec<BatchKey>,
        casters_culled: &mut usize,
    ) -> (outcomes: Vec<CommandOutcome>)
        requires
            old(self).wf(),
            facts@.len() == commands@.len(),
        ensures
            final(self).backend_calls() == old(self).backend_calls(),
            final(self).wf(),
            final(self).same_frame(old(self)),
            final(self).same_settings(old(self)),
            final(self).mesh_pool() == old(self).mesh_pool(),
            final(self).material_pool() == old(self).material_pool(),
            final(self).texture_cache() == old(self).texture_cache(),
            final(self).fallback_sampler_handle() == old(self).fallback_sampler_handle(),
            final(self).library() == old(self).library(),
            final(self).caches().grows_from(&old(self).caches()),
            final(self).tracker().keeps_registries(&old(self).tracker()),
            final(self).tracker().retired() == old(self).tracker().retired(),
            outcomes_ok(
                outcomes@,
                commands@,
                facts@,
                old(self).material_pool()@,
                old(self).mesh_pool()@,
                blocked,
                format,
                harvesting,
                final(self).caches(),
            ),
            pipelines_owed(
                outcomes@,
                commands@,
                old(self).material_pool()@,
                format,
                old(self).caches(),
                final(self).caches().requested(),
                old(self).library()@,
            ),
            final(casters)@ == old(casters)@ + harvested_draws(outcomes@),
            final(caster_keys)@ == old(caster_keys)@ + harvested_keys(outcomes@),
            *final(casters_culled) == crate::frame::sat(*old(casters_culled) + light_culled(outcomes@)),
    {
        let ghost start = *self;
        let ghost casters0 = casters@;
        let ghost keys0 = caster_keys@;
        let ghost culled0 = *casters_culled;
        proof {
            start.tracker().lemma_keeps_registries_refl();
            start.caches().lemma_grows_refl();
        }
        let mut outcomes: Vec<CommandOutcome> = Vec::new();
        let mut failed: Option<PoolHandle> = None;
        let mut i: usize = 0;
        while i < commands.len()
            invariant
                self.backend_calls() == start.backend_calls(),
                i <= commands@.len(),
                facts@.len() == commands@.len(),
                self.wf(),
                start == *old(self),
                self.same_frame(&start),
                self.same_settings(&start),
                self.mesh_pool() == start.mesh_pool(),
                self.material_pool() == start.material_pool(),
                self.texture_cache() == start.texture_cache(),
                self.fallback_sampler_handle() == start.fallback_sampler_handle(),
                self.library() == start.library(),
                self.caches().grows_from(&start.caches()),
                self.tracker().keeps_registries(&start.tracker()),
                self.tracker().retired() == start.tracker().retired(),
                outcomes_ok(
                    outcomes@,
                    commands@.subrange(0, i as int),
                    facts@.subrange(0, i as int),
                    start.material_pool()@,
                    start.mesh_pool()@,
                    blocked,
                    format,
                    harvesting,
                    self.caches(),
                ),
                casters@ == casters0 + harvested_draws(outcomes@),
                caster_keys@ == keys0 + harvested_keys(outcomes@),
                *casters_culled == crate::frame::sat(culled0 + light_culled(outcomes@)),
                failed_uncached(failed, start.material_pool()@, format, self.caches(), start.library()@, start.caches().requested().len() as int),
                pipelines_owed(
                    outcomes@,
                    commands@,
                    start.material_pool()@,
                    format,
                    start.caches(),
                    self.caches().requested(),
                    start.library()@,
                ),
            decreases commands@.len() - i,
        {
            let ghost before = *self;
            let outcome = self.resolve_command(
                &commands[i],
                &facts[i],
                format,
                blocked,
                harvesting,
                &mut failed,
                Ghost(start.caches().requested().len() as int),
            );
            proof {
                if outcome.fate == DrawFate::NoPipeline {
                    let k = pass_key(start.material_pool()@[material_key(commands@[i as int].material)], format, false);
                    if find_entry(start.caches().material_entries(), k) is Some {
                        lemma_find_entry_grows(before.caches().material_entries(), start.caches().material_entries(), k);
                    }
                }
                assert forall|j: int|
                    0 <= j < outcomes@.len() && 0 <= j < commands@.len() && (#[trigger] outcomes@[j]).fate
                        == DrawFate::NoPipeline implies refused_since(
                    self.caches().requested(),
                    start.caches().requested().len() as int,
                    start.library()@,
                    pass_key(start.material_pool()@[material_key(commands@[j].material)], format, false),
                ) by {
                    lemma_refused_since_grows(
                        self.caches().requested(),
                        before.caches().requested(),
                        start.caches().requested().len() as int,
                        start.caches().requested().len() as int,
                        start.library()@,
                        pass_key(start.material_pool()@[material_key(commands@[j].material)], format, false),
                    );
                }
                self.caches().lemma_grows_from_chain(&before.caches(), &start.caches());
                self.tracker().lemma_keeps_registries_chain(&before.tracker(), &start.tracker());
                assert forall|j: int| 0 <= j < outcomes@.len() implies outcome_ok(
                    #[trigger] outcomes@[j],
                    commands@[j],
                    facts@[j],
                    start.material_pool()@,
                    start.mesh_pool()@,
                    blocked,
                    format,
                    harvesting,
                    self.caches(),
                ) by {
                    assert(commands@.subrange(0, i as int)[j] == commands@[j]);
                    assert(facts@.subrange(0, i as int)[j] == facts@[j]);
                    lemma_outcome_ok_grows(
                        outcomes@[j],
                        commands@[j],
                        facts@[j],
                        start.material_pool()@,
                        start.mesh_pool()@,
                        blocked,
                        format,
                        harvesting,
                        before.caches(),
                        self.caches(),
                    );
                }
            }
            let ghost previous = outcomes@;
            outcomes.push(outcome);
            match outcome.shadow {
                ShadowFate::Harvested(d) => {
                    casters.push(d);
                    caster_keys.push(outcome.key);
                },
                ShadowFate::LightCulled => {
                    *casters_culled = casters_culled.saturating_add(1);
                },
                _ => {},
            }
            proof {
                assert(outcomes@.drop_last() =~= previous);
                assert(commands@.subrange(0, i + 1).drop_last() =~= commands@.subrange(0, i as int));
                assert(facts@.subrange(0, i + 1).drop_last() =~= facts@.subrange(0, i as int));
                assert(outcomes@[i as int] == outcome);
                assert forall|j: int| 0 <= j < outcomes@.len() implies outcome_ok(
                    #[trigger] outcomes@[j],
                    commands@.subrange(0, i + 1)[j],
                    facts@.subrange(0, i + 1)[j],
                    start.material_pool()@,
                    start.mesh_pool()@,
                    blocked,
                    format,
                    harvesting,
                    self.caches(),
                ) by {
                    if j < i {
                        assert(commands@.subrange(0, i as int)[j] == commands@[j]);
                        assert(facts@.subrange(0, i as int)[j] == facts@[j]);
                    }
                }
            }
            i = i + 1;
        }
        proof {
            assert(commands@.subrange(0, i as int) =~= commands@);
            assert(facts@.subrange(0, i as int) =~= facts@);
        }
        outcomes
    }

    /// Resolves the instanced permutation of each candidate key's live
    /// material, in order; the table lists the keys whose permutation
    /// exists.
    fn instanced_table(
        &mut self,
        candidates: &Vec<BatchKey>,
        format: Option<TextureFormat>,
    ) -> (table: Vec<(BatchKey, crate::handles::PipelineHandle)>)
        requires
            old(self).wf(),
        ensures
            final(self).backend_calls() == old(self).backend_calls(),
            final(self).wf(),
            final(self).same_frame(old(self)),
            final(self).same_settings(old(self)),
            final(self).mesh_pool() == old(self).mesh_pool(),
            final(self).material_pool() == old(self).material_pool(),
            final(self).texture_cache() == old(self).texture_cache(),
            final(self).fallback_sampler_handle() == old(self).fallback_sampler_handle(),
            final(self).library() == old(self).library(),
            final(self).caches().grows_from(&old(self).caches()),
            final(self).caches().sky_entries() == old(self).caches().sky_entries(),
            final(self).tracker().keeps_registries(&old(self).tracker()),
            final(self).tracker().retired() == old(self).tracker().retired(),
            forall|k: BatchKey|
                #[trigger] candidates@.contains(k) ==> lookup(table@, k) == instanced_for(
                    k,
                    final(self).material_pool(),
                    format,
                    final(self).caches(),
                ) && settled(k, final(self).material_pool(), format, final(self).caches()),
    {
        let ghost start = *self;
        proof {
            start.tracker().lemma_keeps_registries_refl();
            start.caches().lemma_grows_refl();
        }
        let mut table: Vec<(BatchKey, crate::handles::PipelineHandle)> = Vec::new();
        let mut j: usize = 0;
        while j < candidates.len()
            invariant
                self.backend_calls() == start.backend_calls(),
                j <= candidates@.len(),
                self.wf(),
                start == *old(self),
                self.same_frame(&start),
                self.same_settings(&start),
                self.mesh_pool() == start.mesh_pool(),
                self.material_pool() == start.material_pool(),
                self.texture_cache() == start.texture_cache(),
                self.fallback_sampler_handle() == start.fallback_sampler_handle(),
                self.library() == start.library(),
                self.caches().grows_from(&start.caches()),
                self.caches().sky_entries() == start.caches().sky_entries(),
                self.tracker().keeps_registries(&start.tracker()),
                self.tracker().retired() == start.tracker().retired(),
                forall|k: BatchKey|
                    #[trigger] candidates@.subrange(0, j as int).contains(k) ==> lookup(table@, k) == instanced_for(
                        k,
                        self.material_pool(),
                        format,
                        self.caches(),
                    ) && settled(k, self.material_pool(), format, self.caches()),
                forall|k: BatchKey| !(#[trigger] candidates@.subrange(0, j as int).contains(k)) ==> lookup(table@, k) is None,
            decreases candidates@.len() - j,
        {
            let k = candidates[j];
            let ghost before = *self;
            let ghost t0 = table@;
            let ghost pool = self.material_pool();
            let ghost prefix = candidates@.subrange(0, j as int);
            match self.materials.get_slot(k.material) {
                Some(record) => {
                    let key = PipelineKey {
                        model: record.model.duplicate(),
                        double_sided: record.double_sided,
                        opacity: record.opacity,
                        color_format: format,
                        instanced: true,
                    };
                    let ghost rec = *record;
                    let result = self.pipelines.resolve_instanced(&mut self.backend, &self.shaders, &mut self.lifetime, &key);
                    proof {
                        if pipeline_registered(self.tracker(), before.tracker()) {
                            self.tracker().lemma_keeps_registries(&before.tracker());
                        } else {
                            before.tracker().lemma_keeps_registries_refl();
                        }
                        self.tracker().lemma_keeps_registries_chain(&before.tracker(), &start.tracker());
                        assert(key@ == pass_key(rec, format, true));
                        if find_entry(before.caches().instanced_entries(), key@) is None {
                            lemma_find_entry_none_push(before.caches().instanced_entries(), key@, result);
                            lemma_grows_push(before.caches().instanced_entries(), (key@, result));
                        } else {
                            lemma_grows_push(before.caches().instanced_entries(), arbitrary());
                        }
                        lemma_grows_push(self.caches().material_entries(), arbitrary());
                        lemma_grows_push(self.caches().sky_entries(), arbitrary());
                        lemma_grows_push(self.caches().debug_entries(), arbitrary());
                        lemma_grows_push(self.caches().shadow_entries(), arbitrary());
                        self.caches().lemma_grows_from_chain(&before.caches(), &start.caches());
                        assert(cached_result(self.caches().instanced_entries(), key@) == result);
                    }
                    match result {
                        Some(p) => {
                            table.push((k, p));
                        },
                        None => {},
                    }
                },
                None => {},
            }
            proof {
                lemma_grows_push(before.caches().instanced_entries(), arbitrary());
                assert(candidates@.subrange(0, j + 1) =~= prefix.push(k));
                assert forall|k2: BatchKey| #[trigger] prefix.push(k).contains(k2) implies lookup(table@, k2) == instanced_for(
                    k2,
                    self.material_pool(),
                    format,
                    self.caches(),
                ) && settled(k2, self.material_pool(), format, self.caches()) by {
                    if table@.len() > t0.len() {
                        lemma_lookup_push(t0, table@.last(), k2);
                        assert(table@ == t0.push(table@.last()));
                    }
                    if prefix.contains(k2) {
                        lemma_instanced_for_grows(k2, pool, format, before.caches(), self.caches());
                    } else {
                        assert(k2 == k);
                    }
                }
                assert forall|k2: BatchKey| !(#[trigger] prefix.push(k).contains(k2)) implies lookup(table@, k2) is None by {
                    assert(!prefix.contains(k2));
                    if table@.len() > t0.len() {
                        lemma_lookup_push(t0, table@.last(), k2);
                        assert(table@ == t0.push(table@.last()));
                        assert(prefix.push(k)[prefix.len() as int] == k);
                        assert(prefix.push(k).contains(k));
                    }
                }
            }
            j = j + 1;
        }
        proof {
            assert(candidates@.subrange(0, j as int) =~= candidates@);
        }
        table
    }

    /// Assembles a resolved pass from the outcomes of its queued draws:
    /// opaque then masked draws, runs of a key fused on their instanced
    /// permutation; the sky on a destination of `format` when `sky`; then
    /// the transparent draws back to front.
    pub(crate) fn assemble_pass(
        &mut self,
        outcomes: &Vec<CommandOutcome>,
        format: Option<TextureFormat>,
        sky: bool,
    ) -> (pass: ResolvedPass)
        requires
            old(self).wf(),
        ensures
            final(self).backend_calls() == old(self).backend_calls(),
            final(self).wf(),
            final(self).same_frame(old(self)),
            final(self).same_settings(old(self)),
            final(self).mesh_pool() == old(self).mesh_pool(),
            final(self).material_pool() == old(self).material_pool(),
            final(self).texture_cache() == old(self).texture_cache(),
            final(self).fallback_sampler_handle() == old(self).fallback_sampler_handle(),
            final(self).library() == old(self).library(),
            final(self).caches().grows_from(&old(self).caches()),
            final(self).tracker().keeps_registries(&old(self).tracker()),
            final(self).tracker().retired() == old(self).tracker().retired(),
            assembled(
                pass.draws@,
                pass.instances@,
                pass.breakdown,
                pass.culled,
                outcomes@,
                sky,
                old(self).material_pool(),
                format,
                final(self).caches(),
            ),
    {
        let ghost start = *self;
        let mut op_draws: Vec<FrameDraw> = Vec::new();
        let mut op_keys: Vec<BatchKey> = Vec::new();
        let mut ma_draws: Vec<FrameDraw> = Vec::new();
        let mut ma_keys: Vec<BatchKey> = Vec::new();
        let mut tr: Vec<CommandOutcome> = Vec::new();
        let mut culled: usize = 0;
        let mut i: usize = 0;
        while i < outcomes.len()
            invariant
                i <= outcomes@.len(),
                culled <= i,
                op_draws@ == draws_of(class_of(outcomes@.subrange(0, i as int), DrawFate::Opaque)),
                op_keys@ == keys_of(class_of(outcomes@.subrange(0, i as int), DrawFate::Opaque)),
                ma_draws@ == draws_of(class_of(outcomes@.subrange(0, i as int), DrawFate::Masked)),
                ma_keys@ == keys_of(class_of(outcomes@.subrange(0, i as int), DrawFate::Masked)),
                tr@ == class_of(outcomes@.subrange(0, i as int), DrawFate::Transparent),
                culled == class_of(outcomes@.subrange(0, i as int), DrawFate::Culled).len(),
            decreases outcomes@.len() - i,
        {
            let o = outcomes[i];
            let ghost c_op = class_of(outcomes@.subrange(0, i as int), DrawFate::Opaque);
            let ghost c_ma = class_of(outcomes@.subrange(0, i as int), DrawFate::Masked);
            proof {
                lemma_class_step(outcomes@, i as int, DrawFate::Opaque);
                lemma_class_step(outcomes@, i as int, DrawFate::Masked);
                lemma_class_step(outcomes@, i as int, DrawFate::Transparent);
                lemma_class_step(outcomes@, i as int, DrawFate::Culled);
            }
            match o.fate {
                DrawFate::Opaque => {
                    op_draws.push(o.draw);
                    op_keys.push(o.key);
                    proof {
                        assert(draws_of(c_op.push(o)) =~= draws_of(c_op).push(o.draw));
                        assert(keys_of(c_op.push(o)) =~= keys_of(c_op).push(o.key));
                    }
                },
                DrawFate::Masked => {
                    ma_draws.push(o.draw);
                    ma_keys.push(o.key);
                    proof {
                        assert(draws_of(c_ma.push(o)) =~= draws_of(c_ma).push(o.draw));
                        assert(keys_of(c_ma.push(o)) =~= keys_of(c_ma).push(o.key));
                    }
                },
                DrawFate::Transparent => {
                    tr.push(o);
                },
                DrawFate::Culled => {
                    culled = culled + 1;
                },
                _ => {},
            }
            i = i + 1;
        }
        proof {
            assert(outcomes@.subrange(0, i as int) =~= outcomes@);
        }
        let ghost op = class_of(outcomes@, DrawFate::Opaque);
        let ghost ma = class_of(outcomes@, DrawFate::Masked);
        let ghost trs = class_of(outcomes@, DrawFate::Transparent);
        // The instanced permutations of the runs that may fuse, opaque
        // runs first.
        let mut candidates = fusable_keys(&op_keys);
        let mut more = fusable_keys(&ma_keys);
        let ghost first_candidates = candidates@;
        let ghost more_candidates = more@;
        candidates.append(&mut more);
        let table = self.instanced_table(&candidates, format);
        let ghost after_table = *self;
        let mut instances: Vec<InstanceTransforms> = Vec::new();
        let mut draws = batch_class(&op_draws, &op_keys, &table, &mut instances);
        let ghost opaque_instances = instances@;
        let mut masked = batch_class(&ma_draws, &ma_keys, &table, &mut instances);
        let ghost opaque_batched = draws@;
        let ghost masked_batched = masked@;
        draws.append(&mut masked);
        // The transparent order: farthest first, ties in submission order.
        let mut depth: Vec<u64> = Vec::new();
        let mut k: usize = 0;
        while k < tr.len()
            invariant
                k <= tr@.len(),
                depth@ == depth_keys(tr@).subrange(0, k as int),
            decreases tr@.len() - k,
        {
            let key = total_key(tr[k].depth);
            depth.push((0xFFFF_FFFFu32 - key) as u64);
            k = k + 1;
            proof {
                assert(depth@ =~= depth_keys(tr@).subrange(0, k as int));
            }
        }
        proof {
            assert(depth@ =~= depth_keys(tr@));
        }
        let order = stable_order(&depth);
        // The sky, between the depth-writing classes and the transparent.
        let ghost before_sky = *self;
        let sky_pipeline = if sky {
            self.pipelines.resolve_sky(&mut self.backend, &self.shaders, &mut self.lifetime, format)
        } else {
            None
        };
        proof {
            if pipeline_registered(self.tracker(), before_sky.tracker()) {
                self.tracker().lemma_keeps_registries(&before_sky.tracker());
            } else {
                before_sky.tracker().lemma_keeps_registries_refl();
            }
            self.tracker().lemma_keeps_registries_chain(&before_sky.tracker(), &start.tracker());
            if sky && find_entry(before_sky.caches().sky_entries(), format) is None {
                lemma_find_entry_none_push(before_sky.caches().sky_entries(), format, sky_pipeline);
                lemma_grows_push(before_sky.caches().sky_entries(), (format, sky_pipeline));
            } else {
                lemma_grows_push(before_sky.caches().sky_entries(), arbitrary());
            }
            lemma_grows_push(self.caches().material_entries(), arbitrary());
            lemma_grows_push(self.caches().instanced_entries(), arbitrary());
            lemma_grows_push(self.caches().debug_entries(), arbitrary());
            lemma_grows_push(self.caches().shadow_entries(), arbitrary());
            lemma_grows_push(before_sky.caches().requested(), arbitrary());
            self.caches().lemma_grows_from_chain(&before_sky.caches(), &start.caches());
        }
        let mut injected: usize = 0;
        let ghost before_sky_draw = draws@;
        match sky_pipeline {
            Some(p) => {
                draws.push(FrameDraw {
                    pipeline: p,
                    vertex_buffer: None,
                    index_buffer: None,
                    element_count: 3,
                    model: Mat4::identity(),
                    normal: Mat4::identity(),
                    binding: None,
                    instances: None,
                });
                injected = 1;
            },
            None => {},
        }
        let ghost lead = draws@;
        let mut n: usize = 0;
        while n < order.len()
            invariant
                n <= order@.len(),
                is_permutation(order@, tr@.len()),
                draws@ == lead + Seq::new(n as nat, |x: int| tr@[order@[x] as int].draw),
            decreases order@.len() - n,
        {
            draws.push(tr[order[n]].draw);
            n = n + 1;
            proof {
                assert(draws@ =~= lead + Seq::new(n as nat, |x: int| tr@[order@[x] as int].draw));
            }
        }
        let pass = ResolvedPass {
            draws,
            breakdown: DrawBreakdown {
                opaque: op_draws.len(),
                masked: ma_draws.len(),
                transparent: tr.len(),
                injected,
            },
            instances,
            culled,
        };
        proof {
            let pool = start.material_pool();
            let caches = self.caches();
            let sky_opt = if sky {
                cached_result(caches.sky_entries(), format)
            } else {
                None
            };
            assert(sky_opt == sky_pipeline);
            assert(op_draws@ == draws_of(op));
            assert(op_keys@ == keys_of(op));
            assert(ma_draws@ == draws_of(ma));
            assert(ma_keys@ == keys_of(ma));
            assert forall|t2: Seq<(BatchKey, crate::handles::PipelineHandle)>|
                #[trigger] instanced_table_ok(t2, keys_of(op), keys_of(ma), pool, format, caches) implies laid_out(
                pass.draws@,
                pass.instances@,
                op,
                ma,
                trs,
                order@,
                t2,
                sky_opt,
            ) by {
                assert forall|key: BatchKey|
                    #[trigger] fusable(keys_of(op), key) implies lookup(table@, key) == lookup(t2, key) by {
                    assert(first_candidates.contains(key));
                    assert(candidates@.contains(key)) by {
                        let w = choose|w: int| 0 <= w < first_candidates.len() && first_candidates[w] == key;
                        assert(candidates@[w] == key);
                    }
                }
                assert forall|key: BatchKey|
                    #[trigger] fusable(keys_of(ma), key) implies lookup(table@, key) == lookup(t2, key) by {
                    assert(more_candidates.contains(key));

                    assert(candidates@.contains(key)) by {
                        let w = choose|w: int| 0 <= w < more_candidates.len() && more_candidates[w] == key;
                        assert(candidates@[first_candidates.len() + w] == key);
                    }
                }
                lemma_batch_from_congruent(draws_of(op), keys_of(op), table@, t2, 0, 0);
                let ob = batch_from(draws_of(op), keys_of(op), table@, 0, 0);
                lemma_batch_from_congruent(draws_of(ma), keys_of(ma), table@, t2, 0, ob.1.len() as int);
                assert(opaque_instances =~= ob.1);
                let mb = batch_from(draws_of(ma), keys_of(ma), table@, 0, ob.1.len() as int);
                assert(masked_batched == mb.0);
                assert(pass.instances@ == ob.1 + mb.1);
                assert(before_sky_draw == opaque_batched + masked_batched);
                assert(opaque_batched == ob.0);
                let skyseq = if sky_opt is Some {
                    seq![sky_draw(sky_opt->0)]
                } else {
                    Seq::<FrameDraw>::empty()
                };
                assert(lead == ob.0 + mb.0 + skyseq);
                assert(pass.draws@ == lead + Seq::new(trs.len(), |x: int| trs[order@[x] as int].draw));
            }
            assert(is_permutation(order@, trs.len()));
            assert forall|key: BatchKey|
                fusable(keys_of(op), key) || fusable(keys_of(ma), key) implies #[trigger] settled(key, pool, format, caches) by {
                if fusable(keys_of(op), key) {
                    assert(first_candidates.contains(key));
                    let w = choose|w: int| 0 <= w < first_candidates.len() && first_candidates[w] == key;
                    assert(candidates@[w] == key);
                } else {
                    assert(more_candidates.contains(key));
                    let w = choose|w: int| 0 <= w < more_candidates.len() && more_candidates[w] == key;
                    assert(candidates@[first_candidates.len() + w] == key);
                }
                assert(candidates@.contains(key));
            }
        }
        pass
    }
}

} // verus!
