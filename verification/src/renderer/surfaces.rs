//! Materials, the surfaces of the engine: creation checked against the
//! model's contract, inspection, in-place updates (color, PBR factors,
//! cutoff, texture, sampler — never a recreation), and destruction that
//! gives back its shares.

use vstd::prelude::*;
use super::Renderer;
use super::resources::{builtin_label, BuiltinTexture};
use crate::backend::{one_call, BackendCall, GraphicsBackend};
use crate::error::BackendError;
use crate::error::{MaterialRule, PbrProperty, RenderError, ResourceKind};
use crate::floats::{is_unit, unit};
use crate::handles::{BindingHandle, MaterialHandle, SamplerHandle, TextureHandle};
use crate::lifetime::{sat_add, sat_sub, slot_count, texture_with_refs, LifetimeTracker};
use crate::materials::{
    binds, check_material_inputs, input_rule, record_params, record_textures, spec_material_inputs, spec_pbr_inputs,
    MaterialBindingDescriptor, MaterialDescriptor, MaterialModel, MaterialOpacity, MaterialParams, MaterialRecord,
    ModelView,
};
use crate::math::Color;
use crate::pipelines::{
    find_entry, grows, lemma_find_entry_grows, lemma_find_entry_none_push, lemma_find_entry_push_some, lemma_grows_chain,
    lemma_grows_push, pipeline_registered, unknown_shader, KeyView, PipelineKey,
};
use crate::pool::PoolHandle;
use crate::textures::TextureKind;

verus! {

/// What the tools see of a live material.
#[derive(Debug)]
pub struct MaterialInfo {
    pub label: String,
    pub model: MaterialModel,
    pub base_color: Color,
    pub texture: TextureHandle,
    pub sampler: SamplerHandle,
    pub double_sided: bool,
    pub opacity: MaterialOpacity,
    pub metallic: u32,
    pub roughness: u32,
    pub metallic_roughness_texture: TextureHandle,
    pub normal_map: TextureHandle,
    pub occlusion_texture: TextureHandle,
    pub emissive: Color,
    pub emissive_texture: TextureHandle,
    pub cast_shadows: bool,
    pub receive_shadows: bool,
    pub alpha_cutoff: u32,
    pub frustum_culled: bool,
}

/// The pool handle of a material handle.
pub open spec fn material_key(handle: MaterialHandle) -> PoolHandle {
    PoolHandle { index: handle.index, generation: handle.generation }
}

/// Every texture live in `before` has its share count moved by its slots
/// in `after` (`up`: added, else removed), saturating.
pub open spec fn shares_moved_from(before: LifetimeTracker, after: LifetimeTracker, slots: Seq<TextureHandle>, up: bool) -> bool {
    forall|k: crate::registry::Key|
        #[trigger] before.textures().contains_key(k) ==> after.textures().contains_key(k) && after.textures()[k]
            == texture_with_refs(
            before.textures()[k],
            if up {
                sat_add(before.textures()[k].refs, slot_count(slots, k))
            } else {
                sat_sub(before.textures()[k].refs, slot_count(slots, k))
            },
        )
}

/// The sampler, if live in `before`, has its share count moved by one.
pub open spec fn sampler_moved_from(before: LifetimeTracker, after: LifetimeTracker, sampler: SamplerHandle, up: bool) -> bool {
    let k = sampler.spec_key();
    before.samplers().contains_key(k) ==> after.samplers().contains_key(k) && after.samplers()[k].refs == if up {
        sat_add(before.samplers()[k].refs, 1)
    } else {
        sat_sub(before.samplers()[k].refs, 1)
    }
}

/// `r` is the record of a material created from `d`: the descriptor's
/// properties, its textures and sampler where given.
pub open spec fn record_of(r: MaterialRecord, d: MaterialDescriptor) -> bool {
    &&& r.label == d.label
    &&& r.model@ == d.model@
    &&& r.base_color == d.base_color
    &&& r.double_sided == d.double_sided
    &&& r.opacity == d.opacity
    &&& r.metallic == d.metallic
    &&& r.roughness == d.roughness
    &&& r.emissive == d.emissive
    &&& r.cast_shadows == d.cast_shadows
    &&& r.receive_shadows == d.receive_shadows
    &&& r.alpha_cutoff == d.alpha_cutoff
    &&& r.frustum_culled == d.frustum_culled
    &&& (d.texture matches Some(t) ==> r.texture == t)
    &&& (d.metallic_roughness_texture matches Some(t) ==> r.metallic_roughness_texture == t)
    &&& (d.normal_map matches Some(t) ==> r.normal_map == t)
    &&& (d.occlusion_texture matches Some(t) ==> r.occlusion_texture == t)
    &&& (d.emissive_texture matches Some(t) ==> r.emissive_texture == t)
    &&& (d.sampler matches Some(s) ==> r.sampler == s)
}

/// The permutation key of a material's surface pipeline.
pub open spec fn surface_key(d: MaterialDescriptor) -> KeyView {
    KeyView { model: d.model@, double_sided: d.double_sided, opacity: d.opacity, color_format: None, instanced: false }
}

/// The texture slots a descriptor fills itself, in binding order.
pub open spec fn given_slots(d: MaterialDescriptor) -> Seq<Option<TextureHandle>> {
    seq![d.texture, d.metallic_roughness_texture, d.normal_map, d.occlusion_texture, d.emissive_texture]
}

/// The builtin fallback of empty slot `i`: the flat normal for the normal
/// map, white elsewhere.
pub open spec fn slot_builtin(i: int) -> BuiltinTexture {
    if i == 2 {
        BuiltinTexture::FlatNormal
    } else {
        BuiltinTexture::White
    }
}

/// Every empty slot of `d` holds the builtin fallback cached under its
/// label.
pub open spec fn fallbacks_cached(d: MaterialDescriptor, slots: Seq<TextureHandle>, cache: Seq<(Seq<char>, TextureHandle)>) -> bool {
    forall|i: int|
        0 <= i < 5 && (#[trigger] given_slots(d)[i]) is None ==> find_entry(cache, builtin_label(slot_builtin(i)))
            == Some(slots[i])
}

/// A slot of `d` holds a live texture that is not 2D.
pub open spec fn cube_slot(d: MaterialDescriptor, tracker: LifetimeTracker) -> bool {
    exists|i: int|
        0 <= i < 5 && ((#[trigger] given_slots(d)[i]) matches Some(t) && tracker.textures().contains_key(t.spec_key())
            && tracker.textures()[t.spec_key()].kind != TextureKind::D2)
}

/// `bd` is the binding asked for a material described by `d`: its label,
/// the slots and sampler `d` gives, and its parameters.
pub open spec fn binding_for(bd: MaterialBindingDescriptor, d: MaterialDescriptor) -> bool {
    &&& bd.label@ == d.label@
    &&& (d.texture matches Some(t) ==> bd.texture == t)
    &&& (d.metallic_roughness_texture matches Some(t) ==> bd.metallic_roughness_texture == t)
    &&& (d.normal_map matches Some(t) ==> bd.normal_map == t)
    &&& (d.occlusion_texture matches Some(t) ==> bd.occlusion_texture == t)
    &&& (d.emissive_texture matches Some(t) ==> bd.emissive_texture == t)
    &&& (d.sampler matches Some(s) ==> bd.sampler == s)
    &&& bd.params == (MaterialParams {
        base_color: d.base_color,
        metallic: d.metallic,
        roughness: d.roughness,
        receive_shadows: d.receive_shadows,
        alpha_cutoff: d.alpha_cutoff,
        emissive: d.emissive,
    })
}

/// Why creating a material from `d` may be refused with `e`, taking
/// `before` to `after`: the model's contract; a cubemap slot; a device
/// without textures or anisotropy for a fallback; a missing shader; a full
/// pool; or the backend's own answer to a call made here (a creation, the
/// binding, or the surface pipeline).
pub open spec fn material_refused<B: GraphicsBackend>(
    e: RenderError,
    d: MaterialDescriptor,
    after: Renderer<B>,
    before: Renderer<B>,
) -> bool {
    match e {
        RenderError::Material { .. } => input_rule(d) is Some,
        RenderError::CubemapInMaterial { .. } => input_rule(d) is None,
        RenderError::TextureLimit { .. } => before.limits().max_texture_2d == 0,
        RenderError::AnisotropyLimit { .. } => before.limits().max_anisotropy == 0,
        RenderError::UnknownShader { .. } => unknown_shader(before.library()@, crate::materials::spec_shader_ref(d.model@)),
        RenderError::PoolFull(kind) => kind == ResourceKind::Material && before.material_pool().full(),
        RenderError::BackendHandleReused(_) => after.backend_calls().len() > before.backend_calls().len(),
        RenderError::Backend(be) => crate::backend::refused_by_backend(after.backend_calls(), before.backend_calls(), be)
            || (after.caches().requested().len() > before.caches().requested().len()
            && after.caches().requested().last().1 == Err::<crate::handles::PipelineHandle, BackendError>(be)),
        _ => false,
    }
}

/// The binding call made last since `before`, with the backend's answer.
pub open spec fn last_binding(after: Seq<BackendCall>, before: Seq<BackendCall>) -> Option<
    (MaterialBindingDescriptor, Result<BindingHandle, BackendError>),
> {
    if after.len() > before.len() {
        match after.last() {
            BackendCall::CreateMaterialBinding(d, a) => Some((d, a)),
            _ => None,
        }
    } else {
        None
    }
}

/// Every texture and sampler live in `before` is still live in `after`,
/// its share count untouched.
pub open spec fn shares_kept(before: LifetimeTracker, after: LifetimeTracker) -> bool {
    &&& forall|k: crate::registry::Key| #[trigger]
        before.textures().contains_key(k) ==> after.textures().contains_key(k) && after.textures()[k] == before.textures()[k]
    &&& forall|k: crate::registry::Key| #[trigger]
        before.samplers().contains_key(k) ==> after.samplers().contains_key(k) && after.samplers()[k] == before.samplers()[k]
}

/// Exactly one parameter write of `params` to `binding` was made since
/// `before`, and `result` is the backend's answer to it.
pub open spec fn params_sent(
    after: Seq<BackendCall>,
    before: Seq<BackendCall>,
    binding: BindingHandle,
    params: MaterialParams,
    result: Result<(), RenderError>,
) -> bool {
    exists|a: Result<(), BackendError>|
        #![trigger one_call(after, before, BackendCall::UpdateMaterialBinding(binding, params, a))]
        one_call(after, before, BackendCall::UpdateMaterialBinding(binding, params, a)) && match a {
            Ok(_) => result is Ok,
            Err(e) => result == Err::<(), RenderError>(RenderError::Backend(e)),
        }
}

/// Calls free of binding creations chain.
proof fn lemma_binding_free_chain(c: Seq<BackendCall>, b: Seq<BackendCall>, a: Seq<BackendCall>)
    requires
        crate::backend::binding_free(c, b),
        crate::backend::binding_free(b, a),
    ensures
        crate::backend::binding_free(c, a),
{
    assert(c.subrange(0, a.len() as int) =~= b.subrange(0, a.len() as int));
    if c.len() == b.len() {
        assert(c =~= b);
    }
}

impl<B: GraphicsBackend> Renderer<B> {
    /// A texture slot: the given texture, or a builtin fallback.
    fn slot_or(&mut self, given: Option<TextureHandle>, builtin: BuiltinTexture) -> (result: Result<
        TextureHandle,
        RenderError,
    >)
        requires
            old(self).wf(),
        ensures
            final(self).wf(),
            final(self).same_but_resources(old(self)),
            final(self).fallback_sampler_handle() == old(self).fallback_sampler_handle(),
            given matches Some(t) ==> result == Ok::<TextureHandle, RenderError>(t) && *final(self) == *old(self),
            given is None ==> super::resources::builtin_resolved(result, builtin, *final(self), *old(self)),
            grows(final(self).texture_cache(), old(self).texture_cache()),
            result matches Err(e) ==> crate::backend::answer_recorded(e, final(self).backend_calls(), old(self).backend_calls()),
            given is None ==> (result matches Ok(h) ==> find_entry(final(self).texture_cache(), builtin_label(builtin))
                == Some(h)),
            crate::backend::binding_free(final(self).backend_calls(), old(self).backend_calls()),
            final(self).tracker().buffers() == old(self).tracker().buffers(),
            final(self).tracker().samplers() == old(self).tracker().samplers(),
            final(self).tracker().targets() == old(self).tracker().targets(),
            final(self).tracker().retired() == old(self).tracker().retired(),
            forall|k: crate::registry::Key| #[trigger]
                old(self).tracker().textures().contains_key(k) ==> final(self).tracker().textures().contains_key(k)
                    && final(self).tracker().textures()[k] == old(self).tracker().textures()[k],
    {
        match given {
            Some(t) => {
                assert(self.backend_calls().subrange(0, self.backend_calls().len() as int) =~= self.backend_calls());
                proof {
                    lemma_grows_push(self.texture_cache(), arbitrary());
                }
                Ok(t)
            },
            None => {
                let result = self.builtin_texture(builtin);
                proof {
                    let label = builtin_label(builtin);
                    lemma_grows_push(old(self).texture_cache(), arbitrary());
                    if find_entry(old(self).texture_cache(), label) is None {
                        if let Ok(h) = result {
                            lemma_find_entry_none_push(old(self).texture_cache(), label, h);
                            lemma_grows_push(old(self).texture_cache(), (label, h));
                        }
                    }
                }
                result
            },
        }
    }

    /// The five texture slots of a new material, in binding order: each the
    /// given texture, or its builtin fallback.
    fn material_slots(&mut self, d: &MaterialDescriptor) -> (result: Result<[TextureHandle; 5], RenderError>)
        requires
            old(self).wf(),
        ensures
            final(self).wf(),
            final(self).same_but_resources(old(self)),
            final(self).fallback_sampler_handle() == old(self).fallback_sampler_handle(),
            crate::backend::binding_free(final(self).backend_calls(), old(self).backend_calls()),
            final(self).tracker().buffers() == old(self).tracker().buffers(),
            final(self).tracker().samplers() == old(self).tracker().samplers(),
            final(self).tracker().targets() == old(self).tracker().targets(),
            final(self).tracker().retired() == old(self).tracker().retired(),
            forall|k: crate::registry::Key| #[trigger]
                old(self).tracker().textures().contains_key(k) ==> final(self).tracker().textures().contains_key(k)
                    && final(self).tracker().textures()[k] == old(self).tracker().textures()[k],
            grows(final(self).texture_cache(), old(self).texture_cache()),
            result matches Ok(slots) ==> fallbacks_cached(*d, slots@, final(self).texture_cache()),
            match result {
                Ok(slots) => forall|i: int| 0 <= i < 5 ==> (#[trigger] given_slots(*d)[i] matches Some(t) ==> slots@[i] == t),
                Err(e) => {
                    &&& (e is Backend || e is TextureLimit || e == RenderError::BackendHandleReused(ResourceKind::Texture))
                    &&& exists|i: int| 0 <= i < 5 && (#[trigger] given_slots(*d)[i]) is None
                    &&& (e is TextureLimit ==> old(self).limits().max_texture_2d == 0)
                    &&& crate::backend::answer_recorded(e, final(self).backend_calls(), old(self).backend_calls())
                },
            },
    {
        let ghost s0 = *self;
        let texture = match self.slot_or(d.texture, BuiltinTexture::White) {
            Ok(t) => t,
            Err(e) => {
                assert(given_slots(*d)[0] is None);
                return Err(e);
            },
        };
        let ghost s1 = *self;
        let metallic_roughness_texture = match self.slot_or(d.metallic_roughness_texture, BuiltinTexture::White) {
            Ok(t) => t,
            Err(e) => {
                assert(given_slots(*d)[1] is None);
                proof { lemma_binding_free_chain(self.backend_calls(), s1.backend_calls(), s0.backend_calls());
                lemma_grows_chain(self.texture_cache(), s1.texture_cache(), s0.texture_cache()); }
                return Err(e);
            },
        };
        let ghost s2 = *self;
        proof { lemma_binding_free_chain(s2.backend_calls(), s1.backend_calls(), s0.backend_calls());
                lemma_grows_chain(s2.texture_cache(), s1.texture_cache(), s0.texture_cache()); }
        let normal_map = match self.slot_or(d.normal_map, BuiltinTexture::FlatNormal) {
            Ok(t) => t,
            Err(e) => {
                assert(given_slots(*d)[2] is None);
                proof { lemma_binding_free_chain(self.backend_calls(), s2.backend_calls(), s0.backend_calls());
                lemma_grows_chain(self.texture_cache(), s2.texture_cache(), s0.texture_cache()); }
                return Err(e);
            },
        };
        let ghost s3 = *self;
        proof { lemma_binding_free_chain(s3.backend_calls(), s2.backend_calls(), s0.backend_calls());
                lemma_grows_chain(s3.texture_cache(), s2.texture_cache(), s0.texture_cache()); }
        let occlusion_texture = match self.slot_or(d.occlusion_texture, BuiltinTexture::White) {
            Ok(t) => t,
            Err(e) => {
                assert(given_slots(*d)[3] is None);
                proof { lemma_binding_free_chain(self.backend_calls(), s3.backend_calls(), s0.backend_calls());
                lemma_grows_chain(self.texture_cache(), s3.texture_cache(), s0.texture_cache()); }
                return Err(e);
            },
        };
        let ghost s4 = *self;
        proof { lemma_binding_free_chain(s4.backend_calls(), s3.backend_calls(), s0.backend_calls());
                lemma_grows_chain(s4.texture_cache(), s3.texture_cache(), s0.texture_cache()); }
        let emissive_texture = match self.slot_or(d.emissive_texture, BuiltinTexture::White) {
            Ok(t) => t,
            Err(e) => {
                assert(given_slots(*d)[4] is None);
                proof { lemma_binding_free_chain(self.backend_calls(), s4.backend_calls(), s0.backend_calls());
                lemma_grows_chain(self.texture_cache(), s4.texture_cache(), s0.texture_cache()); }
                return Err(e);
            },
        };
        proof { lemma_binding_free_chain(self.backend_calls(), s4.backend_calls(), s0.backend_calls());
                lemma_grows_chain(self.texture_cache(), s4.texture_cache(), s0.texture_cache()); }
        assert forall|k: crate::registry::Key| #[trigger] s0.tracker().textures().contains_key(k) implies self.tracker().textures().contains_key(k)
            && self.tracker().textures()[k] == s0.tracker().textures()[k] by {
            assert(s1.tracker().textures().contains_key(k));
            assert(s2.tracker().textures().contains_key(k));
            assert(s3.tracker().textures().contains_key(k));
            assert(s4.tracker().textures().contains_key(k));
        }
        proof {
            let c = self.texture_cache();
            lemma_grows_chain(c, s4.texture_cache(), s3.texture_cache());
            lemma_grows_chain(c, s3.texture_cache(), s2.texture_cache());
            lemma_grows_chain(c, s2.texture_cache(), s1.texture_cache());
            if d.texture is None {
                lemma_find_entry_grows(c, s1.texture_cache(), builtin_label(slot_builtin(0)));
            }
            if d.metallic_roughness_texture is None {
                lemma_find_entry_grows(c, s2.texture_cache(), builtin_label(slot_builtin(1)));
            }
            if d.normal_map is None {
                lemma_find_entry_grows(c, s3.texture_cache(), builtin_label(slot_builtin(2)));
            }
            if d.occlusion_texture is None {
                lemma_find_entry_grows(c, s4.texture_cache(), builtin_label(slot_builtin(3)));
            }
            let slots = seq![texture, metallic_roughness_texture, normal_map, occlusion_texture, emissive_texture];
            assert(fallbacks_cached(*d, slots, c)) by {
                assert forall|i: int| 0 <= i < 5 && (#[trigger] given_slots(*d)[i]) is None implies find_entry(
                    c,
                    builtin_label(slot_builtin(i)),
                ) == Some(slots[i]) by {
                    if i == 0 {
                    } else if i == 1 {
                    } else if i == 2 {
                    } else if i == 3 {
                    } else {
                    }
                }
            }
        }
        let result = [texture, metallic_roughness_texture, normal_map, occlusion_texture, emissive_texture];
        assert(result@ == seq![texture, metallic_roughness_texture, normal_map, occlusion_texture, emissive_texture]);
        Ok(result)
    }

    /// Refuses a slot that holds a live texture other than 2D, naming the
    /// material and the texture.
    fn check_2d(&self, textures: &[TextureHandle; 5], material: &String) -> (result: Result<(), RenderError>)
        requires
            self.wf(),
        ensures
            result is Ok <==> forall|i: int|
                0 <= i < 5 && #[trigger] self.tracker().textures().contains_key(textures@[i].spec_key())
                    ==> self.tracker().textures()[textures@[i].spec_key()].kind == TextureKind::D2,
            result matches Err(e) ==> e matches RenderError::CubemapInMaterial { material: m, texture } && m@ == material@
                && exists|k: crate::registry::Key| #[trigger]
                self.tracker().textures().contains_key(k) && self.tracker().textures()[k].kind != TextureKind::D2
                    && self.tracker().textures()[k].label@ == texture@,
    {
        let mut i: usize = 0;
        while i < 5
            invariant
                i <= 5,
                self.wf(),
                forall|j: int|
                    0 <= j < i && #[trigger] self.tracker().textures().contains_key(textures@[j].spec_key())
                        ==> self.tracker().textures()[textures@[j].spec_key()].kind == TextureKind::D2,
            decreases 5 - i,
        {
            if let Some(info) = self.lifetime.texture_info(textures[i]) {
                if info.kind != TextureKind::D2 {
                    assert(self.tracker().textures().contains_key(textures@[i as int].spec_key()));
                    return Err(RenderError::CubemapInMaterial { material: material.clone(), texture: info.label.clone() });
                }
            }
            i = i + 1;
        }
        Ok(())
    }

    /// Creates a material: its model's contract checked first (an input
    /// the model would ignore is refused, naming the rule), fallbacks in
    /// the empty slots (white texture, flat normal, default sampler),
    /// textures 2D only, the surface pipeline permutation resolved at once
    /// (a bad custom shader fails here), then the binding; the material
    /// takes a share of each texture slot and of its sampler.
    #[verifier::rlimit(40)]
    pub fn create_material(&mut self, descriptor: &MaterialDescriptor) -> (result: Result<MaterialHandle, RenderError>)
        requires
            old(self).wf(),
        ensures
            final(self).wf(),
            final(self).same_frame(old(self)),
            final(self).same_settings(old(self)),
            final(self).mesh_pool() == old(self).mesh_pool(),
            final(self).library() == old(self).library(),
            input_rule(*descriptor) matches Some(rule) ==> {
                &&& result matches Err(RenderError::Material { material, rule: r }) && r == rule && material@
                    == descriptor.label@
                &&& final(self).same_state(old(self))
                &&& final(self).backend() == old(self).backend()
            },
            result is Err ==> final(self).material_pool()@ == old(self).material_pool()@,
            result is Err ==> shares_kept(old(self).tracker(), final(self).tracker()),
            input_rule(*descriptor) is None && cube_slot(*descriptor, old(self).tracker()) ==> (result matches Err(e) && (
            e is CubemapInMaterial || e is Backend || e is TextureLimit || e == RenderError::BackendHandleReused(
                ResourceKind::Texture,
            ))),
            result matches Err(RenderError::CubemapInMaterial { material, texture }) ==> {
                &&& material@ == descriptor.label@
                &&& exists|k: crate::registry::Key| #[trigger]
                    final(self).tracker().textures().contains_key(k) && final(self).tracker().textures()[k].kind
                        != TextureKind::D2 && final(self).tracker().textures()[k].label@ == texture@
            },
            last_binding(final(self).backend_calls(), old(self).backend_calls()) matches Some((bd, a)) ==> binding_for(
                bd,
                *descriptor,
            ) && match a {
                Ok(_) => !old(self).material_pool().full() ==> result is Ok,
                Err(e) => result == Err::<MaterialHandle, RenderError>(RenderError::Backend(e)),
            },
            result matches Err(e) ==> material_refused(e, *descriptor, *final(self), *old(self)),
            result matches Ok(h) ==> {
                let k = material_key(h);
                let rec = final(self).material_pool()@[k];
                &&& last_binding(final(self).backend_calls(), old(self).backend_calls()) matches Some((bd, a))
                    && binds(bd, rec) && a == Ok::<BindingHandle, BackendError>(rec.binding)
                &&& fallbacks_cached(*descriptor, record_textures(rec), final(self).texture_cache())
                &&& !old(self).material_pool()@.contains_key(k)
                &&& final(self).material_pool()@ == old(self).material_pool()@.insert(k, rec)
                &&& record_of(rec, *descriptor)
                &&& forall|i: int|
                    0 <= i < 5 && #[trigger] final(self).tracker().textures().contains_key(record_textures(rec)[i].spec_key())
                        ==> final(self).tracker().textures()[record_textures(rec)[i].spec_key()].kind == TextureKind::D2
                &&& find_entry(final(self).caches().material_entries(), surface_key(*descriptor)) is Some
                &&& shares_moved_from(old(self).tracker(), final(self).tracker(), record_textures(rec), true)
                &&& sampler_moved_from(old(self).tracker(), final(self).tracker(), rec.sampler, true)
                &&& final(self).tracker().buffers() == old(self).tracker().buffers()
                &&& final(self).tracker().targets() == old(self).tracker().targets()
            },
    {
        if let Err(e) = check_material_inputs(descriptor) {
            return Err(e);
        }
        let textures = match self.material_slots(descriptor) {
            Ok(t) => t,
            Err(e) => return Err(e),
        };
        let ghost after_slots = *self;
        if let Err(e) = self.check_2d(&textures, &descriptor.label) {
            return Err(e);
        }
        proof {
            if cube_slot(*descriptor, old(self).tracker()) {
                let i = choose|i: int|
                    0 <= i < 5 && ((#[trigger] given_slots(*descriptor)[i]) matches Some(t)
                        && old(self).tracker().textures().contains_key(t.spec_key())
                        && old(self).tracker().textures()[t.spec_key()].kind != TextureKind::D2);
                let t = given_slots(*descriptor)[i]->Some_0;
                assert(textures@[i] == t);
                assert(self.tracker().textures().contains_key(textures@[i].spec_key()));
                assert(false);
            }
        }
        let texture = textures[0];
        let metallic_roughness_texture = textures[1];
        let normal_map = textures[2];
        let occlusion_texture = textures[3];
        let emissive_texture = textures[4];
        let sampler = match descriptor.sampler {
            Some(s) => s,
            None => match self.fallback_sampler() {
                Ok(s) => s,
                Err(e) => return Err(e),
            },
        };
        let ghost after_sampler = *self;
        let key = PipelineKey {
            model: descriptor.model.duplicate(),
            double_sided: descriptor.double_sided,
            opacity: descriptor.opacity,
            color_format: None,
            instanced: false,
        };
        if let Err(e) = self.pipelines.resolve_material(&mut self.backend, &self.shaders, &mut self.lifetime, &key) {
            return Err(e);
        }
        proof {
            if pipeline_registered(self.tracker(), after_sampler.tracker()) {
                self.tracker().lemma_keeps_registries(&after_sampler.tracker());
            }
            assert(key@ == surface_key(*descriptor));
            if find_entry(after_sampler.caches().material_entries(), key@) is None {
                lemma_find_entry_push_some(after_sampler.caches().material_entries(), key@, self.caches().material_entries().last().1);
            }
        }
        let ghost after_pipeline = *self;
        let params = MaterialParams {
            base_color: descriptor.base_color,
            metallic: descriptor.metallic,
            roughness: descriptor.roughness,
            receive_shadows: descriptor.receive_shadows,
            alpha_cutoff: descriptor.alpha_cutoff,
            emissive: descriptor.emissive,
        };
        let binding_descriptor = MaterialBindingDescriptor {
            label: descriptor.label.clone(),
            texture,
            metallic_roughness_texture,
            normal_map,
            occlusion_texture,
            emissive_texture,
            sampler,
            params,
        };
        let answer = self.backend.create_material_binding(&binding_descriptor);
        proof {
            self.sent@ = self.sent@.push(BackendCall::CreateMaterialBinding(binding_descriptor, answer));
        }
        let binding = match answer {
            Ok(b) => b,
            Err(e) => return Err(RenderError::Backend(e)),
        };
        let record = MaterialRecord {
            label: descriptor.label.clone(),
            model: descriptor.model.duplicate(),
            base_color: descriptor.base_color,
            binding,
            texture,
            sampler,
            double_sided: descriptor.double_sided,
            opacity: descriptor.opacity,
            metallic: descriptor.metallic,
            roughness: descriptor.roughness,
            metallic_roughness_texture,
            normal_map,
            occlusion_texture,
            emissive: descriptor.emissive,
            emissive_texture,
            cast_shadows: descriptor.cast_shadows,
            receive_shadows: descriptor.receive_shadows,
            alpha_cutoff: descriptor.alpha_cutoff,
            frustum_culled: descriptor.frustum_culled,
        };
        let pool_handle = match self.materials.insert(record) {
            Some(h) => h,
            None => return Err(RenderError::PoolFull(ResourceKind::Material)),
        };
        let ghost before_share = self.tracker();
        self.lifetime.share_material_resources(&textures, sampler);
        proof {
            self.tracker().lemma_same_population(&before_share);
            let rec = self.material_pool()@[pool_handle];
            assert(record_textures(rec) =~= textures@);
            assert(before_share.textures() == after_slots.tracker().textures());
            assert forall|k: crate::registry::Key| #[trigger] old(self).tracker().textures().contains_key(k) implies self.tracker().textures().contains_key(k)
                && self.tracker().textures()[k] == texture_with_refs(
                    old(self).tracker().textures()[k],
                    sat_add(old(self).tracker().textures()[k].refs, slot_count(record_textures(rec), k)),
                ) by {
                assert(after_slots.tracker().textures().contains_key(k));
                assert(before_share.textures().contains_key(k));
            }
            assert forall|i: int|
                0 <= i < 5 && #[trigger] self.tracker().textures().contains_key(record_textures(rec)[i].spec_key())
                    implies self.tracker().textures()[record_textures(rec)[i].spec_key()].kind == TextureKind::D2 by {
                assert(textures@[i] == record_textures(rec)[i]);
                assert(before_share.textures().contains_key(textures@[i].spec_key()));
            }
        }
        Ok(MaterialHandle { index: pool_handle.index, generation: pool_handle.generation })
    }
    /// The record of a live material, moved out (a placeholder stands in
    /// its slot until it is put back).
    fn take_record(&mut self, k: PoolHandle) -> (record: MaterialRecord)
        requires
            old(self).wf(),
            old(self).material_pool()@.contains_key(k),
        ensures
            final(self).wf(),
            record == old(self).material_pool()@[k],
            final(self).material_pool()@.dom() == old(self).material_pool()@.dom(),
            final(self).material_pool()@ == old(self).material_pool()@.insert(k, final(self).material_pool()@[k]),
            final(self).same_frame(old(self)),
            final(self).same_settings(old(self)),
            final(self).tracker() == old(self).tracker(),
            final(self).mesh_pool() == old(self).mesh_pool(),
            final(self).texture_cache() == old(self).texture_cache(),
            final(self).fallback_sampler_handle() == old(self).fallback_sampler_handle(),
            final(self).caches() == old(self).caches(),
            final(self).library() == old(self).library(),
            final(self).backend() == old(self).backend(),
            final(self).backend_calls() == old(self).backend_calls(),
    {
        let placeholder = MaterialRecord {
            label: String::new(),
            model: MaterialModel::VertexColor,
            base_color: Color::white(),
            binding: BindingHandle { index: 0, generation: 0 },
            texture: TextureHandle { index: 0, generation: 0 },
            sampler: SamplerHandle { index: 0, generation: 0 },
            double_sided: false,
            opacity: MaterialOpacity::Opaque,
            metallic: 0,
            roughness: 0,
            metallic_roughness_texture: TextureHandle { index: 0, generation: 0 },
            normal_map: TextureHandle { index: 0, generation: 0 },
            occlusion_texture: TextureHandle { index: 0, generation: 0 },
            emissive: Color::black(),
            emissive_texture: TextureHandle { index: 0, generation: 0 },
            cast_shadows: false,
            receive_shadows: false,
            alpha_cutoff: 0,
            frustum_culled: false,
        };
        let previous = self.materials.replace(k, placeholder);
        previous.unwrap()
    }

    /// Puts a record back in its slot.
    fn put_record(&mut self, k: PoolHandle, record: MaterialRecord)
        requires
            old(self).wf(),
            old(self).material_pool()@.contains_key(k),
        ensures
            final(self).wf(),
            final(self).material_pool()@ == old(self).material_pool()@.insert(k, record),
            final(self).same_frame(old(self)),
            final(self).same_settings(old(self)),
            final(self).tracker() == old(self).tracker(),
            final(self).mesh_pool() == old(self).mesh_pool(),
            final(self).texture_cache() == old(self).texture_cache(),
            final(self).fallback_sampler_handle() == old(self).fallback_sampler_handle(),
            final(self).caches() == old(self).caches(),
            final(self).library() == old(self).library(),
            final(self).backend() == old(self).backend(),
            final(self).backend_calls() == old(self).backend_calls(),
    {
        let _ = self.materials.replace(k, record);
    }

    /// Writes new parameters to a live material's binding, then to its
    /// record (a backend refusal leaves the record as it was).
    fn commit_params(&mut self, k: PoolHandle, params: MaterialParams) -> (result: Result<(), RenderError>)
        requires
            old(self).wf(),
            old(self).material_pool()@.contains_key(k),
        ensures
            final(self).wf(),
            final(self).same_frame(old(self)),
            final(self).same_settings(old(self)),
            final(self).tracker() == old(self).tracker(),
            final(self).mesh_pool() == old(self).mesh_pool(),
            final(self).texture_cache() == old(self).texture_cache(),
            final(self).fallback_sampler_handle() == old(self).fallback_sampler_handle(),
            final(self).caches() == old(self).caches(),
            final(self).library() == old(self).library(),
            match result {
                Ok(()) => final(self).material_pool()@ == old(self).material_pool()@.insert(
                    k,
                    MaterialRecord {
                        base_color: params.base_color,
                        metallic: params.metallic,
                        roughness: params.roughness,
                        alpha_cutoff: params.alpha_cutoff,
                        emissive: params.emissive,
                        ..old(self).material_pool()@[k]
                    },
                ),
                Err(e) => e is Backend && final(self).material_pool() == old(self).material_pool(),
            },
            params_sent(final(self).backend_calls(), old(self).backend_calls(), old(self).material_pool()@[k].binding, params, result),
    {
        let binding = match self.materials.get(k) {
            Some(record) => record.binding,
            None => return Ok(()),
        };
        let answer = self.backend.update_material_binding(binding, &params);
        proof {
            self.sent@ = self.sent@.push(BackendCall::UpdateMaterialBinding(binding, params, answer));
            assert(one_call(self.backend_calls(), old(self).backend_calls(), BackendCall::UpdateMaterialBinding(binding, params, answer)));
        }
        if let Err(e) = answer {
            return Err(RenderError::Backend(e));
        }
        let mut record = self.take_record(k);
        record.base_color = params.base_color;
        record.metallic = params.metallic;
        record.roughness = params.roughness;
        record.alpha_cutoff = params.alpha_cutoff;
        record.emissive = params.emissive;
        self.put_record(k, record);
        assert(one_call(self.backend_calls(), old(self).backend_calls(), BackendCall::UpdateMaterialBinding(binding, params, answer)));
        Ok(())
    }

    /// What the tools see of a live material.
    pub fn material_info(&self, handle: MaterialHandle) -> (result: Result<MaterialInfo, RenderError>)
        requires
            self.wf(),
        ensures
            ({
                let k = material_key(handle);
                let m = self.material_pool()@;
                match result {
                    Ok(info) => m.contains_key(k) && {
                        let r = m[k];
                        &&& info.label == r.label
                        &&& info.model@ == r.model@
                        &&& info.base_color == r.base_color
                        &&& info.texture == r.texture
                        &&& info.sampler == r.sampler
                        &&& info.double_sided == r.double_sided
                        &&& info.opacity == r.opacity
                        &&& info.metallic == r.metallic
                        &&& info.roughness == r.roughness
                        &&& info.metallic_roughness_texture == r.metallic_roughness_texture
                        &&& info.normal_map == r.normal_map
                        &&& info.occlusion_texture == r.occlusion_texture
                        &&& info.emissive == r.emissive
                        &&& info.emissive_texture == r.emissive_texture
                        &&& info.cast_shadows == r.cast_shadows
                        &&& info.receive_shadows == r.receive_shadows
                        &&& info.alpha_cutoff == r.alpha_cutoff
                        &&& info.frustum_culled == r.frustum_culled
                    },
                    Err(e) => !m.contains_key(k) && e == RenderError::Stale(ResourceKind::Material),
                }
            }),
    {
        let record = match self.materials.get(PoolHandle { index: handle.index, generation: handle.generation }) {
            Some(record) => record,
            None => return Err(RenderError::Stale(ResourceKind::Material)),
        };
        Ok(
            MaterialInfo {
                label: record.label.clone(),
                model: record.model.duplicate(),
                base_color: record.base_color,
                texture: record.texture,
                sampler: record.sampler,
                double_sided: record.double_sided,
                opacity: record.opacity,
                metallic: record.metallic,
                roughness: record.roughness,
                metallic_roughness_texture: record.metallic_roughness_texture,
                normal_map: record.normal_map,
                occlusion_texture: record.occlusion_texture,
                emissive: record.emissive,
                emissive_texture: record.emissive_texture,
                cast_shadows: record.cast_shadows,
                receive_shadows: record.receive_shadows,
                alpha_cutoff: record.alpha_cutoff,
                frustum_culled: record.frustum_culled,
            },
        )
    }

    /// Sets the base color of a live material in place (its uniforms are
    /// rewritten; no binding or pipeline is recreated).
    pub fn set_material_color(&mut self, handle: MaterialHandle, base_color: Color) -> (result: Result<(), RenderError>)
        requires
            old(self).wf(),
        ensures
            final(self).wf(),
            final(self).same_frame(old(self)),
            final(self).same_settings(old(self)),
            final(self).tracker() == old(self).tracker(),
            final(self).mesh_pool() == old(self).mesh_pool(),
            final(self).texture_cache() == old(self).texture_cache(),
            final(self).fallback_sampler_handle() == old(self).fallback_sampler_handle(),
            final(self).caches() == old(self).caches(),
            final(self).library() == old(self).library(),
            ({
                let k = material_key(handle);
                let m = old(self).material_pool()@;
                if !m.contains_key(k) {
                    &&& result == Err::<(), RenderError>(RenderError::Stale(ResourceKind::Material))
                    &&& final(self).material_pool() == old(self).material_pool()
                    &&& final(self).backend() == old(self).backend()
                } else if !spec_material_inputs(m[k].model@) {
                    &&& result matches Err(RenderError::Material { material, rule }) && material@ == m[k].label@
                        && rule == MaterialRule::BaseColorWithoutInputs
                    &&& final(self).material_pool() == old(self).material_pool()
                    &&& final(self).backend() == old(self).backend()
                } else {
                    match result {
                        Ok(()) => final(self).material_pool()@ == m.insert(k, MaterialRecord { base_color, ..m[k] }),
                        Err(e) => e is Backend && final(self).material_pool() == old(self).material_pool(),
                    }
                }
            }),
            ({
                let k = material_key(handle);
                let m = old(self).material_pool()@;
                if m.contains_key(k) && spec_material_inputs(m[k].model@) {
                    params_sent(
                        final(self).backend_calls(),
                        old(self).backend_calls(),
                        m[k].binding,
                        record_params(MaterialRecord { base_color, ..m[k] }),
                        result,
                    )
                } else {
                    final(self).backend_calls() == old(self).backend_calls()
                }
            }),
    {
        let k = PoolHandle { index: handle.index, generation: handle.generation };
        let record = match self.materials.get(k) {
            Some(record) => record,
            None => return Err(RenderError::Stale(ResourceKind::Material)),
        };
        if !record.model.material_inputs() {
            return Err(
                RenderError::Material { material: record.label.clone(), rule: MaterialRule::BaseColorWithoutInputs },
            );
        }
        let params = MaterialParams { base_color, ..record.params() };
        self.commit_params(k, params)
    }

    /// The common path of the PBR factors: refused on a model that does
    /// not read them, the backend written first.
    fn update_pbr(&mut self, handle: MaterialHandle, property: PbrProperty, value: u32, emissive: Color) -> (result:
        Result<(), RenderError>)
        requires
            old(self).wf(),
            property == PbrProperty::Metallic || property == PbrProperty::Roughness || property
                == PbrProperty::Emissive,
        ensures
            final(self).wf(),
            final(self).same_frame(old(self)),
            final(self).same_settings(old(self)),
            final(self).tracker() == old(self).tracker(),
            final(self).mesh_pool() == old(self).mesh_pool(),
            final(self).texture_cache() == old(self).texture_cache(),
            final(self).fallback_sampler_handle() == old(self).fallback_sampler_handle(),
            final(self).caches() == old(self).caches(),
            final(self).library() == old(self).library(),
            ({
                let k = material_key(handle);
                let m = old(self).material_pool()@;
                if !m.contains_key(k) {
                    &&& result == Err::<(), RenderError>(RenderError::Stale(ResourceKind::Material))
                    &&& final(self).material_pool() == old(self).material_pool()
                    &&& final(self).backend() == old(self).backend()
                } else if !spec_pbr_inputs(m[k].model@) {
                    &&& result matches Err(RenderError::Material { material, rule }) && material@ == m[k].label@
                        && rule == MaterialRule::PbrWithoutPbr(property)
                    &&& final(self).material_pool() == old(self).material_pool()
                    &&& final(self).backend() == old(self).backend()
                } else {
                    match result {
                        Ok(()) => final(self).material_pool()@ == m.insert(
                            k,
                            match property {
                                PbrProperty::Metallic => MaterialRecord { metallic: value, ..m[k] },
                                PbrProperty::Roughness => MaterialRecord { roughness: value, ..m[k] },
                                _ => MaterialRecord { emissive, ..m[k] },
                            },
                        ),
                        Err(e) => e is Backend && final(self).material_pool() == old(self).material_pool(),
                    }
                }
            }),
            ({
                let k = material_key(handle);
                let m = old(self).material_pool()@;
                if m.contains_key(k) && spec_pbr_inputs(m[k].model@) {
                    params_sent(
                        final(self).backend_calls(),
                        old(self).backend_calls(),
                        m[k].binding,
                        record_params(match property {
                            PbrProperty::Metallic => MaterialRecord { metallic: value, ..m[k] },
                            PbrProperty::Roughness => MaterialRecord { roughness: value, ..m[k] },
                            _ => MaterialRecord { emissive, ..m[k] },
                        }),
                        result,
                    )
                } else {
                    final(self).backend_calls() == old(self).backend_calls()
                }
            }),
    {
        let k = PoolHandle { index: handle.index, generation: handle.generation };
        let record = match self.materials.get(k) {
            Some(record) => record,
            None => return Err(RenderError::Stale(ResourceKind::Material)),
        };
        if !record.model.pbr_inputs() {
            return Err(RenderError::Material { material: record.label.clone(), rule: MaterialRule::PbrWithoutPbr(property) });
        }
        let current = record.params();
        let params = match property {
            PbrProperty::Metallic => MaterialParams { metallic: value, ..current },
            PbrProperty::Roughness => MaterialParams { roughness: value, ..current },
            _ => MaterialParams { emissive, ..current },
        };
        self.commit_params(k, params)
    }

    /// Sets the metallic factor of a live PBR material in place.
    pub fn set_material_metallic(&mut self, handle: MaterialHandle, metallic: u32) -> (result: Result<(), RenderError>)
        requires
            old(self).wf(),
        ensures
            final(self).wf(),
            final(self).same_frame(old(self)),
            final(self).same_settings(old(self)),
            final(self).tracker() == old(self).tracker(),
            final(self).mesh_pool() == old(self).mesh_pool(),
            final(self).caches() == old(self).caches(),
            ({
                let k = material_key(handle);
                let m = old(self).material_pool()@;
                if !m.contains_key(k) {
                    result == Err::<(), RenderError>(RenderError::Stale(ResourceKind::Material))
                        && final(self).material_pool() == old(self).material_pool()
                } else if !spec_pbr_inputs(m[k].model@) {
                    result matches Err(RenderError::Material { material, rule }) && material@ == m[k].label@ && rule
                        == MaterialRule::PbrWithoutPbr(PbrProperty::Metallic) && final(self).material_pool()
                        == old(self).material_pool()
                } else {
                    match result {
                        Ok(()) => final(self).material_pool()@ == m.insert(k, MaterialRecord { metallic, ..m[k] }),
                        Err(e) => e is Backend && final(self).material_pool() == old(self).material_pool(),
                    }
                }
            }),
            ({
                let k = material_key(handle);
                let m = old(self).material_pool()@;
                if m.contains_key(k) && spec_pbr_inputs(m[k].model@) {
                    params_sent(
                        final(self).backend_calls(),
                        old(self).backend_calls(),
                        m[k].binding,
                        record_params(MaterialRecord { metallic, ..m[k] }),
                        result,
                    )
                } else {
                    final(self).backend_calls() == old(self).backend_calls()
                }
            }),
    {
        self.update_pbr(handle, PbrProperty::Metallic, metallic, Color::black())
    }

    /// Sets the roughness factor of a live PBR material in place.
    pub fn set_material_roughness(&mut self, handle: MaterialHandle, roughness: u32) -> (result: Result<(), RenderError>)
        requires
            old(self).wf(),
        ensures
            final(self).wf(),
            final(self).same_frame(old(self)),
            final(self).same_settings(old(self)),
            final(self).tracker() == old(self).tracker(),
            final(self).mesh_pool() == old(self).mesh_pool(),
            final(self).caches() == old(self).caches(),
            ({
                let k = material_key(handle);
                let m = old(self).material_pool()@;
                if !m.contains_key(k) {
                    result == Err::<(), RenderError>(RenderError::Stale(ResourceKind::Material))
                        && final(self).material_pool() == old(self).material_pool()
                } else if !spec_pbr_inputs(m[k].model@) {
                    result matches Err(RenderError::Material { material, rule }) && material@ == m[k].label@ && rule
                        == MaterialRule::PbrWithoutPbr(PbrProperty::Roughness) && final(self).material_pool()
                        == old(self).material_pool()
                } else {
                    match result {
                        Ok(()) => final(self).material_pool()@ == m.insert(k, MaterialRecord { roughness, ..m[k] }),
                        Err(e) => e is Backend && final(self).material_pool() == old(self).material_pool(),
                    }
                }
            }),
            ({
                let k = material_key(handle);
                let m = old(self).material_pool()@;
                if m.contains_key(k) && spec_pbr_inputs(m[k].model@) {
                    params_sent(
                        final(self).backend_calls(),
                        old(self).backend_calls(),
                        m[k].binding,
                        record_params(MaterialRecord { roughness, ..m[k] }),
                        result,
                    )
                } else {
                    final(self).backend_calls() == old(self).backend_calls()
                }
            }),
    {
        self.update_pbr(handle, PbrProperty::Roughness, roughness, Color::black())
    }

    /// Sets the emissive color of a live PBR material in place.
    pub fn set_material_emissive(&mut self, handle: MaterialHandle, emissive: Color) -> (result: Result<(), RenderError>)
        requires
            old(self).wf(),
        ensures
            final(self).wf(),
            final(self).same_frame(old(self)),
            final(self).same_settings(old(self)),
            final(self).tracker() == old(self).tracker(),
            final(self).mesh_pool() == old(self).mesh_pool(),
            final(self).caches() == old(self).caches(),
            ({
                let k = material_key(handle);
                let m = old(self).material_pool()@;
                if !m.contains_key(k) {
                    result == Err::<(), RenderError>(RenderError::Stale(ResourceKind::Material))
                        && final(self).material_pool() == old(self).material_pool()
                } else if !spec_pbr_inputs(m[k].model@) {
                    result matches Err(RenderError::Material { material, rule }) && material@ == m[k].label@ && rule
                        == MaterialRule::PbrWithoutPbr(PbrProperty::Emissive) && final(self).material_pool()
                        == old(self).material_pool()
                } else {
                    match result {
                        Ok(()) => final(self).material_pool()@ == m.insert(k, MaterialRecord { emissive, ..m[k] }),
                        Err(e) => e is Backend && final(self).material_pool() == old(self).material_pool(),
                    }
                }
            }),
            ({
                let k = material_key(handle);
                let m = old(self).material_pool()@;
                if m.contains_key(k) && spec_pbr_inputs(m[k].model@) {
                    params_sent(
                        final(self).backend_calls(),
                        old(self).backend_calls(),
                        m[k].binding,
                        record_params(MaterialRecord { emissive, ..m[k] }),
                        result,
                    )
                } else {
                    final(self).backend_calls() == old(self).backend_calls()
                }
            }),
    {
        self.update_pbr(handle, PbrProperty::Emissive, 0, emissive)
    }

    /// Sets the alpha cutoff of a live `Masked` material in place: refused
    /// on another opacity, or outside 0..=1.
    pub fn set_material_alpha_cutoff(&mut self, handle: MaterialHandle, alpha_cutoff: u32) -> (result: Result<
        (),
        RenderError,
    >)
        requires
            old(self).wf(),
        ensures
            final(self).wf(),
            final(self).same_frame(old(self)),
            final(self).same_settings(old(self)),
            final(self).tracker() == old(self).tracker(),
            final(self).mesh_pool() == old(self).mesh_pool(),
            final(self).caches() == old(self).caches(),
            ({
                let k = material_key(handle);
                let m = old(self).material_pool()@;
                if !m.contains_key(k) {
                    result == Err::<(), RenderError>(RenderError::Stale(ResourceKind::Material))
                        && final(self).material_pool() == old(self).material_pool()
                } else if m[k].opacity != MaterialOpacity::Masked {
                    result matches Err(RenderError::Material { material, rule }) && material@ == m[k].label@ && rule
                        == MaterialRule::AlphaCutoffWithoutMask && final(self).material_pool()
                        == old(self).material_pool()
                } else if !is_unit(alpha_cutoff) {
                    result matches Err(RenderError::Material { material, rule }) && material@ == m[k].label@ && rule
                        == MaterialRule::AlphaCutoffRange && final(self).material_pool() == old(self).material_pool()
                } else {
                    match result {
                        Ok(()) => final(self).material_pool()@ == m.insert(k, MaterialRecord { alpha_cutoff, ..m[k] }),
                        Err(e) => e is Backend && final(self).material_pool() == old(self).material_pool(),
                    }
                }
            }),
            ({
                let k = material_key(handle);
                let m = old(self).material_pool()@;
                if m.contains_key(k) && m[k].opacity == MaterialOpacity::Masked && is_unit(alpha_cutoff) {
                    params_sent(
                        final(self).backend_calls(),
                        old(self).backend_calls(),
                        m[k].binding,
                        record_params(MaterialRecord { alpha_cutoff, ..m[k] }),
                        result,
                    )
                } else {
                    final(self).backend_calls() == old(self).backend_calls()
                }
            }),
    {
        let k = PoolHandle { index: handle.index, generation: handle.generation };
        let record = match self.materials.get(k) {
            Some(record) => record,
            None => return Err(RenderError::Stale(ResourceKind::Material)),
        };
        if record.opacity != MaterialOpacity::Masked {
            return Err(
                RenderError::Material { material: record.label.clone(), rule: MaterialRule::AlphaCutoffWithoutMask },
            );
        }
        if !unit(alpha_cutoff) {
            return Err(RenderError::Material { material: record.label.clone(), rule: MaterialRule::AlphaCutoffRange });
        }
        let params = MaterialParams { alpha_cutoff, ..record.params() };
        self.commit_params(k, params)
    }
    /// Replaces the texture of a live material (`None`: the white
    /// fallback), transactionally: checks, then the new binding, and only
    /// then the shares moved and the old binding retired. The handle keeps
    /// its identity; the same texture is a no-op.
    pub fn set_material_texture(&mut self, handle: MaterialHandle, texture: Option<TextureHandle>) -> (result: Result<
        (),
        RenderError,
    >)
        requires
            old(self).wf(),
        ensures
            final(self).wf(),
            final(self).same_frame(old(self)),
            final(self).same_settings(old(self)),
            final(self).mesh_pool() == old(self).mesh_pool(),
            final(self).library() == old(self).library(),
            final(self).caches() == old(self).caches(),
            final(self).tracker().buffers() == old(self).tracker().buffers(),
            final(self).tracker().targets() == old(self).tracker().targets(),
            result is Err ==> final(self).material_pool()@ == old(self).material_pool()@,
            result is Err ==> shares_kept(old(self).tracker(), final(self).tracker())
                && final(self).tracker().retired() == old(self).tracker().retired(),
            last_binding(final(self).backend_calls(), old(self).backend_calls()) matches Some((bd, a)) ==> {
                let k = material_key(handle);
                let m = old(self).material_pool()@;
                &&& m.contains_key(k)
                &&& binds(bd, MaterialRecord { texture: bd.texture, ..m[k] })
                &&& (texture matches Some(t) ==> bd.texture == t)
                &&& match a {
                    Ok(b) => result is Ok && final(self).material_pool()@[k] == MaterialRecord {
                        texture: bd.texture,
                        binding: b,
                        ..m[k]
                    },
                    Err(e) => result == Err::<(), RenderError>(RenderError::Backend(e)),
                }
            },
            ({
                let k = material_key(handle);
                let m = old(self).material_pool()@;
                let t_old = old(self).tracker().textures();
                let t = texture->0;
                (texture is Some && m.contains_key(k) && spec_material_inputs(m[k].model@) && m[k].texture != t
                    && t_old.contains_key(t.spec_key()) && t_old[t.spec_key()].kind == TextureKind::D2)
                    ==> last_binding(final(self).backend_calls(), old(self).backend_calls()) is Some
            }),
            ({
                let k = material_key(handle);
                let m = old(self).material_pool()@;
                let t_old = old(self).tracker().textures();
                let t = texture->0;
                &&& (texture is Some && !m.contains_key(k)) ==> (result == Err::<(), RenderError>(
                    RenderError::Stale(ResourceKind::Material),
                ) && final(self).tracker() == old(self).tracker())
                &&& (texture is Some && m.contains_key(k) && !spec_material_inputs(m[k].model@)) ==> (result matches Err(
                    RenderError::Material { material, rule },
                ) && material@ == m[k].label@ && rule == MaterialRule::TextureWithoutInputs && final(self).tracker()
                    == old(self).tracker())
                &&& (texture is Some && m.contains_key(k) && spec_material_inputs(m[k].model@) && m[k].texture
                    == t) ==> (result is Ok && final(self).same_state(old(self)) && final(self).backend()
                    == old(self).backend())
                &&& (texture is Some && m.contains_key(k) && spec_material_inputs(m[k].model@) && m[k].texture
                    != t && !t_old.contains_key(t.spec_key())) ==> (result == Err::<(), RenderError>(
                    RenderError::Stale(ResourceKind::Texture),
                ) && final(self).tracker() == old(self).tracker())
                &&& (texture is Some && m.contains_key(k) && spec_material_inputs(m[k].model@) && m[k].texture
                    != t && t_old.contains_key(t.spec_key()) && t_old[t.spec_key()].kind != TextureKind::D2) ==> (
                result matches Err(RenderError::CubemapInMaterial { material, texture: name }) && material@
                    == m[k].label@ && name@ == t_old[t.spec_key()].label@)
                &&& (result is Ok && m.contains_key(k) && final(self).material_pool()@[k].texture != m[k].texture) ==> {
                    let rec = final(self).material_pool()@[k];
                    &&& final(self).material_pool()@ == m.insert(
                        k,
                        MaterialRecord { texture: rec.texture, binding: rec.binding, ..m[k] },
                    )
                    &&& (texture is Some ==> rec.texture == t)
                    &&& final(self).tracker().textures().contains_key(rec.texture.spec_key())
                    &&& final(self).tracker().textures()[rec.texture.spec_key()].kind == TextureKind::D2
                    &&& forall|key: crate::registry::Key|
                        #[trigger] t_old.contains_key(key) ==> final(self).tracker().textures().contains_key(key)
                            && final(self).tracker().textures()[key] == texture_with_refs(
                            t_old[key],
                            sat_add(
                                sat_sub(t_old[key].refs, slot_count(seq![m[k].texture], key)),
                                slot_count(seq![rec.texture], key),
                            ),
                        )
                    &&& final(self).tracker().retired() == old(self).tracker().retired().push(
                        crate::lifetime::Retired::Binding(m[k].binding),
                    )
                }
                &&& (result is Ok && m.contains_key(k) && final(self).material_pool()@[k].texture == m[k].texture) ==> (
                final(self).material_pool()@ == m)
            }),
            ({
                let k = material_key(handle);
                let m = old(self).material_pool()@;
                (texture is None && m.contains_key(k) && spec_material_inputs(m[k].model@)) ==> (find_entry(
                    final(self).texture_cache(),
                    builtin_label(BuiltinTexture::White),
                ) matches Some(t) ==> ((m[k].texture != t && final(self).tracker().textures().contains_key(t.spec_key())
                    && final(self).tracker().textures()[t.spec_key()].kind == TextureKind::D2) ==> last_binding(
                    final(self).backend_calls(),
                    old(self).backend_calls(),
                ) is Some))
            }),
            result is Ok ==> final(self).tracker().samplers() == old(self).tracker().samplers(),
    {
        let texture = match texture {
            Some(t) => t,
            None => match self.fallback_texture() {
                Ok(t) => {
                    proof {
                        let label = builtin_label(BuiltinTexture::White);
                        if find_entry(old(self).texture_cache(), label) is None {
                            lemma_find_entry_none_push(old(self).texture_cache(), label, t);
                        }
                    }
                    t
                },
                Err(e) => return Err(e),
            },
        };
        let k = PoolHandle { index: handle.index, generation: handle.generation };
        let record = match self.materials.get(k) {
            Some(record) => record,
            None => return Err(RenderError::Stale(ResourceKind::Material)),
        };
        if !record.model.material_inputs() {
            return Err(RenderError::Material { material: record.label.clone(), rule: MaterialRule::TextureWithoutInputs });
        }
        if record.texture == texture {
            return Ok(());
        }
        let info = match self.lifetime.texture_info(texture) {
            Some(info) => info,
            None => return Err(RenderError::Stale(ResourceKind::Texture)),
        };
        if info.kind != TextureKind::D2 {
            return Err(RenderError::CubemapInMaterial { material: record.label.clone(), texture: info.label.clone() });
        }
        let mut binding_descriptor = record.binding_descriptor();
        binding_descriptor.texture = texture;
        let sampler = record.sampler;
        let old_texture = record.texture;
        let old_binding = record.binding;
        let answer = self.backend.create_material_binding(&binding_descriptor);
        proof {
            self.sent@ = self.sent@.push(BackendCall::CreateMaterialBinding(binding_descriptor, answer));
        }
        let binding = match answer {
            Ok(b) => b,
            Err(e) => return Err(RenderError::Backend(e)),
        };
        let ghost before_moves = self.tracker();
        self.lifetime.move_textures(&[old_texture], false);
        let ghost released = self.tracker();
        self.lifetime.move_textures(&[texture], true);
        let ghost shared = self.tracker();
        self.lifetime.retire_binding(old_binding);
        proof {
            released.lemma_same_population(&before_moves);
            shared.lemma_same_population(&released);
            self.tracker().lemma_keeps_resources(&shared);
            assert(before_moves.textures().contains_key(texture.spec_key()));
            assert(released.textures().contains_key(texture.spec_key()));
            assert forall|key: crate::registry::Key| #[trigger] old(self).tracker().textures().contains_key(key) implies self.tracker().textures().contains_key(key)
                && self.tracker().textures()[key] == texture_with_refs(
                    old(self).tracker().textures()[key],
                    sat_add(
                        sat_sub(old(self).tracker().textures()[key].refs, slot_count(seq![old_texture], key)),
                        slot_count(seq![texture], key),
                    ),
                ) by {
                assert(before_moves.textures().contains_key(key));
                assert([old_texture]@ == seq![old_texture]);
                assert([texture]@ == seq![texture]);
            }
        }
        let mut record = self.take_record(k);
        record.texture = texture;
        record.binding = binding;
        self.put_record(k, record);
        Ok(())
    }
    /// Replaces the sampler of a live material (`None`: the default
    /// fallback), with the same transactional contract as the texture.
    pub fn set_material_sampler(&mut self, handle: MaterialHandle, sampler: Option<SamplerHandle>) -> (result: Result<
        (),
        RenderError,
    >)
        requires
            old(self).wf(),
        ensures
            final(self).wf(),
            final(self).same_frame(old(self)),
            final(self).same_settings(old(self)),
            final(self).mesh_pool() == old(self).mesh_pool(),
            final(self).library() == old(self).library(),
            final(self).caches() == old(self).caches(),
            final(self).texture_cache() == old(self).texture_cache(),
            final(self).tracker().buffers() == old(self).tracker().buffers(),
            final(self).tracker().targets() == old(self).tracker().targets(),
            result is Err ==> final(self).material_pool()@ == old(self).material_pool()@,
            result is Err ==> shares_kept(old(self).tracker(), final(self).tracker())
                && final(self).tracker().retired() == old(self).tracker().retired(),
            last_binding(final(self).backend_calls(), old(self).backend_calls()) matches Some((bd, a)) ==> {
                let k = material_key(handle);
                let m = old(self).material_pool()@;
                &&& m.contains_key(k)
                &&& binds(bd, MaterialRecord { sampler: bd.sampler, ..m[k] })
                &&& (sampler matches Some(s) ==> bd.sampler == s)
                &&& match a {
                    Ok(b) => result is Ok && final(self).material_pool()@[k] == MaterialRecord {
                        sampler: bd.sampler,
                        binding: b,
                        ..m[k]
                    },
                    Err(e) => result == Err::<(), RenderError>(RenderError::Backend(e)),
                }
            },
            ({
                let k = material_key(handle);
                let m = old(self).material_pool()@;
                let s_old = old(self).tracker().samplers();
                let s = sampler->0;
                &&& (sampler is Some && m.contains_key(k) && spec_material_inputs(m[k].model@) && m[k].sampler != s
                    && !s_old.contains_key(s.spec_key())) ==> (result == Err::<(), RenderError>(
                    RenderError::Stale(ResourceKind::Sampler),
                ) && final(self).tracker() == old(self).tracker())
                &&& (sampler is Some && m.contains_key(k) && spec_material_inputs(m[k].model@) && m[k].sampler != s
                    && s_old.contains_key(s.spec_key())) ==> last_binding(
                    final(self).backend_calls(),
                    old(self).backend_calls(),
                ) is Some
            }),
            ({
                let k = material_key(handle);
                let m = old(self).material_pool()@;
                let s_old = old(self).tracker().samplers();
                let s = sampler->0;
                &&& (sampler is Some && !m.contains_key(k)) ==> (result == Err::<(), RenderError>(
                    RenderError::Stale(ResourceKind::Material),
                ) && final(self).tracker() == old(self).tracker())
                &&& (sampler is Some && m.contains_key(k) && !spec_material_inputs(m[k].model@)) ==> (result matches Err(
                    RenderError::Material { material, rule },
                ) && material@ == m[k].label@ && rule == MaterialRule::SamplerWithoutInputs && final(self).tracker()
                    == old(self).tracker())
                &&& (sampler is Some && m.contains_key(k) && spec_material_inputs(m[k].model@) && m[k].sampler == s) ==> (
                result is Ok && final(self).same_state(old(self)) && final(self).backend() == old(self).backend())
                &&& (result is Ok && m.contains_key(k) && final(self).material_pool()@[k].sampler != m[k].sampler) ==> {
                    let rec = final(self).material_pool()@[k];
                    let ko = m[k].sampler.spec_key();
                    let kn = rec.sampler.spec_key();
                    &&& final(self).material_pool()@ == m.insert(
                        k,
                        MaterialRecord { sampler: rec.sampler, binding: rec.binding, ..m[k] },
                    )
                    &&& (sampler is Some ==> rec.sampler == s)
                    &&& s_old.contains_key(ko) ==> final(self).tracker().samplers()[ko].refs == sat_sub(s_old[ko].refs, 1)
                    &&& s_old.contains_key(kn) ==> final(self).tracker().samplers()[kn].refs == sat_add(s_old[kn].refs, 1)
                    &&& final(self).tracker().retired() == old(self).tracker().retired().push(
                        crate::lifetime::Retired::Binding(m[k].binding),
                    )
                }
                &&& (result is Ok && m.contains_key(k) && final(self).material_pool()@[k].sampler == m[k].sampler) ==> (
                final(self).material_pool()@ == m)
            }),
            ({
                let k = material_key(handle);
                let m = old(self).material_pool()@;
                (sampler is None && m.contains_key(k) && spec_material_inputs(m[k].model@)) ==> (
                final(self).fallback_sampler_handle() matches Some(s) ==> ((m[k].sampler != s
                    && final(self).tracker().samplers().contains_key(s.spec_key())) ==> last_binding(
                    final(self).backend_calls(),
                    old(self).backend_calls(),
                ) is Some))
            }),
            result is Ok ==> forall|key: crate::registry::Key| #[trigger]
                old(self).tracker().textures().contains_key(key) ==> final(self).tracker().textures().contains_key(key)
                    && final(self).tracker().textures()[key] == old(self).tracker().textures()[key],
    {
        let sampler = match sampler {
            Some(s) => s,
            None => match self.fallback_sampler() {
                Ok(s) => s,
                Err(e) => return Err(e),
            },
        };
        let k = PoolHandle { index: handle.index, generation: handle.generation };
        let record = match self.materials.get(k) {
            Some(record) => record,
            None => return Err(RenderError::Stale(ResourceKind::Material)),
        };
        if !record.model.material_inputs() {
            return Err(RenderError::Material { material: record.label.clone(), rule: MaterialRule::SamplerWithoutInputs });
        }
        if record.sampler == sampler {
            return Ok(());
        }
        if self.lifetime.sampler_info(sampler).is_none() {
            return Err(RenderError::Stale(ResourceKind::Sampler));
        }
        let mut binding_descriptor = record.binding_descriptor();
        binding_descriptor.sampler = sampler;
        let old_sampler = record.sampler;
        let old_binding = record.binding;
        let answer = self.backend.create_material_binding(&binding_descriptor);
        proof {
            self.sent@ = self.sent@.push(BackendCall::CreateMaterialBinding(binding_descriptor, answer));
        }
        let binding = match answer {
            Ok(b) => b,
            Err(e) => return Err(RenderError::Backend(e)),
        };
        let ghost before_moves = self.tracker();
        self.lifetime.move_sampler(old_sampler, false);
        let ghost released = self.tracker();
        self.lifetime.move_sampler(sampler, true);
        let ghost shared = self.tracker();
        self.lifetime.retire_binding(old_binding);
        proof {
            released.lemma_same_population(&before_moves);
            shared.lemma_same_population(&released);
            self.tracker().lemma_keeps_resources(&shared);
            assert(old_sampler.spec_key() != sampler.spec_key());
        }
        let mut record = self.take_record(k);
        record.sampler = sampler;
        record.binding = binding;
        self.put_record(k, record);
        Ok(())
    }

    /// Destroys a material: its shares of its textures and sampler are
    /// given back (they become destructible once nobody shares them) and
    /// its binding is released at the next safe point.
    pub fn destroy_material(&mut self, handle: MaterialHandle) -> (result: Result<(), RenderError>)
        requires
            old(self).wf(),
        ensures
            final(self).backend_calls() == old(self).backend_calls(),
            final(self).wf(),
            final(self).same_frame(old(self)),
            final(self).same_settings(old(self)),
            final(self).backend() == old(self).backend(),
            final(self).mesh_pool() == old(self).mesh_pool(),
            final(self).texture_cache() == old(self).texture_cache(),
            final(self).fallback_sampler_handle() == old(self).fallback_sampler_handle(),
            final(self).caches() == old(self).caches(),
            final(self).library() == old(self).library(),
            ({
                let k = material_key(handle);
                let m = old(self).material_pool()@;
                if m.contains_key(k) {
                    &&& result is Ok
                    &&& final(self).material_pool()@ == m.remove(k)
                    &&& shares_moved_from(old(self).tracker(), final(self).tracker(), record_textures(m[k]), false)
                    &&& sampler_moved_from(old(self).tracker(), final(self).tracker(), m[k].sampler, false)
                    &&& final(self).tracker().textures().dom() == old(self).tracker().textures().dom()
                    &&& final(self).tracker().retired() == old(self).tracker().retired().push(
                        crate::lifetime::Retired::Binding(m[k].binding),
                    )
                    &&& final(self).tracker().buffers() == old(self).tracker().buffers()
                    &&& final(self).tracker().targets() == old(self).tracker().targets()
                } else {
                    &&& result == Err::<(), RenderError>(RenderError::Stale(ResourceKind::Material))
                    &&& final(self).material_pool() == old(self).material_pool()
                    &&& final(self).tracker() == old(self).tracker()
                }
            }),
    {
        let k = PoolHandle { index: handle.index, generation: handle.generation };
        if !self.materials.contains(k) {
            return Err(RenderError::Stale(ResourceKind::Material));
        }
        let record = match self.materials.remove(k) {
            Some(record) => record,
            None => return Err(RenderError::Stale(ResourceKind::Material)),
        };
        let slots = record.textures();
        let ghost before = self.tracker();
        self.lifetime.release_material_resources(&slots, record.sampler);
        let ghost released = self.tracker();
        self.lifetime.retire_binding(record.binding);
        proof {
            released.lemma_same_population(&before);
            self.tracker().lemma_keeps_resources(&released);
        }
        Ok(())
    }
}

/// Law: a material's shares come back — creating a material then
/// destroying it leaves every texture it sampled with its share count of
/// before (as long as the counts never saturated), and its sampler too.
pub proof fn lemma_material_shares_balance(
    before: LifetimeTracker,
    created: LifetimeTracker,
    destroyed: LifetimeTracker,
    slots: Seq<TextureHandle>,
    sampler: SamplerHandle,
)
    requires
        shares_moved_from(before, created, slots, true),
        shares_moved_from(created, destroyed, slots, false),
        sampler_moved_from(before, created, sampler, true),
        sampler_moved_from(created, destroyed, sampler, false),
        forall|k: crate::registry::Key| #[trigger]
            before.textures().contains_key(k) ==> before.textures()[k].refs + slot_count(slots, k) <= u32::MAX,
        before.samplers().contains_key(sampler.spec_key()) ==> before.samplers()[sampler.spec_key()].refs < u32::MAX,
    ensures
        forall|k: crate::registry::Key| #[trigger]
            before.textures().contains_key(k) ==> destroyed.textures().contains_key(k) && destroyed.textures()[k]
                == before.textures()[k],
        before.samplers().contains_key(sampler.spec_key()) ==> destroyed.samplers()[sampler.spec_key()].refs
            == before.samplers()[sampler.spec_key()].refs,
{
    assert forall|k: crate::registry::Key| #[trigger] before.textures().contains_key(k) implies destroyed.textures().contains_key(k)
        && destroyed.textures()[k] == before.textures()[k] by {
        assert(created.textures().contains_key(k));
        let r = before.textures()[k].refs;
        assert(created.textures()[k].refs == sat_add(r, slot_count(slots, k)));
        assert(destroyed.textures()[k] == texture_with_refs(before.textures()[k], r));
    }
}

} // verus!
