//! The lifetime of owned GPU resources: registration, sharing by
//! materials, protected fallbacks, refusals of destruction, the deferred
//! release queue and the exact byte statistics.

use vstd::prelude::*;
use crate::error::{RenderError, ResourceKind};
use crate::handles::{BindingHandle, BufferHandle, RenderTargetHandle, SamplerHandle, TextureHandle};
use crate::registry::{Key, Registry};
use crate::textures::{TextureFormat, TextureKind};

verus! {

/// A registered buffer: its label, its uploaded bytes and, for mesh
/// buffers, the label of the owning mesh.
#[derive(Debug)]
pub struct BufferInfo {
    pub label: String,
    pub bytes: u64,
    pub owner: Option<String>,
}

/// A registered texture.
#[derive(Debug)]
pub struct TextureInfo {
    pub label: String,
    /// The bytes of every level of every layer.
    pub bytes: u64,
    /// How many material slots sample it.
    pub refs: u32,
    /// A protected builtin fallback.
    pub fallback: bool,
    pub width: u32,
    pub height: u32,
    pub format: TextureFormat,
    pub kind: TextureKind,
    pub mip_levels: u32,
}

/// A registered sampler.
#[derive(Debug)]
pub struct SamplerInfo {
    pub label: String,
    /// How many materials use it.
    pub refs: u32,
    /// A protected builtin fallback.
    pub fallback: bool,
}

/// A registered render target: its own depth bytes and its color texture
/// (registered as a texture too).
#[derive(Debug)]
pub struct RenderTargetInfo {
    pub label: String,
    pub depth_bytes: u64,
    pub color: TextureHandle,
    pub width: u32,
    pub height: u32,
    pub format: TextureFormat,
}

/// A resource whose backend release waits for the next safe point.
#[derive(Clone, Copy, Debug, PartialEq, Eq, Structural)]
pub enum Retired {
    Buffer(BufferHandle),
    Texture(TextureHandle),
    Sampler(SamplerHandle),
    Binding(BindingHandle),
    RenderTarget(RenderTargetHandle),
}

/// The count and bytes of one resource family.
#[derive(Clone, Copy, Debug, PartialEq, Eq, Structural, Default)]
pub struct KindStats {
    pub alive: usize,
    pub bytes: u64,
}

/// The sum of `f` over a sequence.
pub open spec fn sum_of<V>(s: Seq<V>, f: spec_fn(V) -> nat) -> nat
    decreases s.len(),
{
    if s.len() == 0 {
        0
    } else {
        sum_of(s.drop_last(), f) + f(s.last())
    }
}

/// The number of elements satisfying `p`.
pub open spec fn count_of<V>(s: Seq<V>, p: spec_fn(V) -> bool) -> nat
    decreases s.len(),
{
    if s.len() == 0 {
        0
    } else {
        count_of(s.drop_last(), p) + if p(s.last()) { 1nat } else { 0nat }
    }
}

/// A sum capped at the largest `u64`.
pub open spec fn capped(n: nat) -> u64 {
    if n > u64::MAX {
        u64::MAX
    } else {
        n as u64
    }
}

pub proof fn lemma_sum_push<V>(s: Seq<V>, x: V, f: spec_fn(V) -> nat)
    ensures
        sum_of(s.push(x), f) == sum_of(s, f) + f(x),
{
    assert(s.push(x).drop_last() =~= s);
}

pub proof fn lemma_sum_remove<V>(s: Seq<V>, i: int, f: spec_fn(V) -> nat)
    requires
        0 <= i < s.len(),
    ensures
        sum_of(s.remove(i), f) + f(s[i]) == sum_of(s, f),
    decreases s.len(),
{
    if i == s.len() - 1 {
        assert(s.remove(i) =~= s.drop_last());
    } else {
        lemma_sum_remove(s.drop_last(), i, f);
        assert(s.remove(i).drop_last() =~= s.drop_last().remove(i));
        assert(s.remove(i).last() == s.last());
    }
}

pub proof fn lemma_sum_update<V>(s: Seq<V>, i: int, x: V, f: spec_fn(V) -> nat)
    requires
        0 <= i < s.len(),
    ensures
        sum_of(s.update(i, x), f) + f(s[i]) == sum_of(s, f) + f(x),
    decreases s.len(),
{
    if i == s.len() - 1 {
        assert(s.update(i, x).drop_last() =~= s.drop_last());
    } else {
        lemma_sum_update(s.drop_last(), i, x, f);
        assert(s.update(i, x).drop_last() =~= s.drop_last().update(i, x));
    }
}

pub proof fn lemma_count_bound<V>(s: Seq<V>, p: spec_fn(V) -> bool)
    ensures
        count_of(s, p) <= s.len(),
    decreases s.len(),
{
    if s.len() > 0 {
        lemma_count_bound(s.drop_last(), p);
    }
}

/// The bytes of a buffer entry.
pub open spec fn buffer_bytes(info: BufferInfo) -> nat {
    info.bytes as nat
}

/// The bytes of a texture entry.
pub open spec fn texture_bytes_of(info: TextureInfo) -> nat {
    info.bytes as nat
}

/// The depth bytes of a render target entry.
pub open spec fn target_bytes(info: RenderTargetInfo) -> nat {
    info.depth_bytes as nat
}

/// The bytes of buffer entries, as a function.
pub open spec fn buffer_bytes_fn() -> spec_fn(BufferInfo) -> nat {
    |i: BufferInfo| buffer_bytes(i)
}

/// The bytes of texture entries, as a function.
pub open spec fn texture_bytes_fn() -> spec_fn(TextureInfo) -> nat {
    |i: TextureInfo| texture_bytes_of(i)
}

/// The depth bytes of render target entries, as a function.
pub open spec fn target_bytes_fn() -> spec_fn(RenderTargetInfo) -> nat {
    |i: RenderTargetInfo| target_bytes(i)
}

/// Whether a texture entry is a builtin fallback, as a function.
pub open spec fn texture_fallback_fn() -> spec_fn(TextureInfo) -> bool {
    |i: TextureInfo| i.fallback
}

/// Whether a sampler entry is a builtin fallback, as a function.
pub open spec fn sampler_fallback_fn() -> spec_fn(SamplerInfo) -> bool {
    |i: SamplerInfo| i.fallback
}

/// A texture entry with another share count.
pub open spec fn texture_with_refs(info: TextureInfo, refs: u32) -> TextureInfo {
    TextureInfo { refs, ..info }
}

/// A sampler entry with another share count.
pub open spec fn sampler_with_refs(info: SamplerInfo, refs: u32) -> SamplerInfo {
    SamplerInfo { refs, ..info }
}

/// How many times a texture occupies the slots.
pub open spec fn slot_count(slots: Seq<TextureHandle>, k: Key) -> nat
    decreases slots.len(),
{
    if slots.len() == 0 {
        0
    } else {
        slot_count(slots.drop_last(), k) + if slots.last().spec_key() == k { 1nat } else { 0nat }
    }
}

/// `r` plus `n`, saturating at the largest `u32`.
pub open spec fn sat_add(r: u32, n: nat) -> u32 {
    if r + n > u32::MAX {
        u32::MAX
    } else {
        (r + n) as u32
    }
}

/// `r` minus `n`, saturating at zero.
pub open spec fn sat_sub(r: u32, n: nat) -> u32 {
    if r < n {
        0
    } else {
        (r - n) as u32
    }
}

/// Every texture's share count moved by its number of slots: `up` adds
/// (saturating), otherwise subtracts (saturating).
pub open spec fn shares_moved(
    before: Map<Key, TextureInfo>,
    after: Map<Key, TextureInfo>,
    slots: Seq<TextureHandle>,
    up: bool,
) -> bool {
    &&& after.dom() == before.dom()
    &&& forall|k: Key|
        #[trigger] before.contains_key(k) ==> after[k] == texture_with_refs(
            before[k],
            if up {
                sat_add(before[k].refs, slot_count(slots, k))
            } else {
                sat_sub(before[k].refs, slot_count(slots, k))
            },
        )
}

/// The sampler's share count moved by one (when registered).
pub open spec fn sampler_share_moved(
    before: Map<Key, SamplerInfo>,
    after: Map<Key, SamplerInfo>,
    sampler: SamplerHandle,
    up: bool,
) -> bool {
    let k = sampler.spec_key();
    if before.contains_key(k) {
        after == before.insert(
            k,
            sampler_with_refs(
                before[k],
                if up {
                    sat_add(before[k].refs, 1)
                } else {
                    sat_sub(before[k].refs, 1)
                },
            ),
        )
    } else {
        after == before
    }
}

/// The registry of owned GPU resources.
pub struct LifetimeTracker {
    buffers: Registry<BufferInfo>,
    textures: Registry<TextureInfo>,
    samplers: Registry<SamplerInfo>,
    targets: Registry<RenderTargetInfo>,
    retired: Vec<Retired>,
    pipelines: u64,
}

impl LifetimeTracker {
    pub closed spec fn wf(&self) -> bool {
        &&& self.buffers.wf()
        &&& self.textures.wf()
        &&& self.samplers.wf()
        &&& self.targets.wf()
    }

    /// The live buffers.
    pub closed spec fn buffers(&self) -> Map<Key, BufferInfo> {
        self.buffers@
    }

    /// The live textures (render target colors included).
    pub closed spec fn textures(&self) -> Map<Key, TextureInfo> {
        self.textures@
    }

    /// The live samplers.
    pub closed spec fn samplers(&self) -> Map<Key, SamplerInfo> {
        self.samplers@
    }

    /// The live render targets.
    pub closed spec fn targets(&self) -> Map<Key, RenderTargetInfo> {
        self.targets@
    }

    /// The resources awaiting their backend release, oldest first.
    pub closed spec fn retired(&self) -> Seq<Retired> {
        self.retired@
    }

    /// The pipelines ever created (pipelines are permanent).
    pub closed spec fn pipelines(&self) -> u64 {
        self.pipelines
    }

    /// The bytes of the live buffers.
    pub closed spec fn buffer_bytes_total(&self) -> nat {
        sum_of(self.buffers.values(), buffer_bytes_fn())
    }

    /// The bytes of the live textures.
    pub closed spec fn texture_bytes_total(&self) -> nat {
        sum_of(self.textures.values(), texture_bytes_fn())
    }

    /// The depth bytes of the live render targets.
    pub closed spec fn target_bytes_total(&self) -> nat {
        sum_of(self.targets.values(), target_bytes_fn())
    }

    /// The number of live builtin fallback textures.
    pub closed spec fn fallback_textures(&self) -> nat {
        count_of(self.textures.values(), texture_fallback_fn())
    }

    /// The number of live builtin fallback samplers.
    pub closed spec fn fallback_samplers(&self) -> nat {
        count_of(self.samplers.values(), sampler_fallback_fn())
    }

    /// The number of live buffers.
    pub closed spec fn buffer_count(&self) -> nat {
        self.buffers.values().len()
    }

    /// The number of live textures.
    pub closed spec fn texture_count(&self) -> nat {
        self.textures.values().len()
    }

    /// The number of live samplers.
    pub closed spec fn sampler_total(&self) -> nat {
        self.samplers.values().len()
    }

    /// The number of live render targets.
    pub closed spec fn target_count(&self) -> nat {
        self.targets.values().len()
    }

    /// An empty tracker.
    pub fn new() -> (t: Self)
        ensures
            t.wf(),
            t.buffers() == Map::<Key, BufferInfo>::empty(),
            t.textures() == Map::<Key, TextureInfo>::empty(),
            t.samplers() == Map::<Key, SamplerInfo>::empty(),
            t.targets() == Map::<Key, RenderTargetInfo>::empty(),
            t.retired() == Seq::<Retired>::empty(),
            t.pipelines() == 0,
            t.buffer_bytes_total() == 0,
            t.texture_bytes_total() == 0,
            t.target_bytes_total() == 0,
            t.buffer_count() == 0,
            t.texture_count() == 0,
            t.sampler_total() == 0,
            t.target_count() == 0,
            t.fallback_textures() == 0,
            t.fallback_samplers() == 0,
    {
        LifetimeTracker {
            buffers: Registry::new(),
            textures: Registry::new(),
            samplers: Registry::new(),
            targets: Registry::new(),
            retired: Vec::new(),
            pipelines: 0,
        }
    }

    /// Whether a buffer is registered.
    pub fn has_buffer(&self, handle: BufferHandle) -> (found: bool)
        requires
            self.wf(),
        ensures
            found == self.buffers().contains_key(handle.spec_key()),
    {
        self.buffers.find(handle.key()).is_some()
    }

    /// Registers a buffer created by the backend.
    pub fn register_buffer(&mut self, handle: BufferHandle, label: String, bytes: u64, owner: Option<String>)
        requires
            old(self).wf(),
            !old(self).buffers().contains_key(handle.spec_key()),
        ensures
            final(self).wf(),
            final(self).buffers() == old(self).buffers().insert(
                handle.spec_key(),
                BufferInfo { label, bytes, owner },
            ),
            final(self).buffer_bytes_total() == old(self).buffer_bytes_total() + bytes,
            final(self).buffer_count() == old(self).buffer_count() + 1,
            final(self).textures() == old(self).textures(),
            final(self).samplers() == old(self).samplers(),
            final(self).targets() == old(self).targets(),
            final(self).retired() == old(self).retired(),
            final(self).unchanged_except_buffers(old(self)),
    {
        let info = BufferInfo { label, bytes, owner };
        proof {
            lemma_sum_push(self.buffers.values(), info, buffer_bytes_fn());
        }
        self.buffers.insert(handle.key(), info);
    }

    /// The live resources, their statistics and the pipeline count are as
    /// in `earlier` (the release queue may differ).
    pub closed spec fn keeps_resources(&self, earlier: &Self) -> bool {
        &&& self.keeps_registries(earlier)
        &&& self.pipelines == earlier.pipelines
    }

    /// The live resources and their statistics are as in `earlier`.
    pub closed spec fn keeps_registries(&self, earlier: &Self) -> bool {
        &&& self.buffers == earlier.buffers
        &&& self.textures == earlier.textures
        &&& self.samplers == earlier.samplers
        &&& self.targets == earlier.targets
    }

    /// Everything but the render targets is as in `earlier`.
    pub closed spec fn keeps_all_but_targets(&self, earlier: &Self) -> bool {
        &&& self.buffers == earlier.buffers
        &&& self.textures == earlier.textures
        &&& self.samplers == earlier.samplers
        &&& self.pipelines == earlier.pipelines
        &&& self.retired == earlier.retired
    }

    /// Everything but the buffers is as in `earlier`.
    pub closed spec fn unchanged_except_buffers(&self, earlier: &Self) -> bool {
        &&& self.textures == earlier.textures
        &&& self.samplers == earlier.samplers
        &&& self.targets == earlier.targets
        &&& self.pipelines == earlier.pipelines
    }

    /// Everything but the textures and the release queue is as in
    /// `earlier`.
    pub closed spec fn keeps_all_but_textures(&self, earlier: &Self) -> bool {
        &&& self.buffers == earlier.buffers
        &&& self.samplers == earlier.samplers
        &&& self.targets == earlier.targets
        &&& self.pipelines == earlier.pipelines
    }

    /// What keeping everything but the textures means for the other
    /// families and their statistics.
    pub proof fn lemma_keeps_all_but_textures(&self, earlier: &Self)
        requires
            self.keeps_all_but_textures(earlier),
        ensures
            self.buffers() == earlier.buffers(),
            self.samplers() == earlier.samplers(),
            self.targets() == earlier.targets(),
            self.pipelines() == earlier.pipelines(),
            self.buffer_count() == earlier.buffer_count(),
            self.buffer_bytes_total() == earlier.buffer_bytes_total(),
            self.sampler_total() == earlier.sampler_total(),
            self.fallback_samplers() == earlier.fallback_samplers(),
            self.target_count() == earlier.target_count(),
            self.target_bytes_total() == earlier.target_bytes_total(),
    {
    }

    /// Keeping everything but the textures chains.
    pub proof fn lemma_keeps_all_but_textures_chain(&self, middle: &Self, earlier: &Self)
        requires
            self.keeps_all_but_textures(middle),
            middle.keeps_all_but_textures(earlier),
        ensures
            self.keeps_all_but_textures(earlier),
    {
    }

    /// What keeping the registries means for the maps.
    pub proof fn lemma_keeps_registries(&self, earlier: &Self)
        requires
            self.keeps_registries(earlier),
        ensures
            self.buffers() == earlier.buffers(),
            self.textures() == earlier.textures(),
            self.samplers() == earlier.samplers(),
            self.targets() == earlier.targets(),
    {
    }

    /// Keeping the registries is reflexive.
    pub proof fn lemma_keeps_registries_refl(&self)
        ensures
            self.keeps_registries(self),
    {
    }

    /// Keeping the registries chains.
    pub proof fn lemma_keeps_registries_chain(&self, middle: &Self, earlier: &Self)
        requires
            self.keeps_registries(middle),
            middle.keeps_registries(earlier),
        ensures
            self.keeps_registries(earlier),
    {
    }

    /// What keeping the resources means for the maps.
    pub proof fn lemma_keeps_resources(&self, earlier: &Self)
        requires
            self.keeps_resources(earlier),
        ensures
            self.buffers() == earlier.buffers(),
            self.textures() == earlier.textures(),
            self.samplers() == earlier.samplers(),
            self.targets() == earlier.targets(),
            self.pipelines() == earlier.pipelines(),
    {
    }

    /// Keeping the resources keeps the registries.
    pub proof fn lemma_keeps_resources_registries(&self, earlier: &Self)
        requires
            self.keeps_resources(earlier),
        ensures
            self.keeps_registries(earlier),
    {
    }

    /// What keeping the population means for the maps.
    pub proof fn lemma_same_population(&self, earlier: &Self)
        requires
            self.same_population(earlier),
        ensures
            self.buffers() == earlier.buffers(),
            self.targets() == earlier.targets(),
            self.retired() == earlier.retired(),
            self.pipelines() == earlier.pipelines(),
            self.textures().dom() == earlier.textures().dom(),
    {
    }

    /// Keeping everything but the buffers is reflexive.
    pub proof fn lemma_unchanged_except_buffers_refl(&self)
        ensures
            self.unchanged_except_buffers(self),
    {
    }

    /// Keeping everything but the buffers keeps their statistics.
    pub proof fn lemma_unchanged_except_buffers(&self, earlier: &Self)
        requires
            self.unchanged_except_buffers(earlier),
        ensures
            self.textures() == earlier.textures(),
            self.texture_count() == earlier.texture_count(),
            self.texture_bytes_total() == earlier.texture_bytes_total(),
            self.samplers() == earlier.samplers(),
            self.sampler_total() == earlier.sampler_total(),
            self.targets() == earlier.targets(),
            self.target_count() == earlier.target_count(),
            self.target_bytes_total() == earlier.target_bytes_total(),
            self.pipelines() == earlier.pipelines(),
    {
    }

    /// Keeping everything but the buffers chains.
    pub proof fn lemma_unchanged_except_buffers_chain(&self, middle: &Self, earlier: &Self)
        requires
            self.unchanged_except_buffers(middle),
            middle.unchanged_except_buffers(earlier),
        ensures
            self.unchanged_except_buffers(earlier),
    {
    }

    /// Destroys a public buffer. Refusals: a stale handle; a buffer owned by
    /// a mesh (destroy the mesh instead). The backend release is deferred.
    pub fn retire_buffer(&mut self, handle: BufferHandle) -> (result: Result<(), RenderError>)
        requires
            old(self).wf(),
        ensures
            final(self).wf(),
            !old(self).buffers().contains_key(handle.spec_key()) ==> result matches Err(
                RenderError::Stale(ResourceKind::Buffer),
            ),
            old(self).buffers().contains_key(handle.spec_key()) && old(self).buffers()[handle.spec_key()].owner is Some
                ==> (result matches Err(RenderError::OwnedByMesh { .. })),
            result is Ok <==> old(self).buffers().contains_key(handle.spec_key())
                && old(self).buffers()[handle.spec_key()].owner is None,
            result is Ok ==> {
                &&& final(self).buffers() == old(self).buffers().remove(handle.spec_key())
                &&& final(self).buffer_bytes_total() + old(self).buffers()[handle.spec_key()].bytes
                    == old(self).buffer_bytes_total()
                &&& final(self).buffer_count() + 1 == old(self).buffer_count()
                &&& final(self).retired() == old(self).retired().push(Retired::Buffer(handle))
                &&& final(self).unchanged_except_buffers(old(self))
            },
            result is Err ==> *final(self) == *old(self),
    {
        match self.buffers.find(handle.key()) {
            None => Err(RenderError::Stale(ResourceKind::Buffer)),
            Some(i) => {
                proof {
                    self.buffers.lemma_position(i as int);
                }
                let info = self.buffers.value_at(i);
                match &info.owner {
                    Some(mesh) => Err(
                        RenderError::OwnedByMesh { label: info.label.clone(), mesh: mesh.clone() },
                    ),
                    None => {
                        proof {
                            lemma_sum_remove(
                                self.buffers.values(),
                                i as int,
                                buffer_bytes_fn(),
                            );
                        }
                        self.buffers.remove_at(i);
                        self.retired.push(Retired::Buffer(handle));
                        Ok(())
                    },
                }
            },
        }
    }

    /// Retires a buffer owned by a destroyed mesh (no-op if unknown).
    pub fn retire_owned_buffer(&mut self, handle: BufferHandle)
        requires
            old(self).wf(),
        ensures
            final(self).wf(),
            final(self).buffers() == old(self).buffers().remove(handle.spec_key()),
            final(self).unchanged_except_buffers(old(self)),
            old(self).buffers().contains_key(handle.spec_key()) ==> {
                &&& final(self).retired() == old(self).retired().push(Retired::Buffer(handle))
                &&& final(self).buffer_bytes_total() + old(self).buffers()[handle.spec_key()].bytes
                    == old(self).buffer_bytes_total()
                &&& final(self).buffer_count() + 1 == old(self).buffer_count()
            },
            !old(self).buffers().contains_key(handle.spec_key()) ==> *final(self) == *old(self),
    {
        match self.buffers.find(handle.key()) {
            None => {
                proof {
                    assert(self.buffers@.remove(handle.spec_key()) =~= self.buffers@);
                }
            },
            Some(i) => {
                proof {
                    lemma_sum_remove(self.buffers.values(), i as int, buffer_bytes_fn());
                }
                self.buffers.remove_at(i);
                self.retired.push(Retired::Buffer(handle));
            },
        }
    }

    /// Registers a texture created by the backend.
    pub fn register_texture(&mut self, handle: TextureHandle, info: TextureInfo)
        requires
            old(self).wf(),
            !old(self).textures().contains_key(handle.spec_key()),
        ensures
            final(self).wf(),
            final(self).textures() == old(self).textures().insert(handle.spec_key(), info),
            final(self).texture_bytes_total() == old(self).texture_bytes_total() + info.bytes,
            final(self).texture_count() == old(self).texture_count() + 1,
            final(self).fallback_textures() == old(self).fallback_textures() + if info.fallback {
                1nat
            } else {
                0nat
            },
            final(self).buffers() == old(self).buffers(),
            final(self).samplers() == old(self).samplers(),
            final(self).targets() == old(self).targets(),
            final(self).retired() == old(self).retired(),
            final(self).pipelines() == old(self).pipelines(),
            final(self).buffer_bytes_total() == old(self).buffer_bytes_total(),
            final(self).target_bytes_total() == old(self).target_bytes_total(),
            final(self).fallback_samplers() == old(self).fallback_samplers(),
            final(self).keeps_all_but_textures(old(self)),
    {
        proof {
            lemma_sum_push(self.textures.values(), info, texture_bytes_fn());
            assert(self.textures.values().push(info).drop_last() =~= self.textures.values());
        }
        self.textures.insert(handle.key(), info);
    }

    /// The entry of a live texture.
    pub fn texture_info(&self, handle: TextureHandle) -> (info: Option<&TextureInfo>)
        requires
            self.wf(),
        ensures
            info is Some == self.textures().contains_key(handle.spec_key()),
            info matches Some(i) ==> *i == self.textures()[handle.spec_key()],
    {
        self.textures.get(handle.key())
    }

    /// Destroys a texture. Refusals: a stale handle; a builtin fallback; a
    /// texture still sampled by materials (naming how many slots). The
    /// backend release is deferred.
    pub fn retire_texture(&mut self, handle: TextureHandle) -> (result: Result<(), RenderError>)
        requires
            old(self).wf(),
        ensures
            final(self).wf(),
            ({
                let k = handle.spec_key();
                let t = old(self).textures();
                &&& !t.contains_key(k) ==> (result matches Err(RenderError::Stale(ResourceKind::Texture)))
                &&& t.contains_key(k) && t[k].fallback ==> (result matches Err(RenderError::BuiltinFallback { .. }))
                &&& t.contains_key(k) && !t[k].fallback && t[k].refs > 0 ==> (result matches Err(
                    RenderError::StillShared { materials, .. },
                ) && materials == t[k].refs)
                &&& result is Ok <==> t.contains_key(k) && !t[k].fallback && t[k].refs == 0
                &&& result is Ok ==> {
                    &&& final(self).textures() == t.remove(k)
                    &&& final(self).texture_bytes_total() + t[k].bytes == old(self).texture_bytes_total()
                    &&& final(self).texture_count() + 1 == old(self).texture_count()
                    &&& final(self).fallback_textures() == old(self).fallback_textures()
                    &&& final(self).retired() == old(self).retired().push(Retired::Texture(handle))
                    &&& final(self).buffers() == old(self).buffers()
                    &&& final(self).samplers() == old(self).samplers()
                    &&& final(self).targets() == old(self).targets()
                    &&& final(self).pipelines() == old(self).pipelines()
                    &&& final(self).buffer_bytes_total() == old(self).buffer_bytes_total()
                    &&& final(self).target_bytes_total() == old(self).target_bytes_total()
                    &&& final(self).fallback_samplers() == old(self).fallback_samplers()
                    &&& final(self).keeps_all_but_textures(old(self))
                }
                &&& result is Err ==> *final(self) == *old(self)
            }),
    {
        match self.textures.find(handle.key()) {
            None => Err(RenderError::Stale(ResourceKind::Texture)),
            Some(i) => {
                proof {
                    self.textures.lemma_position(i as int);
                }
                let info = self.textures.value_at(i);
                if info.fallback {
                    Err(RenderError::BuiltinFallback { kind: ResourceKind::Texture, label: info.label.clone() })
                } else if info.refs > 0 {
                    Err(
                        RenderError::StillShared {
                            kind: ResourceKind::Texture,
                            label: info.label.clone(),
                            materials: info.refs,
                        },
                    )
                } else {
                    proof {
                        lemma_sum_remove(self.textures.values(), i as int, texture_bytes_fn());
                        lemma_count_remove(self.textures.values(), i as int, texture_fallback_fn());
                    }
                    self.textures.remove_at(i);
                    self.retired.push(Retired::Texture(handle));
                    Ok(())
                }
            },
        }
    }

    /// Registers a sampler created by the backend.
    pub fn register_sampler(&mut self, handle: SamplerHandle, label: String, fallback: bool)
        requires
            old(self).wf(),
            !old(self).samplers().contains_key(handle.spec_key()),
        ensures
            final(self).wf(),
            final(self).samplers() == old(self).samplers().insert(
                handle.spec_key(),
                SamplerInfo { label, refs: 0, fallback },
            ),
            final(self).sampler_total() == old(self).sampler_total() + 1,
            final(self).fallback_samplers() == old(self).fallback_samplers() + if fallback {
                1nat
            } else {
                0nat
            },
            final(self).buffers() == old(self).buffers(),
            final(self).textures() == old(self).textures(),
            final(self).targets() == old(self).targets(),
            final(self).retired() == old(self).retired(),
            final(self).pipelines() == old(self).pipelines(),
            final(self).buffer_bytes_total() == old(self).buffer_bytes_total(),
            final(self).texture_bytes_total() == old(self).texture_bytes_total(),
            final(self).target_bytes_total() == old(self).target_bytes_total(),
            final(self).fallback_textures() == old(self).fallback_textures(),
    {
        let info = SamplerInfo { label, refs: 0, fallback };
        proof {
            assert(self.samplers.values().push(info).drop_last() =~= self.samplers.values());
        }
        self.samplers.insert(handle.key(), info);
    }

    /// Destroys a sampler. Refusals: a stale handle; a builtin fallback; a
    /// sampler still used by materials. The backend release is deferred.
    pub fn retire_sampler(&mut self, handle: SamplerHandle) -> (result: Result<(), RenderError>)
        requires
            old(self).wf(),
        ensures
            final(self).wf(),
            ({
                let k = handle.spec_key();
                let s = old(self).samplers();
                &&& !s.contains_key(k) ==> (result matches Err(RenderError::Stale(ResourceKind::Sampler)))
                &&& s.contains_key(k) && s[k].fallback ==> (result matches Err(RenderError::BuiltinFallback { .. }))
                &&& s.contains_key(k) && !s[k].fallback && s[k].refs > 0 ==> (result matches Err(
                    RenderError::StillShared { materials, .. },
                ) && materials == s[k].refs)
                &&& result is Ok <==> s.contains_key(k) && !s[k].fallback && s[k].refs == 0
                &&& result is Ok ==> {
                    &&& final(self).samplers() == s.remove(k)
                    &&& final(self).sampler_total() + 1 == old(self).sampler_total()
                    &&& final(self).fallback_samplers() == old(self).fallback_samplers()
                    &&& final(self).retired() == old(self).retired().push(Retired::Sampler(handle))
                    &&& final(self).buffers() == old(self).buffers()
                    &&& final(self).textures() == old(self).textures()
                    &&& final(self).targets() == old(self).targets()
                    &&& final(self).pipelines() == old(self).pipelines()
                    &&& final(self).buffer_bytes_total() == old(self).buffer_bytes_total()
                    &&& final(self).texture_bytes_total() == old(self).texture_bytes_total()
                    &&& final(self).target_bytes_total() == old(self).target_bytes_total()
                    &&& final(self).fallback_textures() == old(self).fallback_textures()
                }
                &&& result is Err ==> *final(self) == *old(self)
            }),
    {
        match self.samplers.find(handle.key()) {
            None => Err(RenderError::Stale(ResourceKind::Sampler)),
            Some(i) => {
                proof {
                    self.samplers.lemma_position(i as int);
                }
                let info = self.samplers.value_at(i);
                if info.fallback {
                    Err(RenderError::BuiltinFallback { kind: ResourceKind::Sampler, label: info.label.clone() })
                } else if info.refs > 0 {
                    Err(
                        RenderError::StillShared {
                            kind: ResourceKind::Sampler,
                            label: info.label.clone(),
                            materials: info.refs,
                        },
                    )
                } else {
                    proof {
                        lemma_count_remove(self.samplers.values(), i as int, sampler_fallback_fn());
                    }
                    self.samplers.remove_at(i);
                    self.retired.push(Retired::Sampler(handle));
                    Ok(())
                }
            },
        }
    }

    /// The entry of a live sampler.
    pub fn sampler_info(&self, handle: SamplerHandle) -> (info: Option<&SamplerInfo>)
        requires
            self.wf(),
        ensures
            info is Some == self.samplers().contains_key(handle.spec_key()),
            info matches Some(i) ==> *i == self.samplers()[handle.spec_key()],
    {
        self.samplers.get(handle.key())
    }

    /// A material takes its shares: one per texture slot, one on the
    /// sampler (unregistered handles are ignored).
    pub fn share_material_resources(&mut self, textures: &[TextureHandle], sampler: SamplerHandle)
        requires
            old(self).wf(),
        ensures
            final(self).wf(),
            shares_moved(old(self).textures(), final(self).textures(), textures@, true),
            sampler_share_moved(old(self).samplers(), final(self).samplers(), sampler, true),
            final(self).same_population(old(self)),
    {
        self.move_texture_shares(textures, true);
        self.move_sampler_share(sampler, true);
    }

    /// Moves the share of each listed texture slot (`up`: one more
    /// material, else one less); samplers are untouched.
    pub fn move_textures(&mut self, textures: &[TextureHandle], up: bool)
        requires
            old(self).wf(),
        ensures
            final(self).wf(),
            shares_moved(old(self).textures(), final(self).textures(), textures@, up),
            final(self).samplers() == old(self).samplers(),
            final(self).same_population(old(self)),
    {
        self.move_texture_shares(textures, up);
    }

    /// Moves the share of a sampler (`up`: one more material, else one
    /// less); textures are untouched.
    pub fn move_sampler(&mut self, sampler: SamplerHandle, up: bool)
        requires
            old(self).wf(),
        ensures
            final(self).wf(),
            sampler_share_moved(old(self).samplers(), final(self).samplers(), sampler, up),
            final(self).textures() == old(self).textures(),
            final(self).same_population(old(self)),
    {
        self.move_sampler_share(sampler, up);
    }

    /// A material gives its shares back: the inverse of
    /// `share_material_resources` (saturating at zero).
    pub fn release_material_resources(&mut self, textures: &[TextureHandle], sampler: SamplerHandle)
        requires
            old(self).wf(),
        ensures
            final(self).wf(),
            shares_moved(old(self).textures(), final(self).textures(), textures@, false),
            sampler_share_moved(old(self).samplers(), final(self).samplers(), sampler, false),
            final(self).same_population(old(self)),
    {
        self.move_texture_shares(textures, false);
        self.move_sampler_share(sampler, false);
    }

    /// Same resources alive, same bytes, same queue: only share counts may
    /// differ.
    pub closed spec fn same_population(&self, earlier: &Self) -> bool {
        &&& self.buffers == earlier.buffers
        &&& self.targets == earlier.targets
        &&& self.retired == earlier.retired
        &&& self.pipelines == earlier.pipelines
        &&& self.textures.keys() == earlier.textures.keys()
        &&& self.samplers.keys() == earlier.samplers.keys()
        &&& self.texture_bytes_total() == earlier.texture_bytes_total()
        &&& self.fallback_textures() == earlier.fallback_textures()
        &&& self.fallback_samplers() == earlier.fallback_samplers()
        &&& self.texture_count() == earlier.texture_count()
        &&& self.sampler_total() == earlier.sampler_total()
        &&& self.textures().dom() == earlier.textures().dom()
        &&& self.samplers().dom() == earlier.samplers().dom()
        &&& forall|k: Key|
            #[trigger] self.textures().contains_key(k) ==> self.textures()[k].kind
                == earlier.textures()[k].kind && self.textures()[k].fallback
                == earlier.textures()[k].fallback && self.textures()[k].label
                == earlier.textures()[k].label
    }

    fn move_texture_shares(&mut self, textures: &[TextureHandle], up: bool)
        requires
            old(self).wf(),
        ensures
            final(self).wf(),
            shares_moved(old(self).textures(), final(self).textures(), textures@, up),
            final(self).samplers == old(self).samplers,
            final(self).same_population(old(self)),
    {
        let ghost start = *self;
        let mut n: usize = 0;
        while n < textures.len()
            invariant
                self.wf(),
                n <= textures@.len(),
                shares_moved(start.textures(), self.textures(), textures@.subrange(0, n as int), up),
                self.samplers == start.samplers,
                self.same_population(&start),
            decreases textures@.len() - n,
        {
            let ghost before = *self;
            let k = textures[n].key();
            proof {
                assert(textures@.subrange(0, n + 1).drop_last() =~= textures@.subrange(0, n as int));
                assert(textures@.subrange(0, n + 1).last() == textures@[n as int]);
            }
            match self.textures.find(k) {
                None => {},
                Some(i) => {
                    proof {
                        self.textures.lemma_position(i as int);
                    }
                    let entry = self.textures.value_mut(i);
                    entry.refs = if up {
                        entry.refs.saturating_add(1)
                    } else {
                        entry.refs.saturating_sub(1)
                    };
                    proof {
                        before.textures.lemma_update(&self.textures, i as int);
                        lemma_sum_update(before.textures.values(), i as int, self.textures.values()[i as int], texture_bytes_fn());
                        lemma_count_update(before.textures.values(), i as int, self.textures.values()[i as int], texture_fallback_fn());
                    }
                },
            }
            n = n + 1;
            proof {
                assert forall|q: Key| #[trigger] start.textures().contains_key(q) implies self.textures()[q]
                    == texture_with_refs(
                    start.textures()[q],
                    if up {
                        sat_add(start.textures()[q].refs, slot_count(textures@.subrange(0, n as int), q))
                    } else {
                        sat_sub(start.textures()[q].refs, slot_count(textures@.subrange(0, n as int), q))
                    },
                ) by {
                }
                assert(self.textures().dom() =~= start.textures().dom());
            }
        }
        proof {
            assert(textures@.subrange(0, textures@.len() as int) =~= textures@);
        }
    }

    fn move_sampler_share(&mut self, sampler: SamplerHandle, up: bool)
        requires
            old(self).wf(),
        ensures
            final(self).wf(),
            sampler_share_moved(old(self).samplers(), final(self).samplers(), sampler, up),
            final(self).textures == old(self).textures,
            final(self).same_population(old(self)),
    {
        let ghost before = *self;
        match self.samplers.find(sampler.key()) {
            None => {},
            Some(i) => {
                proof {
                    self.samplers.lemma_position(i as int);
                }
                let entry = self.samplers.value_mut(i);
                entry.refs = if up {
                    entry.refs.saturating_add(1)
                } else {
                    entry.refs.saturating_sub(1)
                };
                proof {
                    before.samplers.lemma_update(&self.samplers, i as int);
                    lemma_count_update(before.samplers.values(), i as int, self.samplers.values()[i as int], sampler_fallback_fn());
                    assert(self.samplers().dom() =~= before.samplers().dom());
                }
            },
        }
    }

    /// Queues a replaced or destroyed material binding for release.
    pub fn retire_binding(&mut self, handle: BindingHandle)
        requires
            old(self).wf(),
        ensures
            final(self).wf(),
            final(self).retired() == old(self).retired().push(Retired::Binding(handle)),
            final(self).keeps_resources(old(self)),
    {
        self.retired.push(Retired::Binding(handle));
    }

    /// Registers a render target and its color texture.
    pub fn register_render_target(&mut self, handle: RenderTargetHandle, info: RenderTargetInfo)
        requires
            old(self).wf(),
            !old(self).targets().contains_key(handle.spec_key()),
        ensures
            final(self).wf(),
            final(self).targets() == old(self).targets().insert(handle.spec_key(), info),
            final(self).target_bytes_total() == old(self).target_bytes_total() + info.depth_bytes,
            final(self).target_count() == old(self).target_count() + 1,
            final(self).keeps_all_but_targets(old(self)),
            final(self).buffers() == old(self).buffers(),
            final(self).textures() == old(self).textures(),
            final(self).samplers() == old(self).samplers(),
            final(self).retired() == old(self).retired(),
            final(self).pipelines() == old(self).pipelines(),
    {
        proof {
            lemma_sum_push(self.targets.values(), info, target_bytes_fn());
        }
        self.targets.insert(handle.key(), info);
    }

    /// The entry of a live render target.
    pub fn render_target_info(&self, handle: RenderTargetHandle) -> (info: Option<&RenderTargetInfo>)
        requires
            self.wf(),
        ensures
            info is Some == self.targets().contains_key(handle.spec_key()),
            info matches Some(i) ==> *i == self.targets()[handle.spec_key()],
    {
        self.targets.get(handle.key())
    }

    /// Destroys a render target and its color texture. Refusals: a stale
    /// handle; a color still sampled by materials. Both releases are
    /// deferred.
    pub fn retire_render_target(&mut self, handle: RenderTargetHandle) -> (result: Result<(), RenderError>)
        requires
            old(self).wf(),
        ensures
            final(self).wf(),
            ({
                let k = handle.spec_key();
                let targets = old(self).targets();
                let t = old(self).textures();
                let color = targets[k].color.spec_key();
                let shared = t.contains_key(color) && t[color].refs > 0;
                &&& !targets.contains_key(k) ==> (result matches Err(RenderError::Stale(ResourceKind::RenderTarget)))
                &&& targets.contains_key(k) && shared ==> (result matches Err(RenderError::StillShared { materials, .. })
                    && materials == t[color].refs)
                &&& result is Ok <==> targets.contains_key(k) && !shared
                &&& result is Ok ==> {
                    &&& final(self).targets() == targets.remove(k)
                    &&& final(self).textures() == t.remove(color)
                    &&& final(self).target_count() + 1 == old(self).target_count()
                    &&& final(self).target_bytes_total() + targets[k].depth_bytes == old(self).target_bytes_total()
                    &&& t.contains_key(color) ==> final(self).texture_bytes_total() + t[color].bytes
                        == old(self).texture_bytes_total() && final(self).texture_count() + 1 == old(self).texture_count()
                    &&& t.contains_key(color) ==> final(self).retired() == old(self).retired().push(
                        Retired::RenderTarget(handle),
                    ).push(Retired::Texture(targets[k].color))
                    &&& final(self).buffers() == old(self).buffers()
                    &&& final(self).samplers() == old(self).samplers()
                }
                &&& result is Err ==> *final(self) == *old(self)
            }),
    {
        match self.targets.find(handle.key()) {
            None => Err(RenderError::Stale(ResourceKind::RenderTarget)),
            Some(i) => {
                proof {
                    self.targets.lemma_position(i as int);
                }
                let color = self.targets.value_at(i).color;
                match self.textures.find(color.key()) {
                    Some(j) => {
                        proof {
                            self.textures.lemma_position(j as int);
                        }
                        let texture = self.textures.value_at(j);
                        if texture.refs > 0 {
                            return Err(
                                RenderError::StillShared {
                                    kind: ResourceKind::Texture,
                                    label: texture.label.clone(),
                                    materials: texture.refs,
                                },
                            );
                        }
                        proof {
                            lemma_sum_remove(self.textures.values(), j as int, texture_bytes_fn());
                            lemma_count_remove(self.textures.values(), j as int, texture_fallback_fn());
                        }
                        self.textures.remove_at(j);
                        proof {
                            lemma_sum_remove(self.targets.values(), i as int, target_bytes_fn());
                        }
                        self.targets.remove_at(i);
                        self.retired.push(Retired::RenderTarget(handle));
                        self.retired.push(Retired::Texture(color));
                        Ok(())
                    },
                    None => {
                        proof {
                            lemma_sum_remove(self.targets.values(), i as int, target_bytes_fn());
                            assert(self.textures@.remove(color.spec_key()) =~= self.textures@);
                        }
                        self.targets.remove_at(i);
                        self.retired.push(Retired::RenderTarget(handle));
                        Ok(())
                    },
                }
            },
        }
    }

    /// Counts one more pipeline.
    pub fn register_pipeline(&mut self)
        requires
            old(self).wf(),
        ensures
            final(self).wf(),
            final(self).pipelines() == if old(self).pipelines() == u64::MAX {
                u64::MAX
            } else {
                (old(self).pipelines() + 1) as u64
            },
            final(self).keeps_registries(old(self)),
            final(self).retired() == old(self).retired(),
    {
        self.pipelines = self.pipelines.saturating_add(1);
    }

    /// Takes the queue of retired resources (the safe point of release).
    pub fn drain_retired(&mut self) -> (drained: Vec<Retired>)
        requires
            old(self).wf(),
        ensures
            final(self).wf(),
            drained@ == old(self).retired(),
            final(self).retired() == Seq::<Retired>::empty(),
            final(self).keeps_resources(old(self)),
    {
        let mut drained = Vec::new();
        std::mem::swap(&mut drained, &mut self.retired);
        drained
    }

    /// The number of resources awaiting release.
    pub fn retired_count(&self) -> (n: usize)
        ensures
            n == self.retired().len(),
    {
        self.retired.len()
    }

    /// The number of pipelines created.
    pub fn pipeline_count(&self) -> (n: u64)
        ensures
            n == self.pipelines(),
    {
        self.pipelines
    }

    /// The number of live samplers.
    pub fn sampler_count(&self) -> (n: usize)
        requires
            self.wf(),
        ensures
            n == self.sampler_total(),
    {
        self.samplers.len()
    }

    /// The live buffers and their bytes.
    pub fn buffer_stats(&self) -> (stats: KindStats)
        requires
            self.wf(),
        ensures
            stats.alive == self.buffer_count(),
            stats.bytes == capped(self.buffer_bytes_total()),
    {
        let mut bytes: u64 = 0;
        let mut i: usize = 0;
        while i < self.buffers.len()
            invariant
                self.wf(),
                i <= self.buffers.values().len(),
                bytes == capped(sum_of(self.buffers.values().subrange(0, i as int), buffer_bytes_fn())),
            decreases self.buffers.values().len() - i,
        {
            proof {
                assert(self.buffers.values().subrange(0, i + 1).drop_last() =~= self.buffers.values().subrange(0, i as int));
                assert(self.buffers.values().subrange(0, i + 1).last() == self.buffers.values()[i as int]);
                assert(sum_of(self.buffers.values().subrange(0, i + 1), buffer_bytes_fn()) == sum_of(self.buffers.values().subrange(0, i as int), buffer_bytes_fn()) + buffer_bytes(self.buffers.values()[i as int]));
            }
            let b = self.buffers.value_at(i).bytes;
            assert(b == buffer_bytes(self.buffers.values()[i as int]));
            bytes = bytes.saturating_add(b);
            assert(bytes == capped(sum_of(self.buffers.values().subrange(0, i + 1), buffer_bytes_fn())));
            i = i + 1;
        }
        proof {
            assert(self.buffers.values().subrange(0, i as int) =~= self.buffers.values());
        }
        KindStats { alive: self.buffers.len(), bytes }
    }

    /// The live textures (render target colors included) and their bytes.
    pub fn texture_stats(&self) -> (stats: KindStats)
        requires
            self.wf(),
        ensures
            stats.alive == self.texture_count(),
            stats.bytes == capped(self.texture_bytes_total()),
    {
        let mut bytes: u64 = 0;
        let mut i: usize = 0;
        while i < self.textures.len()
            invariant
                self.wf(),
                i <= self.textures.values().len(),
                bytes == capped(sum_of(self.textures.values().subrange(0, i as int), texture_bytes_fn())),
            decreases self.textures.values().len() - i,
        {
            proof {
                assert(self.textures.values().subrange(0, i + 1).drop_last() =~= self.textures.values().subrange(0, i as int));
                assert(self.textures.values().subrange(0, i + 1).last() == self.textures.values()[i as int]);
                assert(self.textures.values().subrange(0, i + 1).last() == self.textures.values()[i as int]);
                assert(sum_of(self.textures.values().subrange(0, i + 1), texture_bytes_fn()) == sum_of(self.textures.values().subrange(0, i as int), texture_bytes_fn()) + texture_bytes_of(self.textures.values()[i as int]));
            }
            bytes = bytes.saturating_add(self.textures.value_at(i).bytes);
            i = i + 1;
        }
        proof {
            assert(self.textures.values().subrange(0, i as int) =~= self.textures.values());
        }
        KindStats { alive: self.textures.len(), bytes }
    }

    /// The live render targets and their depth bytes.
    pub fn render_target_stats(&self) -> (stats: KindStats)
        requires
            self.wf(),
        ensures
            stats.alive == self.target_count(),
            stats.bytes == capped(self.target_bytes_total()),
    {
        let mut bytes: u64 = 0;
        let mut i: usize = 0;
        while i < self.targets.len()
            invariant
                self.wf(),
                i <= self.targets.values().len(),
                bytes == capped(sum_of(self.targets.values().subrange(0, i as int), target_bytes_fn())),
            decreases self.targets.values().len() - i,
        {
            proof {
                assert(self.targets.values().subrange(0, i + 1).drop_last() =~= self.targets.values().subrange(0, i as int));
                assert(self.targets.values().subrange(0, i + 1).last() == self.targets.values()[i as int]);
                assert(sum_of(self.targets.values().subrange(0, i + 1), target_bytes_fn()) == sum_of(self.targets.values().subrange(0, i as int), target_bytes_fn()) + target_bytes(self.targets.values()[i as int]));
            }
            bytes = bytes.saturating_add(self.targets.value_at(i).depth_bytes);
            i = i + 1;
        }
        proof {
            assert(self.targets.values().subrange(0, i as int) =~= self.targets.values());
        }
        KindStats { alive: self.targets.len(), bytes }
    }

    /// The number of live builtin fallback textures.
    pub fn fallback_texture_count(&self) -> (n: usize)
        requires
            self.wf(),
        ensures
            n == self.fallback_textures(),
    {
        let mut n: usize = 0;
        let mut i: usize = 0;
        while i < self.textures.len()
            invariant
                self.wf(),
                i <= self.textures.values().len(),
                n == count_of(self.textures.values().subrange(0, i as int), texture_fallback_fn()),
            decreases self.textures.values().len() - i,
        {
            proof {
                assert(self.textures.values().subrange(0, i + 1).drop_last() =~= self.textures.values().subrange(0, i as int));
                assert(self.textures.values().subrange(0, i + 1).last() == self.textures.values()[i as int]);
                lemma_count_bound(self.textures.values().subrange(0, i as int), texture_fallback_fn());
            }
            if self.textures.value_at(i).fallback {
                n = n + 1;
            }
            i = i + 1;
        }
        proof {
            assert(self.textures.values().subrange(0, i as int) =~= self.textures.values());
        }
        n
    }

    /// The number of live builtin fallback samplers.
    pub fn fallback_sampler_count(&self) -> (n: usize)
        requires
            self.wf(),
        ensures
            n == self.fallback_samplers(),
    {
        let mut n: usize = 0;
        let mut i: usize = 0;
        while i < self.samplers.len()
            invariant
                self.wf(),
                i <= self.samplers.values().len(),
                n == count_of(self.samplers.values().subrange(0, i as int), sampler_fallback_fn()),
            decreases self.samplers.values().len() - i,
        {
            proof {
                assert(self.samplers.values().subrange(0, i + 1).drop_last() =~= self.samplers.values().subrange(0, i as int));
                assert(self.samplers.values().subrange(0, i + 1).last() == self.samplers.values()[i as int]);
                lemma_count_bound(self.samplers.values().subrange(0, i as int), sampler_fallback_fn());
            }
            if self.samplers.value_at(i).fallback {
                n = n + 1;
            }
            i = i + 1;
        }
        proof {
            assert(self.samplers.values().subrange(0, i as int) =~= self.samplers.values());
        }
        n
    }
}

pub proof fn lemma_count_remove<V>(s: Seq<V>, i: int, p: spec_fn(V) -> bool)
    requires
        0 <= i < s.len(),
    ensures
        count_of(s.remove(i), p) + (if p(s[i]) { 1int } else { 0int }) == count_of(s, p),
    decreases s.len(),
{
    if i == s.len() - 1 {
        assert(s.remove(i) =~= s.drop_last());
    } else {
        lemma_count_remove(s.drop_last(), i, p);
        assert(s.remove(i).drop_last() =~= s.drop_last().remove(i));
        assert(s.remove(i).last() == s.last());
    }
}

pub proof fn lemma_count_update<V>(s: Seq<V>, i: int, x: V, p: spec_fn(V) -> bool)
    requires
        0 <= i < s.len(),
        p(x) == p(s[i]),
    ensures
        count_of(s.update(i, x), p) == count_of(s, p),
    decreases s.len(),
{
    if i == s.len() - 1 {
        assert(s.update(i, x).drop_last() =~= s.drop_last());
    } else {
        lemma_count_update(s.drop_last(), i, x, p);
        assert(s.update(i, x).drop_last() =~= s.drop_last().update(i, x));
    }
}

} // verus!
