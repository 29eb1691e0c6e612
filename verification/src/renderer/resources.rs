//! The owned GPU resources: buffers, textures (builtins, cache, updates),
//! samplers (fallbacks), offscreen render targets — the device limits
//! enforced before the backend, the deferred release, the exact stats.

use vstd::prelude::*;
use super::Renderer;
use crate::backend::{one_call, refused_by_backend, BackendCall, GraphicsBackend};
use crate::descriptors::{
    expected_pixels, lemma_valid_levels, mip_level_count, sampler_rule, texture_rule, BufferDescriptor,
    RenderTargetDescriptor, SamplerDescriptor, SamplerRule, TextureDescriptor, TextureMips, TextureRule,
    TextureUsage,
};
use crate::error::{BackendError, RenderError, ResourceKind};
use crate::frame::ResourceStats;
use crate::handles::{BufferHandle, RenderTargetHandle, SamplerHandle, TextureHandle};
use crate::lifetime::{
    capped, BufferInfo, KindStats, LifetimeTracker, RenderTargetInfo, Retired, SamplerInfo, TextureInfo,
};
use crate::pipelines::find_entry;
use crate::textures::{spec_bytes_per_pixel, texture_bytes, TextureFormat, TextureKind};
use vstd::string::*;

verus! {

/// A byte count as a `u64`, saturating.
pub open spec fn cap64(n: nat) -> u64 {
    if n > u64::MAX {
        u64::MAX
    } else {
        n as u64
    }
}

/// What the tracker records of a texture created from `d`.
pub open spec fn texture_info_of(d: TextureDescriptor, fallback: bool) -> TextureInfo {
    TextureInfo {
        label: d.label,
        bytes: cap64(texture_bytes(d.width as nat, d.height as nat, d.format, d.kind, mip_level_count(d))),
        refs: 0,
        fallback,
        width: d.width,
        height: d.height,
        format: d.format,
        kind: d.kind,
        mip_levels: mip_level_count(d) as u32,
    }
}

/// `e` is the refusal of the rule `d` breaks.
pub open spec fn reports_texture_rule(e: RenderError, d: TextureDescriptor) -> bool {
    match texture_rule(d) {
        Some(TextureRule::ZeroDimensions) => e matches RenderError::ZeroDimensions { label } && label@ == d.label@,
        Some(TextureRule::CubeNotSquare) => e matches RenderError::CubeNotSquare { label } && label@ == d.label@,
        Some(TextureRule::RenderTargetPixels) => e matches RenderError::RenderTargetPixels { label } && label@
            == d.label@,
        Some(TextureRule::MipLevels) => e matches RenderError::MipLevels { label, .. } && label@ == d.label@,
        Some(TextureRule::PixelSize) => e matches RenderError::PixelSize { label, expected, got } && label@
            == d.label@ && expected == expected_pixels(d) && got == d.pixels@.len(),
        None => false,
    }
}

/// `after` is `before` with one more texture registered under `h`.
pub open spec fn texture_registered(after: LifetimeTracker, before: LifetimeTracker, h: TextureHandle, info: TextureInfo) -> bool {
    &&& !before.textures().contains_key(h.spec_key())
    &&& after.textures() == before.textures().insert(h.spec_key(), info)
    &&& after.texture_bytes_total() == before.texture_bytes_total() + info.bytes
    &&& after.texture_count() == before.texture_count() + 1
    &&& after.keeps_all_but_textures(&before)
    &&& after.fallback_textures() == before.fallback_textures() + if info.fallback { 1nat } else { 0nat }
    &&& after.buffers() == before.buffers()
    &&& after.samplers() == before.samplers()
    &&& after.targets() == before.targets()
    &&& after.retired() == before.retired()
    &&& after.pipelines() == before.pipelines()
}

/// A live texture `h` was destroyed, taking `before` to `after`: its entry
/// and its bytes are gone, its backend release is queued, nothing else
/// moved.
pub open spec fn texture_retired(after: LifetimeTracker, before: LifetimeTracker, h: TextureHandle) -> bool {
    let k = h.spec_key();
    &&& before.textures().contains_key(k)
    &&& after.textures() == before.textures().remove(k)
    &&& after.texture_bytes_total() + before.textures()[k].bytes == before.texture_bytes_total()
    &&& after.texture_count() + 1 == before.texture_count()
    &&& after.fallback_textures() == before.fallback_textures()
    &&& after.retired() == before.retired().push(Retired::Texture(h))
    &&& after.keeps_all_but_textures(&before)
}

/// The outcome of creating a texture from `d` (within `limit`), taking
/// `before` to `after`.
pub open spec fn texture_created(
    result: Result<TextureHandle, RenderError>,
    d: TextureDescriptor,
    fallback: bool,
    limit: u32,
    after: LifetimeTracker,
    before: LifetimeTracker,
) -> bool {
    if texture_rule(d) is Some {
        result matches Err(e) && reports_texture_rule(e, d) && after == before
    } else if d.width > limit || d.height > limit {
        &&& result matches Err(RenderError::TextureLimit { label, width, height, limit: l })
        &&& label@ == d.label@ && width == d.width && height == d.height && l == limit
        &&& after == before
    } else {
        match result {
            Ok(h) => texture_registered(after, before, h, texture_info_of(d, fallback)),
            Err(e) => (e is Backend || e == RenderError::BackendHandleReused(ResourceKind::Texture)) && after
                == before,
        }
    }
}


/// The protected builtin textures.
#[derive(Clone, Copy, Debug, PartialEq, Eq, Structural)]
pub enum BuiltinTexture {
    /// Opaque white: the fallback of color, metallic-roughness,
    /// occlusion and emissive slots.
    White,
    /// Opaque black.
    Black,
    /// The flat tangent-space normal: the fallback of normal maps.
    FlatNormal,
}

/// The label of a builtin texture.
pub open spec fn builtin_label(builtin: BuiltinTexture) -> Seq<char> {
    match builtin {
        BuiltinTexture::White => "chaos.white"@,
        BuiltinTexture::Black => "chaos.black"@,
        BuiltinTexture::FlatNormal => "chaos.flat_normal"@,
    }
}

/// The single RGBA8 texel of a builtin texture.
pub open spec fn builtin_texel(builtin: BuiltinTexture) -> Seq<u8> {
    match builtin {
        BuiltinTexture::White => seq![255u8, 255u8, 255u8, 255u8],
        BuiltinTexture::Black => seq![0u8, 0u8, 0u8, 255u8],
        BuiltinTexture::FlatNormal => seq![128u8, 128u8, 255u8, 255u8],
    }
}

impl BuiltinTexture {
    /// The descriptor of the builtin: one `Rgba8Unorm` texel.
    pub fn descriptor(&self) -> (d: TextureDescriptor)
        ensures
            d.label@ == builtin_label(*self),
            d.width == 1,
            d.height == 1,
            d.format == TextureFormat::Rgba8Unorm,
            d.kind == TextureKind::D2,
            d.usage == TextureUsage::Sampled,
            d.mips == TextureMips::Single,
            d.pixels@ == builtin_texel(*self),
    {
        let (label, texel) = match self {
            BuiltinTexture::White => (String::from_str("chaos.white"), [255u8, 255u8, 255u8, 255u8]),
            BuiltinTexture::Black => (String::from_str("chaos.black"), [0u8, 0u8, 0u8, 255u8]),
            BuiltinTexture::FlatNormal => (String::from_str("chaos.flat_normal"), [128u8, 128u8, 255u8, 255u8]),
        };
        let mut pixels: Vec<u8> = Vec::new();
        pixels.push(texel[0]);
        pixels.push(texel[1]);
        pixels.push(texel[2]);
        pixels.push(texel[3]);
        assert(pixels@ =~= builtin_texel(*self));
        TextureDescriptor::sampled(label, 1, 1, TextureFormat::Rgba8Unorm, pixels)
    }
}

/// The cache without the entries of texture `h`.
pub open spec fn evicted(cache: Seq<(Seq<char>, TextureHandle)>, h: TextureHandle) -> Seq<(Seq<char>, TextureHandle)>
    decreases cache.len(),
{
    if cache.len() == 0 {
        cache
    } else {
        let rest = evicted(cache.drop_last(), h);
        if cache.last().1 == h {
            rest
        } else {
            rest.push(cache.last())
        }
    }
}

/// What the tracker records of a sampler created from `d`.
pub open spec fn sampler_info_of(d: SamplerDescriptor, fallback: bool) -> SamplerInfo {
    SamplerInfo { label: d.label, refs: 0, fallback }
}

/// The outcome of creating a sampler from `d` (under the device
/// anisotropy `ceiling`), taking `before` to `after`.
pub open spec fn sampler_created(
    result: Result<SamplerHandle, RenderError>,
    d: SamplerDescriptor,
    fallback: bool,
    ceiling: u32,
    after: LifetimeTracker,
    before: LifetimeTracker,
) -> bool {
    match sampler_rule(d) {
        Some(SamplerRule::AnisotropyRange) => result matches Err(RenderError::AnisotropyRange { label, anisotropy })
            && label@ == d.label@ && anisotropy == d.anisotropy && after == before,
        Some(SamplerRule::AnisotropyFiltering) => result matches Err(RenderError::AnisotropyFiltering { label })
            && label@ == d.label@ && after == before,
        None => if d.anisotropy > ceiling {
            result matches Err(RenderError::AnisotropyLimit { label, anisotropy, ceiling: c }) && label@ == d.label@
                && anisotropy == d.anisotropy && c == ceiling && after == before
        } else {
            match result {
                Ok(h) => {
                    &&& !before.samplers().contains_key(h.spec_key())
                    &&& after.samplers() == before.samplers().insert(h.spec_key(), sampler_info_of(d, fallback))
                    &&& after.fallback_samplers() == before.fallback_samplers() + if fallback { 1nat } else { 0nat }
                    &&& after.buffers() == before.buffers()
                    &&& after.textures() == before.textures()
                    &&& after.targets() == before.targets()
                    &&& after.retired() == before.retired()
                    &&& after.pipelines() == before.pipelines()
                },
                Err(e) => (e is Backend || e == RenderError::BackendHandleReused(ResourceKind::Sampler)) && after
                    == before,
            }
        },
    }
}

/// The product of three sides, saturating.
pub open spec fn sat_bytes(a: nat, b: nat, c: nat) -> u64 {
    cap64(a * b * c)
}

/// The outcome of creating a render target from `d` (within `limit`).
pub open spec fn target_created(
    result: Result<RenderTargetHandle, RenderError>,
    d: RenderTargetDescriptor,
    limit: u32,
    after: LifetimeTracker,
    before: LifetimeTracker,
) -> bool {
    if d.width == 0 || d.height == 0 {
        result matches Err(RenderError::ZeroDimensions { label }) && label@ == d.label@ && after == before
    } else if d.width > limit || d.height > limit {
        &&& result matches Err(RenderError::TextureLimit { label, width, height, limit: l })
        &&& label@ == d.label@ && width == d.width && height == d.height && l == limit
        &&& after == before
    } else {
        match result {
            Ok(h) => {
                let info = after.targets()[h.spec_key()];
                let color = info.color.spec_key();
                &&& !before.targets().contains_key(h.spec_key())
                &&& !before.textures().contains_key(color)
                &&& after.targets() == before.targets().insert(h.spec_key(), info)
                &&& info == RenderTargetInfo {
                    label: d.label,
                    depth_bytes: sat_bytes(d.width as nat, d.height as nat, 4),
                    color: info.color,
                    width: d.width,
                    height: d.height,
                    format: d.format,
                }
                &&& after.textures() == before.textures().insert(
                    color,
                    TextureInfo {
                        label: d.label,
                        bytes: sat_bytes(d.width as nat, d.height as nat, spec_bytes_per_pixel(d.format)),
                        refs: 0,
                        fallback: false,
                        width: d.width,
                        height: d.height,
                        format: d.format,
                        kind: TextureKind::D2,
                        mip_levels: 1,
                    },
                )
                &&& after.buffers() == before.buffers()
                &&& after.samplers() == before.samplers()
                &&& after.retired() == before.retired()
                &&& after.pipelines() == before.pipelines()
            },
            Err(e) => (e is Backend || e == RenderError::BackendHandleReused(ResourceKind::RenderTarget)
                || e == RenderError::BackendHandleReused(ResourceKind::Texture)) && after == before,
        }
    }
}



fn sat_mul(a: u64, b: u64) -> (r: u64)
    ensures
        r == cap64(a as nat * b as nat),
{
    if b == 0 {
        assert(a as nat * b as nat == 0) by (nonlinear_arith)
            requires
                b == 0,
        ;
        0
    } else if a > 0xFFFF_FFFF_FFFF_FFFF / b {
        assert(a as nat * b as nat > 0xFFFF_FFFF_FFFF_FFFF) by (nonlinear_arith)
            requires
                b > 0,
                a > 0xFFFF_FFFF_FFFF_FFFFu64 / b,
        ;
        0xFFFF_FFFF_FFFF_FFFF
    } else {
        assert(a as nat * b as nat <= 0xFFFF_FFFF_FFFF_FFFF) by (nonlinear_arith)
            requires
                b > 0,
                a <= 0xFFFF_FFFF_FFFF_FFFFu64 / b,
        ;
        a * b
    }
}

/// The backend call that releases a retired resource.
pub open spec fn release_call(r: Retired) -> BackendCall {
    match r {
        Retired::Buffer(h) => BackendCall::DestroyBuffer(h),
        Retired::Texture(h) => BackendCall::DestroyTexture(h),
        Retired::Sampler(h) => BackendCall::DestroySampler(h),
        Retired::Binding(h) => BackendCall::DestroyMaterialBinding(h),
        Retired::RenderTarget(h) => BackendCall::DestroyRenderTarget(h),
    }
}

/// Exactly one creation of a render target labelled `label`, of
/// `width`×`height` and `format`, was made since `before`, and `result`
/// follows its answer.
pub open spec fn target_requested(
    after: Seq<BackendCall>,
    before: Seq<BackendCall>,
    label: Seq<char>,
    width: u32,
    height: u32,
    format: TextureFormat,
    result: Result<RenderTargetHandle, RenderError>,
) -> bool {
    exists|d: RenderTargetDescriptor, a: Result<(RenderTargetHandle, TextureHandle), BackendError>|
        #![trigger one_call(after, before, BackendCall::CreateRenderTarget(d, a))]
        {
            &&& one_call(after, before, BackendCall::CreateRenderTarget(d, a))
            &&& d.label@ == label && d.width == width && d.height == height && d.format == format
            &&& match a {
                Ok(pair) => result == Ok::<RenderTargetHandle, RenderError>(pair.0) || result == Err::<
                    RenderTargetHandle,
                    RenderError,
                >(RenderError::BackendHandleReused(ResourceKind::RenderTarget)) || result == Err::<
                    RenderTargetHandle,
                    RenderError,
                >(RenderError::BackendHandleReused(ResourceKind::Texture)),
                Err(e) => result == Err::<RenderTargetHandle, RenderError>(RenderError::Backend(e)),
            }
        }
}

/// Exactly one texture creation was made since `before`, of `d` with its
/// generated chain resolved, and `result` follows its answer.
pub open spec fn texture_requested(
    after: Seq<BackendCall>,
    before: Seq<BackendCall>,
    d: TextureDescriptor,
    result: Result<TextureHandle, RenderError>,
) -> bool {
    exists|s: TextureDescriptor, a: Result<TextureHandle, BackendError>|
        #![trigger one_call(after, before, BackendCall::CreateTexture(s, a))]
        {
            &&& one_call(after, before, BackendCall::CreateTexture(s, a))
            &&& crate::mips::mips_resolved(s, d)
            &&& match a {
                Ok(h) => result == Ok::<TextureHandle, RenderError>(h) || result == Err::<TextureHandle, RenderError>(
                    RenderError::BackendHandleReused(ResourceKind::Texture),
                ),
                Err(e) => result == Err::<TextureHandle, RenderError>(RenderError::Backend(e)),
            }
        }
}

/// Evicting keeps what remains of the cache, each label still once.
pub proof fn lemma_evicted_unique(cache: Seq<(Seq<char>, TextureHandle)>, h: TextureHandle)
    requires
        crate::pipelines::unique_keys(cache),
    ensures
        crate::pipelines::unique_keys(evicted(cache, h)),
        forall|i: int| 0 <= i < evicted(cache, h).len() ==> exists|j: int| 0 <= j < cache.len() && #[trigger] evicted(cache, h)[i] == cache[j],
    decreases cache.len(),
{
    if cache.len() > 0 {
        let rest = cache.drop_last();
        assert(crate::pipelines::unique_keys(rest)) by {
            assert forall|i: int, j: int| 0 <= i < j < rest.len() implies (#[trigger] rest[i]).0 != (#[trigger] rest[j]).0 by {
                assert(rest[i] == cache[i] && rest[j] == cache[j]);
            }
        }
        lemma_evicted_unique(rest, h);
        let e = evicted(cache, h);
        let er = evicted(rest, h);
        if cache.last().1 != h {
            assert(e == er.push(cache.last()));
            assert forall|i: int, j: int| 0 <= i < j < e.len() implies (#[trigger] e[i]).0 != (#[trigger] e[j]).0 by {
                if j == er.len() {
                    let k = choose|k: int| 0 <= k < rest.len() && #[trigger] er[i] == rest[k];
                    assert(rest[k] == cache[k]);
                    assert(e[i] == er[i]);
                } else {
                    assert(e[i] == er[i] && e[j] == er[j]);
                }
            }
            assert forall|i: int| 0 <= i < e.len() implies exists|j: int| 0 <= j < cache.len() && #[trigger] e[i] == cache[j] by {
                if i == er.len() {
                    assert(e[i] == cache[cache.len() - 1]);
                } else {
                    let k = choose|k: int| 0 <= k < rest.len() && #[trigger] er[i] == rest[k];
                    assert(rest[k] == cache[k]);
                    assert(e[i] == cache[k]);
                }
            }
        } else {
            assert forall|i: int| 0 <= i < e.len() implies exists|j: int| 0 <= j < cache.len() && #[trigger] e[i] == cache[j] by {
                let k = choose|k: int| 0 <= k < rest.len() && #[trigger] er[i] == rest[k];
                assert(rest[k] == cache[k]);
            }
        }
    }
}

/// The release calls of retired resources, in retirement order.
pub open spec fn releases(retired: Seq<Retired>) -> Seq<BackendCall> {
    retired.map_values(|r: Retired| release_call(r))
}

/// What resolving the builtin texture `builtin` answers, taking `before`
/// to `after`: the cached texture when there is one, else a creation
/// (refused on a device without textures) cached under its label.
pub open spec fn builtin_resolved<B: GraphicsBackend>(
    result: Result<TextureHandle, RenderError>,
    builtin: BuiltinTexture,
    after: Renderer<B>,
    before: Renderer<B>,
) -> bool {
    match find_entry(before.texture_cache(), builtin_label(builtin)) {
        Some(h) => {
            &&& result == Ok::<TextureHandle, RenderError>(h)
            &&& after.tracker() == before.tracker()
            &&& after.texture_cache() == before.texture_cache()
            &&& after.backend() == before.backend()
        },
        None => if before.limits().max_texture_2d == 0 {
            &&& result matches Err(RenderError::TextureLimit { .. })
            &&& after.tracker() == before.tracker()
            &&& after.texture_cache() == before.texture_cache()
        } else {
            match result {
                Ok(h) => {
                    let info = after.tracker().textures()[h.spec_key()];
                    &&& !before.tracker().textures().contains_key(h.spec_key())
                    &&& after.tracker().textures() == before.tracker().textures().insert(h.spec_key(), info)
                    &&& info.label@ == builtin_label(builtin)
                    &&& info.bytes == 4 && info.refs == 0 && info.fallback
                    &&& info.width == 1 && info.height == 1 && info.format == TextureFormat::Rgba8Unorm
                    &&& info.kind == TextureKind::D2 && info.mip_levels == 1
                    &&& after.tracker().fallback_textures() == before.tracker().fallback_textures() + 1
                    &&& after.tracker().buffers() == before.tracker().buffers()
                    &&& after.tracker().samplers() == before.tracker().samplers()
                    &&& after.tracker().targets() == before.tracker().targets()
                    &&& after.tracker().retired() == before.tracker().retired()
                    &&& after.texture_cache() == before.texture_cache().push((builtin_label(builtin), h))
                },
                Err(e) => {
                    &&& (e is Backend || e == RenderError::BackendHandleReused(ResourceKind::Texture))
                    &&& after.tracker() == before.tracker()
                    &&& after.texture_cache() == before.texture_cache()
                },
            }
        },
    }
}

impl<B: GraphicsBackend> Renderer<B> {
    /// Creates a buffer through the backend and registers it (with the
    /// label of its owning mesh, if any). The device buffer limit is
    /// enforced before the backend.
    pub(crate) fn create_tracked_buffer(&mut self, descriptor: &BufferDescriptor, owner: Option<String>) -> (result:
        Result<BufferHandle, RenderError>)
        requires
            old(self).wf(),
        ensures
            final(self).wf(),
            final(self).same_frame(old(self)),
            final(self).same_settings(old(self)),
            final(self).mesh_pool() == old(self).mesh_pool(),
            final(self).material_pool() == old(self).material_pool(),
            final(self).texture_cache() == old(self).texture_cache(),
            final(self).fallback_sampler_handle() == old(self).fallback_sampler_handle(),
            final(self).caches() == old(self).caches(),
            final(self).library() == old(self).library(),
            ({
                let bytes = descriptor.contents@.len();
                if bytes > old(self).limits().max_buffer_bytes {
                    &&& result matches Err(RenderError::BufferLimit { label, bytes: b, limit })
                    &&& label@ == descriptor.label@ && b == bytes && limit == old(self).limits().max_buffer_bytes
                    &&& final(self).tracker() == old(self).tracker()
                    &&& final(self).backend() == old(self).backend()
                } else {
                    match result {
                        Ok(h) => {
                            &&& !old(self).tracker().buffers().contains_key(h.spec_key())
                            &&& final(self).tracker().buffers() == old(self).tracker().buffers().insert(
                                h.spec_key(),
                                BufferInfo { label: descriptor.label, bytes: bytes as u64, owner },
                            )
                            &&& final(self).tracker().buffer_bytes_total() == old(self).tracker().buffer_bytes_total()
                                + bytes
                            &&& final(self).tracker().buffer_count() == old(self).tracker().buffer_count() + 1
                            &&& final(self).tracker().unchanged_except_buffers(&old(self).tracker())
                            &&& final(self).tracker().retired() == old(self).tracker().retired()
                        },
                        Err(e) => {
                            &&& (e is Backend || e == RenderError::BackendHandleReused(ResourceKind::Buffer))
                            &&& final(self).tracker() == old(self).tracker()
                        },
                    }
                }
            }),
            descriptor.contents@.len() > old(self).limits().max_buffer_bytes ==> final(self).backend_calls()
                == old(self).backend_calls(),
            descriptor.contents@.len() <= old(self).limits().max_buffer_bytes ==> exists|a: Result<BufferHandle, BackendError>|
                #![trigger one_call(final(self).backend_calls(), old(self).backend_calls(), BackendCall::CreateBuffer(*descriptor, a))]
                one_call(final(self).backend_calls(), old(self).backend_calls(), BackendCall::CreateBuffer(*descriptor, a))
                    && match a {
                    Ok(h) => result == Ok::<BufferHandle, RenderError>(h) || result == Err::<BufferHandle, RenderError>(
                        RenderError::BackendHandleReused(ResourceKind::Buffer),
                    ),
                    Err(e) => result == Err::<BufferHandle, RenderError>(RenderError::Backend(e)),
                },
    {
        let bytes = descriptor.contents.len();
        if bytes as u64 > self.limits.max_buffer_bytes {
            return Err(
                RenderError::BufferLimit {
                    label: descriptor.label.clone(),
                    bytes: bytes as u64,
                    limit: self.limits.max_buffer_bytes,
                },
            );
        }
        let answer = self.backend.create_buffer(descriptor);
        proof {
            self.sent@ = self.sent@.push(BackendCall::CreateBuffer(*descriptor, answer));
            assert(one_call(self.backend_calls(), old(self).backend_calls(), BackendCall::CreateBuffer(*descriptor, answer)));
        }
        let handle = match answer {
            Ok(handle) => handle,
            Err(e) => return Err(RenderError::Backend(e)),
        };
        if self.lifetime.has_buffer(handle) {
            return Err(RenderError::BackendHandleReused(ResourceKind::Buffer));
        }
        self.lifetime.register_buffer(handle, descriptor.label.clone(), bytes as u64, owner);
        assert(one_call(self.backend_calls(), old(self).backend_calls(), BackendCall::CreateBuffer(*descriptor, answer)));
        Ok(handle)
    }
    /// Creates a buffer with its initial contents.
    pub fn create_buffer(&mut self, descriptor: &BufferDescriptor) -> (result: Result<BufferHandle, RenderError>)
        requires
            old(self).wf(),
        ensures
            final(self).wf(),
            final(self).same_frame(old(self)),
            final(self).same_settings(old(self)),
            final(self).mesh_pool() == old(self).mesh_pool(),
            final(self).material_pool() == old(self).material_pool(),
            final(self).texture_cache() == old(self).texture_cache(),
            final(self).fallback_sampler_handle() == old(self).fallback_sampler_handle(),
            final(self).caches() == old(self).caches(),
            final(self).library() == old(self).library(),
            ({
                let bytes = descriptor.contents@.len();
                if bytes > old(self).limits().max_buffer_bytes {
                    &&& result matches Err(RenderError::BufferLimit { label, bytes: b, limit })
                    &&& label@ == descriptor.label@ && b == bytes && limit == old(self).limits().max_buffer_bytes
                    &&& final(self).tracker() == old(self).tracker()
                } else {
                    match result {
                        Ok(h) => {
                            &&& !old(self).tracker().buffers().contains_key(h.spec_key())
                            &&& final(self).tracker().buffers() == old(self).tracker().buffers().insert(
                                h.spec_key(),
                                BufferInfo { label: descriptor.label, bytes: bytes as u64, owner: None },
                            )
                            &&& final(self).tracker().buffer_bytes_total() == old(self).tracker().buffer_bytes_total()
                                + bytes
                            &&& final(self).tracker().buffer_count() == old(self).tracker().buffer_count() + 1
                            &&& final(self).tracker().unchanged_except_buffers(&old(self).tracker())
                            &&& final(self).tracker().retired() == old(self).tracker().retired()
                        },
                        Err(e) => (e is Backend || e == RenderError::BackendHandleReused(ResourceKind::Buffer))
                            && final(self).tracker() == old(self).tracker(),
                    }
                }
            }),
            descriptor.contents@.len() > old(self).limits().max_buffer_bytes ==> final(self).backend_calls()
                == old(self).backend_calls(),
            descriptor.contents@.len() <= old(self).limits().max_buffer_bytes ==> exists|a: Result<BufferHandle, BackendError>|
                #![trigger one_call(final(self).backend_calls(), old(self).backend_calls(), BackendCall::CreateBuffer(*descriptor, a))]
                one_call(final(self).backend_calls(), old(self).backend_calls(), BackendCall::CreateBuffer(*descriptor, a))
                    && match a {
                    Ok(h) => result == Ok::<BufferHandle, RenderError>(h) || result == Err::<BufferHandle, RenderError>(
                        RenderError::BackendHandleReused(ResourceKind::Buffer),
                    ),
                    Err(e) => result == Err::<BufferHandle, RenderError>(RenderError::Backend(e)),
                },
    {
        self.create_tracked_buffer(descriptor, None)
    }

    /// Destroys a public buffer. Refusals: a stale handle, a buffer owned by
    /// a mesh (destroy the mesh instead). The release is deferred.
    pub fn destroy_buffer(&mut self, handle: BufferHandle) -> (result: Result<(), RenderError>)
        requires
            old(self).wf(),
        ensures
            final(self).backend_calls() == old(self).backend_calls(),
            final(self).wf(),
            final(self).same_frame(old(self)),
            final(self).same_settings(old(self)),
            final(self).backend() == old(self).backend(),
            final(self).mesh_pool() == old(self).mesh_pool(),
            final(self).material_pool() == old(self).material_pool(),
            final(self).texture_cache() == old(self).texture_cache(),
            final(self).fallback_sampler_handle() == old(self).fallback_sampler_handle(),
            final(self).caches() == old(self).caches(),
            final(self).library() == old(self).library(),
            ({
                let k = handle.spec_key();
                let buffers = old(self).tracker().buffers();
                &&& !buffers.contains_key(k) ==> (result matches Err(RenderError::Stale(ResourceKind::Buffer)))
                &&& buffers.contains_key(k) && buffers[k].owner is Some ==> (result matches Err(
                    RenderError::OwnedByMesh { .. },
                ))
                &&& result is Ok <==> buffers.contains_key(k) && buffers[k].owner is None
                &&& result is Ok ==> final(self).tracker().buffers() == buffers.remove(k)
                    && final(self).tracker().retired() == old(self).tracker().retired().push(
                    crate::lifetime::Retired::Buffer(handle),
                ) && final(self).tracker().unchanged_except_buffers(&old(self).tracker())
                &&& result is Ok ==> final(self).tracker().buffer_count() + 1 == old(self).tracker().buffer_count()
                    && final(self).tracker().buffer_bytes_total() + buffers[k].bytes == old(
                    self,
                ).tracker().buffer_bytes_total()
                &&& result is Err ==> final(self).tracker() == old(self).tracker()
            }),
    {
        self.lifetime.retire_buffer(handle)
    }

    /// Creates a texture: the descriptor validated and the device texture
    /// limit enforced before any backend call, then registered with its
    /// exact byte cost.
    pub fn create_texture(&mut self, descriptor: &TextureDescriptor) -> (result: Result<TextureHandle, RenderError>)
        requires
            old(self).wf(),
        ensures
            final(self).wf(),
            final(self).same_frame(old(self)),
            final(self).same_settings(old(self)),
            final(self).mesh_pool() == old(self).mesh_pool(),
            final(self).material_pool() == old(self).material_pool(),
            final(self).texture_cache() == old(self).texture_cache(),
            final(self).fallback_sampler_handle() == old(self).fallback_sampler_handle(),
            final(self).caches() == old(self).caches(),
            final(self).library() == old(self).library(),
            texture_created(
                result,
                *descriptor,
                false,
                old(self).limits().max_texture_2d,
                final(self).tracker(),
                old(self).tracker(),
            ),
            (texture_rule(*descriptor) is Some || descriptor.width > old(self).limits().max_texture_2d
                || descriptor.height > old(self).limits().max_texture_2d) ==> final(self).backend()
                == old(self).backend(),
            (texture_rule(*descriptor) is Some || descriptor.width > old(self).limits().max_texture_2d || descriptor.height > old(self).limits().max_texture_2d) ==> final(self).backend_calls() == old(self).backend_calls(),
            !(texture_rule(*descriptor) is Some || descriptor.width > old(self).limits().max_texture_2d || descriptor.height > old(self).limits().max_texture_2d) ==> texture_requested(final(self).backend_calls(), old(self).backend_calls(), *descriptor, result),
    {
        self.create_texture_tracked(descriptor, false)
    }

    fn create_texture_tracked(&mut self, descriptor: &TextureDescriptor, fallback: bool) -> (result: Result<
        TextureHandle,
        RenderError,
    >)
        requires
            old(self).wf(),
        ensures
            final(self).wf(),
            final(self).same_frame(old(self)),
            final(self).same_settings(old(self)),
            final(self).mesh_pool() == old(self).mesh_pool(),
            final(self).material_pool() == old(self).material_pool(),
            final(self).texture_cache() == old(self).texture_cache(),
            final(self).fallback_sampler_handle() == old(self).fallback_sampler_handle(),
            final(self).caches() == old(self).caches(),
            final(self).library() == old(self).library(),
            texture_created(
                result,
                *descriptor,
                fallback,
                old(self).limits().max_texture_2d,
                final(self).tracker(),
                old(self).tracker(),
            ),
            (texture_rule(*descriptor) is Some || descriptor.width > old(self).limits().max_texture_2d
                || descriptor.height > old(self).limits().max_texture_2d) ==> final(self).backend()
                == old(self).backend(),
            (texture_rule(*descriptor) is Some || descriptor.width > old(self).limits().max_texture_2d || descriptor.height > old(self).limits().max_texture_2d) ==> final(self).backend_calls() == old(self).backend_calls(),
            !(texture_rule(*descriptor) is Some || descriptor.width > old(self).limits().max_texture_2d || descriptor.height > old(self).limits().max_texture_2d) ==> texture_requested(final(self).backend_calls(), old(self).backend_calls(), *descriptor, result),
    {
        if let Err(e) = descriptor.validate() {
            return Err(e);
        }
        proof {
            lemma_valid_levels(*descriptor);
        }
        let limit = self.limits.max_texture_2d;
        if descriptor.width > limit || descriptor.height > limit {
            return Err(
                RenderError::TextureLimit {
                    label: descriptor.label.clone(),
                    width: descriptor.width,
                    height: descriptor.height,
                    limit,
                },
            );
        }
        let sent = crate::mips::resolve_mips(descriptor);
        let answer = self.backend.create_texture(&sent);
        proof {
            self.sent@ = self.sent@.push(BackendCall::CreateTexture(sent, answer));
            assert(one_call(self.backend_calls(), old(self).backend_calls(), BackendCall::CreateTexture(sent, answer)));
        }
        let handle = match answer {
            Ok(handle) => handle,
            Err(e) => return Err(RenderError::Backend(e)),
        };
        if self.lifetime.texture_info(handle).is_some() {
            return Err(RenderError::BackendHandleReused(ResourceKind::Texture));
        }
        let total = descriptor.total_bytes();
        let bytes: u64 = if total > 0xFFFF_FFFF_FFFF_FFFF { 0xFFFF_FFFF_FFFF_FFFF } else { total as u64 };
        let info = TextureInfo {
            label: descriptor.label.clone(),
            bytes,
            refs: 0,
            fallback,
            width: descriptor.width,
            height: descriptor.height,
            format: descriptor.format,
            kind: descriptor.kind,
            mip_levels: descriptor.mip_levels(),
        };
        assert(info == texture_info_of(*descriptor, fallback));
        self.lifetime.register_texture(handle, info);
        assert(one_call(self.backend_calls(), old(self).backend_calls(), BackendCall::CreateTexture(sent, answer)));
        Ok(handle)
    }

    /// Replaces the pixels of level 0 of a texture — a live, non-fallback,
    /// single-level 2D texture, with exactly its bytes; checked before the
    /// backend.
    pub fn update_texture(&mut self, handle: TextureHandle, pixels: &[u8]) -> (result: Result<(), RenderError>)
        requires
            old(self).wf(),
        ensures
            final(self).same_state(old(self)),
            final(self).wf(),
            ({
                let k = handle.spec_key();
                let textures = old(self).tracker().textures();
                let info = textures[k];
                let expected = info.width as nat * info.height as nat * spec_bytes_per_pixel(info.format);
                if !textures.contains_key(k) {
                    result matches Err(RenderError::Stale(ResourceKind::Texture))
                } else if info.fallback {
                    result matches Err(RenderError::BuiltinFallback { kind, label }) && kind
                        == ResourceKind::Texture && label@ == info.label@
                } else if info.kind != TextureKind::D2 || info.mip_levels != 1 {
                    result matches Err(RenderError::NotUpdatable { label }) && label@ == info.label@
                } else if pixels@.len() != expected {
                    result matches Err(RenderError::UpdateSize { label, expected: e, got }) && label@
                        == info.label@ && e == expected && got == pixels@.len()
                } else {
                    exists|a: Result<(), BackendError>|
                        #![trigger one_call(final(self).backend_calls(), old(self).backend_calls(), BackendCall::UpdateTexture(handle, pixels@, a))]
                        one_call(final(self).backend_calls(), old(self).backend_calls(), BackendCall::UpdateTexture(handle, pixels@, a))
                            && match a {
                            Ok(_) => result is Ok,
                            Err(e) => result == Err::<(), RenderError>(RenderError::Backend(e)),
                        }
                }
            }),
            !(result is Ok || result matches Err(RenderError::Backend(_))) ==> final(self).backend()
                == old(self).backend() && final(self).backend_calls() == old(self).backend_calls(),
    {
        let info = match self.lifetime.texture_info(handle) {
            Some(info) => info,
            None => return Err(RenderError::Stale(ResourceKind::Texture)),
        };
        if info.fallback {
            return Err(RenderError::BuiltinFallback { kind: ResourceKind::Texture, label: info.label.clone() });
        }
        if info.kind != TextureKind::D2 || info.mip_levels != 1 {
            return Err(RenderError::NotUpdatable { label: info.label.clone() });
        }
        let w = info.width as u128;
        let h = info.height as u128;
        let bpp = info.format.bytes_per_pixel() as u128;
        assert(w * h <= 0xFFFF_FFFF * 0xFFFF_FFFF) by (nonlinear_arith)
            requires
                w <= 0xFFFF_FFFF,
                h <= 0xFFFF_FFFF,
        ;
        assert(w * h * bpp <= 0xFFFF_FFFF * 0xFFFF_FFFF * 16) by (nonlinear_arith)
            requires
                w * h <= 0xFFFF_FFFF * 0xFFFF_FFFF,
                bpp <= 16,
        ;
        let expected: u128 = w * h * bpp;
        if pixels.len() as u128 != expected {
            return Err(
                RenderError::UpdateSize { label: info.label.clone(), expected, got: pixels.len() as u64 },
            );
        }
        let answer = self.backend.update_texture(handle, pixels);
        proof {
            self.sent@ = self.sent@.push(BackendCall::UpdateTexture(handle, pixels@, answer));
            assert(one_call(self.backend_calls(), old(self).backend_calls(), BackendCall::UpdateTexture(handle, pixels@, answer)));
        }
        match answer {
            Ok(()) => Ok(()),
            Err(e) => Err(RenderError::Backend(e)),
        }
    }
    fn cache_lookup(&self, label: &String) -> (found: Option<TextureHandle>)
        ensures
            found == find_entry(self.texture_cache(), label@),
            found is None ==> forall|j: int| 0 <= j < self.texture_cache().len() ==> (#[trigger] self.texture_cache()[j]).0 != label@,
    {
        let mut i: usize = 0;
        while i < self.texture_cache.len()
            invariant
                i <= self.texture_cache@.len(),
                forall|j: int| 0 <= j < i ==> (#[trigger] self.texture_cache()[j]).0 != label@,
            decreases self.texture_cache@.len() - i,
        {
            if self.texture_cache[i].0 == *label {
                proof {
                    crate::pipelines::lemma_find_entry_hit(self.texture_cache(), label@, i as int);
                }
                return Some(self.texture_cache[i].1);
            }
            i = i + 1;
        }
        proof {
            crate::pipelines::lemma_find_entry_miss_push(self.texture_cache(), label@, TextureHandle { index: 0, generation: 0 });
        }
        None
    }

    fn cache_evict(&mut self, texture: TextureHandle)
        ensures
            final(self).backend_calls() == old(self).backend_calls(),
            final(self).texture_cache() == evicted(old(self).texture_cache(), texture),
            final(self).same_but_resources(old(self)),
            final(self).tracker() == old(self).tracker(),
            final(self).fallback_sampler_handle() == old(self).fallback_sampler_handle(),
            final(self).backend() == old(self).backend(),
            old(self).wf() ==> final(self).wf(),
    {
        let mut kept: Vec<(String, TextureHandle)> = Vec::new();
        let mut old_cache: Vec<(String, TextureHandle)> = Vec::new();
        std::mem::swap(&mut old_cache, &mut self.texture_cache);
        let ghost before = Seq::new(old_cache@.len(), |i: int| (old_cache@[i].0@, old_cache@[i].1));
        let mut taken: Vec<(String, TextureHandle)> = Vec::new();
        let total = old_cache.len();
        while old_cache.len() > 0
            invariant
                old_cache@.len() + taken@.len() == total,
                total == before.len(),
                forall|k: int| 0 <= k < old_cache@.len() ==> (#[trigger] old_cache@[k]).0@ == before[k].0 && old_cache@[k].1 == before[k].1,
                forall|k: int| 0 <= k < taken@.len() ==> (#[trigger] taken@[k]).0@ == before[total - 1 - k].0 && taken@[k].1 == before[total - 1 - k].1,
            decreases old_cache@.len(),
        {
            let entry = old_cache.pop().unwrap();
            taken.push(entry);
        }
        let mut i: usize = 0;
        while i < total
            invariant
                i <= total,
                total == before.len(),
                taken@.len() + i == total,
                forall|k: int| 0 <= k < taken@.len() ==> (#[trigger] taken@[k]).0@ == before[total - 1 - k].0 && taken@[k].1 == before[total - 1 - k].1,
                Seq::new(kept@.len(), |j: int| (kept@[j].0@, kept@[j].1)) == evicted(before.subrange(0, i as int), texture),
            decreases total - i,
        {
            let entry = taken.pop().unwrap();
            proof {
                assert(before.subrange(0, i + 1).drop_last() =~= before.subrange(0, i as int));
            }
            let ghost kept_before = Seq::new(kept@.len(), |j: int| (kept@[j].0@, kept@[j].1));
            if entry.1 != texture {
                let ghost v = (entry.0@, entry.1);
                kept.push(entry);
                assert(Seq::new(kept@.len(), |j: int| (kept@[j].0@, kept@[j].1)) =~= kept_before.push(v));
            }
            i = i + 1;
        }
        assert(before.subrange(0, total as int) =~= before);
        self.texture_cache = kept;
        proof {
            if crate::pipelines::unique_keys(old(self).texture_cache()) {
                lemma_evicted_unique(old(self).texture_cache(), texture);
            }
        }
    }

    /// A protected builtin texture, created at first use then shared.
    pub fn builtin_texture(&mut self, builtin: BuiltinTexture) -> (result: Result<TextureHandle, RenderError>)
        requires
            old(self).wf(),
        ensures
            final(self).wf(),
            final(self).same_but_resources(old(self)),
            final(self).fallback_sampler_handle() == old(self).fallback_sampler_handle(),
            builtin_resolved(result, builtin, *final(self), *old(self)),
            crate::backend::binding_free(final(self).backend_calls(), old(self).backend_calls()),
            result matches Err(e) ==> crate::backend::answer_recorded(e, final(self).backend_calls(), old(self).backend_calls()),
    {
        let descriptor = builtin.descriptor();
        if let Some(handle) = self.cache_lookup(&descriptor.label) {
            assert(self.backend_calls().subrange(0, self.backend_calls().len() as int) =~= self.backend_calls());
            return Ok(handle);
        }
        proof {
            assert(crate::textures::level_extent(1, 0) == 1);
            assert(crate::textures::chain_bytes(1, 1, 4, 0) == 0);
            let e = crate::textures::level_extent(1, 0);
            assert(crate::textures::chain_bytes(1, 1, 4, 1) == crate::textures::chain_bytes(1, 1, 4, 0) + e * e * 4);
            assert(e * e * 4 == 4) by (nonlinear_arith)
                requires
                    e == 1,
            ;
            assert(texture_bytes(1, 1, TextureFormat::Rgba8Unorm, TextureKind::D2, 1) == 4);
            assert(texture_rule(descriptor) is None);
        }
        let ghost calls0 = self.backend_calls();
        let handle = match self.create_texture_tracked(&descriptor, true) {
            Ok(handle) => handle,
            Err(e) => {
                assert(self.backend_calls().subrange(0, calls0.len() as int) =~= calls0);
                proof {
                    if descriptor.width <= self.limits().max_texture_2d {
                        let (s, a) = choose|s: TextureDescriptor, a: Result<TextureHandle, BackendError>|
                            #![trigger one_call(self.backend_calls(), calls0, BackendCall::CreateTexture(s, a))]
                            {
                                &&& one_call(self.backend_calls(), calls0, BackendCall::CreateTexture(s, a))
                                &&& crate::mips::mips_resolved(s, descriptor)
                                &&& match a {
                                    Ok(h) => Err::<TextureHandle, RenderError>(e) == Ok::<TextureHandle, RenderError>(h)
                                        || Err::<TextureHandle, RenderError>(e) == Err::<TextureHandle, RenderError>(
                                        RenderError::BackendHandleReused(ResourceKind::Texture),
                                    ),
                                    Err(be) => Err::<TextureHandle, RenderError>(e) == Err::<TextureHandle, RenderError>(
                                        RenderError::Backend(be),
                                    ),
                                }
                            };
                        assert(self.backend_calls().last() == BackendCall::CreateTexture(s, a));
                    }
                }
                return Err(e);
            },
        };
        assert(self.backend_calls().subrange(0, calls0.len() as int) =~= calls0);
        let ghost before = self.texture_cache();
        self.texture_cache.push((descriptor.label, handle));
        assert(self.texture_cache() =~= before.push((builtin_label(builtin), handle)));
        Ok(handle)
    }

    /// The fallback of empty color slots (`chaos.white`).
    pub(crate) fn fallback_texture(&mut self) -> (result: Result<TextureHandle, RenderError>)
        requires
            old(self).wf(),
        ensures
            final(self).wf(),
            final(self).same_but_resources(old(self)),
            final(self).fallback_sampler_handle() == old(self).fallback_sampler_handle(),
            find_entry(old(self).texture_cache(), builtin_label(BuiltinTexture::White)) is Some ==> {
                &&& final(self).tracker() == old(self).tracker()
                &&& final(self).texture_cache() == old(self).texture_cache()
            },
            result is Err ==> final(self).tracker() == old(self).tracker() && final(self).texture_cache()
                == old(self).texture_cache(),
            final(self).tracker().buffers() == old(self).tracker().buffers(),
            final(self).tracker().samplers() == old(self).tracker().samplers(),
            final(self).tracker().targets() == old(self).tracker().targets(),
            final(self).tracker().retired() == old(self).tracker().retired(),
            forall|k: crate::registry::Key| #[trigger]
                old(self).tracker().textures().contains_key(k) ==> final(self).tracker().textures().contains_key(k)
                    && final(self).tracker().textures()[k] == old(self).tracker().textures()[k],
            builtin_resolved(result, BuiltinTexture::White, *final(self), *old(self)),
            crate::backend::binding_free(final(self).backend_calls(), old(self).backend_calls()),
    {
        self.builtin_texture(BuiltinTexture::White)
    }

    /// Destroys a texture. Refusals: a stale handle, a protected builtin,
    /// the active environment (clear it first), a texture still shared by
    /// materials. Its cache entries are evicted; the release is deferred.
    pub fn destroy_texture(&mut self, handle: TextureHandle) -> (result: Result<(), RenderError>)
        requires
            old(self).wf(),
        ensures
            final(self).backend_calls() == old(self).backend_calls(),
            final(self).wf(),
            final(self).same_but_resources(old(self)),
            final(self).fallback_sampler_handle() == old(self).fallback_sampler_handle(),
            final(self).backend() == old(self).backend(),
            ({
                let k = handle.spec_key();
                let t = old(self).tracker().textures();
                let active = old(self).environment() matches Some(e) && e.cubemap == handle;
                &&& !t.contains_key(k) ==> (result matches Err(RenderError::Stale(ResourceKind::Texture)))
                &&& t.contains_key(k) && active ==> (result matches Err(RenderError::ActiveEnvironment { label })
                    && label@ == t[k].label@)
                &&& t.contains_key(k) && !active && t[k].fallback ==> (result matches Err(
                    RenderError::BuiltinFallback { .. },
                ))
                &&& t.contains_key(k) && !active && !t[k].fallback && t[k].refs > 0 ==> (result matches Err(
                    RenderError::StillShared { materials, .. },
                ) && materials == t[k].refs)
                &&& result is Ok <==> t.contains_key(k) && !active && !t[k].fallback && t[k].refs == 0
                &&& result is Ok ==> {
                    &&& texture_retired(final(self).tracker(), old(self).tracker(), handle)
                    &&& final(self).tracker().buffers() == old(self).tracker().buffers()
                    &&& final(self).tracker().samplers() == old(self).tracker().samplers()
                    &&& final(self).tracker().targets() == old(self).tracker().targets()
                    &&& final(self).texture_cache() == evicted(old(self).texture_cache(), handle)
                }
                &&& result is Err ==> final(self).tracker() == old(self).tracker() && final(self).texture_cache()
                    == old(self).texture_cache()
            }),
    {
        if let Some(e) = self.environment {
            if e.cubemap == handle {
                if let Some(info) = self.lifetime.texture_info(handle) {
                    return Err(RenderError::ActiveEnvironment { label: info.label.clone() });
                }
            }
        }
        if let Err(e) = self.lifetime.retire_texture(handle) {
            return Err(e);
        }
        self.cache_evict(handle);
        Ok(())
    }

    /// The texture cached under the descriptor's label, created (validated)
    /// on a miss. The label decides: another descriptor under a cached
    /// label gets the first texture.
    pub fn get_or_create_texture(&mut self, descriptor: &TextureDescriptor) -> (result: Result<TextureHandle, RenderError>)
        requires
            old(self).wf(),
        ensures
            final(self).wf(),
            final(self).same_but_resources(old(self)),
            final(self).fallback_sampler_handle() == old(self).fallback_sampler_handle(),
            match find_entry(old(self).texture_cache(), descriptor.label@) {
                Some(h) => {
                    &&& result == Ok::<TextureHandle, RenderError>(h)
                    &&& final(self).tracker() == old(self).tracker()
                    &&& final(self).texture_cache() == old(self).texture_cache()
                    &&& final(self).backend() == old(self).backend()
                },
                None => {
                    &&& texture_created(
                        result,
                        *descriptor,
                        false,
                        old(self).limits().max_texture_2d,
                        final(self).tracker(),
                        old(self).tracker(),
                    )
                    &&& result matches Ok(h) ==> final(self).texture_cache() == old(self).texture_cache().push(
                        (descriptor.label@, h),
                    )
                    &&& result is Err ==> final(self).texture_cache() == old(self).texture_cache()
                },
            },
    {
        if let Some(handle) = self.cache_lookup(&descriptor.label) {
            return Ok(handle);
        }
        let handle = match self.create_texture(descriptor) {
            Ok(handle) => handle,
            Err(e) => return Err(e),
        };
        let ghost before = self.texture_cache();
        self.texture_cache.push((descriptor.label.clone(), handle));
        assert(self.texture_cache() =~= before.push((descriptor.label@, handle)));
        Ok(handle)
    }

    /// Creates a sampler: validated, and its anisotropy held to the device
    /// ceiling, before the backend.
    pub fn create_sampler(&mut self, descriptor: &SamplerDescriptor) -> (result: Result<SamplerHandle, RenderError>)
        requires
            old(self).wf(),
        ensures
            final(self).wf(),
            final(self).same_but_resources(old(self)),
            final(self).texture_cache() == old(self).texture_cache(),
            final(self).fallback_sampler_handle() == old(self).fallback_sampler_handle(),
            sampler_created(
                result,
                *descriptor,
                false,
                old(self).limits().max_anisotropy,
                final(self).tracker(),
                old(self).tracker(),
            ),
            (sampler_rule(*descriptor) is Some || descriptor.anisotropy > old(self).limits().max_anisotropy) ==> final(self).backend_calls() == old(self).backend_calls(),
            !(sampler_rule(*descriptor) is Some || descriptor.anisotropy > old(self).limits().max_anisotropy) ==> exists|a: Result<SamplerHandle, BackendError>|
                #![trigger one_call(final(self).backend_calls(), old(self).backend_calls(), BackendCall::CreateSampler(*descriptor, a))]
                one_call(final(self).backend_calls(), old(self).backend_calls(), BackendCall::CreateSampler(*descriptor, a))
                    && match a {
                    Ok(h) => result == Ok::<SamplerHandle, RenderError>(h) || result == Err::<SamplerHandle, RenderError>(
                        RenderError::BackendHandleReused(ResourceKind::Sampler),
                    ),
                    Err(e) => result == Err::<SamplerHandle, RenderError>(RenderError::Backend(e)),
                },
    {
        self.create_sampler_tracked(descriptor, false)
    }

    fn create_sampler_tracked(&mut self, descriptor: &SamplerDescriptor, fallback: bool) -> (result: Result<
        SamplerHandle,
        RenderError,
    >)
        requires
            old(self).wf(),
        ensures
            final(self).wf(),
            final(self).same_but_resources(old(self)),
            final(self).texture_cache() == old(self).texture_cache(),
            final(self).fallback_sampler_handle() == old(self).fallback_sampler_handle(),
            sampler_created(
                result,
                *descriptor,
                fallback,
                old(self).limits().max_anisotropy,
                final(self).tracker(),
                old(self).tracker(),
            ),
            (sampler_rule(*descriptor) is Some || descriptor.anisotropy > old(self).limits().max_anisotropy) ==> final(self).backend_calls() == old(self).backend_calls(),
            !(sampler_rule(*descriptor) is Some || descriptor.anisotropy > old(self).limits().max_anisotropy) ==> exists|a: Result<SamplerHandle, BackendError>|
                #![trigger one_call(final(self).backend_calls(), old(self).backend_calls(), BackendCall::CreateSampler(*descriptor, a))]
                one_call(final(self).backend_calls(), old(self).backend_calls(), BackendCall::CreateSampler(*descriptor, a))
                    && match a {
                    Ok(h) => result == Ok::<SamplerHandle, RenderError>(h) || result == Err::<SamplerHandle, RenderError>(
                        RenderError::BackendHandleReused(ResourceKind::Sampler),
                    ),
                    Err(e) => result == Err::<SamplerHandle, RenderError>(RenderError::Backend(e)),
                },
    {
        if let Err(e) = descriptor.validate() {
            return Err(e);
        }
        let ceiling = self.limits.max_anisotropy;
        if descriptor.anisotropy > ceiling {
            return Err(
                RenderError::AnisotropyLimit {
                    label: descriptor.label.clone(),
                    anisotropy: descriptor.anisotropy,
                    ceiling,
                },
            );
        }
        let answer = self.backend.create_sampler(descriptor);
        proof {
            self.sent@ = self.sent@.push(BackendCall::CreateSampler(*descriptor, answer));
            assert(one_call(self.backend_calls(), old(self).backend_calls(), BackendCall::CreateSampler(*descriptor, answer)));
        }
        let handle = match answer {
            Ok(handle) => handle,
            Err(e) => return Err(RenderError::Backend(e)),
        };
        if self.lifetime.sampler_info(handle).is_some() {
            return Err(RenderError::BackendHandleReused(ResourceKind::Sampler));
        }
        self.lifetime.register_sampler(handle, descriptor.label.clone(), fallback);
        assert(one_call(self.backend_calls(), old(self).backend_calls(), BackendCall::CreateSampler(*descriptor, answer)));
        Ok(handle)
    }

    /// Destroys a sampler. Refusals: a stale handle, the protected
    /// fallback, a sampler still shared by materials. The release is
    /// deferred.
    pub fn destroy_sampler(&mut self, handle: SamplerHandle) -> (result: Result<(), RenderError>)
        requires
            old(self).wf(),
        ensures
            final(self).backend_calls() == old(self).backend_calls(),
            final(self).wf(),
            final(self).same_but_resources(old(self)),
            final(self).texture_cache() == old(self).texture_cache(),
            final(self).fallback_sampler_handle() == old(self).fallback_sampler_handle(),
            final(self).backend() == old(self).backend(),
            ({
                let k = handle.spec_key();
                let s = old(self).tracker().samplers();
                &&& !s.contains_key(k) ==> (result matches Err(RenderError::Stale(ResourceKind::Sampler)))
                &&& s.contains_key(k) && s[k].fallback ==> (result matches Err(RenderError::BuiltinFallback { .. }))
                &&& s.contains_key(k) && !s[k].fallback && s[k].refs > 0 ==> (result matches Err(
                    RenderError::StillShared { materials, .. },
                ) && materials == s[k].refs)
                &&& result is Ok <==> s.contains_key(k) && !s[k].fallback && s[k].refs == 0
                &&& result is Ok ==> final(self).tracker().samplers() == s.remove(k) && final(self).tracker().retired()
                    == old(self).tracker().retired().push(crate::lifetime::Retired::Sampler(handle))
                    && final(self).tracker().textures() == old(self).tracker().textures()
                &&& result is Err ==> final(self).tracker() == old(self).tracker()
            }),
    {
        self.lifetime.retire_sampler(handle)
    }

    /// The builtin fallback sampler (`chaos.default_sampler`, Linear and
    /// Repeat), created at first use, protected.
    pub(crate) fn fallback_sampler(&mut self) -> (result: Result<SamplerHandle, RenderError>)
        requires
            old(self).wf(),
        ensures
            final(self).wf(),
            final(self).same_but_resources(old(self)),
            final(self).texture_cache() == old(self).texture_cache(),
            match old(self).fallback_sampler_handle() {
                Some(s) => result == Ok::<SamplerHandle, RenderError>(s) && final(self).tracker() == old(self).tracker()
                    && final(self).fallback_sampler_handle() == Some(s) && final(self).backend() == old(self).backend(),
                None => match result {
                    Ok(s) => {
                        &&& final(self).fallback_sampler_handle() == Some(s)
                        &&& !old(self).tracker().samplers().contains_key(s.spec_key())
                        &&& final(self).tracker().samplers().contains_key(s.spec_key())
                        &&& final(self).tracker().samplers()[s.spec_key()].fallback
                        &&& final(self).tracker().samplers()[s.spec_key()].refs == 0
                        &&& final(self).tracker().samplers()[s.spec_key()].label@ == "chaos.default_sampler"@
                        &&& final(self).tracker().samplers() == old(self).tracker().samplers().insert(
                            s.spec_key(),
                            final(self).tracker().samplers()[s.spec_key()],
                        )
                        &&& final(self).tracker().textures() == old(self).tracker().textures()
                        &&& final(self).tracker().buffers() == old(self).tracker().buffers()
                        &&& final(self).tracker().targets() == old(self).tracker().targets()
                        &&& final(self).tracker().retired() == old(self).tracker().retired()
                    },
                    Err(e) => {
                        &&& final(self).tracker() == old(self).tracker()
                        &&& final(self).fallback_sampler_handle() is None
                        &&& (e is Backend || e is AnisotropyLimit || e == RenderError::BackendHandleReused(
                            ResourceKind::Sampler,
                        ))
                        &&& (e is AnisotropyLimit ==> old(self).limits().max_anisotropy == 0)
                        &&& crate::backend::answer_recorded(e, final(self).backend_calls(), old(self).backend_calls())
                    },
                },
            },
            crate::backend::binding_free(final(self).backend_calls(), old(self).backend_calls()),
    {
        if let Some(sampler) = self.fallback_sampler {
            assert(self.backend_calls().subrange(0, self.backend_calls().len() as int) =~= self.backend_calls());
            return Ok(sampler);
        }
        let descriptor = SamplerDescriptor::new(String::from_str("chaos.default_sampler"));
        let ghost calls0 = self.backend_calls();
        let sampler = match self.create_sampler_tracked(&descriptor, true) {
            Ok(s) => s,
            Err(e) => {
                assert(self.backend_calls().subrange(0, calls0.len() as int) =~= calls0);
                proof {
                    if descriptor.anisotropy <= self.limits().max_anisotropy {
                        let a = choose|a: Result<SamplerHandle, BackendError>|
                            #![trigger one_call(self.backend_calls(), calls0, BackendCall::CreateSampler(descriptor, a))]
                            one_call(self.backend_calls(), calls0, BackendCall::CreateSampler(descriptor, a)) && match a {
                                Ok(h) => Err::<SamplerHandle, RenderError>(e) == Ok::<SamplerHandle, RenderError>(h)
                                    || Err::<SamplerHandle, RenderError>(e) == Err::<SamplerHandle, RenderError>(
                                    RenderError::BackendHandleReused(ResourceKind::Sampler),
                                ),
                                Err(be) => Err::<SamplerHandle, RenderError>(e) == Err::<SamplerHandle, RenderError>(
                                    RenderError::Backend(be),
                                ),
                            };
                        assert(self.backend_calls().last() == BackendCall::CreateSampler(descriptor, a));
                    }
                }
                return Err(e);
            },
        };
        assert(self.backend_calls().subrange(0, calls0.len() as int) =~= calls0);
        self.fallback_sampler = Some(sampler);
        Ok(sampler)
    }
    /// Creates an offscreen render target (a sampleable color texture and
    /// its own depth), its size independent of the window.
    pub fn create_render_target(&mut self, descriptor: &RenderTargetDescriptor) -> (result: Result<
        RenderTargetHandle,
        RenderError,
    >)
        requires
            old(self).wf(),
        ensures
            final(self).wf(),
            final(self).same_but_resources(old(self)),
            final(self).texture_cache() == old(self).texture_cache(),
            final(self).fallback_sampler_handle() == old(self).fallback_sampler_handle(),
            target_created(result, *descriptor, old(self).limits().max_texture_2d, final(self).tracker(), old(self).tracker()),
            (descriptor.width == 0 || descriptor.height == 0 || descriptor.width > old(self).limits().max_texture_2d || descriptor.height > old(self).limits().max_texture_2d) ==> final(self).backend_calls() == old(self).backend_calls(),
            !(descriptor.width == 0 || descriptor.height == 0 || descriptor.width > old(self).limits().max_texture_2d || descriptor.height > old(self).limits().max_texture_2d) ==> exists|a: Result<(RenderTargetHandle, TextureHandle), BackendError>|
                #![trigger one_call(final(self).backend_calls(), old(self).backend_calls(), BackendCall::CreateRenderTarget(*descriptor, a))]
                one_call(final(self).backend_calls(), old(self).backend_calls(), BackendCall::CreateRenderTarget(*descriptor, a))
                    && match a {
                    Ok(pair) => result == Ok::<RenderTargetHandle, RenderError>(pair.0) || result == Err::<RenderTargetHandle, RenderError>(
                        RenderError::BackendHandleReused(ResourceKind::RenderTarget),
                    ) || result == Err::<RenderTargetHandle, RenderError>(RenderError::BackendHandleReused(ResourceKind::Texture)),
                    Err(e) => result == Err::<RenderTargetHandle, RenderError>(RenderError::Backend(e)),
                },
    {
        if let Err(e) = descriptor.validate() {
            return Err(e);
        }
        let limit = self.limits.max_texture_2d;
        if descriptor.width > limit || descriptor.height > limit {
            return Err(
                RenderError::TextureLimit {
                    label: descriptor.label.clone(),
                    width: descriptor.width,
                    height: descriptor.height,
                    limit,
                },
            );
        }
        let answer = self.backend.create_render_target(descriptor);
        proof {
            self.sent@ = self.sent@.push(BackendCall::CreateRenderTarget(*descriptor, answer));
            assert(one_call(self.backend_calls(), old(self).backend_calls(), BackendCall::CreateRenderTarget(*descriptor, answer)));
        }
        let (handle, color) = match answer {
            Ok(pair) => pair,
            Err(e) => return Err(RenderError::Backend(e)),
        };
        if self.lifetime.render_target_info(handle).is_some() {
            return Err(RenderError::BackendHandleReused(ResourceKind::RenderTarget));
        }
        if self.lifetime.texture_info(color).is_some() {
            return Err(RenderError::BackendHandleReused(ResourceKind::Texture));
        }
        let w = descriptor.width as u64;
        let h = descriptor.height as u64;
        assert(w * h <= 0xFFFF_FFFF * 0xFFFF_FFFF) by (nonlinear_arith)
            requires
                w <= 0xFFFF_FFFF,
                h <= 0xFFFF_FFFF,
        ;
        let area = w * h;
        let bpp = descriptor.format.bytes_per_pixel() as u64;
        let color_bytes = sat_mul(area, bpp);
        let depth_bytes = sat_mul(area, 4);
        proof {
            assert(area == descriptor.width as nat * descriptor.height as nat) by (nonlinear_arith)
                requires
                    area == w * h,
                    w == descriptor.width,
                    h == descriptor.height,
            ;
            assert(area as nat * bpp as nat == descriptor.width as nat * descriptor.height as nat * bpp as nat);
            assert(area as nat * 4 == descriptor.width as nat * descriptor.height as nat * 4);
        }
        let color_info = TextureInfo {
            label: descriptor.label.clone(),
            bytes: color_bytes,
            refs: 0,
            fallback: false,
            width: descriptor.width,
            height: descriptor.height,
            format: descriptor.format,
            kind: TextureKind::D2,
            mip_levels: 1,
        };
        self.lifetime.register_texture(color, color_info);
        let target_info = RenderTargetInfo {
            label: descriptor.label.clone(),
            depth_bytes,
            color,
            width: descriptor.width,
            height: descriptor.height,
            format: descriptor.format,
        };
        self.lifetime.register_render_target(handle, target_info);
        proof {
            assert(self.tracker().targets()[handle.spec_key()] == target_info);
            assert(one_call(self.backend_calls(), old(self).backend_calls(), BackendCall::CreateRenderTarget(*descriptor, answer)));
        }
        Ok(handle)
    }

    /// The color texture of a live target: the input of a later pass.
    pub fn render_target_color(&self, handle: RenderTargetHandle) -> (result: Result<TextureHandle, RenderError>)
        requires
            self.wf(),
        ensures
            ({
                let targets = self.tracker().targets();
                if targets.contains_key(handle.spec_key()) {
                    result == Ok::<TextureHandle, RenderError>(targets[handle.spec_key()].color)
                } else {
                    result matches Err(RenderError::Stale(ResourceKind::RenderTarget))
                }
            }),
    {
        match self.lifetime.render_target_info(handle) {
            Some(info) => Ok(info.color),
            None => Err(RenderError::Stale(ResourceKind::RenderTarget)),
        }
    }

    /// The size of a live target.
    pub fn render_target_size(&self, handle: RenderTargetHandle) -> (result: Result<(u32, u32), RenderError>)
        requires
            self.wf(),
        ensures
            ({
                let targets = self.tracker().targets();
                if targets.contains_key(handle.spec_key()) {
                    result == Ok::<(u32, u32), RenderError>(
                        (targets[handle.spec_key()].width, targets[handle.spec_key()].height),
                    )
                } else {
                    result matches Err(RenderError::Stale(ResourceKind::RenderTarget))
                }
            }),
    {
        match self.lifetime.render_target_info(handle) {
            Some(info) => Ok((info.width, info.height)),
            None => Err(RenderError::Stale(ResourceKind::RenderTarget)),
        }
    }

    /// Destroys a target: refused while its color is shared by materials;
    /// the target and its color are released at the next safe point, and
    /// cache entries of the color are evicted.
    pub fn destroy_render_target(&mut self, handle: RenderTargetHandle) -> (result: Result<(), RenderError>)
        requires
            old(self).wf(),
        ensures
            final(self).backend_calls() == old(self).backend_calls(),
            final(self).wf(),
            final(self).same_but_resources(old(self)),
            final(self).fallback_sampler_handle() == old(self).fallback_sampler_handle(),
            final(self).backend() == old(self).backend(),
            ({
                let k = handle.spec_key();
                let targets = old(self).tracker().targets();
                let t = old(self).tracker().textures();
                let color = targets[k].color;
                let shared = t.contains_key(color.spec_key()) && t[color.spec_key()].refs > 0;
                &&& !targets.contains_key(k) ==> (result matches Err(RenderError::Stale(ResourceKind::RenderTarget)))
                &&& targets.contains_key(k) && shared ==> (result matches Err(RenderError::StillShared { materials, .. })
                    && materials == t[color.spec_key()].refs)
                &&& result is Ok <==> targets.contains_key(k) && !shared
                &&& result is Ok ==> {
                    &&& final(self).tracker().targets() == targets.remove(k)
                    &&& final(self).tracker().textures() == t.remove(color.spec_key())
                    &&& t.contains_key(color.spec_key()) ==> final(self).tracker().retired() == old(
                        self,
                    ).tracker().retired().push(Retired::RenderTarget(handle)).push(Retired::Texture(color))
                    &&& final(self).tracker().buffers() == old(self).tracker().buffers()
                    &&& final(self).tracker().samplers() == old(self).tracker().samplers()
                    &&& final(self).texture_cache() == evicted(old(self).texture_cache(), color)
                }
                &&& result is Err ==> final(self).tracker() == old(self).tracker() && final(self).texture_cache()
                    == old(self).texture_cache()
            }),
    {
        let color = match self.lifetime.render_target_info(handle) {
            Some(info) => Some(info.color),
            None => None,
        };
        if let Err(e) = self.lifetime.retire_render_target(handle) {
            return Err(e);
        }
        if let Some(color) = color {
            self.cache_evict(color);
        }
        Ok(())
    }

    /// Resizes a target: the old one is destroyed (its handle and color
    /// become stale) and a new target of the same label and format is
    /// returned.
    pub fn resize_render_target(&mut self, handle: RenderTargetHandle, width: u32, height: u32) -> (result: Result<
        RenderTargetHandle,
        RenderError,
    >)
        requires
            old(self).wf(),
        ensures
            final(self).wf(),
            final(self).same_but_resources(old(self)),
            final(self).fallback_sampler_handle() == old(self).fallback_sampler_handle(),
            ({
                let k = handle.spec_key();
                let targets = old(self).tracker().targets();
                let t = old(self).tracker().textures();
                let color = targets[k].color;
                let shared = t.contains_key(color.spec_key()) && t[color.spec_key()].refs > 0;
                &&& !targets.contains_key(k) ==> (result matches Err(RenderError::Stale(ResourceKind::RenderTarget)))
                    && final(self).tracker() == old(self).tracker()
                &&& targets.contains_key(k) && shared ==> (result matches Err(RenderError::StillShared { .. }))
                    && final(self).tracker() == old(self).tracker()
                &&& result is Ok ==> {
                        &&& final(self).tracker().targets().contains_key(handle.spec_key()) ==> result->Ok_0.spec_key()
                            == handle.spec_key()
                        &&& t.contains_key(color.spec_key()) ==> final(self).tracker().retired() == old(
                            self,
                        ).tracker().retired().push(Retired::RenderTarget(handle)).push(Retired::Texture(color))
                    }
                &&& result matches Ok(h) ==> final(self).tracker().targets().contains_key(h.spec_key()) && {
                    let info = final(self).tracker().targets()[h.spec_key()];
                    &&& info.label@ == targets[k].label@
                    &&& info.format == targets[k].format
                    &&& info.width == width
                    &&& info.height == height
                }
                &&& if targets.contains_key(k) && !shared && !(width == 0 || height == 0 || width > old(
                    self,
                ).limits().max_texture_2d || height > old(self).limits().max_texture_2d) {
                    target_requested(
                        final(self).backend_calls(),
                        old(self).backend_calls(),
                        targets[k].label@,
                        width,
                        height,
                        targets[k].format,
                        result,
                    )
                } else {
                    final(self).backend_calls() == old(self).backend_calls()
                }
            }),
    {
        let (label, format) = match self.lifetime.render_target_info(handle) {
            Some(info) => (info.label.clone(), info.format),
            None => return Err(RenderError::Stale(ResourceKind::RenderTarget)),
        };
        if let Err(e) = self.destroy_render_target(handle) {
            return Err(e);
        }
        let ghost middle = self.tracker();
        let ghost calls = self.backend_calls();
        let descriptor = RenderTargetDescriptor::new(label, width, height, format);
        let result = self.create_render_target(&descriptor);
        proof {
            if let Ok(h) = result {
                assert(!middle.targets().contains_key(h.spec_key()));
            }
            if !(width == 0 || height == 0 || width > self.limits().max_texture_2d || height > self.limits().max_texture_2d) {
                let a = choose|a: Result<(RenderTargetHandle, TextureHandle), BackendError>|
                    one_call(self.backend_calls(), calls, BackendCall::CreateRenderTarget(descriptor, a)) && match a {
                        Ok(pair) => result == Ok::<RenderTargetHandle, RenderError>(pair.0) || result == Err::<
                            RenderTargetHandle,
                            RenderError,
                        >(RenderError::BackendHandleReused(ResourceKind::RenderTarget)) || result == Err::<
                            RenderTargetHandle,
                            RenderError,
                        >(RenderError::BackendHandleReused(ResourceKind::Texture)),
                        Err(e) => result == Err::<RenderTargetHandle, RenderError>(RenderError::Backend(e)),
                    };
                assert(one_call(self.backend_calls(), calls, BackendCall::CreateRenderTarget(descriptor, a)));
            }
        }
        result
    }

    /// Releases at the backend the resources retired since the last safe
    /// point (the frame was just submitted); a failed release is ignored.
    pub(crate) fn flush_retired(&mut self)
        requires
            old(self).wf(),
        ensures
            final(self).wf(),
            final(self).same_but_resources(old(self)),
            final(self).texture_cache() == old(self).texture_cache(),
            final(self).fallback_sampler_handle() == old(self).fallback_sampler_handle(),
            final(self).tracker().retired() == Seq::<crate::lifetime::Retired>::empty(),
            final(self).tracker().keeps_resources(&old(self).tracker()),
            final(self).backend_calls() == old(self).backend_calls() + releases(old(self).tracker().retired()),
    {
        let ghost start = self.sent@;
        let drained = self.lifetime.drain_retired();
        let ghost drained_state = *self;
        let mut i: usize = 0;
        while i < drained.len()
            invariant
                i <= drained@.len(),
                self.wf(),
                drained_state.wf(),
                self.same_but_resources(&drained_state),
                self.tracker() == drained_state.tracker(),
                self.texture_cache() == drained_state.texture_cache(),
                self.fallback_sampler_handle() == drained_state.fallback_sampler_handle(),
                self.sent@ == start + releases(drained@.subrange(0, i as int)),
            decreases drained@.len() - i,
        {
            let retired = drained[i];
            match retired {
                crate::lifetime::Retired::Buffer(h) => {
                    let _ = self.backend.destroy_buffer(h);
                },
                crate::lifetime::Retired::Texture(h) => {
                    let _ = self.backend.destroy_texture(h);
                },
                crate::lifetime::Retired::Sampler(h) => {
                    let _ = self.backend.destroy_sampler(h);
                },
                crate::lifetime::Retired::Binding(h) => {
                    let _ = self.backend.destroy_material_binding(h);
                },
                crate::lifetime::Retired::RenderTarget(h) => {
                    let _ = self.backend.destroy_render_target(h);
                },
            }
            proof {
                self.sent@ = self.sent@.push(release_call(retired));
                assert(drained@.subrange(0, i + 1) =~= drained@.subrange(0, i as int).push(retired));
                assert(releases(drained@.subrange(0, i + 1)) =~= releases(drained@.subrange(0, i as int)).push(
                    release_call(retired),
                ));
            }
            i = i + 1;
        }
        assert(drained@.subrange(0, i as int) =~= drained@);
    }

    /// `stats` reports the owned GPU resources: counts, exact bytes (the
    /// shadow map derived from its resolution, 4 bytes per texel), pending
    /// releases.
    pub open spec fn resources_reported(&self, stats: ResourceStats) -> bool {
        let t = self.tracker();
        let shadow = match self.shadow_settings() {
            Some(s) => KindStats { alive: 1, bytes: cap64((s.resolution as nat * s.resolution as nat) * 4) },
            None => KindStats { alive: 0, bytes: 0 },
        };
        &&& stats.buffers == KindStats { alive: t.buffer_count() as usize, bytes: capped(t.buffer_bytes_total()) }
        &&& stats.textures == KindStats {
            alive: t.texture_count() as usize,
            bytes: capped(t.texture_bytes_total()),
        }
        &&& stats.samplers == t.sampler_total()
        &&& stats.pipelines == t.pipelines()
        &&& stats.meshes == self.mesh_pool().spec_len()
        &&& stats.materials == self.material_pool().spec_len()
        &&& stats.bindings == self.material_pool().spec_len()
        &&& stats.render_targets == KindStats {
            alive: t.target_count() as usize,
            bytes: capped(t.target_bytes_total()),
        }
        &&& stats.shadow_maps == shadow
        &&& stats.retired == t.retired().len()
        &&& stats.estimated_bytes == cap64(
            (stats.buffers.bytes + stats.textures.bytes + stats.render_targets.bytes + shadow.bytes) as nat,
        )
    }

    /// The owned GPU resources.
    pub fn resource_stats(&self) -> (stats: ResourceStats)
        requires
            self.wf(),
        ensures
            self.resources_reported(stats),
    {
        let buffers = self.lifetime.buffer_stats();
        let textures = self.lifetime.texture_stats();
        let render_targets = self.lifetime.render_target_stats();
        let shadow_maps = match self.directional_shadow {
            Some(settings) => {
                let r = settings.resolution as u64;
                assert(r * r <= 0xFFFF_FFFF * 0xFFFF_FFFF) by (nonlinear_arith)
                    requires
                        r <= 0xFFFF_FFFF,
                ;
                KindStats { alive: 1, bytes: sat_mul(r * r, 4) }
            },
            None => KindStats { alive: 0, bytes: 0 },
        };
        let total = (buffers.bytes as u128) + (textures.bytes as u128) + (render_targets.bytes as u128) + (
        shadow_maps.bytes as u128);
        let estimated_bytes: u64 = if total > 0xFFFF_FFFF_FFFF_FFFF {
            0xFFFF_FFFF_FFFF_FFFF
        } else {
            total as u64
        };
        let meshes = self.meshes.len();
        let materials = self.materials.len();
        ResourceStats {
            buffers,
            textures,
            samplers: self.lifetime.sampler_count(),
            pipelines: self.lifetime.pipeline_count(),
            meshes,
            materials,
            bindings: materials,
            render_targets,
            shadow_maps,
            retired: self.lifetime.retired_count(),
            estimated_bytes,
        }
    }
}

/// Law: a texture created then destroyed leaves no trace in the owned
/// resources — every count and byte total reads as before, with one
/// backend release more awaiting the end of the next frame.
pub proof fn lemma_texture_round_trip<B: GraphicsBackend>(
    r0: Renderer<B>,
    r1: Renderer<B>,
    r2: Renderer<B>,
    d: TextureDescriptor,
    h: TextureHandle,
    s0: ResourceStats,
    s2: ResourceStats,
)
    requires
        texture_created(Ok(h), d, false, r0.limits().max_texture_2d, r1.tracker(), r0.tracker()),
        r1.same_but_resources(&r0),
        texture_retired(r2.tracker(), r1.tracker(), h),
        r2.same_but_resources(&r1),
        r0.resources_reported(s0),
        r2.resources_reported(s2),
    ensures
        s2 == (ResourceStats { retired: (s0.retired + 1) as usize, ..s0 }),
        r2.tracker().textures() == r0.tracker().textures(),
{
    let (t0, t1, t2) = (r0.tracker(), r1.tracker(), r2.tracker());
    t2.lemma_keeps_all_but_textures_chain(&t1, &t0);
    t2.lemma_keeps_all_but_textures(&t0);
    assert(t2.textures() =~= t0.textures());
}

/// Law: a destroyed texture is gone for good — its handle no longer names
/// a live texture, so destroying it again is refused as stale.
pub proof fn lemma_destroyed_texture_is_stale(after: LifetimeTracker, before: LifetimeTracker, h: TextureHandle)
    requires
        texture_retired(after, before, h),
    ensures
        !after.textures().contains_key(h.spec_key()),
{
}

/// A buffer created then destroyed leaves the resource statistics as they
/// were, one more release pending.
pub proof fn lemma_buffer_round_trip<B: GraphicsBackend>(
    r0: Renderer<B>,
    r1: Renderer<B>,
    r2: Renderer<B>,
    h: BufferHandle,
    bytes: u64,
    s0: ResourceStats,
    s2: ResourceStats,
)
    requires
        !r0.tracker().buffers().contains_key(h.spec_key()),
        r1.tracker().buffers() == r0.tracker().buffers().insert(h.spec_key(), r1.tracker().buffers()[h.spec_key()]),
        r1.tracker().buffers()[h.spec_key()].bytes == bytes,
        r1.tracker().buffer_count() == r0.tracker().buffer_count() + 1,
        r1.tracker().buffer_bytes_total() == r0.tracker().buffer_bytes_total() + bytes,
        r1.tracker().unchanged_except_buffers(&r0.tracker()),
        r1.tracker().retired() == r0.tracker().retired(),
        r1.same_but_resources(&r0),
        r2.tracker().buffers() == r1.tracker().buffers().remove(h.spec_key()),
        r2.tracker().buffer_count() + 1 == r1.tracker().buffer_count(),
        r2.tracker().buffer_bytes_total() + r1.tracker().buffers()[h.spec_key()].bytes == r1.tracker().buffer_bytes_total(),
        r2.tracker().unchanged_except_buffers(&r1.tracker()),
        r2.tracker().retired() == r1.tracker().retired().push(Retired::Buffer(h)),
        r2.same_but_resources(&r1),
        r0.resources_reported(s0),
        r2.resources_reported(s2),
    ensures
        s2 == (ResourceStats { retired: (s0.retired + 1) as usize, ..s0 }),
        r2.tracker().buffers() == r0.tracker().buffers(),
{
    let (t0, t1, t2) = (r0.tracker(), r1.tracker(), r2.tracker());
    t2.lemma_unchanged_except_buffers_chain(&t1, &t0);
    t2.lemma_unchanged_except_buffers(&t0);
    assert(t2.buffers() =~= t0.buffers());
}

/// A flush releases every retired resource at the backend, in retirement
/// order, after the calls made before it.
pub proof fn lemma_retired_released(retired: Seq<Retired>, before: Seq<BackendCall>, after: Seq<BackendCall>, i: int)
    requires
        after == before + releases(retired),
        0 <= i < retired.len(),
    ensures
        after.len() == before.len() + retired.len(),
        after[before.len() + i] == release_call(retired[i]),
{
}

/// A texture destroyed (retired) and then flushed is released at the
/// backend, by the last call of the flush.
pub proof fn lemma_destroyed_texture_released(
    t0: LifetimeTracker,
    t1: LifetimeTracker,
    h: TextureHandle,
    before: Seq<BackendCall>,
    after: Seq<BackendCall>,
)
    requires
        texture_retired(t1, t0, h),
        after == before + releases(t1.retired()),
    ensures
        after.len() > before.len(),
        after.last() == BackendCall::DestroyTexture(h),
{
    lemma_retired_released(t1.retired(), before, after, t1.retired().len() - 1);
}

} // verus!
