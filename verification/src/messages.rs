//! The human-readable message of each refusal, naming what it refuses.

use vstd::prelude::*;
use vstd::string::*;
use crate::error::{MaterialRule, PbrProperty, RenderError, ResourceKind};

verus! {

/// The decimal digit `d`, as text.
fn digit(d: u128) -> (text: &'static str)
    requires
        d < 10,
    ensures
        text@ == seq![crate::pipelines::digit(d as nat)],
{
    proof {
        reveal_strlit("0");
        reveal_strlit("1");
        reveal_strlit("2");
        reveal_strlit("3");
        reveal_strlit("4");
        reveal_strlit("5");
        reveal_strlit("6");
        reveal_strlit("7");
        reveal_strlit("8");
        reveal_strlit("9");
    }
    if d == 0 {
        "0"
    } else if d == 1 {
        "1"
    } else if d == 2 {
        "2"
    } else if d == 3 {
        "3"
    } else if d == 4 {
        "4"
    } else if d == 5 {
        "5"
    } else if d == 6 {
        "6"
    } else if d == 7 {
        "7"
    } else if d == 8 {
        "8"
    } else {
        "9"
    }
}

/// `part` occurs in `text`.
pub open spec fn mentions(text: Seq<char>, part: Seq<char>) -> bool {
    exists|i: int| 0 <= i && i + part.len() <= text.len() && #[trigger] text.subrange(i, i + part.len()) == part
}

/// A label between single quotes, as messages name resources.
pub open spec fn quoted(label: Seq<char>) -> Seq<char> {
    "'"@ + label + "'"@
}

/// What a message says is kept by what is appended to it.
proof fn lemma_mentions_extend(text: Seq<char>, more: Seq<char>, part: Seq<char>)
    requires
        mentions(text, part),
    ensures
        mentions(text + more, part),
{
    let i = choose|i: int| 0 <= i && i + part.len() <= text.len() && #[trigger] text.subrange(i, i + part.len()) == part;
    assert((text + more).subrange(i, i + part.len()) =~= text.subrange(i, i + part.len()));
}

/// An appended part is mentioned.
proof fn lemma_mentions_tail(text: Seq<char>, part: Seq<char>)
    ensures
        mentions(text + part, part),
{
    assert((text + part).subrange(text.len() as int, (text.len() + part.len()) as int) =~= part);
}

/// Appends `text`; what was said stays said.
fn push(s: &mut String, text: &str)
    ensures
        final(s)@ == old(s)@ + text@,
        mentions(final(s)@, text@),
        forall|part: Seq<char>| mentions(old(s)@, part) ==> #[trigger] mentions(final(s)@, part),
{
    let ghost before = s@;
    s.append(text);
    proof {
        lemma_mentions_tail(before, text@);
        assert forall|part: Seq<char>| mentions(before, part) implies #[trigger] mentions(s@, part) by {
            lemma_mentions_extend(before, text@, part);
        }
    }
}

/// Appends the decimal digits of `n`.
fn push_number(s: &mut String, n: u128)
    ensures
        final(s)@ == old(s)@ + crate::pipelines::decimal(n as nat),
        forall|part: Seq<char>| mentions(old(s)@, part) ==> #[trigger] mentions(final(s)@, part),
    decreases n,
{
    let ghost before = s@;
    if n >= 10 {
        push_number(s, n / 10);
    }
    push(s, digit(n % 10));
    proof {
        if n >= 10 {
            assert(s@ =~= before + crate::pipelines::decimal((n / 10) as nat).push(
                crate::pipelines::digit((n % 10) as nat),
            ));
        } else {
            assert(s@ =~= before + crate::pipelines::decimal(n as nat));
        }
        assert forall|part: Seq<char>| mentions(before, part) implies #[trigger] mentions(s@, part) by {
            lemma_mentions_extend(before, crate::pipelines::decimal(n as nat), part);
        }
    }
}

/// Appends `'label'`.
fn push_quoted(s: &mut String, label: &String)
    ensures
        final(s)@ == old(s)@ + quoted(label@),
        mentions(final(s)@, quoted(label@)),
        forall|part: Seq<char>| mentions(old(s)@, part) ==> #[trigger] mentions(final(s)@, part),
{
    let ghost before = s@;
    push(s, "'");
    push(s, label.as_str());
    push(s, "'");
    proof {
        assert(s@ =~= before + quoted(label@));
        lemma_mentions_tail(before, quoted(label@));
    }
}

/// The name of a resource family.
pub open spec fn kind_text(kind: ResourceKind) -> Seq<char> {
    match kind {
        ResourceKind::Buffer => "buffer"@,
        ResourceKind::Texture => "texture"@,
        ResourceKind::Sampler => "sampler"@,
        ResourceKind::RenderTarget => "render target"@,
        ResourceKind::Material => "material"@,
        ResourceKind::Mesh => "mesh"@,
        ResourceKind::Pass => "render pass"@,
    }
}

/// The name of a material property.
pub open spec fn property_text(property: PbrProperty) -> Seq<char> {
    match property {
        PbrProperty::Metallic => "metallic"@,
        PbrProperty::Roughness => "roughness"@,
        PbrProperty::MetallicRoughnessTexture => "metallic_roughness_texture"@,
        PbrProperty::NormalMap => "normal_map"@,
        PbrProperty::OcclusionTexture => "occlusion_texture"@,
        PbrProperty::Emissive => "emissive"@,
        PbrProperty::EmissiveTexture => "emissive_texture"@,
    }
}

/// The explanation of a refused material input.
pub open spec fn rule_text(rule: MaterialRule) -> Seq<char> {
    match rule {
        MaterialRule::TextureWithoutInputs => "its model has no material inputs — a texture would never be sampled"@,
        MaterialRule::SamplerWithoutInputs => "its model has no material inputs — a sampler would never be used"@,
        MaterialRule::BaseColorWithoutInputs => "its model has no material inputs — base_color would have no effect"@,
        MaterialRule::PbrWithoutPbr(property) => "its model does not consume PBR properties — '"@ + property_text(
            property,
        ) + "' would have no effect"@,
        MaterialRule::ReceiveShadowsWithoutLighting =>
            "its model does not react to lighting — 'receive_shadows' would have no effect"@,
        MaterialRule::MaskedWithoutInputs =>
            "its model has no material inputs — Masked has no alpha to test against the cutoff"@,
        MaterialRule::AlphaCutoffRange => "alpha cutoff must be finite and within 0..=1"@,
        MaterialRule::AlphaCutoffWithoutMask => "its opacity is not Masked — 'alpha_cutoff' would have no effect"@,
    }
}

/// The name of a resource family.
fn kind_name(kind: ResourceKind) -> (text: &'static str)
    ensures
        text@ == kind_text(kind),
{
    match kind {
        ResourceKind::Buffer => "buffer",
        ResourceKind::Texture => "texture",
        ResourceKind::Sampler => "sampler",
        ResourceKind::RenderTarget => "render target",
        ResourceKind::Material => "material",
        ResourceKind::Mesh => "mesh",
        ResourceKind::Pass => "render pass",
    }
}

/// The name of a material property.
fn property_name(property: PbrProperty) -> (text: &'static str)
    ensures
        text@ == property_text(property),
{
    match property {
        PbrProperty::Metallic => "metallic",
        PbrProperty::Roughness => "roughness",
        PbrProperty::MetallicRoughnessTexture => "metallic_roughness_texture",
        PbrProperty::NormalMap => "normal_map",
        PbrProperty::OcclusionTexture => "occlusion_texture",
        PbrProperty::Emissive => "emissive",
        PbrProperty::EmissiveTexture => "emissive_texture",
    }
}

/// The explanation of a refused material input.
fn push_material_rule(s: &mut String, rule: MaterialRule)
    ensures
        final(s)@ == old(s)@ + rule_text(rule),
        forall|part: Seq<char>| mentions(old(s)@, part) ==> #[trigger] mentions(final(s)@, part),
{
    match rule {
        MaterialRule::TextureWithoutInputs => {
            push(s, "its model has no material inputs — a texture would never be sampled");
        },
        MaterialRule::SamplerWithoutInputs => {
            push(s, "its model has no material inputs — a sampler would never be used");
        },
        MaterialRule::BaseColorWithoutInputs => {
            push(s, "its model has no material inputs — base_color would have no effect");
        },
        MaterialRule::PbrWithoutPbr(property) => {
            push(s, "its model does not consume PBR properties — '");
            push(s, property_name(property));
            push(s, "' would have no effect");
        },
        MaterialRule::ReceiveShadowsWithoutLighting => {
            push(s, "its model does not react to lighting — 'receive_shadows' would have no effect");
        },
        MaterialRule::MaskedWithoutInputs => {
            push(s, "its model has no material inputs — Masked has no alpha to test against the cutoff");
        },
        MaterialRule::AlphaCutoffRange => {
            push(s, "alpha cutoff must be finite and within 0..=1");
        },
        MaterialRule::AlphaCutoffWithoutMask => {
            push(s, "its opacity is not Masked — 'alpha_cutoff' would have no effect");
        },
    }
}

/// The labels a refusal names: the resources (and passes, shaders,
/// materials) it concerns.
pub open spec fn named(e: RenderError) -> Seq<Seq<char>> {
    match e {
        RenderError::BuiltinFallback { label, .. } => seq![label@],
        RenderError::StillShared { label, .. } => seq![label@],
        RenderError::OwnedByMesh { label, mesh } => seq![label@, mesh@],
        RenderError::ActiveEnvironment { label } => seq![label@],
        RenderError::TextureLimit { label, .. } => seq![label@],
        RenderError::BufferLimit { label, .. } => seq![label@],
        RenderError::AnisotropyLimit { label, .. } => seq![label@],
        RenderError::NotUpdatable { label } => seq![label@],
        RenderError::UpdateSize { label, .. } => seq![label@],
        RenderError::CubemapInMaterial { material, texture } => seq![material@, texture@],
        RenderError::NotACubemap { label } => seq![label@],
        RenderError::Material { material, .. } => seq![material@],
        RenderError::ReservedPassLabel { label } => seq![label@],
        RenderError::DuplicatePassLabel { label } => seq![label@],
        RenderError::StaleDestination { pass } => seq![pass@],
        RenderError::StaleRead { pass } => seq![pass@],
        RenderError::ScheduleConflict { writer, reader, target } => seq![writer@, target@, reader@],
        RenderError::FeedbackLoop { pass } => seq![pass@],
        RenderError::ZeroDimensions { label } => seq![label@],
        RenderError::PixelSize { label, .. } => seq![label@],
        RenderError::RenderTargetPixels { label } => seq![label@],
        RenderError::CubeNotSquare { label } => seq![label@],
        RenderError::MipLevels { label, .. } => seq![label@],
        RenderError::AnisotropyRange { label, .. } => seq![label@],
        RenderError::AnisotropyFiltering { label } => seq![label@],
        RenderError::EnvironmentIntensity { label } => seq![label@],
        RenderError::UnknownShader { name } => seq![name@],
        _ => Seq::empty(),
    }
}

/// The text of each refusal.
pub open spec fn message_text(e: RenderError) -> Seq<char> {
    match e {
        RenderError::Stale(kind) => kind_text(kind) + if kind == ResourceKind::Pass {
            " handle is unknown"@
        } else {
            " handle is stale or already destroyed"@
        },
        RenderError::BuiltinFallback { kind, label } => kind_text(kind) + " "@ + quoted(label@) + " is a builtin fallback and cannot be destroyed or updated"@,
        RenderError::StillShared { kind, label, materials } => kind_text(kind) + " "@ + quoted(label@) + " is still used by "@ + crate::pipelines::decimal(materials as nat) + " material(s): destroy them first"@,
        RenderError::OwnedByMesh { label, mesh } => "buffer "@ + quoted(label@) + " is owned by mesh "@ + quoted(mesh@) + ": destroy the mesh instead"@,
        RenderError::ActiveEnvironment { label } => "texture "@ + quoted(label@) + " is the active environment: clear it first"@,
        RenderError::TextureLimit { label, width, height, limit } => "texture "@ + quoted(label@) + ": "@ + crate::pipelines::decimal(width as nat) + "x"@ + crate::pipelines::decimal(height as nat) + " exceeds the device texture limit ("@ + crate::pipelines::decimal(limit as nat) + ")"@,
        RenderError::BufferLimit { label, bytes, limit } => "buffer "@ + quoted(label@) + ": "@ + crate::pipelines::decimal(bytes as nat) + " bytes exceed the device buffer limit ("@ + crate::pipelines::decimal(limit as nat) + ")"@,
        RenderError::AnisotropyLimit { label, anisotropy, ceiling } => "sampler "@ + quoted(label@) + ": anisotropy x"@ + crate::pipelines::decimal(anisotropy as nat) + " exceeds the device ceiling (x"@ + crate::pipelines::decimal(ceiling as nat) + ")"@,
        RenderError::ShadowResolutionLimit { resolution, limit } => "shadow map resolution "@ + crate::pipelines::decimal(resolution as nat) + " exceeds the device texture limit ("@ + crate::pipelines::decimal(limit as nat) + ")"@,
        RenderError::NotUpdatable { label } => "texture "@ + quoted(label@) + " cannot be updated in place: only single-level 2D textures support updates in V1 (recreate instead)"@,
        RenderError::UpdateSize { label, expected, got } => "texture "@ + quoted(label@) + " expects "@ + crate::pipelines::decimal(expected as nat) + " bytes for an update, got "@ + crate::pipelines::decimal(got as nat),
        RenderError::CubemapInMaterial { material, texture } => "material "@ + quoted(material@) + ": texture "@ + quoted(texture@) + " is a cubemap — materials only sample 2D textures in V1 (the environment pass will consume cubemaps)"@,
        RenderError::NotACubemap { label } => "environment: texture "@ + quoted(label@) + " is a D2 texture — the environment expects a cubemap"@,
        RenderError::Material { material, rule } => "material "@ + quoted(material@) + ": "@ + rule_text(rule),
        RenderError::PoolFull(kind) => kind_text(kind) + " pool capacity exceeded"@,
        RenderError::EmptyPassLabel => "a render pass label cannot be empty"@,
        RenderError::ReservedPassLabel { label } => "render pass "@ + quoted(label@) + ": the 'chaos.' label prefix is reserved for engine passes"@,
        RenderError::DuplicatePassLabel { label } => "render pass "@ + quoted(label@) + " already exists: labels are unique"@,
        RenderError::MainPassDestination => "the main pass renders to the surface: its destination cannot change"@,
        RenderError::MainPassLabel => "the main pass label cannot change"@,
        RenderError::StaleDestination { pass } => "render pass "@ + quoted(pass@) + ": its destination target is stale or already destroyed"@,
        RenderError::StaleRead { pass } => "render pass "@ + quoted(pass@) + ": a declared read is stale or already destroyed"@,
        RenderError::ScheduleConflict { writer, reader, target } => "render pass "@ + quoted(writer@) + " writes "@ + quoted(target@) + " after pass "@ + quoted(reader@) + " reads it: schedule it earlier"@,
        RenderError::FeedbackLoop { pass } => "render pass "@ + quoted(pass@) + " reads its own destination: a feedback loop"@,
        RenderError::InvalidValue => "the value must be finite and positive"@,
        RenderError::ZeroDimensions { label } => quoted(label@) + ": zero dimensions"@,
        RenderError::PixelSize { label, expected, got } => quoted(label@) + ": expected "@ + crate::pipelines::decimal(expected as nat) + " bytes of pixels, got "@ + crate::pipelines::decimal(got as nat),
        RenderError::RenderTargetPixels { label } => quoted(label@) + ": a render target texture takes no initial pixels"@,
        RenderError::CubeNotSquare { label } => quoted(label@) + ": a cubemap must have square faces"@,
        RenderError::MipLevels { label, levels, max } => quoted(label@) + ": "@ + crate::pipelines::decimal(levels as nat) + " mip levels provided, expected 1..="@ + crate::pipelines::decimal(max as nat),
        RenderError::AnisotropyRange { label, anisotropy } => "sampler "@ + quoted(label@) + ": anisotropy x"@ + crate::pipelines::decimal(anisotropy as nat) + " outside 1..=16"@,
        RenderError::AnisotropyFiltering { label } => "sampler "@ + quoted(label@) + ": anisotropic filtering requires Linear filtering everywhere"@,
        RenderError::ShadowResolutionRange { resolution } => "shadow map resolution "@ + crate::pipelines::decimal(resolution as nat) + " outside 16..=8192"@,
        RenderError::ShadowVolume => "shadow volume: the half extents must be finite and positive, the center finite"@,
        RenderError::ShadowBias => "shadow biases must be finite and non-negative"@,
        RenderError::EnvironmentIntensity { label } => "environment "@ + quoted(label@) + ": intensity must be finite and non-negative"@,
        RenderError::Exposure => "exposure must be a positive, finite value"@,
        RenderError::UnknownShader { name } => "shader "@ + quoted(name@) + " not found in the library"@,
        RenderError::BackendHandleReused(kind) => "the backend handed out a "@ + kind_text(kind) + " handle that is still registered"@,
        RenderError::Backend(error) => "backend: "@ + error.message@,
    }
}

impl RenderError {
    /// What the refusal says, naming between single quotes each resource
    /// it concerns, and carrying the backend's own words.
    pub fn message(&self) -> (s: String)
        ensures
            s@ == message_text(*self),
            forall|k: int| 0 <= k < named(*self).len() ==> mentions(s@, quoted(#[trigger] named(*self)[k])),
            *self is Backend ==> mentions(s@, self->Backend_0.message@),
    {
        let mut s = String::new();
        match self {
            RenderError::Stale(kind) => {
                push(&mut s, kind_name(*kind));
                match kind {
                    ResourceKind::Pass => {
                        push(&mut s, " handle is unknown");
                    },
                    _ => {
                        push(&mut s, " handle is stale or already destroyed");
                    },
                }
            },
            RenderError::BuiltinFallback { kind, label } => {
                push(&mut s, kind_name(*kind));
                push(&mut s, " ");
                push_quoted(&mut s, label);
                push(&mut s, " is a builtin fallback and cannot be destroyed or updated");
            },
            RenderError::StillShared { kind, label, materials } => {
                push(&mut s, kind_name(*kind));
                push(&mut s, " ");
                push_quoted(&mut s, label);
                push(&mut s, " is still used by ");
                push_number(&mut s, *materials as u128);
                push(&mut s, " material(s): destroy them first");
            },
            RenderError::OwnedByMesh { label, mesh } => {
                push(&mut s, "buffer ");
                push_quoted(&mut s, label);
                push(&mut s, " is owned by mesh ");
                push_quoted(&mut s, mesh);
                push(&mut s, ": destroy the mesh instead");
            },
            RenderError::ActiveEnvironment { label } => {
                push(&mut s, "texture ");
                push_quoted(&mut s, label);
                push(&mut s, " is the active environment: clear it first");
            },
            RenderError::TextureLimit { label, width, height, limit } => {
                push(&mut s, "texture ");
                push_quoted(&mut s, label);
                push(&mut s, ": ");
                push_number(&mut s, *width as u128);
                push(&mut s, "x");
                push_number(&mut s, *height as u128);
                push(&mut s, " exceeds the device texture limit (");
                push_number(&mut s, *limit as u128);
                push(&mut s, ")");
            },
            RenderError::BufferLimit { label, bytes, limit } => {
                push(&mut s, "buffer ");
                push_quoted(&mut s, label);
                push(&mut s, ": ");
                push_number(&mut s, *bytes as u128);
                push(&mut s, " bytes exceed the device buffer limit (");
                push_number(&mut s, *limit as u128);
                push(&mut s, ")");
            },
            RenderError::AnisotropyLimit { label, anisotropy, ceiling } => {
                push(&mut s, "sampler ");
                push_quoted(&mut s, label);
                push(&mut s, ": anisotropy x");
                push_number(&mut s, *anisotropy as u128);
                push(&mut s, " exceeds the device ceiling (x");
                push_number(&mut s, *ceiling as u128);
                push(&mut s, ")");
            },
            RenderError::ShadowResolutionLimit { resolution, limit } => {
                push(&mut s, "shadow map resolution ");
                push_number(&mut s, *resolution as u128);
                push(&mut s, " exceeds the device texture limit (");
                push_number(&mut s, *limit as u128);
                push(&mut s, ")");
            },
            RenderError::NotUpdatable { label } => {
                push(&mut s, "texture ");
                push_quoted(&mut s, label);
                push(&mut s, 
                    " cannot be updated in place: only single-level 2D textures support updates in V1 (recreate instead)",
                );
            },
            RenderError::UpdateSize { label, expected, got } => {
                push(&mut s, "texture ");
                push_quoted(&mut s, label);
                push(&mut s, " expects ");
                push_number(&mut s, *expected);
                push(&mut s, " bytes for an update, got ");
                push_number(&mut s, *got as u128);
            },
            RenderError::CubemapInMaterial { material, texture } => {
                push(&mut s, "material ");
                push_quoted(&mut s, material);
                push(&mut s, ": texture ");
                push_quoted(&mut s, texture);
                push(&mut s, 
                    " is a cubemap — materials only sample 2D textures in V1 (the environment pass will consume cubemaps)",
                );
            },
            RenderError::NotACubemap { label } => {
                push(&mut s, "environment: texture ");
                push_quoted(&mut s, label);
                push(&mut s, " is a D2 texture — the environment expects a cubemap");
            },
            RenderError::Material { material, rule } => {
                push(&mut s, "material ");
                push_quoted(&mut s, material);
                push(&mut s, ": ");
                push_material_rule(&mut s, *rule);
            },
            RenderError::PoolFull(kind) => {
                push(&mut s, kind_name(*kind));
                push(&mut s, " pool capacity exceeded");
            },
            RenderError::EmptyPassLabel => {
                push(&mut s, "a render pass label cannot be empty");
            },
            RenderError::ReservedPassLabel { label } => {
                push(&mut s, "render pass ");
                push_quoted(&mut s, label);
                push(&mut s, ": the 'chaos.' label prefix is reserved for engine passes");
            },
            RenderError::DuplicatePassLabel { label } => {
                push(&mut s, "render pass ");
                push_quoted(&mut s, label);
                push(&mut s, " already exists: labels are unique");
            },
            RenderError::MainPassDestination => {
                push(&mut s, "the main pass renders to the surface: its destination cannot change");
            },
            RenderError::MainPassLabel => {
                push(&mut s, "the main pass label cannot change");
            },
            RenderError::StaleDestination { pass } => {
                push(&mut s, "render pass ");
                push_quoted(&mut s, pass);
                push(&mut s, ": its destination target is stale or already destroyed");
            },
            RenderError::StaleRead { pass } => {
                push(&mut s, "render pass ");
                push_quoted(&mut s, pass);
                push(&mut s, ": a declared read is stale or already destroyed");
            },
            RenderError::ScheduleConflict { writer, reader, target } => {
                push(&mut s, "render pass ");
                push_quoted(&mut s, writer);
                push(&mut s, " writes ");
                push_quoted(&mut s, target);
                push(&mut s, " after pass ");
                push_quoted(&mut s, reader);
                push(&mut s, " reads it: schedule it earlier");
            },
            RenderError::FeedbackLoop { pass } => {
                push(&mut s, "render pass ");
                push_quoted(&mut s, pass);
                push(&mut s, " reads its own destination: a feedback loop");
            },
            RenderError::InvalidValue => {
                push(&mut s, "the value must be finite and positive");
            },
            RenderError::ZeroDimensions { label } => {
                push_quoted(&mut s, label);
                push(&mut s, ": zero dimensions");
            },
            RenderError::PixelSize { label, expected, got } => {
                push_quoted(&mut s, label);
                push(&mut s, ": expected ");
                push_number(&mut s, *expected);
                push(&mut s, " bytes of pixels, got ");
                push_number(&mut s, *got as u128);
            },
            RenderError::RenderTargetPixels { label } => {
                push_quoted(&mut s, label);
                push(&mut s, ": a render target texture takes no initial pixels");
            },
            RenderError::CubeNotSquare { label } => {
                push_quoted(&mut s, label);
                push(&mut s, ": a cubemap must have square faces");
            },
            RenderError::MipLevels { label, levels, max } => {
                push_quoted(&mut s, label);
                push(&mut s, ": ");
                push_number(&mut s, *levels as u128);
                push(&mut s, " mip levels provided, expected 1..=");
                push_number(&mut s, *max as u128);
            },
            RenderError::AnisotropyRange { label, anisotropy } => {
                push(&mut s, "sampler ");
                push_quoted(&mut s, label);
                push(&mut s, ": anisotropy x");
                push_number(&mut s, *anisotropy as u128);
                push(&mut s, " outside 1..=16");
            },
            RenderError::AnisotropyFiltering { label } => {
                push(&mut s, "sampler ");
                push_quoted(&mut s, label);
                push(&mut s, ": anisotropic filtering requires Linear filtering everywhere");
            },
            RenderError::ShadowResolutionRange { resolution } => {
                push(&mut s, "shadow map resolution ");
                push_number(&mut s, *resolution as u128);
                push(&mut s, " outside 16..=8192");
            },
            RenderError::ShadowVolume => {
                push(&mut s, "shadow volume: the half extents must be finite and positive, the center finite");
            },
            RenderError::ShadowBias => {
                push(&mut s, "shadow biases must be finite and non-negative");
            },
            RenderError::EnvironmentIntensity { label } => {
                push(&mut s, "environment ");
                push_quoted(&mut s, label);
                push(&mut s, ": intensity must be finite and non-negative");
            },
            RenderError::Exposure => {
                push(&mut s, "exposure must be a positive, finite value");
            },
            RenderError::UnknownShader { name } => {
                push(&mut s, "shader ");
                push_quoted(&mut s, name);
                push(&mut s, " not found in the library");
            },
            RenderError::BackendHandleReused(kind) => {
                push(&mut s, "the backend handed out a ");
                push(&mut s, kind_name(*kind));
                push(&mut s, " handle that is still registered");
            },
            RenderError::Backend(error) => {
                push(&mut s, "backend: ");
                push(&mut s, error.message.as_str());
            },
        }
        assert(s@ =~= message_text(*self));
        s
    }
}

} // verus!
