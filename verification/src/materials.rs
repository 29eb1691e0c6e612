//! Materials: the surface models and their contracts (which inputs a model
//! consumes, which vertex layout it expects), opacity categories, the
//! descriptor checks, and the records the renderer keeps.

use vstd::prelude::*;
use crate::error::{MaterialRule, PbrProperty, RenderError};
use crate::floats::{is_unit, same, same_value, unit};
use crate::handles::{BindingHandle, SamplerHandle, TextureHandle};
use crate::layout::{
    color_vertex_formats, is_packed_layout, lit_vertex_formats, textured_vertex_formats, ColorVertex, LitVertex,
    TexturedVertex, VertexAttribute, VertexLayout,
};
use crate::shaders::{BuiltinShader, ShaderRef, ShaderRefView};
use crate::math::{Color, ONE_BITS, ZERO_BITS};

verus! {

/// The shader family of a material.
#[derive(Debug)]
pub enum MaterialModel {
    /// Per-vertex colors, no material inputs.
    VertexColor,
    /// Texture × base color, no lighting.
    Unlit,
    /// Textured and lit (Lambert), lit vertices.
    Lit,
    /// Physically based: metallic/roughness, normal, occlusion, emissive.
    Pbr,
    /// A game shader: its vertex layout, and whether it consumes the
    /// material inputs (then it sees them all, PBR and lighting included).
    Custom { shader: ShaderRef, vertex_layout: VertexLayout, material_inputs: bool },
}

/// The value of a material model.
pub enum ModelView {
    VertexColor,
    Unlit,
    Lit,
    Pbr,
    Custom { shader: ShaderRefView, stride: u64, attributes: Seq<VertexAttribute>, material_inputs: bool },
}

impl View for MaterialModel {
    type V = ModelView;

    open spec fn view(&self) -> ModelView {
        match self {
            MaterialModel::VertexColor => ModelView::VertexColor,
            MaterialModel::Unlit => ModelView::Unlit,
            MaterialModel::Lit => ModelView::Lit,
            MaterialModel::Pbr => ModelView::Pbr,
            MaterialModel::Custom { shader, vertex_layout, material_inputs } => ModelView::Custom {
                shader: shader@,
                stride: vertex_layout.stride,
                attributes: vertex_layout.attributes@,
                material_inputs: *material_inputs,
            },
        }
    }
}

/// How a material covers what is behind it.
#[derive(Clone, Copy, Debug, PartialEq, Eq, Structural)]
pub enum MaterialOpacity {
    Opaque,
    /// Alpha-tested against the cutoff; writes depth.
    Masked,
    /// Alpha-blended, sorted back to front.
    Transparent,
}

/// The model samples textures and reads a base color.
pub open spec fn spec_material_inputs(model: ModelView) -> bool {
    match model {
        ModelView::VertexColor => false,
        ModelView::Custom { material_inputs, .. } => material_inputs,
        _ => true,
    }
}

/// The model reads the PBR properties.
pub open spec fn spec_pbr_inputs(model: ModelView) -> bool {
    match model {
        ModelView::Pbr => true,
        ModelView::Custom { material_inputs, .. } => material_inputs,
        _ => false,
    }
}

/// The model reacts to lights (and shadows).
pub open spec fn spec_lighting_inputs(model: ModelView) -> bool {
    match model {
        ModelView::Lit | ModelView::Pbr => true,
        ModelView::Custom { material_inputs, .. } => material_inputs,
        _ => false,
    }
}

/// The packed vertex formats an engine model expects.
pub open spec fn expected_formats(model: ModelView) -> Seq<crate::layout::VertexAttributeFormat> {
    match model {
        ModelView::VertexColor => color_vertex_formats(),
        ModelView::Unlit => textured_vertex_formats(),
        _ => lit_vertex_formats(),
    }
}

/// `layout` is the vertex layout the model expects of its meshes.
pub open spec fn fits_model(layout: VertexLayout, model: ModelView) -> bool {
    match model {
        ModelView::Custom { stride, attributes, .. } => layout.stride == stride && layout.attributes@
            == attributes,
        _ => is_packed_layout(layout, expected_formats(model)),
    }
}

/// A layout has the shape a model expects exactly when it describes the
/// same vertex as one that does.
pub proof fn lemma_fits_model_same(a: VertexLayout, b: VertexLayout, model: ModelView)
    requires
        fits_model(b, model),
    ensures
        crate::layout::same_layout(a, b) <==> fits_model(a, model),
{
    if !(model is Custom) && fits_model(a, model) {
        let f = expected_formats(model);
        assert forall|i: int| 0 <= i < a.attributes@.len() implies a.attributes@[i] == b.attributes@[i] by {
            assert(a.attributes@[i].location == b.attributes@[i].location);
        }
        assert(a.attributes@ =~= b.attributes@);
    }
}

impl MaterialModel {
    pub fn material_inputs(&self) -> (r: bool)
        ensures
            r == spec_material_inputs(self@),
    {
        match self {
            MaterialModel::VertexColor => false,
            MaterialModel::Custom { material_inputs, .. } => *material_inputs,
            _ => true,
        }
    }

    pub fn pbr_inputs(&self) -> (r: bool)
        ensures
            r == spec_pbr_inputs(self@),
    {
        match self {
            MaterialModel::Pbr => true,
            MaterialModel::Custom { material_inputs, .. } => *material_inputs,
            _ => false,
        }
    }

    pub fn lighting_inputs(&self) -> (r: bool)
        ensures
            r == spec_lighting_inputs(self@),
    {
        match self {
            MaterialModel::Lit | MaterialModel::Pbr => true,
            MaterialModel::Custom { material_inputs, .. } => *material_inputs,
            _ => false,
        }
    }

    /// The vertex layout meshes drawn with this model must have.
    pub fn expected_vertex_layout(&self) -> (layout: VertexLayout)
        ensures
            fits_model(layout, self@),
    {
        match self {
            MaterialModel::VertexColor => ColorVertex::layout(),
            MaterialModel::Unlit => TexturedVertex::layout(),
            MaterialModel::Custom { vertex_layout, .. } => vertex_layout.duplicate(),
            _ => LitVertex::layout(),
        }
    }

    /// The shader the model's pipelines are built from.
    pub fn shader_ref(&self) -> (shader: ShaderRef)
        ensures
            shader@ == spec_shader_ref(self@),
    {
        match self {
            MaterialModel::VertexColor => ShaderRef::Builtin(BuiltinShader::VertexColor),
            MaterialModel::Unlit => ShaderRef::Builtin(BuiltinShader::Unlit),
            MaterialModel::Lit => ShaderRef::Builtin(BuiltinShader::Lit),
            MaterialModel::Pbr => ShaderRef::Builtin(BuiltinShader::Pbr),
            MaterialModel::Custom { shader, .. } => shader.duplicate(),
        }
    }

    /// A copy of the model.
    pub fn duplicate(&self) -> (copy: MaterialModel)
        ensures
            copy@ == self@,
    {
        match self {
            MaterialModel::VertexColor => MaterialModel::VertexColor,
            MaterialModel::Unlit => MaterialModel::Unlit,
            MaterialModel::Lit => MaterialModel::Lit,
            MaterialModel::Pbr => MaterialModel::Pbr,
            MaterialModel::Custom { shader, vertex_layout, material_inputs } => MaterialModel::Custom {
                shader: shader.duplicate(),
                vertex_layout: vertex_layout.duplicate(),
                material_inputs: *material_inputs,
            },
        }
    }

    /// Whether two models are the same.
    pub fn same_as(&self, other: &MaterialModel) -> (same: bool)
        ensures
            same == (self@ == other@),
    {
        match (self, other) {
            (MaterialModel::VertexColor, MaterialModel::VertexColor) => true,
            (MaterialModel::Unlit, MaterialModel::Unlit) => true,
            (MaterialModel::Lit, MaterialModel::Lit) => true,
            (MaterialModel::Pbr, MaterialModel::Pbr) => true,
            (
                MaterialModel::Custom { shader: a, vertex_layout: la, material_inputs: ia },
                MaterialModel::Custom { shader: b, vertex_layout: lb, material_inputs: ib },
            ) => *ia == *ib && a.same_as(b) && la.same_as(lb),
            _ => false,
        }
    }
}

/// The shader of a model.
pub open spec fn spec_shader_ref(model: ModelView) -> ShaderRefView {
    match model {
        ModelView::VertexColor => ShaderRefView::Builtin(BuiltinShader::VertexColor),
        ModelView::Unlit => ShaderRefView::Builtin(BuiltinShader::Unlit),
        ModelView::Lit => ShaderRefView::Builtin(BuiltinShader::Lit),
        ModelView::Pbr => ShaderRefView::Builtin(BuiltinShader::Pbr),
        ModelView::Custom { shader, .. } => shader,
    }
}

/// The category casts shadows (Opaque and Masked — a full silhouette).
pub open spec fn spec_casts_shadows(opacity: MaterialOpacity) -> bool {
    opacity != MaterialOpacity::Transparent
}

impl MaterialOpacity {
    pub fn casts_shadows(&self) -> (r: bool)
        ensures
            r == spec_casts_shadows(*self),
    {
        !matches!(self, MaterialOpacity::Transparent)
    }

    /// The category blends with what is behind.
    pub fn blends(&self) -> (r: bool)
        ensures
            r == (*self == MaterialOpacity::Transparent),
    {
        matches!(self, MaterialOpacity::Transparent)
    }
}

/// The default metallic factor (0.0).
pub const DEFAULT_METALLIC: u32 = ZERO_BITS;

/// The default roughness factor (1.0).
pub const DEFAULT_ROUGHNESS: u32 = ONE_BITS;

/// The default alpha cutoff (0.5).
pub const DEFAULT_ALPHA_CUTOFF: u32 = 0x3F00_0000;

/// A material to create.
#[derive(Debug)]
pub struct MaterialDescriptor {
    pub label: String,
    pub model: MaterialModel,
    pub base_color: Color,
    pub texture: Option<TextureHandle>,
    pub sampler: Option<SamplerHandle>,
    pub double_sided: bool,
    pub opacity: MaterialOpacity,
    pub metallic: u32,
    pub roughness: u32,
    pub metallic_roughness_texture: Option<TextureHandle>,
    pub normal_map: Option<TextureHandle>,
    pub occlusion_texture: Option<TextureHandle>,
    pub emissive: Color,
    pub emissive_texture: Option<TextureHandle>,
    pub cast_shadows: bool,
    pub receive_shadows: bool,
    pub alpha_cutoff: u32,
    pub frustum_culled: bool,
}

/// Two colors are equal as floats, channel by channel.
pub open spec fn same_color(a: Color, b: Color) -> bool {
    same_value(a.r, b.r) && same_value(a.g, b.g) && same_value(a.b, b.b) && same_value(a.a, b.a)
}

/// Opaque white: the neutral base color.
pub open spec fn white() -> Color {
    Color { r: ONE_BITS, g: ONE_BITS, b: ONE_BITS, a: ONE_BITS }
}

/// Opaque black: no emission.
pub open spec fn black() -> Color {
    Color { r: ZERO_BITS, g: ZERO_BITS, b: ZERO_BITS, a: ONE_BITS }
}

/// The first PBR property set away from its default, in declaration order.
pub open spec fn first_pbr_property(d: MaterialDescriptor) -> Option<PbrProperty> {
    if !same_value(d.metallic, DEFAULT_METALLIC) {
        Some(PbrProperty::Metallic)
    } else if !same_value(d.roughness, DEFAULT_ROUGHNESS) {
        Some(PbrProperty::Roughness)
    } else if d.metallic_roughness_texture is Some {
        Some(PbrProperty::MetallicRoughnessTexture)
    } else if d.normal_map is Some {
        Some(PbrProperty::NormalMap)
    } else if d.occlusion_texture is Some {
        Some(PbrProperty::OcclusionTexture)
    } else if !same_color(d.emissive, black()) {
        Some(PbrProperty::Emissive)
    } else if d.emissive_texture is Some {
        Some(PbrProperty::EmissiveTexture)
    } else {
        None
    }
}

/// The first input rule the descriptor breaks, in checking order.
pub open spec fn input_rule(d: MaterialDescriptor) -> Option<MaterialRule> {
    if !spec_material_inputs(d.model@) && (d.texture is Some || d.sampler is Some) {
        Some(MaterialRule::TextureWithoutInputs)
    } else if !spec_material_inputs(d.model@) && !same_color(d.base_color, white()) {
        Some(MaterialRule::BaseColorWithoutInputs)
    } else if !spec_pbr_inputs(d.model@) && first_pbr_property(d) is Some {
        Some(MaterialRule::PbrWithoutPbr(first_pbr_property(d)->0))
    } else if !spec_lighting_inputs(d.model@) && !d.receive_shadows {
        Some(MaterialRule::ReceiveShadowsWithoutLighting)
    } else if d.opacity == MaterialOpacity::Masked && !spec_material_inputs(d.model@) {
        Some(MaterialRule::MaskedWithoutInputs)
    } else if !is_unit(d.alpha_cutoff) {
        Some(MaterialRule::AlphaCutoffRange)
    } else if d.opacity != MaterialOpacity::Masked && d.alpha_cutoff != DEFAULT_ALPHA_CUTOFF {
        Some(MaterialRule::AlphaCutoffWithoutMask)
    } else {
        None
    }
}

fn same_colors(a: Color, b: Color) -> (r: bool)
    ensures
        r == same_color(a, b),
{
    same(a.r, b.r) && same(a.g, b.g) && same(a.b, b.b) && same(a.a, b.a)
}

impl MaterialDescriptor {
    /// A material of `model` with every property at its default: white,
    /// fallback textures and sampler, single-sided, opaque, casting and
    /// receiving shadows, frustum-culled.
    pub fn new(label: String, model: MaterialModel) -> (d: Self)
        ensures
            d.label == label,
            d.model@ == model@,
            d.base_color == white(),
            d.texture is None,
            d.sampler is None,
            !d.double_sided,
            d.opacity == MaterialOpacity::Opaque,
            d.metallic == DEFAULT_METALLIC,
            d.roughness == DEFAULT_ROUGHNESS,
            d.metallic_roughness_texture is None,
            d.normal_map is None,
            d.occlusion_texture is None,
            d.emissive == black(),
            d.emissive_texture is None,
            d.cast_shadows,
            d.receive_shadows,
            d.alpha_cutoff == DEFAULT_ALPHA_CUTOFF,
            d.frustum_culled,
    {
        MaterialDescriptor {
            label,
            model,
            base_color: Color::white(),
            texture: None,
            sampler: None,
            double_sided: false,
            opacity: MaterialOpacity::Opaque,
            metallic: DEFAULT_METALLIC,
            roughness: DEFAULT_ROUGHNESS,
            metallic_roughness_texture: None,
            normal_map: None,
            occlusion_texture: None,
            emissive: Color::black(),
            emissive_texture: None,
            cast_shadows: true,
            receive_shadows: true,
            alpha_cutoff: DEFAULT_ALPHA_CUTOFF,
            frustum_culled: true,
        }
    }

    /// The same material sampling `texture`.
    pub fn with_texture(self, texture: TextureHandle) -> (d: Self)
        ensures
            d == (MaterialDescriptor { texture: Some(texture), ..self }),
    {
        MaterialDescriptor { texture: Some(texture), ..self }
    }

    /// The same material reading through `sampler`.
    pub fn with_sampler(self, sampler: SamplerHandle) -> (d: Self)
        ensures
            d == (MaterialDescriptor { sampler: Some(sampler), ..self }),
    {
        MaterialDescriptor { sampler: Some(sampler), ..self }
    }

    /// The same material with another opacity.
    pub fn with_opacity(self, opacity: MaterialOpacity) -> (d: Self)
        ensures
            d == (MaterialDescriptor { opacity, ..self }),
    {
        MaterialDescriptor { opacity, ..self }
    }

    /// The same material with another base color.
    pub fn with_base_color(self, base_color: Color) -> (d: Self)
        ensures
            d == (MaterialDescriptor { base_color, ..self }),
    {
        MaterialDescriptor { base_color, ..self }
    }

    /// The same material with another metallic factor (bit pattern).
    pub fn with_metallic(self, metallic: u32) -> (d: Self)
        ensures
            d == (MaterialDescriptor { metallic, ..self }),
    {
        MaterialDescriptor { metallic, ..self }
    }

    /// The same material with another roughness factor (bit pattern).
    pub fn with_roughness(self, roughness: u32) -> (d: Self)
        ensures
            d == (MaterialDescriptor { roughness, ..self }),
    {
        MaterialDescriptor { roughness, ..self }
    }

    /// The same material with another emissive color.
    pub fn with_emissive(self, emissive: Color) -> (d: Self)
        ensures
            d == (MaterialDescriptor { emissive, ..self }),
    {
        MaterialDescriptor { emissive, ..self }
    }

    /// The same material with another alpha cutoff (bit pattern).
    pub fn with_alpha_cutoff(self, alpha_cutoff: u32) -> (d: Self)
        ensures
            d == (MaterialDescriptor { alpha_cutoff, ..self }),
    {
        MaterialDescriptor { alpha_cutoff, ..self }
    }

    /// The same material with a metallic-roughness texture.
    pub fn with_metallic_roughness_texture(self, texture: TextureHandle) -> (d: Self)
        ensures
            d == (MaterialDescriptor { metallic_roughness_texture: Some(texture), ..self }),
    {
        MaterialDescriptor { metallic_roughness_texture: Some(texture), ..self }
    }

    /// The same material with a normal map.
    pub fn with_normal_map(self, texture: TextureHandle) -> (d: Self)
        ensures
            d == (MaterialDescriptor { normal_map: Some(texture), ..self }),
    {
        MaterialDescriptor { normal_map: Some(texture), ..self }
    }

    /// The same material with an occlusion texture.
    pub fn with_occlusion_texture(self, texture: TextureHandle) -> (d: Self)
        ensures
            d == (MaterialDescriptor { occlusion_texture: Some(texture), ..self }),
    {
        MaterialDescriptor { occlusion_texture: Some(texture), ..self }
    }

    /// The same material with an emissive texture.
    pub fn with_emissive_texture(self, texture: TextureHandle) -> (d: Self)
        ensures
            d == (MaterialDescriptor { emissive_texture: Some(texture), ..self }),
    {
        MaterialDescriptor { emissive_texture: Some(texture), ..self }
    }

    /// The same material drawn on both faces.
    pub fn double_sided(self) -> (d: Self)
        ensures
            d == (MaterialDescriptor { double_sided: true, ..self }),
    {
        MaterialDescriptor { double_sided: true, ..self }
    }

    /// The same material casting no shadow.
    pub fn without_shadow_cast(self) -> (d: Self)
        ensures
            d == (MaterialDescriptor { cast_shadows: false, ..self }),
    {
        MaterialDescriptor { cast_shadows: false, ..self }
    }

    /// The same material receiving no shadow.
    pub fn without_shadow_receive(self) -> (d: Self)
        ensures
            d == (MaterialDescriptor { receive_shadows: false, ..self }),
    {
        MaterialDescriptor { receive_shadows: false, ..self }
    }

    /// The same material never culled against a frustum.
    pub fn without_frustum_culling(self) -> (d: Self)
        ensures
            d == (MaterialDescriptor { frustum_culled: false, ..self }),
    {
        MaterialDescriptor { frustum_culled: false, ..self }
    }

    /// The first PBR property away from its default.
    pub fn first_pbr_property(&self) -> (p: Option<PbrProperty>)
        ensures
            p == first_pbr_property(*self),
    {
        if !same(self.metallic, DEFAULT_METALLIC) {
            Some(PbrProperty::Metallic)
        } else if !same(self.roughness, DEFAULT_ROUGHNESS) {
            Some(PbrProperty::Roughness)
        } else if self.metallic_roughness_texture.is_some() {
            Some(PbrProperty::MetallicRoughnessTexture)
        } else if self.normal_map.is_some() {
            Some(PbrProperty::NormalMap)
        } else if self.occlusion_texture.is_some() {
            Some(PbrProperty::OcclusionTexture)
        } else if !same_colors(self.emissive, Color::black()) {
            Some(PbrProperty::Emissive)
        } else if self.emissive_texture.is_some() {
            Some(PbrProperty::EmissiveTexture)
        } else {
            None
        }
    }
}

/// Checks that every material input is consumed by the model (and the
/// cutoff by the opacity): a refusal names the rule, never an inert input.
pub fn check_material_inputs(d: &MaterialDescriptor) -> (result: Result<(), RenderError>)
    ensures
        match input_rule(*d) {
            None => result is Ok,
            Some(rule) => result matches Err(RenderError::Material { material, rule: r }) && r == rule
                && material@ == d.label@,
        },
{
    let rule = if !d.model.material_inputs() && (d.texture.is_some() || d.sampler.is_some()) {
        Some(MaterialRule::TextureWithoutInputs)
    } else if !d.model.material_inputs() && !same_colors(d.base_color, Color::white()) {
        Some(MaterialRule::BaseColorWithoutInputs)
    } else if !d.model.pbr_inputs() && d.first_pbr_property().is_some() {
        match d.first_pbr_property() {
            Some(p) => Some(MaterialRule::PbrWithoutPbr(p)),
            None => None,
        }
    } else if !d.model.lighting_inputs() && !d.receive_shadows {
        Some(MaterialRule::ReceiveShadowsWithoutLighting)
    } else if d.opacity == MaterialOpacity::Masked && !d.model.material_inputs() {
        Some(MaterialRule::MaskedWithoutInputs)
    } else if !unit(d.alpha_cutoff) {
        Some(MaterialRule::AlphaCutoffRange)
    } else if d.opacity != MaterialOpacity::Masked && d.alpha_cutoff != DEFAULT_ALPHA_CUTOFF {
        Some(MaterialRule::AlphaCutoffWithoutMask)
    } else {
        None
    };
    match rule {
        None => Ok(()),
        Some(r) => Err(RenderError::Material { material: d.label.clone(), rule: r }),
    }
}

/// A live material: its descriptor as resolved (fallbacks in place) and
/// its backend binding.
#[derive(Debug)]
pub struct MaterialRecord {
    pub label: String,
    pub model: MaterialModel,
    pub base_color: Color,
    pub binding: BindingHandle,
    pub texture: TextureHandle,
    pub sampler: SamplerHandle,
    pub double_sided: bool,
    pub opacity: MaterialOpacity,
    pub metallic: u32,
    pub roughness: u32,
    pub metallic_roughness_texture: TextureHandle,
    pub normal_map: TextureHandle,
    pub occlusion_texture: TextureHandle,
    pub emissive: Color,
    pub emissive_texture: TextureHandle,
    pub cast_shadows: bool,
    pub receive_shadows: bool,
    pub alpha_cutoff: u32,
    pub frustum_culled: bool,
}

/// The five texture slots of a record.
pub open spec fn record_textures(r: MaterialRecord) -> Seq<TextureHandle> {
    seq![r.texture, r.metallic_roughness_texture, r.normal_map, r.occlusion_texture, r.emissive_texture]
}

impl MaterialRecord {
    /// The five texture slots: base, metallic-roughness, normal, occlusion,
    /// emissive.
    pub fn textures(&self) -> (slots: [TextureHandle; 5])
        ensures
            slots@ == record_textures(*self),
    {
        let slots = [
            self.texture,
            self.metallic_roughness_texture,
            self.normal_map,
            self.occlusion_texture,
            self.emissive_texture,
        ];
        assert(slots@ =~= record_textures(*self));
        slots
    }
}

/// The uniform parameters of a material binding (bit patterns).
#[derive(Clone, Copy, Debug)]
pub struct MaterialParams {
    pub base_color: Color,
    pub metallic: u32,
    pub roughness: u32,
    pub receive_shadows: bool,
    pub alpha_cutoff: u32,
    pub emissive: Color,
}

/// What the backend binds for a material: its textures, sampler and
/// parameters.
#[derive(Debug)]
pub struct MaterialBindingDescriptor {
    pub label: String,
    pub texture: TextureHandle,
    pub metallic_roughness_texture: TextureHandle,
    pub normal_map: TextureHandle,
    pub occlusion_texture: TextureHandle,
    pub emissive_texture: TextureHandle,
    pub sampler: SamplerHandle,
    pub params: MaterialParams,
}

/// `d` is the binding of record `r`: its label, slots, sampler and
/// parameters.
pub open spec fn binds(d: MaterialBindingDescriptor, r: MaterialRecord) -> bool {
    &&& d.label@ == r.label@
    &&& d.texture == r.texture
    &&& d.metallic_roughness_texture == r.metallic_roughness_texture
    &&& d.normal_map == r.normal_map
    &&& d.occlusion_texture == r.occlusion_texture
    &&& d.emissive_texture == r.emissive_texture
    &&& d.sampler == r.sampler
    &&& d.params == record_params(r)
}

/// The parameters a record binds.
pub open spec fn record_params(r: MaterialRecord) -> MaterialParams {
    MaterialParams {
        base_color: r.base_color,
        metallic: r.metallic,
        roughness: r.roughness,
        receive_shadows: r.receive_shadows,
        alpha_cutoff: r.alpha_cutoff,
        emissive: r.emissive,
    }
}

impl MaterialRecord {
    /// The parameters the record binds.
    pub fn params(&self) -> (params: MaterialParams)
        ensures
            params == record_params(*self),
    {
        MaterialParams {
            base_color: self.base_color,
            metallic: self.metallic,
            roughness: self.roughness,
            receive_shadows: self.receive_shadows,
            alpha_cutoff: self.alpha_cutoff,
            emissive: self.emissive,
        }
    }

    /// The binding the record describes.
    pub fn binding_descriptor(&self) -> (d: MaterialBindingDescriptor)
        ensures
            d.label@ == self.label@,
            d.texture == self.texture,
            d.metallic_roughness_texture == self.metallic_roughness_texture,
            d.normal_map == self.normal_map,
            d.occlusion_texture == self.occlusion_texture,
            d.emissive_texture == self.emissive_texture,
            d.sampler == self.sampler,
            d.params == record_params(*self),
    {
        MaterialBindingDescriptor {
            label: self.label.clone(),
            texture: self.texture,
            metallic_roughness_texture: self.metallic_roughness_texture,
            normal_map: self.normal_map,
            occlusion_texture: self.occlusion_texture,
            emissive_texture: self.emissive_texture,
            sampler: self.sampler,
            params: self.params(),
        }
    }
}

} // verus!
