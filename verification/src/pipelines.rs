//! Pipelines: the descriptors the renderer derives for each permutation
//! (material, instanced, sky, debug, shadow), their labels, and the five
//! caches that create each permutation once and memoize failures.

use vstd::prelude::*;
use vstd::string::*;
use crate::backend::GraphicsBackend;
use crate::debug::{DebugDepth, DebugVertex};
use crate::error::{BackendError, RenderError};
use crate::handles::PipelineHandle;
use crate::layout::{debug_vertex_formats, is_packed_layout, spec_has_position, VertexAttribute, VertexLayout};
use crate::lifetime::LifetimeTracker;
use crate::materials::{
    fits_model, spec_material_inputs, spec_shader_ref, MaterialModel, MaterialOpacity, ModelView,
};
use crate::shaders::{BuiltinShader, ShaderLibrary, ShaderRef, ShaderRefView, ShaderSource, ShaderSourceView};
use crate::textures::TextureFormat;

verus! {

/// Which faces are culled.
#[derive(Clone, Copy, Debug, PartialEq, Eq, Structural)]
pub enum CullMode {
    Off,
    Back,
}

/// The depth test of a pipeline.
#[derive(Clone, Copy, Debug, PartialEq, Eq, Structural)]
pub enum DepthCompare {
    Less,
    LessEqual,
    Always,
}

/// The primitives a pipeline assembles.
#[derive(Clone, Copy, Debug, PartialEq, Eq, Structural)]
pub enum PrimitiveTopology {
    TriangleList,
    LineList,
}

/// The fragment entry point: `fs_main`, or `fs_masked` (alpha test).
#[derive(Clone, Copy, Debug, PartialEq, Eq, Structural)]
pub enum FragmentEntry {
    Main,
    Masked,
}

/// A graphics pipeline to create.
#[derive(Debug)]
pub struct PipelineDescriptor {
    pub label: String,
    pub shader: ShaderRef,
    /// The per-vertex buffer layout; `None`: no vertex buffer.
    pub vertex_layout: Option<VertexLayout>,
    /// Per-instance transforms in a second buffer, entry `vs_instanced`
    /// (else `vs_main`).
    pub instanced: bool,
    pub fragment_entry: FragmentEntry,
    pub cull_mode: CullMode,
    pub depth_compare: DepthCompare,
    pub topology: PrimitiveTopology,
    /// Alpha blending.
    pub transparent: bool,
    /// The material bind group is read.
    pub material: bool,
    /// The color format of an offscreen destination; `None`: the surface.
    pub color_target: Option<TextureFormat>,
    /// Depth only, no color output.
    pub depth_only: bool,
}

/// The value of a pipeline descriptor.
pub struct PipelineView {
    pub label: Seq<char>,
    pub shader: ShaderRefView,
    pub vertex_layout: Option<(u64, Seq<VertexAttribute>)>,
    pub instanced: bool,
    pub fragment_entry: FragmentEntry,
    pub cull_mode: CullMode,
    pub depth_compare: DepthCompare,
    pub topology: PrimitiveTopology,
    pub transparent: bool,
    pub material: bool,
    pub color_target: Option<TextureFormat>,
    pub depth_only: bool,
}

impl View for PipelineDescriptor {
    type V = PipelineView;

    open spec fn view(&self) -> PipelineView {
        PipelineView {
            label: self.label@,
            shader: self.shader@,
            vertex_layout: match self.vertex_layout {
                Some(l) => Some((l.stride, l.attributes@)),
                None => None,
            },
            instanced: self.instanced,
            fragment_entry: self.fragment_entry,
            cull_mode: self.cull_mode,
            depth_compare: self.depth_compare,
            topology: self.topology,
            transparent: self.transparent,
            material: self.material,
            color_target: self.color_target,
            depth_only: self.depth_only,
        }
    }
}

/// The identity of a material permutation: the model, the render state
/// and the destination format (`None`: the surface). Parameters and
/// textures live in the binding, never in the key.
#[derive(Debug)]
pub struct PipelineKey {
    pub model: MaterialModel,
    pub double_sided: bool,
    pub opacity: MaterialOpacity,
    pub color_format: Option<TextureFormat>,
    pub instanced: bool,
}

/// The value of a permutation key.
pub struct KeyView {
    pub model: ModelView,
    pub double_sided: bool,
    pub opacity: MaterialOpacity,
    pub color_format: Option<TextureFormat>,
    pub instanced: bool,
}

impl View for PipelineKey {
    type V = KeyView;

    open spec fn view(&self) -> KeyView {
        KeyView {
            model: self.model@,
            double_sided: self.double_sided,
            opacity: self.opacity,
            color_format: self.color_format,
            instanced: self.instanced,
        }
    }
}

impl PipelineKey {
    /// Whether two keys designate the same permutation.
    pub fn same_as(&self, other: &PipelineKey) -> (same: bool)
        ensures
            same == (self@ == other@),
    {
        self.double_sided == other.double_sided && self.opacity == other.opacity && self.color_format
            == other.color_format && self.instanced == other.instanced && self.model.same_as(&other.model)
    }

    /// A copy of the key.
    pub fn duplicate(&self) -> (copy: PipelineKey)
        ensures
            copy@ == self@,
    {
        PipelineKey {
            model: self.model.duplicate(),
            double_sided: self.double_sided,
            opacity: self.opacity,
            color_format: self.color_format,
            instanced: self.instanced,
        }
    }
}

/// The identity of a shadow permutation: the caster's vertex layout, its
/// culling and instancing.
#[derive(Debug)]
pub struct ShadowKey {
    pub vertex_layout: VertexLayout,
    pub double_sided: bool,
    pub instanced: bool,
}

/// The value of a shadow key.
pub struct ShadowKeyView {
    pub stride: u64,
    pub attributes: Seq<VertexAttribute>,
    pub double_sided: bool,
    pub instanced: bool,
}

impl View for ShadowKey {
    type V = ShadowKeyView;

    open spec fn view(&self) -> ShadowKeyView {
        ShadowKeyView {
            stride: self.vertex_layout.stride,
            attributes: self.vertex_layout.attributes@,
            double_sided: self.double_sided,
            instanced: self.instanced,
        }
    }
}

// ---------------------------------------------------------------------
// Labels

/// The name of a texture format in labels.
pub open spec fn format_name(format: TextureFormat) -> Seq<char> {
    match format {
        TextureFormat::R8Unorm => "R8Unorm"@,
        TextureFormat::Rg8Unorm => "Rg8Unorm"@,
        TextureFormat::Rgba8Unorm => "Rgba8Unorm"@,
        TextureFormat::Rgba8UnormSrgb => "Rgba8UnormSrgb"@,
        TextureFormat::Bgra8UnormSrgb => "Bgra8UnormSrgb"@,
        TextureFormat::Rgba16Float => "Rgba16Float"@,
        TextureFormat::Rgba32Float => "Rgba32Float"@,
    }
}

/// The destination part of a label: `.Format` for a target, nothing for
/// the surface.
pub open spec fn format_part(format: Option<TextureFormat>) -> Seq<char> {
    match format {
        Some(f) => "."@ + format_name(f),
        None => Seq::empty(),
    }
}

/// `part` when `flag` holds, else nothing.
pub open spec fn part_if(flag: bool, part: Seq<char>) -> Seq<char> {
    if flag {
        part
    } else {
        Seq::empty()
    }
}

/// The tag of a model in material labels.
pub open spec fn model_tag(model: ModelView) -> Seq<char> {
    match model {
        ModelView::VertexColor => "vertex_color"@,
        ModelView::Unlit => "unlit"@,
        ModelView::Lit => "lit"@,
        ModelView::Pbr => "pbr"@,
        ModelView::Custom { shader, .. } => match shader {
            ShaderRefView::Named(name) => "custom."@ + name,
            ShaderRefView::Inline(_) => "custom.inline"@,
            ShaderRefView::Builtin(_) => "custom.builtin"@,
        },
    }
}

/// The opacity part of a material label.
pub open spec fn opacity_part(opacity: MaterialOpacity) -> Seq<char> {
    match opacity {
        MaterialOpacity::Opaque => Seq::empty(),
        MaterialOpacity::Masked => ".masked"@,
        MaterialOpacity::Transparent => ".transparent"@,
    }
}

/// The label of a material permutation.
pub open spec fn material_label(k: KeyView) -> Seq<char> {
    "chaos.material."@ + model_tag(k.model) + part_if(k.double_sided, ".double_sided"@) + opacity_part(k.opacity)
        + format_part(k.color_format) + part_if(k.instanced, ".instanced"@)
}

/// The decimal digit `d`.
pub open spec fn digit(d: nat) -> char {
    if d == 0 {
        '0'
    } else if d == 1 {
        '1'
    } else if d == 2 {
        '2'
    } else if d == 3 {
        '3'
    } else if d == 4 {
        '4'
    } else if d == 5 {
        '5'
    } else if d == 6 {
        '6'
    } else if d == 7 {
        '7'
    } else if d == 8 {
        '8'
    } else {
        '9'
    }
}

/// The decimal writing of `n`.
pub open spec fn decimal(n: nat) -> Seq<char>
    decreases n,
{
    if n < 10 {
        seq![digit(n)]
    } else {
        decimal(n / 10).push(digit(n % 10))
    }
}

/// The label of a shadow permutation.
pub open spec fn shadow_label(k: ShadowKeyView) -> Seq<char> {
    "chaos.shadow."@ + decimal(k.stride as nat) + part_if(k.double_sided, ".double_sided"@) + part_if(
        k.instanced,
        ".instanced"@,
    )
}

fn format_str(format: TextureFormat) -> (s: &'static str)
    ensures
        s@ == format_name(format),
{
    match format {
        TextureFormat::R8Unorm => "R8Unorm",
        TextureFormat::Rg8Unorm => "Rg8Unorm",
        TextureFormat::Rgba8Unorm => "Rgba8Unorm",
        TextureFormat::Rgba8UnormSrgb => "Rgba8UnormSrgb",
        TextureFormat::Bgra8UnormSrgb => "Bgra8UnormSrgb",
        TextureFormat::Rgba16Float => "Rgba16Float",
        TextureFormat::Rgba32Float => "Rgba32Float",
    }
}

fn append_format(label: &mut String, format: Option<TextureFormat>)
    ensures
        final(label)@ == old(label)@ + format_part(format),
{
    if let Some(f) = format {
        label.append(".");
        label.append(format_str(f));
    } else {
        assert(old(label)@ + format_part(format) =~= old(label)@);
    }
}

fn append_if(label: &mut String, flag: bool, part: &str)
    ensures
        final(label)@ == old(label)@ + part_if(flag, part@),
{
    if flag {
        label.append(part);
    } else {
        assert(old(label)@ + part_if(flag, part@) =~= old(label)@);
    }
}

fn digit_str(d: u64) -> (s: &'static str)
    requires
        d < 10,
    ensures
        s@ == seq![digit(d as nat)],
{
    proof {
        reveal_strlit("0");
        reveal_strlit("1");
        reveal_strlit("2");
        reveal_strlit("3");
        reveal_strlit("4");
        reveal_strlit("5");
        reveal_strlit("6");
        reveal_strlit("7");
        reveal_strlit("8");
        reveal_strlit("9");
    }
    let s = if d == 0 {
        "0"
    } else if d == 1 {
        "1"
    } else if d == 2 {
        "2"
    } else if d == 3 {
        "3"
    } else if d == 4 {
        "4"
    } else if d == 5 {
        "5"
    } else if d == 6 {
        "6"
    } else if d == 7 {
        "7"
    } else if d == 8 {
        "8"
    } else {
        "9"
    };
    assert(s@ =~= seq![digit(d as nat)]);
    s
}

fn append_decimal(label: &mut String, n: u64)
    ensures
        final(label)@ == old(label)@ + decimal(n as nat),
    decreases n,
{
    if n < 10 {
        label.append(digit_str(n));
    } else {
        append_decimal(label, n / 10);
        label.append(digit_str(n % 10));
        proof {
            assert(decimal(n as nat) == decimal((n / 10) as nat).push(digit((n % 10) as nat)));
            assert(final(label)@ =~= old(label)@ + decimal(n as nat));
        }
    }
}

fn model_tag_string(label: &mut String, model: &MaterialModel)
    ensures
        final(label)@ == old(label)@ + model_tag(model@),
{
    match model {
        MaterialModel::VertexColor => label.append("vertex_color"),
        MaterialModel::Unlit => label.append("unlit"),
        MaterialModel::Lit => label.append("lit"),
        MaterialModel::Pbr => label.append("pbr"),
        MaterialModel::Custom { shader, .. } => match shader {
            ShaderRef::Named(name) => {
                label.append("custom.");
                label.append(name.as_str());
                assert(final(label)@ =~= old(label)@ + model_tag(model@));
            },
            ShaderRef::Inline(_) => label.append("custom.inline"),
            ShaderRef::Builtin(_) => label.append("custom.builtin"),
        },
    }
}

// ---------------------------------------------------------------------
// Descriptors

/// `d` is the pipeline of material permutation `k`.
pub open spec fn is_material_pipeline(d: PipelineDescriptor, k: KeyView) -> bool {
    &&& d.label@ == material_label(k)
    &&& d.shader@ == spec_shader_ref(k.model)
    &&& d.vertex_layout matches Some(l) && fits_model(l, k.model)
    &&& d.instanced == k.instanced
    &&& d.fragment_entry == if k.opacity == MaterialOpacity::Masked {
        FragmentEntry::Masked
    } else {
        FragmentEntry::Main
    }
    &&& d.cull_mode == if k.double_sided {
        CullMode::Off
    } else {
        CullMode::Back
    }
    &&& d.depth_compare == DepthCompare::Less
    &&& d.topology == PrimitiveTopology::TriangleList
    &&& d.transparent == (k.opacity == MaterialOpacity::Transparent)
    &&& d.material == spec_material_inputs(k.model)
    &&& d.color_target == k.color_format
    &&& !d.depth_only
}

/// The descriptor of a material permutation: the model's shader and
/// layout, the culling of its sidedness, the fragment entry and blending
/// of its opacity, the destination format.
pub fn material_pipeline_descriptor(key: &PipelineKey) -> (d: PipelineDescriptor)
    ensures
        is_material_pipeline(d, key@),
{
    let mut label = String::from_str("chaos.material.");
    model_tag_string(&mut label, &key.model);
    append_if(&mut label, key.double_sided, ".double_sided");
    match key.opacity {
        MaterialOpacity::Opaque => {},
        MaterialOpacity::Masked => label.append(".masked"),
        MaterialOpacity::Transparent => label.append(".transparent"),
    }
    proof {
        assert(opacity_part(key.opacity) == Seq::<char>::empty() ==> label@ + opacity_part(key.opacity) =~= label@);
    }
    append_format(&mut label, key.color_format);
    append_if(&mut label, key.instanced, ".instanced");
    proof {
        assert(label@ =~= material_label(key@));
    }
    PipelineDescriptor {
        label,
        shader: key.model.shader_ref(),
        vertex_layout: Some(key.model.expected_vertex_layout()),
        instanced: key.instanced,
        fragment_entry: if key.opacity == MaterialOpacity::Masked {
            FragmentEntry::Masked
        } else {
            FragmentEntry::Main
        },
        cull_mode: if key.double_sided {
            CullMode::Off
        } else {
            CullMode::Back
        },
        depth_compare: DepthCompare::Less,
        topology: PrimitiveTopology::TriangleList,
        transparent: key.opacity == MaterialOpacity::Transparent,
        material: key.model.material_inputs(),
        color_target: key.color_format,
        depth_only: false,
    }
}

/// `d` is the sky pipeline for a destination: a full-screen triangle with
/// no geometry, depth-tested `LessEqual` so it only covers the background.
pub open spec fn is_sky_pipeline(d: PipelineDescriptor, format: Option<TextureFormat>) -> bool {
    &&& d.label@ == "chaos.sky"@ + format_part(format)
    &&& d.shader@ == ShaderRefView::Builtin(BuiltinShader::Sky)
    &&& d.vertex_layout is None
    &&& !d.instanced
    &&& d.fragment_entry == FragmentEntry::Main
    &&& d.cull_mode == CullMode::Off
    &&& d.depth_compare == DepthCompare::LessEqual
    &&& d.topology == PrimitiveTopology::TriangleList
    &&& !d.transparent
    &&& !d.material
    &&& d.color_target == format
    &&& !d.depth_only
}

/// The descriptor of the sky pipeline for a destination.
pub fn sky_pipeline_descriptor(format: Option<TextureFormat>) -> (d: PipelineDescriptor)
    ensures
        is_sky_pipeline(d, format),
{
    let mut label = String::from_str("chaos.sky");
    append_format(&mut label, format);
    PipelineDescriptor {
        label,
        shader: ShaderRef::Builtin(BuiltinShader::Sky),
        vertex_layout: None,
        instanced: false,
        fragment_entry: FragmentEntry::Main,
        cull_mode: CullMode::Off,
        depth_compare: DepthCompare::LessEqual,
        topology: PrimitiveTopology::TriangleList,
        transparent: false,
        material: false,
        color_target: format,
        depth_only: false,
    }
}

/// `d` is the debug pipeline for a destination and depth mode: world
/// lines, alpha-blended, depth read-only (tested for `Scene`, ignored for
/// `Overlay`).
pub open spec fn is_debug_pipeline(d: PipelineDescriptor, format: Option<TextureFormat>, depth: DebugDepth) -> bool {
    &&& d.label@ == "chaos.debug"@ + part_if(depth == DebugDepth::Overlay, ".overlay"@) + format_part(format)
    &&& d.shader@ == ShaderRefView::Builtin(BuiltinShader::Debug)
    &&& d.vertex_layout matches Some(l) && is_packed_layout(l, debug_vertex_formats())
    &&& !d.instanced
    &&& d.fragment_entry == FragmentEntry::Main
    &&& d.cull_mode == CullMode::Off
    &&& d.depth_compare == match depth {
        DebugDepth::Scene => DepthCompare::LessEqual,
        DebugDepth::Overlay => DepthCompare::Always,
    }
    &&& d.topology == PrimitiveTopology::LineList
    &&& d.transparent
    &&& !d.material
    &&& d.color_target == format
    &&& !d.depth_only
}

/// The descriptor of the debug pipeline for a destination and depth mode.
pub fn debug_pipeline_descriptor(format: Option<TextureFormat>, depth: DebugDepth) -> (d: PipelineDescriptor)
    ensures
        is_debug_pipeline(d, format, depth),
{
    let mut label = String::from_str("chaos.debug");
    append_if(&mut label, depth == DebugDepth::Overlay, ".overlay");
    append_format(&mut label, format);
    PipelineDescriptor {
        label,
        shader: ShaderRef::Builtin(BuiltinShader::Debug),
        vertex_layout: Some(DebugVertex::layout()),
        instanced: false,
        fragment_entry: FragmentEntry::Main,
        cull_mode: CullMode::Off,
        depth_compare: match depth {
            DebugDepth::Scene => DepthCompare::LessEqual,
            DebugDepth::Overlay => DepthCompare::Always,
        },
        topology: PrimitiveTopology::LineList,
        transparent: true,
        material: false,
        color_target: None,
        depth_only: false,
    }.with_color_target(format)
}

impl PipelineDescriptor {
    /// A plain pipeline: no vertex buffer, main entry, back faces culled,
    /// `Less` depth test, triangle list, opaque, no material, to the
    /// surface.
    pub fn new(label: String, shader: ShaderRef) -> (d: Self)
        ensures
            d.label == label,
            d.shader == shader,
            d.vertex_layout is None,
            !d.instanced,
            d.fragment_entry == FragmentEntry::Main,
            d.cull_mode == CullMode::Back,
            d.depth_compare == DepthCompare::Less,
            d.topology == PrimitiveTopology::TriangleList,
            !d.transparent,
            !d.material,
            d.color_target is None,
            !d.depth_only,
    {
        PipelineDescriptor {
            label,
            shader,
            vertex_layout: None,
            instanced: false,
            fragment_entry: FragmentEntry::Main,
            cull_mode: CullMode::Back,
            depth_compare: DepthCompare::Less,
            topology: PrimitiveTopology::TriangleList,
            transparent: false,
            material: false,
            color_target: None,
            depth_only: false,
        }
    }

    /// The same pipeline rendering to `format` (`None`: the surface).
    pub fn with_color_target(self, format: Option<TextureFormat>) -> (d: Self)
        ensures
            d == (PipelineDescriptor { color_target: format, ..self }),
    {
        PipelineDescriptor { color_target: format, ..self }
    }
}

/// `d` is the depth-only shadow pipeline of a caster layout.
pub open spec fn is_shadow_pipeline(d: PipelineDescriptor, k: ShadowKeyView) -> bool {
    &&& d.label@ == shadow_label(k)
    &&& d.shader@ == ShaderRefView::Builtin(BuiltinShader::Shadow)
    &&& d.vertex_layout matches Some(l) && l.stride == k.stride && l.attributes@ == k.attributes
    &&& d.instanced == k.instanced
    &&& d.fragment_entry == FragmentEntry::Main
    &&& d.cull_mode == if k.double_sided {
        CullMode::Off
    } else {
        CullMode::Back
    }
    &&& d.depth_compare == DepthCompare::Less
    &&& d.topology == PrimitiveTopology::TriangleList
    &&& !d.transparent
    &&& !d.material
    &&& d.color_target is None
    &&& d.depth_only
}

/// The descriptor of the shadow pipeline of a caster layout.
pub fn shadow_pipeline_descriptor(key: &ShadowKey) -> (d: PipelineDescriptor)
    ensures
        is_shadow_pipeline(d, key@),
{
    let mut label = String::from_str("chaos.shadow.");
    append_decimal(&mut label, key.vertex_layout.stride);
    append_if(&mut label, key.double_sided, ".double_sided");
    append_if(&mut label, key.instanced, ".instanced");
    PipelineDescriptor {
        label,
        shader: ShaderRef::Builtin(BuiltinShader::Shadow),
        vertex_layout: Some(key.vertex_layout.duplicate()),
        instanced: key.instanced,
        fragment_entry: FragmentEntry::Main,
        cull_mode: if key.double_sided {
            CullMode::Off
        } else {
            CullMode::Back
        },
        depth_compare: DepthCompare::Less,
        topology: PrimitiveTopology::TriangleList,
        transparent: false,
        material: false,
        color_target: None,
        depth_only: true,
    }
}

// ---------------------------------------------------------------------
// Creation and caches

/// The named shader of a reference is missing from the library.
pub open spec fn unknown_shader(library: Map<Seq<char>, Seq<char>>, shader: ShaderRefView) -> bool {
    shader matches ShaderRefView::Named(name) && !library.contains_key(name)
}

/// `after` is `before` with one more pipeline registered.
pub open spec fn pipeline_registered(after: LifetimeTracker, before: LifetimeTracker) -> bool {
    &&& after.wf()
    &&& after.pipelines() == if before.pipelines() == u64::MAX {
        u64::MAX
    } else {
        (before.pipelines() + 1) as u64
    }
    &&& after.keeps_registries(&before)
    &&& after.retired() == before.retired()
}

/// The source the backend compiles for a reference.
fn shader_source(library: &ShaderLibrary, shader: &ShaderRef) -> (source: Result<ShaderSource, RenderError>)
    requires
        library.wf(),
    ensures
        match shader@ {
            ShaderRefView::Builtin(b) => source matches Ok(s) && s@ == ShaderSourceView::Builtin(b),
            ShaderRefView::Inline(code) => source matches Ok(s) && s@ == ShaderSourceView::Wgsl(code),
            ShaderRefView::Named(name) => if library@.contains_key(name) {
                source matches Ok(s) && s@ == ShaderSourceView::Wgsl(library@[name])
            } else {
                source matches Err(RenderError::UnknownShader { name: n }) && n@ == name
            },
        },
{
    match shader {
        ShaderRef::Builtin(b) => Ok(ShaderSource::Builtin(*b)),
        ShaderRef::Inline(code) => Ok(ShaderSource::Wgsl(code.clone())),
        ShaderRef::Named(name) => match library.get(name) {
            Some(code) => Ok(ShaderSource::Wgsl(code.clone())),
            None => Err(RenderError::UnknownShader { name: name.clone() }),
        },
    }
}

/// Creates a pipeline: its shader resolved in the library (a missing
/// named shader is refused before the backend), then the backend call;
/// a created pipeline is counted.
pub fn create_pipeline<B: GraphicsBackend>(
    backend: &mut B,
    library: &ShaderLibrary,
    lifetime: &mut LifetimeTracker,
    descriptor: &PipelineDescriptor,
) -> (result: Result<PipelineHandle, RenderError>)
    requires
        library.wf(),
        old(lifetime).wf(),
    ensures
        final(lifetime).wf(),
        unknown_shader(library@, descriptor.shader@) ==> {
            &&& result matches Err(RenderError::UnknownShader { name: n })
            &&& descriptor.shader@ == ShaderRefView::Named(n@)
            &&& *final(lifetime) == *old(lifetime)
            &&& *final(backend) == *old(backend)
        },
        !unknown_shader(library@, descriptor.shader@) ==> match result {
            Ok(_) => pipeline_registered(*final(lifetime), *old(lifetime)),
            Err(e) => e is Backend && *final(lifetime) == *old(lifetime),
        },
{
    let source = match shader_source(library, &descriptor.shader) {
        Ok(source) => source,
        Err(e) => return Err(e),
    };
    match backend.create_pipeline(descriptor, &source) {
        Ok(handle) => {
            lifetime.register_pipeline();
            Ok(handle)
        },
        Err(e) => Err(RenderError::Backend(e)),
    }
}

/// No key occurs twice.
pub open spec fn unique_keys<K, V>(entries: Seq<(K, V)>) -> bool {
    forall|i: int, j: int| 0 <= i < j < entries.len() ==> (#[trigger] entries[i]).0 != (#[trigger] entries[j]).0
}

/// The value recorded for the first entry with key `k`, if any.
pub open spec fn find_entry<K, V>(entries: Seq<(K, V)>, k: K) -> Option<V>
    decreases entries.len(),
{
    if entries.len() == 0 {
        None
    } else if entries[0].0 == k {
        Some(entries[0].1)
    } else {
        find_entry(entries.drop_first(), k)
    }
}

pub proof fn lemma_find_entry_prefix<K, V>(entries: Seq<(K, V)>, k: K, i: int)
    requires
        0 <= i <= entries.len(),
        forall|j: int| 0 <= j < i ==> (#[trigger] entries[j]).0 != k,
    ensures
        find_entry(entries, k) == find_entry(entries.subrange(i, entries.len() as int), k),
    decreases i,
{
    if i > 0 {
        assert(entries[0].0 != k);
        let rest = entries.drop_first();
        lemma_find_entry_prefix(rest, k, i - 1);
        assert(rest.subrange(i - 1, rest.len() as int) =~= entries.subrange(i, entries.len() as int));
    } else {
        assert(entries.subrange(0, entries.len() as int) =~= entries);
    }
}

pub proof fn lemma_find_entry_hit<K, V>(entries: Seq<(K, V)>, k: K, i: int)
    requires
        0 <= i < entries.len(),
        entries[i].0 == k,
        forall|j: int| 0 <= j < i ==> (#[trigger] entries[j]).0 != k,
    ensures
        find_entry(entries, k) == Some(entries[i].1),
{
    lemma_find_entry_prefix(entries, k, i);
    let rest = entries.subrange(i, entries.len() as int);
    assert(rest[0] == entries[i]);
}

pub proof fn lemma_find_entry_miss_push<K, V>(entries: Seq<(K, V)>, k: K, v: V)
    requires
        forall|j: int| 0 <= j < entries.len() ==> (#[trigger] entries[j]).0 != k,
    ensures
        find_entry(entries, k) is None,
        find_entry(entries.push((k, v)), k) == Some(v),
{
    lemma_find_entry_prefix(entries, k, entries.len() as int);
    assert(entries.subrange(entries.len() as int, entries.len() as int) =~= Seq::<(K, V)>::empty());
    lemma_find_entry_hit(entries.push((k, v)), k, entries.len() as int);
}

/// An entry pushed for a missing key is the one found for it.
pub proof fn lemma_find_entry_none_push<K, V>(entries: Seq<(K, V)>, k: K, v: V)
    requires
        find_entry(entries, k) is None,
    ensures
        find_entry(entries.push((k, v)), k) == Some(v),
    decreases entries.len(),
{
    let pushed = entries.push((k, v));
    if entries.len() > 0 {
        lemma_find_entry_none_push(entries.drop_first(), k, v);
        assert(pushed.drop_first() =~= entries.drop_first().push((k, v)));
    }
}

/// A key already found keeps its entry when another is pushed.
pub proof fn lemma_find_entry_push_other<K, V>(entries: Seq<(K, V)>, k: K, other: K, v: V)
    requires
        find_entry(entries, k) is Some,
    ensures
        find_entry(entries.push((other, v)), k) == find_entry(entries, k),
    decreases entries.len(),
{
    let pushed = entries.push((other, v));
    if entries.len() > 0 && entries[0].0 != k {
        lemma_find_entry_push_other(entries.drop_first(), k, other, v);
        assert(pushed.drop_first() =~= entries.drop_first().push((other, v)));
    }
}

/// The pipeline a memoizing cache holds for a key (`None`: untried or
/// failed).
pub open spec fn cached_result<K>(entries: Seq<(K, Option<PipelineHandle>)>, k: K) -> Option<PipelineHandle> {
    match find_entry(entries, k) {
        Some(r) => r,
        None => None,
    }
}

/// An entry pushed for `k` makes `k` found.
pub proof fn lemma_find_entry_push_some<K, V>(entries: Seq<(K, V)>, k: K, v: V)
    ensures
        find_entry(entries.push((k, v)), k) is Some,
    decreases entries.len(),
{
    let pushed = entries.push((k, v));
    if entries.len() > 0 && entries[0].0 != k {
        lemma_find_entry_push_some(entries.drop_first(), k, v);
        assert(pushed.drop_first() =~= entries.drop_first().push((k, v)));
    }
}

/// `after` extends `before`: its first entries are `before`'s.
pub open spec fn grows<K, V>(after: Seq<(K, V)>, before: Seq<(K, V)>) -> bool {
    before.len() <= after.len() && after.subrange(0, before.len() as int) == before
}

/// An entry found stays found, the same, as the entries grow.
pub proof fn lemma_find_entry_grows<K, V>(after: Seq<(K, V)>, before: Seq<(K, V)>, k: K)
    requires
        grows(after, before),
        find_entry(before, k) is Some,
    ensures
        find_entry(after, k) == find_entry(before, k),
    decreases before.len(),
{
    if before[0].0 != k {
        assert(after.drop_first().subrange(0, before.drop_first().len() as int) =~= before.drop_first());
        lemma_find_entry_grows(after.drop_first(), before.drop_first(), k);
    }
}

/// Growing chains.
pub proof fn lemma_grows_chain<K, V>(a: Seq<(K, V)>, b: Seq<(K, V)>, c: Seq<(K, V)>)
    requires
        grows(a, b),
        grows(b, c),
    ensures
        grows(a, c),
{
    assert(a.subrange(0, c.len() as int) =~= b.subrange(0, c.len() as int));
}

/// A sequence grows from itself and from what it extends by one entry.
pub proof fn lemma_grows_push<K, V>(s: Seq<(K, V)>, x: (K, V))
    ensures
        grows(s, s),
        grows(s.push(x), s),
{
    assert(s.subrange(0, s.len() as int) =~= s);
    assert(s.push(x).subrange(0, s.len() as int) =~= s);
}

/// The number of failures (`None`) among memoized results.
pub open spec fn failures(results: Seq<Option<PipelineHandle>>) -> nat
    decreases results.len(),
{
    if results.len() == 0 {
        0
    } else {
        failures(results.drop_last()) + if results.last() is None { 1nat } else { 0nat }
    }
}

proof fn lemma_failures_bound(results: Seq<Option<PipelineHandle>>)
    ensures
        failures(results) <= results.len(),
    decreases results.len(),
{
    if results.len() > 0 {
        lemma_failures_bound(results.drop_last());
    }
}

/// The results memoized by a cache, in order.
pub open spec fn results_of<K>(entries: Seq<(K, Option<PipelineHandle>)>) -> Seq<Option<PipelineHandle>> {
    Seq::new(entries.len(), |i: int| entries[i].1)
}

fn count_failures(results: &Vec<Option<PipelineHandle>>) -> (n: usize)
    ensures
        n == failures(results@),
{
    let mut n: usize = 0;
    let mut i: usize = 0;
    while i < results.len()
        invariant
            i <= results@.len(),
            n == failures(results@.subrange(0, i as int)),
            n <= i,
        decreases results@.len() - i,
    {
        proof {
            assert(results@.subrange(0, i + 1).drop_last() =~= results@.subrange(0, i as int));
        }
        if results[i].is_none() {
            n = n + 1;
        }
        i = i + 1;
    }
    assert(results@.subrange(0, i as int) =~= results@);
    n
}

/// The five permutation caches.
pub struct PipelineCaches {
    materials: Vec<(PipelineKey, PipelineHandle)>,
    instanced: Vec<(PipelineKey, Option<PipelineHandle>)>,
    sky: Vec<(Option<TextureFormat>, Option<PipelineHandle>)>,
    debug: Vec<(Option<TextureFormat>, DebugDepth, Option<PipelineHandle>)>,
    shadow: Vec<(ShadowKey, Option<PipelineHandle>)>,
    requests: Ghost<Seq<(PipelineDescriptor, Result<PipelineHandle, BackendError>)>>,
}

/// A pipeline creation asked of the backend, with its answer.
pub type PipelineRequest = (PipelineDescriptor, Result<PipelineHandle, BackendError>);

/// `after` is `before` with one more request.
pub open spec fn requested_one(after: Seq<PipelineRequest>, before: Seq<PipelineRequest>) -> bool {
    after.len() == before.len() + 1 && after.drop_last() == before
}

/// The handle a cache keeps for a creation answered `a`.
pub open spec fn kept(a: Result<PipelineHandle, BackendError>) -> Option<PipelineHandle> {
    match a {
        Ok(h) => Some(h),
        Err(_) => None,
    }
}

/// A resolution answered as the backend answered `a`.
pub open spec fn answered_as(result: Result<PipelineHandle, RenderError>, a: Result<PipelineHandle, BackendError>) -> bool {
    match a {
        Ok(h) => result == Ok::<PipelineHandle, RenderError>(h),
        Err(e) => result == Err::<PipelineHandle, RenderError>(RenderError::Backend(e)),
    }
}

impl PipelineCaches {
    /// The descriptors handed to the backend's pipeline creation, oldest
    /// first.
    pub closed spec fn requested(&self) -> Seq<PipelineRequest> {
        self.requests@
    }

    /// Creates a pipeline, recording its descriptor when the backend is
    /// asked.
    fn request<B: GraphicsBackend>(
        &mut self,
        backend: &mut B,
        library: &ShaderLibrary,
        lifetime: &mut LifetimeTracker,
        descriptor: &PipelineDescriptor,
    ) -> (result: Result<PipelineHandle, RenderError>)
        requires
            library.wf(),
            old(lifetime).wf(),
        ensures
            final(lifetime).wf(),
            final(self).materials == old(self).materials,
            final(self).instanced == old(self).instanced,
            final(self).sky == old(self).sky,
            final(self).debug == old(self).debug,
            final(self).shadow == old(self).shadow,
            grows(final(self).requested(), old(self).requested()),
            unknown_shader(library@, descriptor.shader@) ==> {
                &&& result matches Err(RenderError::UnknownShader { name: n })
                &&& descriptor.shader@ == ShaderRefView::Named(n@)
                &&& *final(lifetime) == *old(lifetime)
                &&& *final(backend) == *old(backend)
                &&& final(self).requested() == old(self).requested()
            },
            !unknown_shader(library@, descriptor.shader@) ==> {
                &&& requested_one(final(self).requested(), old(self).requested())
                &&& final(self).requested().last().0 == *descriptor
                &&& answered_as(result, final(self).requested().last().1)
                &&& match result {
                    Ok(_) => pipeline_registered(*final(lifetime), *old(lifetime)),
                    Err(e) => e is Backend && *final(lifetime) == *old(lifetime),
                }
            },
    {
        let result = create_pipeline(backend, library, lifetime, descriptor);
        proof {
            lemma_grows_push(self.requests@, arbitrary());
            if !unknown_shader(library@, descriptor.shader@) {
                let answer: Result<PipelineHandle, BackendError> = if result is Ok {
                    Ok(result->Ok_0)
                } else if result->Err_0 is Backend {
                    Err(result->Err_0->Backend_0)
                } else {
                    Err(arbitrary())
                };
                lemma_grows_push(self.requests@, (*descriptor, answer));
                self.requests@ = self.requests@.push((*descriptor, answer));
                assert(self.requests@.drop_last() =~= old(self).requests@);
            }
        }
        result
    }

    /// The material permutations created.
    pub closed spec fn material_entries(&self) -> Seq<(KeyView, PipelineHandle)> {
        Seq::new(self.materials@.len(), |i: int| (self.materials@[i].0@, self.materials@[i].1))
    }

    /// The instanced permutations tried (`None`: creation failed).
    pub closed spec fn instanced_entries(&self) -> Seq<(KeyView, Option<PipelineHandle>)> {
        Seq::new(self.instanced@.len(), |i: int| (self.instanced@[i].0@, self.instanced@[i].1))
    }

    /// The sky permutations tried, by destination format.
    pub closed spec fn sky_entries(&self) -> Seq<(Option<TextureFormat>, Option<PipelineHandle>)> {
        self.sky@
    }

    /// The debug permutations tried, by destination format and depth mode.
    pub closed spec fn debug_entries(&self) -> Seq<((Option<TextureFormat>, DebugDepth), Option<PipelineHandle>)> {
        Seq::new(self.debug@.len(), |i: int| ((self.debug@[i].0, self.debug@[i].1), self.debug@[i].2))
    }

    /// The shadow permutations tried.
    pub closed spec fn shadow_entries(&self) -> Seq<(ShadowKeyView, Option<PipelineHandle>)> {
        Seq::new(self.shadow@.len(), |i: int| (self.shadow@[i].0@, self.shadow@[i].1))
    }

    /// No cache holds a key twice.
    pub closed spec fn wf(&self) -> bool {
        &&& unique_keys(self.material_entries())
        &&& unique_keys(self.instanced_entries())
        &&& unique_keys(self.sky_entries())
        &&& unique_keys(self.debug_entries())
        &&& unique_keys(self.shadow_entries())
    }

    /// Every cache of `self` extends that of `earlier`.
    pub open spec fn grows_from(&self, earlier: &Self) -> bool {
        &&& grows(self.material_entries(), earlier.material_entries())
        &&& grows(self.instanced_entries(), earlier.instanced_entries())
        &&& grows(self.sky_entries(), earlier.sky_entries())
        &&& grows(self.debug_entries(), earlier.debug_entries())
        &&& grows(self.shadow_entries(), earlier.shadow_entries())
        &&& grows(self.requested(), earlier.requested())
    }

    /// Every cache grows from itself.
    pub proof fn lemma_grows_refl(&self)
        ensures
            self.grows_from(self),
    {
        lemma_grows_push(self.material_entries(), arbitrary());
        lemma_grows_push(self.instanced_entries(), arbitrary());
        lemma_grows_push(self.sky_entries(), arbitrary());
        lemma_grows_push(self.debug_entries(), arbitrary());
        lemma_grows_push(self.shadow_entries(), arbitrary());
        lemma_grows_push(self.requested(), arbitrary());
    }

    /// Growing chains.
    pub proof fn lemma_grows_from_chain(&self, middle: &Self, earlier: &Self)
        requires
            self.grows_from(middle),
            middle.grows_from(earlier),
        ensures
            self.grows_from(earlier),
    {
        lemma_grows_chain(self.material_entries(), middle.material_entries(), earlier.material_entries());
        lemma_grows_chain(self.instanced_entries(), middle.instanced_entries(), earlier.instanced_entries());
        lemma_grows_chain(self.sky_entries(), middle.sky_entries(), earlier.sky_entries());
        lemma_grows_chain(self.debug_entries(), middle.debug_entries(), earlier.debug_entries());
        lemma_grows_chain(self.shadow_entries(), middle.shadow_entries(), earlier.shadow_entries());
        lemma_grows_chain(self.requested(), middle.requested(), earlier.requested());
    }

    /// The memoized failures over the four memoizing caches.
    pub open spec fn degraded(&self) -> nat {
        failures(results_of(self.instanced_entries())) + failures(results_of(self.sky_entries())) + failures(
            results_of(self.debug_entries()),
        ) + failures(results_of(self.shadow_entries()))
    }

    /// Empty caches.
    pub fn new() -> (caches: Self)
        ensures
            caches.material_entries() == Seq::<(KeyView, PipelineHandle)>::empty(),
            caches.instanced_entries() == Seq::<(KeyView, Option<PipelineHandle>)>::empty(),
            caches.sky_entries() == Seq::<(Option<TextureFormat>, Option<PipelineHandle>)>::empty(),
            caches.debug_entries() == Seq::<((Option<TextureFormat>, DebugDepth), Option<PipelineHandle>)>::empty(),
            caches.shadow_entries() == Seq::<(ShadowKeyView, Option<PipelineHandle>)>::empty(),
            caches.requested() == Seq::<PipelineRequest>::empty(),
            caches.wf(),
    {
        let caches = PipelineCaches {
            materials: Vec::new(),
            instanced: Vec::new(),
            sky: Vec::new(),
            debug: Vec::new(),
            shadow: Vec::new(),
            requests: Ghost(Seq::empty()),
        };
        assert(caches.material_entries() =~= Seq::<(KeyView, PipelineHandle)>::empty());
        assert(caches.instanced_entries() =~= Seq::<(KeyView, Option<PipelineHandle>)>::empty());
        assert(caches.debug_entries() =~= Seq::<((Option<TextureFormat>, DebugDepth), Option<PipelineHandle>)>::empty());
        assert(caches.shadow_entries() =~= Seq::<(ShadowKeyView, Option<PipelineHandle>)>::empty());
        caches
    }

    /// Resolves the permutation of a material state: the cached pipeline
    /// when this permutation was created before (two materials of the same
    /// model and state share one GPU pipeline), else a creation whose
    /// success is cached. A failure is returned, not cached.
    pub fn resolve_material<B: GraphicsBackend>(
        &mut self,
        backend: &mut B,
        library: &ShaderLibrary,
        lifetime: &mut LifetimeTracker,
        key: &PipelineKey,
    ) -> (result: Result<PipelineHandle, RenderError>)
        requires
            old(self).wf(),
            library.wf(),
            old(lifetime).wf(),
        ensures
            final(self).wf(),
            final(lifetime).wf(),
            final(self).instanced_entries() == old(self).instanced_entries(),
            final(self).sky_entries() == old(self).sky_entries(),
            final(self).debug_entries() == old(self).debug_entries(),
            final(self).shadow_entries() == old(self).shadow_entries(),
            match find_entry(old(self).material_entries(), key@) {
                Some(h) => {
                    &&& result == Ok::<PipelineHandle, RenderError>(h)
                    &&& final(self).material_entries() == old(self).material_entries()
                    &&& *final(lifetime) == *old(lifetime)
                    &&& *final(backend) == *old(backend)
                },
                None => match result {
                    Ok(h) => {
                        &&& final(self).material_entries() == old(self).material_entries().push((key@, h))
                        &&& pipeline_registered(*final(lifetime), *old(lifetime))
                    },
                    Err(e) => {
                        &&& final(self).material_entries() == old(self).material_entries()
                        &&& *final(lifetime) == *old(lifetime)
                        &&& if unknown_shader(library@, spec_shader_ref(key@.model)) {
                            e matches RenderError::UnknownShader { name } && spec_shader_ref(key@.model)
                                == ShaderRefView::Named(name@)
                        } else {
                            e is Backend
                        }
                    },
                },
            },
            match find_entry(old(self).material_entries(), key@) {
                Some(_) => final(self).requested() == old(self).requested(),
                None => if unknown_shader(library@, spec_shader_ref(key@.model)) {
                    final(self).requested() == old(self).requested()
                } else {
                    requested_one(final(self).requested(), old(self).requested())
                        && is_material_pipeline(final(self).requested().last().0, key@)
                        && answered_as(result, final(self).requested().last().1)
                },
            },
            grows(final(self).requested(), old(self).requested()),
    {
        proof {
            lemma_grows_push(self.requested(), arbitrary());
        }
        let mut i: usize = 0;
        while i < self.materials.len()
            invariant
                i <= self.materials@.len(),
                self.wf(),
                lifetime.wf(),
                forall|j: int| 0 <= j < i ==> (#[trigger] self.material_entries()[j]).0 != key@,
            decreases self.materials@.len() - i,
        {
            if self.materials[i].0.same_as(key) {
                proof {
                    lemma_find_entry_hit(self.material_entries(), key@, i as int);
                    lemma_grows_push(self.requested(), arbitrary());
                }
                return Ok(self.materials[i].1);
            }
            i = i + 1;
        }
        proof {
            lemma_find_entry_miss_push(self.material_entries(), key@, PipelineHandle { index: 0 });
        }
        let descriptor = material_pipeline_descriptor(key);
        let created = self.request(backend, library, lifetime, &descriptor);
        if let Ok(handle) = created {
            let ghost before = self.material_entries();
            self.materials.push((key.duplicate(), handle));
            assert(self.material_entries() =~= before.push((key@, handle)));
        }
        created
    }
    /// Resolves the instanced permutation of a material state (entry
    /// `vs_instanced`, per-instance transforms): memoized, a failure
    /// included — its runs then stay classic draws.
    pub fn resolve_instanced<B: GraphicsBackend>(
        &mut self,
        backend: &mut B,
        library: &ShaderLibrary,
        lifetime: &mut LifetimeTracker,
        key: &PipelineKey,
    ) -> (result: Option<PipelineHandle>)
        requires
            old(self).wf(),
            library.wf(),
            old(lifetime).wf(),
            key.instanced,
        ensures
            final(self).wf(),
            final(lifetime).wf(),
            final(self).material_entries() == old(self).material_entries(),
            final(self).sky_entries() == old(self).sky_entries(),
            final(self).debug_entries() == old(self).debug_entries(),
            final(self).shadow_entries() == old(self).shadow_entries(),
            match find_entry(old(self).instanced_entries(), key@) {
                Some(v) => {
                    &&& result == v
                    &&& final(self).instanced_entries() == old(self).instanced_entries()
                    &&& *final(lifetime) == *old(lifetime)
                    &&& *final(backend) == *old(backend)
                },
                None => {
                    &&& final(self).instanced_entries() == old(self).instanced_entries().push((key@, result))
                    &&& unknown_shader(library@, spec_shader_ref(key@.model)) ==> result is None
                    &&& result is Some ==> pipeline_registered(*final(lifetime), *old(lifetime))
                    &&& result is None ==> *final(lifetime) == *old(lifetime)
                },
            },
            match find_entry(old(self).instanced_entries(), key@) {
                Some(_) => final(self).requested() == old(self).requested(),
                None => if unknown_shader(library@, spec_shader_ref(key@.model)) {
                    final(self).requested() == old(self).requested()
                } else {
                    requested_one(final(self).requested(), old(self).requested())
                        && is_material_pipeline(final(self).requested().last().0, key@)
                        && result == kept(final(self).requested().last().1)
                },
            },
            grows(final(self).requested(), old(self).requested()),
    {
        proof {
            lemma_grows_push(self.requested(), arbitrary());
        }
        let mut i: usize = 0;
        while i < self.instanced.len()
            invariant
                i <= self.instanced@.len(),
                self.wf(),
                lifetime.wf(),
                forall|j: int| 0 <= j < i ==> (#[trigger] self.instanced_entries()[j]).0 != key@,
            decreases self.instanced@.len() - i,
        {
            if self.instanced[i].0.same_as(key) {
                proof {
                    lemma_find_entry_hit(self.instanced_entries(), key@, i as int);
                    lemma_grows_push(self.requested(), arbitrary());
                }
                return self.instanced[i].1;
            }
            i = i + 1;
        }
        proof {
            lemma_find_entry_miss_push(self.instanced_entries(), key@, None);
        }
        let descriptor = material_pipeline_descriptor(key);
        let result = match self.request(backend, library, lifetime, &descriptor) {
            Ok(handle) => Some(handle),
            Err(_) => None,
        };
        let ghost before = self.instanced_entries();
        self.instanced.push((key.duplicate(), result));
        assert(self.instanced_entries() =~= before.push((key@, result)));
        result
    }

    /// Resolves the sky permutation of a destination: memoized, a failure
    /// included — the sky is then dropped, never the frame.
    pub fn resolve_sky<B: GraphicsBackend>(
        &mut self,
        backend: &mut B,
        library: &ShaderLibrary,
        lifetime: &mut LifetimeTracker,
        format: Option<TextureFormat>,
    ) -> (result: Option<PipelineHandle>)
        requires
            old(self).wf(),
            library.wf(),
            old(lifetime).wf(),
        ensures
            final(self).wf(),
            final(lifetime).wf(),
            final(self).material_entries() == old(self).material_entries(),
            final(self).instanced_entries() == old(self).instanced_entries(),
            final(self).debug_entries() == old(self).debug_entries(),
            final(self).shadow_entries() == old(self).shadow_entries(),
            match find_entry(old(self).sky_entries(), format) {
                Some(v) => {
                    &&& result == v
                    &&& final(self).sky_entries() == old(self).sky_entries()
                    &&& *final(lifetime) == *old(lifetime)
                    &&& *final(backend) == *old(backend)
                },
                None => {
                    &&& final(self).sky_entries() == old(self).sky_entries().push((format, result))
                    &&& result is Some ==> pipeline_registered(*final(lifetime), *old(lifetime))
                    &&& result is None ==> *final(lifetime) == *old(lifetime)
                },
            },
            match find_entry(old(self).sky_entries(), format) {
                Some(_) => final(self).requested() == old(self).requested(),
                None => requested_one(final(self).requested(), old(self).requested()) && is_sky_pipeline(
                    final(self).requested().last().0,
                    format,
                ) && result == kept(final(self).requested().last().1),
            },
            grows(final(self).requested(), old(self).requested()),
    {
        proof {
            lemma_grows_push(self.requested(), arbitrary());
        }
        let mut i: usize = 0;
        while i < self.sky.len()
            invariant
                i <= self.sky@.len(),
                self.wf(),
                lifetime.wf(),
                forall|j: int| 0 <= j < i ==> (#[trigger] self.sky_entries()[j]).0 != format,
            decreases self.sky@.len() - i,
        {
            if self.sky[i].0 == format {
                proof {
                    lemma_find_entry_hit(self.sky_entries(), format, i as int);
                    lemma_grows_push(self.requested(), arbitrary());
                }
                return self.sky[i].1;
            }
            i = i + 1;
        }
        proof {
            lemma_find_entry_miss_push(self.sky_entries(), format, None);
        }
        let descriptor = sky_pipeline_descriptor(format);
        let result = match self.request(backend, library, lifetime, &descriptor) {
            Ok(handle) => Some(handle),
            Err(_) => None,
        };
        self.sky.push((format, result));
        result
    }

    /// Resolves the debug permutation of a destination and depth mode:
    /// memoized, a failure included — the debug lines are then dropped.
    pub fn resolve_debug<B: GraphicsBackend>(
        &mut self,
        backend: &mut B,
        library: &ShaderLibrary,
        lifetime: &mut LifetimeTracker,
        format: Option<TextureFormat>,
        depth: DebugDepth,
    ) -> (result: Option<PipelineHandle>)
        requires
            old(self).wf(),
            library.wf(),
            old(lifetime).wf(),
        ensures
            final(self).wf(),
            final(lifetime).wf(),
            final(self).material_entries() == old(self).material_entries(),
            final(self).instanced_entries() == old(self).instanced_entries(),
            final(self).sky_entries() == old(self).sky_entries(),
            final(self).shadow_entries() == old(self).shadow_entries(),
            match find_entry(old(self).debug_entries(), (format, depth)) {
                Some(v) => {
                    &&& result == v
                    &&& final(self).debug_entries() == old(self).debug_entries()
                    &&& *final(lifetime) == *old(lifetime)
                    &&& *final(backend) == *old(backend)
                },
                None => {
                    &&& final(self).debug_entries() == old(self).debug_entries().push(((format, depth), result))
                    &&& result is Some ==> pipeline_registered(*final(lifetime), *old(lifetime))
                    &&& result is None ==> *final(lifetime) == *old(lifetime)
                },
            },
            match find_entry(old(self).debug_entries(), (format, depth)) {
                Some(_) => final(self).requested() == old(self).requested(),
                None => requested_one(final(self).requested(), old(self).requested()) && is_debug_pipeline(
                    final(self).requested().last().0,
                    format,
                    depth,
                ) && result == kept(final(self).requested().last().1),
            },
            grows(final(self).requested(), old(self).requested()),
    {
        proof {
            lemma_grows_push(self.requested(), arbitrary());
        }
        let mut i: usize = 0;
        while i < self.debug.len()
            invariant
                i <= self.debug@.len(),
                self.wf(),
                lifetime.wf(),
                forall|j: int| 0 <= j < i ==> (#[trigger] self.debug_entries()[j]).0 != (format, depth),
            decreases self.debug@.len() - i,
        {
            if self.debug[i].0 == format && self.debug[i].1 == depth {
                proof {
                    lemma_find_entry_hit(self.debug_entries(), (format, depth), i as int);
                    lemma_grows_push(self.requested(), arbitrary());
                }
                return self.debug[i].2;
            }
            i = i + 1;
        }
        proof {
            lemma_find_entry_miss_push(self.debug_entries(), (format, depth), None);
        }
        let descriptor = debug_pipeline_descriptor(format, depth);
        let result = match self.request(backend, library, lifetime, &descriptor) {
            Ok(handle) => Some(handle),
            Err(_) => None,
        };
        let ghost before = self.debug_entries();
        self.debug.push((format, depth, result));
        assert(self.debug_entries() =~= before.push(((format, depth), result)));
        result
    }

    /// Resolves the shadow permutation of a caster layout: memoized, a
    /// failure included. A layout without a `Float32x3` position at
    /// location 0 fails without reaching the backend.
    pub fn resolve_shadow<B: GraphicsBackend>(
        &mut self,
        backend: &mut B,
        library: &ShaderLibrary,
        lifetime: &mut LifetimeTracker,
        key: &ShadowKey,
    ) -> (result: Option<PipelineHandle>)
        requires
            old(self).wf(),
            library.wf(),
            old(lifetime).wf(),
        ensures
            final(self).wf(),
            final(lifetime).wf(),
            final(self).material_entries() == old(self).material_entries(),
            final(self).instanced_entries() == old(self).instanced_entries(),
            final(self).sky_entries() == old(self).sky_entries(),
            final(self).debug_entries() == old(self).debug_entries(),
            match find_entry(old(self).shadow_entries(), key@) {
                Some(v) => {
                    &&& result == v
                    &&& final(self).shadow_entries() == old(self).shadow_entries()
                    &&& *final(lifetime) == *old(lifetime)
                    &&& *final(backend) == *old(backend)
                },
                None => {
                    &&& final(self).shadow_entries() == old(self).shadow_entries().push((key@, result))
                    &&& !spec_has_position(key.vertex_layout) ==> {
                        &&& result is None
                        &&& *final(backend) == *old(backend)
                    }
                    &&& result is Some ==> pipeline_registered(*final(lifetime), *old(lifetime))
                    &&& result is None ==> *final(lifetime) == *old(lifetime)
                },
            },
            match find_entry(old(self).shadow_entries(), key@) {
                Some(_) => final(self).requested() == old(self).requested(),
                None => if spec_has_position(key.vertex_layout) {
                    requested_one(final(self).requested(), old(self).requested()) && is_shadow_pipeline(
                        final(self).requested().last().0,
                        key@,
                    ) && result == kept(final(self).requested().last().1)
                } else {
                    final(self).requested() == old(self).requested()
                },
            },
            grows(final(self).requested(), old(self).requested()),
    {
        proof {
            lemma_grows_push(self.requested(), arbitrary());
        }
        let mut i: usize = 0;
        while i < self.shadow.len()
            invariant
                i <= self.shadow@.len(),
                self.wf(),
                lifetime.wf(),
                forall|j: int| 0 <= j < i ==> (#[trigger] self.shadow_entries()[j]).0 != key@,
            decreases self.shadow@.len() - i,
        {
            let entry = &self.shadow[i].0;
            if entry.double_sided == key.double_sided && entry.instanced == key.instanced
                && entry.vertex_layout.same_as(&key.vertex_layout) {
                proof {
                    lemma_find_entry_hit(self.shadow_entries(), key@, i as int);
                    lemma_grows_push(self.requested(), arbitrary());
                }
                return self.shadow[i].1;
            }
            i = i + 1;
        }
        proof {
            lemma_find_entry_miss_push(self.shadow_entries(), key@, None);
        }
        let result = if !key.vertex_layout.has_position() {
            None
        } else {
            let descriptor = shadow_pipeline_descriptor(key);
            match self.request(backend, library, lifetime, &descriptor) {
                Ok(handle) => Some(handle),
                Err(_) => None,
            }
        };
        let ghost before = self.shadow_entries();
        let copy = ShadowKey {
            vertex_layout: key.vertex_layout.duplicate(),
            double_sided: key.double_sided,
            instanced: key.instanced,
        };
        self.shadow.push((copy, result));
        assert(self.shadow_entries() =~= before.push((key@, result)));
        result
    }

    /// The number of memoized failures.
    pub fn degraded_count(&self) -> (n: usize)
        ensures
            n == crate::frame::sat(self.degraded() as int),
    {
        let mut results: Vec<Option<PipelineHandle>> = Vec::new();
        let mut i: usize = 0;
        while i < self.instanced.len()
            invariant
                i <= self.instanced@.len(),
                results@ == results_of(self.instanced_entries()).subrange(0, i as int),
            decreases self.instanced@.len() - i,
        {
            results.push(self.instanced[i].1);
            i = i + 1;
            assert(results@ =~= results_of(self.instanced_entries()).subrange(0, i as int));
        }
        assert(results@ =~= results_of(self.instanced_entries()));
        let a = count_failures(&results);
        let mut results: Vec<Option<PipelineHandle>> = Vec::new();
        let mut i: usize = 0;
        while i < self.sky.len()
            invariant
                i <= self.sky@.len(),
                results@ == results_of(self.sky_entries()).subrange(0, i as int),
            decreases self.sky@.len() - i,
        {
            results.push(self.sky[i].1);
            i = i + 1;
            assert(results@ =~= results_of(self.sky_entries()).subrange(0, i as int));
        }
        assert(results@ =~= results_of(self.sky_entries()));
        let b = count_failures(&results);
        let mut results: Vec<Option<PipelineHandle>> = Vec::new();
        let mut i: usize = 0;
        while i < self.debug.len()
            invariant
                i <= self.debug@.len(),
                results@ == results_of(self.debug_entries()).subrange(0, i as int),
            decreases self.debug@.len() - i,
        {
            results.push(self.debug[i].2);
            i = i + 1;
            assert(results@ =~= results_of(self.debug_entries()).subrange(0, i as int));
        }
        assert(results@ =~= results_of(self.debug_entries()));
        let c = count_failures(&results);
        let mut results: Vec<Option<PipelineHandle>> = Vec::new();
        let mut i: usize = 0;
        while i < self.shadow.len()
            invariant
                i <= self.shadow@.len(),
                results@ == results_of(self.shadow_entries()).subrange(0, i as int),
            decreases self.shadow@.len() - i,
        {
            results.push(self.shadow[i].1);
            i = i + 1;
            assert(results@ =~= results_of(self.shadow_entries()).subrange(0, i as int));
        }
        assert(results@ =~= results_of(self.shadow_entries()));
        let d = count_failures(&results);
        a.saturating_add(b).saturating_add(c).saturating_add(d)
    }
}

} // verus!
