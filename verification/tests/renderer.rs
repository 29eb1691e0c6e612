use std::sync::{Arc, Mutex};

use chaos_renderer::backend::{DeviceLimits, GraphicsBackend, ShadowConfig};
use chaos_renderer::capabilities::{CapabilityDecision, CapabilityStatus, RendererCapabilities};
use chaos_renderer::batching::FrameDraw;
use chaos_renderer::descriptors::{
    BufferDescriptor, BufferKind, RenderTargetDescriptor, SamplerAddressMode, SamplerDescriptor,
    SamplerFilter, TextureDescriptor, TextureMips, TextureUsage,
};
use chaos_renderer::error::{BackendError, RenderError};
use chaos_renderer::debug::{DebugDepth, DebugDraw, DebugStats, DebugVertex};
use chaos_renderer::frame::{DrawBreakdown, FrameOutcome, ShadowReport, ShadowStats, FramePlan, FrameSkipReason, GpuFrameTime, PassOutcome};
use chaos_renderer::geometry::{Geometry, LitGeometry, TexturedGeometry};
use chaos_renderer::lights::{valid_light, Light};
use chaos_renderer::handles::{
    BindingHandle, BufferHandle, MaterialHandle, PassHandle, PipelineHandle, RenderTargetHandle,
    SamplerHandle, TextureHandle,
};
use chaos_renderer::layout::{ColorVertex, LitVertex, TexturedVertex};
use chaos_renderer::materials::{
    MaterialBindingDescriptor, MaterialDescriptor, MaterialModel, MaterialOpacity, MaterialParams,
};
use chaos_renderer::math::{Aabb, Color, Mat4, Transform, Vec3};
use chaos_renderer::mips::{downsample, resolve_mips};
use chaos_renderer::passes::{DrawCommand, PassLoad, RenderDestination, RenderPassDescriptor};
use chaos_renderer::layout::{VertexAttributeFormat, VertexLayout};
use chaos_renderer::lifetime::{KindStats, LifetimeTracker};
use chaos_renderer::pipelines::{
    DepthCompare, FragmentEntry, PipelineCaches, PipelineDescriptor, PrimitiveTopology, ShadowKey,
};
use chaos_renderer::renderer::resolve::DrawFacts;
use chaos_renderer::renderer::lighting::{DirectionalShadowDescriptor, EnvironmentDescriptor, ShadowVolume};
use chaos_renderer::renderer::resources::BuiltinTexture;
use chaos_renderer::renderer::Renderer;
use chaos_renderer::shaders::{ShaderLibrary, ShaderRef, ShaderSource};
use chaos_renderer::textures::{TextureFormat, TextureKind};

// ---------------------------------------------------------------------
// The journaling backend.

#[derive(Clone, Default)]
struct Journal(Arc<Mutex<Vec<String>>>);

impl Journal {
    fn entries(&self) -> Vec<String> {
        self.0.lock().unwrap().clone()
    }

    fn push(&self, entry: String) {
        self.0.lock().unwrap().push(entry);
    }
}

struct MockBackend {
    journal: Journal,
    outcome: FrameOutcome,
    limits: DeviceLimits,
    buffers: u32,
    textures: u32,
    samplers: u32,
    targets: u32,
    pipelines: u32,
    bindings: u32,
    /// Pipelines whose label holds this text fail to create.
    refused_pipelines: Option<String>,
}

fn float(bits: u32) -> f32 {
    f32::from_bits(bits)
}

fn vec3_text(v: Vec3) -> String {
    format!("({}, {}, {})", float(v.x), float(v.y), float(v.z))
}

fn color_text(c: Color) -> String {
    format!("({}, {}, {}, {})", float(c.r), float(c.g), float(c.b), float(c.a))
}

fn translation_text(m: &Mat4) -> String {
    format!("[{}, {}, {}]", float(m.cols[3][0]), float(m.cols[3][1]), float(m.cols[3][2]))
}

fn option_index<T>(value: Option<T>, index: impl Fn(T) -> u32) -> String {
    match value {
        Some(v) => format!("Some({})", index(v)),
        None => String::from("None"),
    }
}

fn draw_text(draw: &FrameDraw) -> String {
    let mut text = format!(
        "({}, {}, {}, {}, b={}, m={})",
        draw.pipeline.index,
        option_index(draw.vertex_buffer, |b| b.index),
        option_index(draw.index_buffer, |b| b.index),
        draw.element_count,
        option_index(draw.binding, |b| b.index),
        translation_text(&draw.model)
    );
    if let Some(range) = draw.instances {
        text.pop();
        text.push_str(&format!(", inst={})", range.count));
    }
    text
}

/// The parameters away from their defaults.
fn params_text(params: &MaterialParams) -> String {
    let mut text = String::new();
    if params.metallic != 0 || params.roughness != 1.0f32.to_bits() {
        text.push_str(&format!(" metallic={} roughness={}", float(params.metallic), float(params.roughness)));
    }
    if params.emissive.r != 0 || params.emissive.g != 0 || params.emissive.b != 0 {
        let e = params.emissive;
        text.push_str(&format!(" emissive=({}, {}, {})", float(e.r), float(e.g), float(e.b)));
    }
    if params.alpha_cutoff != 0.5f32.to_bits() {
        text.push_str(&format!(" cutoff={}", float(params.alpha_cutoff)));
    }
    if !params.receive_shadows {
        text.push_str(" recv=off");
    }
    text
}

fn draws_text(draws: &[FrameDraw]) -> String {
    let entries: Vec<String> = draws.iter().map(draw_text).collect();
    format!("[{}]", entries.join(", "))
}

impl MockBackend {
    fn new(journal: Journal, outcome: FrameOutcome, limits: DeviceLimits) -> Self {
        MockBackend {
            journal,
            outcome,
            limits,
            buffers: 0,
            textures: 0,
            samplers: 0,
            targets: 0,
            pipelines: 0,
            bindings: 0,
            refused_pipelines: None,
        }
    }
}

impl GraphicsBackend for MockBackend {
    fn capabilities(&self) -> RendererCapabilities {
        RendererCapabilities {
            backend: String::from("mock"),
            adapter: String::from("journal"),
            limits: self.limits,
            decisions: vec![CapabilityDecision {
                domain: String::from("timestamp queries"),
                status: CapabilityStatus::Disabled { reason: String::from("the mock backend measures no GPU time") },
            }],
        }
    }

    fn description(&self) -> String {
        String::from("mock backend")
    }

    fn create_buffer(&mut self, d: &BufferDescriptor) -> Result<BufferHandle, BackendError> {
        let kind = match d.kind {
            BufferKind::Vertex => "Vertex",
            BufferKind::Index => "Index",
            BufferKind::Uniform => "Uniform",
        };
        self.journal.push(format!("create_buffer {} kind={} bytes={}", d.label, kind, d.contents.len()));
        let handle = BufferHandle { index: self.buffers, generation: 0 };
        self.buffers += 1;
        Ok(handle)
    }

    fn create_texture(&mut self, d: &TextureDescriptor) -> Result<TextureHandle, BackendError> {
        let usage = match d.usage {
            TextureUsage::Sampled => "Sampled",
            TextureUsage::RenderTarget => "RenderTarget",
        };
        let mut entry = format!(
            "create_texture {} {}x{} format={:?} usage={} bytes={}",
            d.label,
            d.width,
            d.height,
            d.format,
            usage,
            d.pixels.len()
        );
        if let TextureMips::Provided(levels) = d.mips {
            if levels > 1 {
                entry.push_str(&format!(" levels={levels}"));
            }
        }
        if d.mips == TextureMips::Generate {
            entry.push_str(" levels=auto");
        }
        if d.kind == TextureKind::Cube {
            entry.push_str(" kind=Cube");
        }
        self.journal.push(entry);
        let handle = TextureHandle { index: self.textures, generation: 0 };
        self.textures += 1;
        Ok(handle)
    }

    fn update_texture(&mut self, texture: TextureHandle, pixels: &[u8]) -> Result<(), BackendError> {
        self.journal.push(format!("update_texture index={} bytes={}", texture.index, pixels.len()));
        Ok(())
    }

    fn create_sampler(&mut self, d: &SamplerDescriptor) -> Result<SamplerHandle, BackendError> {
        let mut entry = format!("create_sampler {} filter={:?} address={:?}", d.label, d.filter, d.address);
        if d.mip_filter != SamplerFilter::Nearest {
            entry.push_str(&format!(" mips={:?}", d.mip_filter));
        }
        if d.anisotropy > 1 {
            entry.push_str(&format!(" aniso={}", d.anisotropy));
        }
        self.journal.push(entry);
        let handle = SamplerHandle { index: self.samplers, generation: 0 };
        self.samplers += 1;
        Ok(handle)
    }

    fn create_render_target(
        &mut self,
        d: &RenderTargetDescriptor,
    ) -> Result<(RenderTargetHandle, TextureHandle), BackendError> {
        self.journal.push(format!("create_render_target {} {}x{} format={:?}", d.label, d.width, d.height, d.format));
        let target = RenderTargetHandle { index: self.targets, generation: 0 };
        let color = TextureHandle { index: self.textures, generation: 0 };
        self.targets += 1;
        self.textures += 1;
        Ok((target, color))
    }

    fn create_pipeline(&mut self, d: &PipelineDescriptor, shader: &ShaderSource) -> Result<PipelineHandle, BackendError> {
        if let Some(refused) = &self.refused_pipelines {
            if d.label.contains(refused.as_str()) {
                return Err(BackendError { message: format!("pipeline {} refused", d.label) });
            }
        }
        let code = match shader {
            ShaderSource::Builtin(builtin) => format!("builtin:{builtin:?}"),
            ShaderSource::Wgsl(code) => code.clone(),
        };
        let mut entry = format!("create_pipeline {} code={}", d.label, code);
        if d.instanced {
            entry.push_str(" instanced");
        }
        if let Some(format) = d.color_target {
            entry.push_str(&format!(" target={format:?}"));
        }
        if matches!(d.fragment_entry, FragmentEntry::Masked) {
            entry.push_str(" entry=fs_masked");
        }
        if d.transparent {
            entry.push_str(" blend=alpha");
        }
        if d.depth_only {
            entry.push_str(" depth_only");
        }
        if matches!(d.depth_compare, DepthCompare::LessEqual) {
            entry.push_str(" depth=less_equal");
        }
        if matches!(d.depth_compare, DepthCompare::Always) {
            entry.push_str(" depth=always");
        }
        if matches!(d.topology, PrimitiveTopology::LineList) {
            entry.push_str(" topology=lines");
        }
        self.journal.push(entry);
        let handle = PipelineHandle { index: self.pipelines };
        self.pipelines += 1;
        Ok(handle)
    }

    fn create_material_binding(&mut self, d: &MaterialBindingDescriptor) -> Result<BindingHandle, BackendError> {
        self.journal.push(format!(
            "create_material_binding {} texture={} sampler={} color={} mr={} normal={} ao={} em={}",
            d.label,
            d.texture.index,
            d.sampler.index,
            color_text(d.params.base_color),
            d.metallic_roughness_texture.index,
            d.normal_map.index,
            d.occlusion_texture.index,
            d.emissive_texture.index
        ) + &params_text(&d.params));
        let handle = BindingHandle { index: self.bindings, generation: 0 };
        self.bindings += 1;
        Ok(handle)
    }

    fn update_material_binding(&mut self, binding: BindingHandle, params: &MaterialParams) -> Result<(), BackendError> {
        self.journal.push(format!(
            "update_material_binding index={} color={}",
            binding.index,
            color_text(params.base_color)
        ) + &params_text(params));
        Ok(())
    }

    fn destroy_buffer(&mut self, buffer: BufferHandle) -> Result<(), BackendError> {
        self.journal.push(format!("destroy_buffer index={}", buffer.index));
        Ok(())
    }

    fn destroy_texture(&mut self, texture: TextureHandle) -> Result<(), BackendError> {
        self.journal.push(format!("destroy_texture index={}", texture.index));
        Ok(())
    }

    fn destroy_sampler(&mut self, sampler: SamplerHandle) -> Result<(), BackendError> {
        self.journal.push(format!("destroy_sampler index={}", sampler.index));
        Ok(())
    }

    fn destroy_material_binding(&mut self, binding: BindingHandle) -> Result<(), BackendError> {
        self.journal.push(format!("destroy_material_binding index={}", binding.index));
        Ok(())
    }

    fn destroy_render_target(&mut self, target: RenderTargetHandle) -> Result<(), BackendError> {
        self.journal.push(format!("destroy_render_target index={}", target.index));
        Ok(())
    }

    fn set_environment(&mut self, cubemap: Option<TextureHandle>) -> Result<(), BackendError> {
        match cubemap {
            Some(texture) => self.journal.push(format!("set_environment index={}", texture.index)),
            None => self.journal.push(String::from("set_environment none")),
        }
        Ok(())
    }

    fn set_shadow(&mut self, config: Option<ShadowConfig>) -> Result<(), BackendError> {
        match config {
            Some(config) => self.journal.push(format!("set_shadow resolution={}", config.resolution)),
            None => self.journal.push(String::from("set_shadow none")),
        }
        Ok(())
    }

    fn render(&mut self, plan: &FramePlan) -> Result<FrameOutcome, BackendError> {
        if let Some(shadow) = &plan.shadow {
            self.journal.push(format!(
                "shadow res={} light={} draws={}",
                shadow.resolution,
                shadow.light_index,
                draws_text(&shadow.draws)
            ));
        }
        if !plan.lights.lights.is_empty() || plan.lights.ambient_intensity != 0 {
            let mut entry = format!(
                "lights ambient=({}, {}, {}, {}) count={}",
                float(plan.lights.ambient_color.r),
                float(plan.lights.ambient_color.g),
                float(plan.lights.ambient_color.b),
                float(plan.lights.ambient_intensity),
                plan.lights.lights.len()
            );
            for light in &plan.lights.lights {
                let c = light.color;
                let color = format!("({}, {}, {})", float(c.r), float(c.g), float(c.b));
                let text = match light.shape {
                    chaos_renderer::lights::LightShape::Directional { direction } => {
                        format!(" [directional d={} c={} i={}]", vec3_text(direction), color, float(light.intensity))
                    }
                    chaos_renderer::lights::LightShape::Point { position, range } => format!(
                        " [point p={} r={} c={} i={}]",
                        vec3_text(position),
                        float(range),
                        color,
                        float(light.intensity)
                    ),
                    chaos_renderer::lights::LightShape::Spot { position, direction, range, .. } => {
                        format!(" [spot p={} d={} r={}]", vec3_text(position), vec3_text(direction), float(range))
                    }
                };
                entry.push_str(&text);
            }
            self.journal.push(entry);
        }
        if plan.environment.intensity != 0 || plan.environment.exposure != 1.0f32.to_bits() {
            self.journal.push(format!(
                "environment intensity={} exposure={}",
                float(plan.environment.intensity),
                float(plan.environment.exposure)
            ));
        }
        for pass in &plan.passes {
            let mut entry = String::from("render ");
            match pass.load {
                PassLoad::Clear(c) => entry.push_str(&format!(
                    "r={} g={} b={} a={} ",
                    float(c.r),
                    float(c.g),
                    float(c.b),
                    float(c.a)
                )),
                PassLoad::Keep => {}
            }
            entry.push_str(&format!(
                "vp={} draws={}",
                translation_text(&pass.view_projection),
                draws_text(&pass.draws)
            ));
            if let RenderDestination::Target(target) = pass.destination {
                entry.push_str(&format!(" dest=target{}", target.index));
            }
            if pass.label != "chaos.main" {
                entry.push_str(&format!(" pass={}", pass.label));
            }
            if !pass.debug.is_empty() {
                let batches: Vec<String> = pass
                    .debug
                    .iter()
                    .map(|batch| format!("v={} p={}", batch.vertex_count, batch.pipeline.index))
                    .collect();
                entry.push_str(&format!(" dbg=[{}]", batches.join(", ")));
            }
            let cam = pass.camera_position;
            if cam.x != 0 || cam.y != 0 || cam.z != 0 {
                entry.push_str(&format!(" cam={}", vec3_text(cam)));
            }
            if let PassLoad::Keep = pass.load {
                entry.push_str(" load=keep");
            }
            self.journal.push(entry);
        }
        Ok(self.outcome)
    }

    fn resize(&mut self, width: u32, height: u32) {
        self.journal.push(format!("resize {width}x{height}"));
    }

    fn gpu_frame_time(&self) -> GpuFrameTime {
        GpuFrameTime::Unavailable(String::from("the mock backend measures no GPU time"))
    }
}

type TestRenderer = Renderer<MockBackend>;

fn default_limits() -> DeviceLimits {
    DeviceLimits { max_texture_2d: 8192, max_buffer_bytes: 1 << 28, max_anisotropy: 16 }
}

fn mock_renderer_with_limits(limits: DeviceLimits) -> (TestRenderer, Journal) {
    let journal = Journal::default();
    let backend = MockBackend::new(journal.clone(), FrameOutcome::Rendered, limits);
    (Renderer::with_backend(backend), journal)
}

fn mock_renderer() -> (TestRenderer, Journal) {
    mock_renderer_with_limits(default_limits())
}

fn mock_renderer_with(outcome: FrameOutcome) -> (TestRenderer, Journal) {
    let journal = Journal::default();
    let backend = MockBackend::new(journal.clone(), outcome, default_limits());
    (Renderer::with_backend(backend), journal)
}

// ---------------------------------------------------------------------
// Values as bit patterns, and the float facts of a frame.

fn f3(values: [f32; 3]) -> [u32; 3] {
    [values[0].to_bits(), values[1].to_bits(), values[2].to_bits()]
}

fn v3(x: f32, y: f32, z: f32) -> Vec3 {
    Vec3 { x: x.to_bits(), y: y.to_bits(), z: z.to_bits() }
}

fn rgb(r: f32, g: f32, b: f32) -> Color {
    Color { r: r.to_bits(), g: g.to_bits(), b: b.to_bits(), a: 1.0f32.to_bits() }
}

fn white() -> Color {
    rgb(1.0, 1.0, 1.0)
}

fn black() -> Color {
    rgb(0.0, 0.0, 0.0)
}

fn identity_matrix() -> Mat4 {
    let mut cols = [[0u32; 4]; 4];
    for (i, col) in cols.iter_mut().enumerate() {
        col[i] = 1.0f32.to_bits();
    }
    Mat4 { cols }
}

fn translation_matrix(x: f32, y: f32, z: f32) -> Mat4 {
    let mut m = identity_matrix();
    m.cols[3] = [x.to_bits(), y.to_bits(), z.to_bits(), 1.0f32.to_bits()];
    m
}

fn at(x: f32, y: f32, z: f32) -> Transform {
    Transform {
        translation: f3([x, y, z]),
        rotation: [0, 0, 0, 1.0f32.to_bits()],
        scale: f3([1.0, 1.0, 1.0]),
    }
}

fn identity_transform() -> Transform {
    at(0.0, 0.0, 0.0)
}

fn draw(mesh: chaos_renderer::handles::MeshHandle, material: MaterialHandle) -> DrawCommand {
    DrawCommand { mesh, material, transform: identity_transform() }
}

fn draw_at(mesh: chaos_renderer::handles::MeshHandle, material: MaterialHandle, x: f32, y: f32, z: f32) -> DrawCommand {
    DrawCommand { mesh, material, transform: at(x, y, z) }
}

/// The facts of a draw seen from `camera`: its model matrix (a translated
/// transform), always in view and in the light frustum.
fn fact(command: &DrawCommand, camera: [f32; 3]) -> DrawFacts {
    let t = command.transform.translation;
    let (x, y, z) = (float(t[0]), float(t[1]), float(t[2]));
    let model = translation_matrix(x, y, z);
    let (dx, dy, dz) = (x - camera[0], y - camera[1], z - camera[2]);
    DrawFacts {
        model,
        normal: identity_matrix(),
        in_view: true,
        in_light: true,
        depth: (dx * dx + dy * dy + dz * dz).to_bits(),
    }
}

fn facts_with_cameras(renderer: &TestRenderer, cameras: &[(u32, [f32; 3])]) -> Vec<Vec<DrawFacts>> {
    let mut all = Vec::new();
    for pass in 0..renderer.pass_count() as u32 {
        let camera = cameras
            .iter()
            .find(|(p, _)| *p == pass)
            .map(|(_, c)| *c)
            .unwrap_or([0.0, 0.0, 0.0]);
        let queue = renderer.queued_draws(PassHandle(pass)).unwrap();
        all.push(queue.iter().map(|command| fact(command, camera)).collect());
    }
    all
}

fn render_frame(renderer: &mut TestRenderer) -> Result<FrameOutcome, RenderError> {
    let facts = facts_with_cameras(renderer, &[]);
    renderer.render_frame(&facts, Some(identity_matrix()))
}

fn render_frame_from(renderer: &mut TestRenderer, cameras: &[(u32, [f32; 3])]) -> Result<FrameOutcome, RenderError> {
    let facts = facts_with_cameras(renderer, cameras);
    renderer.render_frame(&facts, Some(identity_matrix()))
}

fn render_to_target(
    renderer: &mut TestRenderer,
    target: RenderTargetHandle,
    clear: Color,
    view_projection: Mat4,
    commands: &[DrawCommand],
) -> Result<FrameOutcome, RenderError> {
    let commands: Vec<DrawCommand> = commands.to_vec();
    let facts: Vec<DrawFacts> = commands.iter().map(|c| fact(c, [0.0, 0.0, 0.0])).collect();
    renderer.render_to_target(target, clear, view_projection, &commands, &facts)
}

// ---------------------------------------------------------------------
// Scene helpers.

/// The local bounds of vertex positions; `None` when one is not finite.
fn bounds_of(positions: impl Iterator<Item = [u32; 3]>) -> Option<Aabb> {
    let mut min = [f32::INFINITY; 3];
    let mut max = [f32::NEG_INFINITY; 3];
    let mut any = false;
    for position in positions {
        let p = [f32::from_bits(position[0]), f32::from_bits(position[1]), f32::from_bits(position[2])];
        if !p.iter().all(|c| c.is_finite()) {
            return None;
        }
        for i in 0..3 {
            min[i] = min[i].min(p[i]);
            max[i] = max[i].max(p[i]);
        }
        any = true;
    }
    let to_vec3 = |d: [f32; 3]| Vec3 { x: d[0].to_bits(), y: d[1].to_bits(), z: d[2].to_bits() };
    if any { Some(Aabb { min: to_vec3(min), max: to_vec3(max) }) } else { None }
}

fn color_vertex(position: [f32; 3]) -> ColorVertex {
    ColorVertex { position: f3(position), color: f3([1.0, 1.0, 1.0]) }
}

fn triangle() -> Geometry {
    Geometry {
        vertices: vec![color_vertex([0.0, 0.0, 0.0]), color_vertex([1.0, 0.0, 0.0]), color_vertex([0.0, 1.0, 0.0])],
        indices: Vec::new(),
    }
}

fn quad() -> Geometry {
    Geometry {
        vertices: vec![
            color_vertex([0.0, 0.0, 0.0]),
            color_vertex([1.0, 0.0, 0.0]),
            color_vertex([1.0, 1.0, 0.0]),
            color_vertex([0.0, 1.0, 0.0]),
        ],
        indices: vec![0, 1, 2, 0, 2, 3],
    }
}

fn cube() -> Geometry {
    let mut vertices = Vec::new();
    let mut indices = Vec::new();
    let faces: [[[f32; 3]; 4]; 6] = [
        [[-0.5, -0.5, 0.5], [0.5, -0.5, 0.5], [0.5, 0.5, 0.5], [-0.5, 0.5, 0.5]],
        [[0.5, -0.5, -0.5], [-0.5, -0.5, -0.5], [-0.5, 0.5, -0.5], [0.5, 0.5, -0.5]],
        [[0.5, -0.5, 0.5], [0.5, -0.5, -0.5], [0.5, 0.5, -0.5], [0.5, 0.5, 0.5]],
        [[-0.5, -0.5, -0.5], [-0.5, -0.5, 0.5], [-0.5, 0.5, 0.5], [-0.5, 0.5, -0.5]],
        [[-0.5, 0.5, 0.5], [0.5, 0.5, 0.5], [0.5, 0.5, -0.5], [-0.5, 0.5, -0.5]],
        [[-0.5, -0.5, -0.5], [0.5, -0.5, -0.5], [0.5, -0.5, 0.5], [-0.5, -0.5, 0.5]],
    ];
    for face in faces {
        let base = vertices.len() as u16;
        for corner in face {
            vertices.push(color_vertex(corner));
        }
        indices.extend_from_slice(&[base, base + 1, base + 2, base, base + 2, base + 3]);
    }
    Geometry { vertices, indices }
}

fn render_lines(journal: &Journal) -> Vec<String> {
    journal.entries().into_iter().filter(|entry| entry.starts_with("render ")).collect()
}

fn create_pipeline_lines(journal: &Journal) -> Vec<String> {
    journal.entries().into_iter().filter(|entry| entry.starts_with("create_pipeline ")).collect()
}

fn surface_pass(label: &str) -> RenderPassDescriptor {
    RenderPassDescriptor::new(s(label), RenderDestination::Surface)
}

fn target_pass(label: &str, target: RenderTargetHandle) -> RenderPassDescriptor {
    RenderPassDescriptor::new(s(label), RenderDestination::Target(target))
}

fn textured_quad() -> TexturedGeometry {
    let vertex = |x: f32, y: f32| TexturedVertex { position: f3([x, y, 0.0]), uv: [x.to_bits(), y.to_bits()] };
    TexturedGeometry {
        vertices: vec![vertex(0.0, 0.0), vertex(1.0, 0.0), vertex(1.0, 1.0), vertex(0.0, 1.0)],
        indices: vec![0, 1, 2, 0, 2, 3],
    }
}

fn lit_quad() -> LitGeometry {
    let vertex = |x: f32, y: f32| LitVertex {
        position: f3([x, y, 0.0]),
        normal: f3([0.0, 0.0, 1.0]),
        uv: [x.to_bits(), y.to_bits()],
    };
    LitGeometry {
        vertices: vec![vertex(0.0, 0.0), vertex(1.0, 0.0), vertex(1.0, 1.0), vertex(0.0, 1.0)],
        indices: vec![0, 1, 2, 0, 2, 3],
    }
}

fn lit_quad_mesh(renderer: &mut TestRenderer, label: &str) -> chaos_renderer::handles::MeshHandle {
    let geometry = lit_quad();
    let bounds = bounds_of(geometry.vertices.iter().map(|v| v.position));
    renderer.create_lit_mesh(&s(label), &geometry, bounds).unwrap()
}

fn texture_and_sampler(renderer: &mut TestRenderer) -> (TextureHandle, SamplerHandle) {
    let texture = renderer
        .create_texture(&TextureDescriptor::sampled(s("albedo"), 1, 1, TextureFormat::R8Unorm, vec![255]))
        .unwrap();
    let sampler = renderer.create_sampler(&SamplerDescriptor::new(s("s"))).unwrap();
    (texture, sampler)
}

fn lights_lines(journal: &Journal) -> Vec<String> {
    journal.entries().into_iter().filter(|entry| entry.starts_with("lights ")).collect()
}

fn bindings_created(journal: &Journal) -> usize {
    journal.entries().iter().filter(|entry| entry.starts_with("create_material_binding")).count()
}

fn s(text: &str) -> String {
    String::from(text)
}

fn create_mesh(renderer: &mut TestRenderer, label: &str, geometry: &Geometry) -> chaos_renderer::handles::MeshHandle {
    renderer.create_mesh(&s(label), geometry, bounds_of(geometry.vertices.iter().map(|v| v.position))).unwrap()
}

fn plain_material(renderer: &mut TestRenderer, label: &str) -> MaterialHandle {
    renderer.create_material(&MaterialDescriptor::new(s(label), MaterialModel::VertexColor)).unwrap()
}

fn small_texture(renderer: &mut TestRenderer, label: &str) -> TextureHandle {
    renderer
        .create_texture(&TextureDescriptor::sampled(s(label), 1, 1, TextureFormat::R8Unorm, vec![7]))
        .unwrap()
}

fn textured_material(
    renderer: &mut TestRenderer,
    label: &str,
    texture: TextureHandle,
    sampler: SamplerHandle,
) -> MaterialHandle {
    renderer
        .create_material(
            &MaterialDescriptor::new(s(label), MaterialModel::Unlit).with_texture(texture).with_sampler(sampler),
        )
        .unwrap()
}

fn small_target(renderer: &mut TestRenderer, label: &str) -> RenderTargetHandle {
    renderer
        .create_render_target(&RenderTargetDescriptor::new(s(label), 4, 4, TextureFormat::Rgba8UnormSrgb))
        .unwrap()
}

fn inline_descriptor(label: &str) -> PipelineDescriptor {
    PipelineDescriptor::new(s(label), ShaderRef::Inline(s("inline-code")))
}

fn message(result: Result<impl std::fmt::Debug, RenderError>) -> String {
    result.unwrap_err().message()
}

// ---------------------------------------------------------------------
// Lifetime and sharing.

#[test]
fn destroying_a_used_texture_is_refused_naming_the_dependents() {
    let (mut renderer, _journal) = mock_renderer();
    let texture = small_texture(&mut renderer, "damier");
    let sampler = renderer.create_sampler(&SamplerDescriptor::new(s("s"))).unwrap();
    textured_material(&mut renderer, "a", texture, sampler);
    textured_material(&mut renderer, "b", texture, sampler);
    let error = renderer.destroy_texture(texture).unwrap_err();
    assert!(error.message().contains("'damier'"));
    assert!(error.message().contains("2 material(s)"));
}

#[test]
fn destroying_a_used_sampler_is_refused() {
    let (mut renderer, _journal) = mock_renderer();
    let texture = small_texture(&mut renderer, "t");
    let sampler = renderer.create_sampler(&SamplerDescriptor::new(s("lecture"))).unwrap();
    textured_material(&mut renderer, "a", texture, sampler);
    let error = renderer.destroy_sampler(sampler).unwrap_err();
    assert!(error.message().contains("'lecture'"));
    assert!(error.message().contains("still used"));
}

#[test]
fn destroying_a_mesh_owned_buffer_is_refused() {
    let (mut renderer, _journal) = mock_renderer();
    create_mesh(&mut renderer, "quad", &quad());
    let owned = BufferHandle { index: 0, generation: 0 };
    let error = renderer.destroy_buffer(owned).unwrap_err();
    assert!(error.message().contains("owned by mesh 'quad'"));
    assert!(error.message().contains("destroy the mesh instead"));
}

#[test]
fn destroying_the_material_releases_its_shares() {
    let (mut renderer, _journal) = mock_renderer();
    let texture = small_texture(&mut renderer, "t");
    let sampler = renderer.create_sampler(&SamplerDescriptor::new(s("s"))).unwrap();
    let material = textured_material(&mut renderer, "a", texture, sampler);
    assert!(renderer.destroy_texture(texture).is_err());
    renderer.destroy_material(material).unwrap();
    renderer.destroy_texture(texture).unwrap();
    renderer.destroy_sampler(sampler).unwrap();
}

#[test]
fn sharing_counts_every_consumer() {
    let (mut renderer, _journal) = mock_renderer();
    let texture = small_texture(&mut renderer, "partagee");
    let sampler = renderer.create_sampler(&SamplerDescriptor::new(s("s"))).unwrap();
    let first = textured_material(&mut renderer, "a", texture, sampler);
    let second = textured_material(&mut renderer, "b", texture, sampler);
    renderer.destroy_material(first).unwrap();
    let error = renderer.destroy_texture(texture).unwrap_err();
    assert!(error.message().contains("1 material(s)"));
    renderer.destroy_material(second).unwrap();
    renderer.destroy_texture(texture).unwrap();
}

#[test]
fn backend_release_is_deferred_to_the_end_of_the_next_frame() {
    let (mut renderer, journal) = mock_renderer();
    let mesh = create_mesh(&mut renderer, "tri", &triangle());
    renderer.destroy_mesh(mesh).unwrap();
    assert!(!journal.entries().iter().any(|entry| entry.starts_with("destroy_buffer")));
    render_frame(&mut renderer).unwrap();
    let entries = journal.entries();
    let render_position = entries.iter().position(|entry| entry.starts_with("render")).unwrap();
    let destroy_position = entries.iter().position(|entry| entry.starts_with("destroy_buffer")).unwrap();
    assert!(destroy_position > render_position);
}

#[test]
fn retired_resources_drain_after_a_frame() {
    let (mut renderer, _journal) = mock_renderer();
    let mesh = create_mesh(&mut renderer, "tri", &triangle());
    let texture = small_texture(&mut renderer, "t");
    renderer.destroy_mesh(mesh).unwrap();
    renderer.destroy_texture(texture).unwrap();
    assert_eq!(renderer.resource_stats().retired, 2);
    render_frame(&mut renderer).unwrap();
    assert_eq!(renderer.resource_stats().retired, 0);
}

#[test]
fn resource_stats_count_bytes_exactly() {
    let (mut renderer, _journal) = mock_renderer();
    renderer.create_buffer(&BufferDescriptor::vertex(s("v"), vec![0; 24])).unwrap();
    renderer
        .create_texture(&TextureDescriptor::sampled(s("t"), 2, 2, TextureFormat::Rgba8UnormSrgb, vec![0; 16]))
        .unwrap();
    let stats = renderer.resource_stats();
    assert_eq!(stats.buffers.alive, 1);
    assert_eq!(stats.buffers.bytes, 24);
    assert_eq!(stats.textures.alive, 1);
    assert_eq!(stats.textures.bytes, 16);
    assert_eq!(stats.estimated_bytes, 40);
}

#[test]
fn stats_return_to_baseline_after_destruction() {
    let (mut renderer, _journal) = mock_renderer();
    renderer.builtin_texture(BuiltinTexture::White).unwrap();
    renderer.builtin_texture(BuiltinTexture::FlatNormal).unwrap();
    let baseline = renderer.resource_stats();
    let texture = small_texture(&mut renderer, "t");
    let sampler = renderer.create_sampler(&SamplerDescriptor::new(s("s"))).unwrap();
    let material = textured_material(&mut renderer, "m", texture, sampler);
    let mesh = create_mesh(&mut renderer, "tri", &triangle());
    renderer.destroy_material(material).unwrap();
    renderer.destroy_mesh(mesh).unwrap();
    renderer.destroy_texture(texture).unwrap();
    renderer.destroy_sampler(sampler).unwrap();
    render_frame(&mut renderer).unwrap();
    let stats = renderer.resource_stats();
    assert_eq!(stats.buffers, baseline.buffers);
    assert_eq!(stats.textures, baseline.textures);
    assert_eq!(stats.samplers, baseline.samplers);
    assert_eq!(stats.meshes, baseline.meshes);
    assert_eq!(stats.materials, baseline.materials);
    assert_eq!(stats.retired, 0);
    assert_eq!(stats.estimated_bytes, baseline.estimated_bytes);
}

#[test]
fn double_destroy_stays_an_explicit_stale_error() {
    let (mut renderer, _journal) = mock_renderer();
    let texture = small_texture(&mut renderer, "t");
    let sampler = renderer.create_sampler(&SamplerDescriptor::new(s("s"))).unwrap();
    let buffer = renderer.create_buffer(&BufferDescriptor::vertex(s("v"), vec![1])).unwrap();
    renderer.destroy_texture(texture).unwrap();
    renderer.destroy_sampler(sampler).unwrap();
    renderer.destroy_buffer(buffer).unwrap();
    assert!(message(renderer.destroy_texture(texture)).contains("stale"));
    assert!(message(renderer.destroy_sampler(sampler)).contains("stale"));
    assert!(message(renderer.destroy_buffer(buffer)).contains("stale"));
}

#[test]
fn pipelines_are_counted_permanent() {
    let (mut renderer, _journal) = mock_renderer();
    renderer.create_pipeline(&inline_descriptor("a")).unwrap();
    renderer.create_pipeline(&inline_descriptor("b")).unwrap();
    assert_eq!(renderer.resource_stats().pipelines, 2);
}

#[test]
fn intensive_churn_never_leaks_nor_resolves_stale() {
    let (mut renderer, _journal) = mock_renderer();
    renderer.builtin_texture(BuiltinTexture::White).unwrap();
    renderer.builtin_texture(BuiltinTexture::FlatNormal).unwrap();
    let baseline = renderer.resource_stats();
    let mut past_materials = Vec::new();
    let mut past_meshes = Vec::new();
    for cycle in 0..100 {
        let texture = small_texture(&mut renderer, &format!("t{cycle}"));
        let sampler = renderer.create_sampler(&SamplerDescriptor::new(format!("s{cycle}"))).unwrap();
        let first = textured_material(&mut renderer, &format!("a{cycle}"), texture, sampler);
        let second = textured_material(&mut renderer, &format!("b{cycle}"), texture, sampler);
        let mesh = create_mesh(&mut renderer, &format!("m{cycle}"), &triangle());
        renderer.queue_draw(draw(mesh, first));
        renderer.queue_draw(draw(mesh, second));
        render_frame(&mut renderer).unwrap();
        assert!(renderer.destroy_texture(texture).is_err());
        renderer.destroy_material(first).unwrap();
        renderer.destroy_material(second).unwrap();
        renderer.destroy_mesh(mesh).unwrap();
        renderer.destroy_texture(texture).unwrap();
        renderer.destroy_sampler(sampler).unwrap();
        renderer.clear_draws();
        render_frame(&mut renderer).unwrap();
        past_materials.push(first);
        past_meshes.push(mesh);
    }
    let stats = renderer.resource_stats();
    assert_eq!(stats.buffers, baseline.buffers);
    assert_eq!(stats.textures, baseline.textures);
    assert_eq!(stats.samplers, baseline.samplers);
    assert_eq!(stats.meshes, baseline.meshes);
    assert_eq!(stats.materials, baseline.materials);
    assert_eq!(stats.retired, 0);
    for material in past_materials {
        assert!(renderer.destroy_material(material).is_err());
    }
    for mesh in past_meshes {
        assert!(renderer.destroy_mesh(mesh).is_err());
    }
}

// ---------------------------------------------------------------------
// Textures, samplers, targets, buffers and pipelines.

#[test]
fn provided_mips_reach_the_backend() {
    let (mut renderer, journal) = mock_renderer();
    let mut pixels = vec![0u8; 4 * 4 * 4];
    pixels.extend_from_slice(&[0u8; 2 * 2 * 4]);
    pixels.extend_from_slice(&[0u8; 4]);
    renderer
        .create_texture(
            &TextureDescriptor::sampled(s("mippee"), 4, 4, TextureFormat::Rgba8Unorm, pixels)
                .with_mips(TextureMips::Provided(3)),
        )
        .unwrap();
    assert_eq!(journal.entries(), vec!["create_texture mippee 4x4 format=Rgba8Unorm usage=Sampled bytes=84 levels=3"]);
}

#[test]
fn a_cubemap_reaches_the_backend_with_its_layers() {
    let (mut renderer, journal) = mock_renderer();
    renderer
        .create_texture(&TextureDescriptor::cube(s("env"), 2, TextureFormat::Rgba16Float, vec![0; 2 * 2 * 8 * 6]))
        .unwrap();
    assert_eq!(journal.entries(), vec!["create_texture env 2x2 format=Rgba16Float usage=Sampled bytes=192 kind=Cube"]);
}

#[test]
fn update_texture_is_validated_then_forwarded() {
    let (mut renderer, journal) = mock_renderer();
    let texture = small_texture(&mut renderer, "dynamique");
    renderer.update_texture(texture, &[42]).unwrap();
    assert!(journal.entries().contains(&String::from("update_texture index=0 bytes=1")));
    let wrong_len = renderer.update_texture(texture, &[1, 2, 3]).unwrap_err();
    assert!(wrong_len.message().contains("expects 1 bytes"));
    renderer.destroy_texture(texture).unwrap();
    let stale = renderer.update_texture(texture, &[42]).unwrap_err();
    assert!(stale.message().contains("stale"));
}

#[test]
fn mipmapped_and_cube_textures_refuse_updates() {
    let (mut renderer, _journal) = mock_renderer();
    let mipped = renderer
        .create_texture(
            &TextureDescriptor::sampled(s("mippee"), 2, 2, TextureFormat::Rgba8Unorm, vec![0; 16])
                .with_mips(TextureMips::Generate),
        )
        .unwrap();
    let error = renderer.update_texture(mipped, &[0; 16]).unwrap_err();
    assert!(error.message().contains("single-level 2D"));
    let cube = renderer.create_texture(&TextureDescriptor::cube(s("env"), 1, TextureFormat::Rgba8Unorm, vec![0; 24])).unwrap();
    let error = renderer.update_texture(cube, &[0; 24]).unwrap_err();
    assert!(error.message().contains("single-level 2D"));
}

#[test]
fn a_material_refuses_a_cubemap_texture() {
    let (mut renderer, _journal) = mock_renderer();
    let cube = renderer.create_texture(&TextureDescriptor::cube(s("env"), 1, TextureFormat::Rgba8Unorm, vec![0; 24])).unwrap();
    let error = renderer
        .create_material(&MaterialDescriptor::new(s("m"), MaterialModel::Unlit).with_texture(cube))
        .unwrap_err();
    assert!(error.message().contains("cubemap"));
    assert!(error.message().contains("environment pass"));
}

#[test]
fn builtin_textures_are_lazy_shared_and_protected() {
    let (mut renderer, journal) = mock_renderer();
    let white = renderer.builtin_texture(BuiltinTexture::White).unwrap();
    let white_again = renderer.builtin_texture(BuiltinTexture::White).unwrap();
    let black = renderer.builtin_texture(BuiltinTexture::Black).unwrap();
    let normal = renderer.builtin_texture(BuiltinTexture::FlatNormal).unwrap();
    assert_eq!(white, white_again);
    assert_ne!(white, black);
    assert_ne!(black, normal);
    assert_eq!(journal.entries().iter().filter(|entry| entry.starts_with("create_texture chaos.")).count(), 3);
    for handle in [white, black, normal] {
        let error = renderer.destroy_texture(handle).unwrap_err();
        assert!(error.message().contains("builtin fallback"));
        let error = renderer.update_texture(handle, &[0; 4]).unwrap_err();
        assert!(error.message().contains("builtin fallback"));
    }
}

#[test]
fn stats_count_the_full_mip_chain_bytes() {
    let (mut renderer, _journal) = mock_renderer();
    renderer
        .create_texture(
            &TextureDescriptor::sampled(s("mippee"), 2, 2, TextureFormat::Rgba8Unorm, vec![0; 16])
                .with_mips(TextureMips::Generate),
        )
        .unwrap();
    assert_eq!(renderer.resource_stats().textures.bytes, 20);
}

#[test]
fn an_anisotropic_sampler_is_validated_before_the_backend() {
    let (mut renderer, journal) = mock_renderer();
    let error = renderer.create_sampler(&SamplerDescriptor::new(s("bad")).with_anisotropy(4)).unwrap_err();
    assert!(error.message().contains("Linear filtering everywhere"));
    assert!(journal.entries().is_empty());
    renderer
        .create_sampler(&SamplerDescriptor::new(s("aniso")).with_mip_filter(SamplerFilter::Linear).with_anisotropy(8))
        .unwrap();
    assert_eq!(journal.entries(), vec!["create_sampler aniso filter=Linear address=Repeat mips=Linear aniso=8"]);
}

#[test]
fn a_render_target_reaches_the_backend_and_the_stats() {
    let (mut renderer, journal) = mock_renderer();
    small_target(&mut renderer, "viewport");
    assert_eq!(journal.entries(), vec!["create_render_target viewport 4x4 format=Rgba8UnormSrgb"]);
    let stats = renderer.resource_stats();
    assert_eq!(stats.render_targets.alive, 1);
    assert_eq!(stats.render_targets.bytes, 4 * 4 * 4);
    assert_eq!(stats.textures.alive, 1);
    assert_eq!(stats.textures.bytes, 4 * 4 * 4);
}

#[test]
fn the_target_color_feeds_a_material() {
    let (mut renderer, journal) = mock_renderer();
    let target = small_target(&mut renderer, "viewport");
    let color = renderer.render_target_color(target).unwrap();
    renderer.create_material(&MaterialDescriptor::new(s("screen"), MaterialModel::Unlit).with_texture(color)).unwrap();
    assert!(journal.entries().iter().any(|entry| entry.starts_with("create_material_binding screen texture=0")));
}

#[test]
fn render_to_target_orders_resolves_and_targets() {
    let (mut renderer, journal) = mock_renderer();
    let target = small_target(&mut renderer, "viewport");
    let material = plain_material(&mut renderer, "p");
    let mesh = create_mesh(&mut renderer, "tri", &triangle());
    renderer.queue_draw(draw(mesh, material));
    let main_draws_before = renderer.draw_count();
    render_to_target(&mut renderer, target, black(), identity_matrix(), &[draw(mesh, material)]).unwrap();
    assert_eq!(renderer.draw_count(), main_draws_before);
    let entries = journal.entries();
    let target_render = entries.iter().find(|entry| entry.contains("dest=target0")).unwrap();
    assert!(target_render.contains("draws=[(1,"));
}

#[test]
fn stale_target_operations_are_explicit_errors() {
    let (mut renderer, _journal) = mock_renderer();
    let target = small_target(&mut renderer, "viewport");
    renderer.destroy_render_target(target).unwrap();
    assert!(message(renderer.render_target_color(target)).contains("stale"));
    assert!(message(renderer.render_target_size(target)).contains("stale"));
    assert!(message(render_to_target(&mut renderer, target, black(), identity_matrix(), &[])).contains("stale"));
    assert!(message(renderer.destroy_render_target(target)).contains("stale"));
}

#[test]
fn stale_draws_are_dropped_from_target_passes_too() {
    let (mut renderer, journal) = mock_renderer();
    let target = small_target(&mut renderer, "viewport");
    let material = plain_material(&mut renderer, "p");
    let mesh = create_mesh(&mut renderer, "tri", &triangle());
    let command = draw(mesh, material);
    renderer.destroy_mesh(mesh).unwrap();
    render_to_target(&mut renderer, target, black(), identity_matrix(), &[command]).unwrap();
    assert!(journal.entries().iter().any(|entry| entry.contains("draws=[] dest=target0")));
}

#[test]
fn resize_rotates_the_handles() {
    let (mut renderer, _journal) = mock_renderer();
    let target = small_target(&mut renderer, "viewport");
    let old_color = renderer.render_target_color(target).unwrap();
    let resized = renderer.resize_render_target(target, 8, 8).unwrap();
    assert_ne!(target, resized);
    assert_eq!(renderer.render_target_size(resized).unwrap(), (8, 8));
    assert!(renderer.render_target_color(target).is_err());
    let new_color = renderer.render_target_color(resized).unwrap();
    assert_ne!(old_color, new_color);
    assert!(renderer.resource_stats().retired > 0);
    render_frame(&mut renderer).unwrap();
    assert_eq!(renderer.resource_stats().retired, 0);
}

#[test]
fn destroying_a_target_is_refused_while_its_color_is_shared() {
    let (mut renderer, _journal) = mock_renderer();
    let target = small_target(&mut renderer, "viewport");
    let color = renderer.render_target_color(target).unwrap();
    let material = renderer
        .create_material(&MaterialDescriptor::new(s("screen"), MaterialModel::Unlit).with_texture(color))
        .unwrap();
    let error = renderer.destroy_render_target(target).unwrap_err();
    assert!(error.message().contains("still used by 1 material(s)"));
    renderer.destroy_material(material).unwrap();
    renderer.destroy_render_target(target).unwrap();
}

#[test]
fn target_stats_return_to_baseline() {
    let (mut renderer, _journal) = mock_renderer();
    let baseline = renderer.resource_stats();
    let target = small_target(&mut renderer, "viewport");
    renderer.destroy_render_target(target).unwrap();
    render_frame(&mut renderer).unwrap();
    let stats = renderer.resource_stats();
    assert_eq!(stats.render_targets, baseline.render_targets);
    assert_eq!(stats.textures, baseline.textures);
    assert_eq!(stats.retired, 0);
}

#[test]
fn a_pipeline_color_target_reaches_the_backend() {
    let (mut renderer, journal) = mock_renderer();
    renderer
        .create_pipeline(&inline_descriptor("offscreen").with_color_target(Some(TextureFormat::Rgba16Float)))
        .unwrap();
    assert!(journal.entries().iter().any(|entry| entry.contains("target=Rgba16Float")));
}

#[test]
fn frame_plan_carries_current_clear_color() {
    let (mut renderer, journal) = mock_renderer();
    render_frame(&mut renderer).unwrap();
    assert_eq!(journal.entries(), vec!["render r=0 g=0 b=0 a=1 vp=[0, 0, 0] draws=[]"]);
}

#[test]
fn set_clear_color_changes_the_plan() {
    let (mut renderer, journal) = mock_renderer();
    renderer.set_clear_color(rgb(1.0, 0.5, 0.25));
    render_frame(&mut renderer).unwrap();
    assert_eq!(journal.entries(), vec!["render r=1 g=0.5 b=0.25 a=1 vp=[0, 0, 0] draws=[]"]);
    assert_eq!(renderer.clear_color(), rgb(1.0, 0.5, 0.25));
}

#[test]
fn backend_outcome_is_propagated() {
    let skipped = FrameOutcome::Skipped(FrameSkipReason::SurfaceUnavailable);
    let (mut renderer, _journal) = mock_renderer_with(skipped);
    assert_eq!(render_frame(&mut renderer).unwrap(), skipped);
}

#[test]
fn resize_is_forwarded_to_backend() {
    let (mut renderer, journal) = mock_renderer();
    renderer.resize(1920, 1080);
    assert_eq!(journal.entries(), vec!["resize 1920x1080"]);
    assert_eq!(renderer.surface_size(), (1920, 1080));
    renderer.resize(0, 0);
    assert_eq!(renderer.surface_size(), (1920, 1080));
}

#[test]
fn description_delegates_to_backend() {
    let (renderer, _journal) = mock_renderer();
    assert_eq!(renderer.description(), "mock backend");
}

#[test]
fn create_pipeline_returns_increasing_handles() {
    let (mut renderer, _journal) = mock_renderer();
    let first = renderer.create_pipeline(&inline_descriptor("a")).unwrap();
    let second = renderer.create_pipeline(&inline_descriptor("b")).unwrap();
    assert_ne!(first, second);
}

#[test]
fn inline_shader_reaches_the_backend() {
    let (mut renderer, journal) = mock_renderer();
    renderer.create_pipeline(&inline_descriptor("a")).unwrap();
    assert_eq!(journal.entries(), vec!["create_pipeline a code=inline-code"]);
}

#[test]
fn named_shader_resolves_through_the_library() {
    let (mut renderer, journal) = mock_renderer();
    renderer.shaders_mut().register(s("game.custom"), s("custom-code"));
    let descriptor = PipelineDescriptor::new(s("t"), ShaderRef::Named(s("game.custom")));
    renderer.create_pipeline(&descriptor).unwrap();
    assert_eq!(journal.entries(), vec!["create_pipeline t code=custom-code"]);
}

#[test]
fn unknown_named_shader_is_a_comprehensible_error() {
    let (mut renderer, journal) = mock_renderer();
    let descriptor = PipelineDescriptor::new(s("t"), ShaderRef::Named(s("missing.shader")));
    let error = renderer.create_pipeline(&descriptor).unwrap_err();
    assert!(error.message().contains("missing.shader"));
    assert!(journal.entries().is_empty());
}

#[test]
fn create_buffer_forwards_descriptor_and_returns_distinct_handles() {
    let (mut renderer, journal) = mock_renderer();
    let first = renderer.create_buffer(&BufferDescriptor::vertex(s("tri"), vec![0, 1, 2, 3])).unwrap();
    let second = renderer.create_buffer(&BufferDescriptor::index(s("idx"), vec![0, 1])).unwrap();
    assert_ne!(first, second);
    assert_eq!(journal.entries(), vec!["create_buffer tri kind=Vertex bytes=4", "create_buffer idx kind=Index bytes=2"]);
}

#[test]
fn destroy_buffer_forwards_the_handle() {
    let (mut renderer, journal) = mock_renderer();
    let handle = renderer.create_buffer(&BufferDescriptor::vertex(s("tri"), Vec::new())).unwrap();
    renderer.destroy_buffer(handle).unwrap();
    assert_eq!(journal.entries(), vec!["create_buffer tri kind=Vertex bytes=0"]);
    render_frame(&mut renderer).unwrap();
    assert_eq!(journal.entries().last().map(String::as_str), Some("destroy_buffer index=0"));
}

#[test]
fn create_texture_forwards_descriptor_and_returns_distinct_handles() {
    let (mut renderer, journal) = mock_renderer();
    let first = renderer
        .create_texture(&TextureDescriptor::sampled(s("albedo"), 2, 2, TextureFormat::Rgba8UnormSrgb, vec![255; 16]))
        .unwrap();
    let second = renderer
        .create_texture(&TextureDescriptor::render_target(s("offscreen"), 4, 4, TextureFormat::Rgba8Unorm))
        .unwrap();
    assert_ne!(first, second);
    assert_eq!(
        journal.entries(),
        vec![
            "create_texture albedo 2x2 format=Rgba8UnormSrgb usage=Sampled bytes=16",
            "create_texture offscreen 4x4 format=Rgba8Unorm usage=RenderTarget bytes=0"
        ]
    );
}

#[test]
fn destroy_texture_forwards_the_handle() {
    let (mut renderer, journal) = mock_renderer();
    let handle = renderer
        .create_texture(&TextureDescriptor::sampled(s("mask"), 1, 1, TextureFormat::R8Unorm, vec![128]))
        .unwrap();
    renderer.destroy_texture(handle).unwrap();
    assert_eq!(journal.entries(), vec!["create_texture mask 1x1 format=R8Unorm usage=Sampled bytes=1"]);
    render_frame(&mut renderer).unwrap();
    assert_eq!(journal.entries().last().map(String::as_str), Some("destroy_texture index=0"));
}

#[test]
fn texture_with_wrong_pixel_size_is_rejected_before_the_backend() {
    let (mut renderer, journal) = mock_renderer();
    let error = renderer
        .create_texture(&TextureDescriptor::sampled(s("bad"), 2, 2, TextureFormat::Rgba8Unorm, vec![0; 3]))
        .unwrap_err();
    assert!(error.message().contains("16 bytes"));
    assert!(error.message().contains("got 3"));
    assert!(journal.entries().is_empty());
}

#[test]
fn render_target_with_initial_pixels_is_rejected() {
    let (mut renderer, journal) = mock_renderer();
    let mut descriptor = TextureDescriptor::render_target(s("rt"), 2, 2, TextureFormat::Rgba8Unorm);
    descriptor.pixels = vec![0; 16];
    let error = renderer.create_texture(&descriptor).unwrap_err();
    assert!(error.message().contains("render target"));
    assert!(journal.entries().is_empty());
}

#[test]
fn zero_sized_texture_is_rejected() {
    let (mut renderer, journal) = mock_renderer();
    let error = renderer
        .create_texture(&TextureDescriptor::sampled(s("empty"), 0, 4, TextureFormat::R8Unorm, Vec::new()))
        .unwrap_err();
    assert!(error.message().contains("zero dimensions"));
    assert!(journal.entries().is_empty());
}

#[test]
fn create_sampler_forwards_descriptor_and_returns_distinct_handles() {
    let (mut renderer, journal) = mock_renderer();
    let first = renderer.create_sampler(&SamplerDescriptor::new(s("linear"))).unwrap();
    let second = renderer
        .create_sampler(
            &SamplerDescriptor::new(s("pixel"))
                .with_filter(SamplerFilter::Nearest)
                .with_address_mode(SamplerAddressMode::ClampToEdge),
        )
        .unwrap();
    assert_ne!(first, second);
    assert_eq!(
        journal.entries(),
        vec!["create_sampler linear filter=Linear address=Repeat", "create_sampler pixel filter=Nearest address=ClampToEdge"]
    );
}

#[test]
fn destroy_sampler_forwards_the_handle() {
    let (mut renderer, journal) = mock_renderer();
    let handle = renderer.create_sampler(&SamplerDescriptor::new(s("s"))).unwrap();
    renderer.destroy_sampler(handle).unwrap();
    assert_eq!(journal.entries(), vec!["create_sampler s filter=Linear address=Repeat"]);
    render_frame(&mut renderer).unwrap();
    assert_eq!(journal.entries().last().map(String::as_str), Some("destroy_sampler index=0"));
}

#[test]
fn create_mesh_uploads_the_right_buffers() {
    let (mut renderer, journal) = mock_renderer();
    let first = create_mesh(&mut renderer, "tri", &triangle());
    let second = create_mesh(&mut renderer, "quad", &quad());
    assert_ne!(first, second);
    assert_eq!(
        journal.entries(),
        vec![
            "create_buffer tri kind=Vertex bytes=72",
            "create_buffer quad kind=Vertex bytes=96",
            "create_buffer quad.indices kind=Index bytes=12"
        ]
    );
}

#[test]
fn create_textured_mesh_uploads_the_uv_vertices() {
    let (mut renderer, journal) = mock_renderer();
    renderer.create_textured_mesh(&s("floor"), &textured_quad(), bounds_of(textured_quad().vertices.iter().map(|v| v.position))).unwrap();
    assert_eq!(
        journal.entries(),
        vec!["create_buffer floor kind=Vertex bytes=80", "create_buffer floor.indices kind=Index bytes=12"]
    );
}

#[test]
fn destroy_mesh_destroys_its_buffers() {
    let (mut renderer, journal) = mock_renderer();
    let mesh = create_mesh(&mut renderer, "quad", &quad());
    renderer.destroy_mesh(mesh).unwrap();
    render_frame(&mut renderer).unwrap();
    let entries = journal.entries();
    assert!(entries.contains(&String::from("destroy_buffer index=0")));
    assert!(entries.contains(&String::from("destroy_buffer index=1")));
    assert!(renderer.destroy_mesh(mesh).is_err());
}

#[test]
fn stale_material_draw_is_dropped_from_the_plan() {
    let (mut renderer, journal) = mock_renderer();
    let material = plain_material(&mut renderer, "p");
    let mesh = create_mesh(&mut renderer, "tri", &triangle());
    renderer.destroy_material(material).unwrap();
    renderer.queue_draw(draw(mesh, material));
    render_frame(&mut renderer).unwrap();
    assert!(journal.entries().contains(&String::from("render r=0 g=0 b=0 a=1 vp=[0, 0, 0] draws=[]")));
}

#[test]
fn stale_mesh_draw_is_dropped_from_the_plan() {
    let (mut renderer, journal) = mock_renderer();
    let material = plain_material(&mut renderer, "p");
    let mesh = create_mesh(&mut renderer, "tri", &triangle());
    renderer.destroy_mesh(mesh).unwrap();
    renderer.queue_draw(draw(mesh, material));
    render_frame(&mut renderer).unwrap();
    assert!(journal.entries().contains(&String::from("render r=0 g=0 b=0 a=1 vp=[0, 0, 0] draws=[]")));
}

#[test]
fn view_projection_travels_in_the_plan() {
    let (mut renderer, journal) = mock_renderer();
    renderer.set_view_projection(translation_matrix(1.0, 2.0, 3.0));
    render_frame(&mut renderer).unwrap();
    assert_eq!(journal.entries(), vec!["render r=0 g=0 b=0 a=1 vp=[1, 2, 3] draws=[]"]);
}

#[test]
fn mesh_draws_resolve_into_the_plan_then_reset() {
    let (mut renderer, journal) = mock_renderer();
    let material = plain_material(&mut renderer, "p");
    let tri = create_mesh(&mut renderer, "tri", &triangle());
    let quad = create_mesh(&mut renderer, "quad", &quad());
    renderer.queue_draw(draw(tri, material));
    renderer.queue_draw(draw_at(quad, material, 5.0, 0.0, 0.0));
    render_frame(&mut renderer).unwrap();
    render_frame(&mut renderer).unwrap();
    renderer.clear_draws();
    render_frame(&mut renderer).unwrap();
    let entries = journal.entries();
    let full_plan = "render r=0 g=0 b=0 a=1 vp=[0, 0, 0] draws=[(0, Some(0), None, 3, b=Some(0), m=[0, 0, 0]), (0, Some(1), Some(2), 6, b=Some(0), m=[5, 0, 0])]";
    assert_eq!(entries[entries.len() - 3], full_plan);
    assert_eq!(entries[entries.len() - 2], full_plan);
    assert_eq!(entries[entries.len() - 1], "render r=0 g=0 b=0 a=1 vp=[0, 0, 0] draws=[]");
}

#[test]
fn the_renderer_is_send() {
    fn assert_send<T: Send>() {}
    assert_send::<TestRenderer>();
}

#[test]
fn draw_count_reports_the_submitted_frame() {
    let (mut renderer, _journal) = mock_renderer();
    let material = plain_material(&mut renderer, "p");
    let mesh = create_mesh(&mut renderer, "tri", &triangle());
    assert_eq!(renderer.draw_count(), 0);
    renderer.queue_draw(draw(mesh, material));
    renderer.queue_draw(draw(mesh, material));
    assert_eq!(renderer.draw_count(), 2);
    renderer.clear_draws();
    assert_eq!(renderer.draw_count(), 0);
}

#[test]
fn the_report_lists_every_pass_with_its_outcome() {
    let (mut renderer, _journal) = mock_renderer();
    let target = small_target(&mut renderer, "viewport");
    let overlay = renderer
        .add_pass(&RenderPassDescriptor::new(s("overlay"), RenderDestination::Target(target)))
        .unwrap();
    renderer.set_pass_enabled(overlay, false).unwrap();
    render_frame(&mut renderer).unwrap();
    let report = renderer.frame_report();
    assert_eq!(report.passes.len(), 2);
    assert_eq!(report.passes[0].label, "chaos.main");
    assert_eq!(report.passes[0].outcome, PassOutcome::Executed);
    assert_eq!(report.passes[1].label, "overlay");
    assert_eq!(report.passes[1].outcome, PassOutcome::Disabled);
}

#[test]
fn the_error_messages_name_what_they_refuse() {
    let error = RenderError::UpdateSize { label: s("t"), expected: 16, got: 3 };
    assert_eq!(error.message(), "texture 't' expects 16 bytes for an update, got 3");
    let error = RenderError::Stale(chaos_renderer::error::ResourceKind::Pass);
    assert_eq!(error.message(), "render pass handle is unknown");
}

// ---------------------------------------------------------------------
// The texture cache and the builtin fallbacks.

#[test]
fn get_or_create_texture_deduplicates_by_label() {
    let (mut renderer, journal) = mock_renderer();
    let descriptor = TextureDescriptor::sampled(s("shared"), 1, 1, TextureFormat::R8Unorm, vec![255]);
    let first = renderer.get_or_create_texture(&descriptor).unwrap();
    let second = renderer.get_or_create_texture(&descriptor).unwrap();
    assert_eq!(first, second);
    assert_eq!(journal.entries(), vec!["create_texture shared 1x1 format=R8Unorm usage=Sampled bytes=1"]);
}

#[test]
fn get_or_create_texture_recreates_after_destroy() {
    let (mut renderer, journal) = mock_renderer();
    let descriptor = TextureDescriptor::sampled(s("shared"), 1, 1, TextureFormat::R8Unorm, vec![255]);
    let first = renderer.get_or_create_texture(&descriptor).unwrap();
    renderer.destroy_texture(first).unwrap();
    let second = renderer.get_or_create_texture(&descriptor).unwrap();
    assert_ne!(first, second);
    assert_eq!(
        journal.entries(),
        vec![
            "create_texture shared 1x1 format=R8Unorm usage=Sampled bytes=1",
            "create_texture shared 1x1 format=R8Unorm usage=Sampled bytes=1"
        ]
    );
    render_frame(&mut renderer).unwrap();
    assert!(journal.entries().contains(&String::from("destroy_texture index=0")));
}

#[test]
fn distinct_labels_create_distinct_textures() {
    let (mut renderer, _journal) = mock_renderer();
    let first = renderer
        .get_or_create_texture(&TextureDescriptor::sampled(s("a"), 1, 1, TextureFormat::R8Unorm, vec![255]))
        .unwrap();
    let second = renderer
        .get_or_create_texture(&TextureDescriptor::sampled(s("b"), 1, 1, TextureFormat::R8Unorm, vec![255]))
        .unwrap();
    assert_ne!(first, second);
}

#[test]
fn builtin_fallbacks_are_protected() {
    let (mut renderer, journal) = mock_renderer();
    renderer.create_material(&MaterialDescriptor::new(s("a"), MaterialModel::Unlit)).unwrap();
    let fallback_texture = TextureHandle { index: 0, generation: 0 };
    let texture_error = renderer.destroy_texture(fallback_texture).unwrap_err();
    assert!(texture_error.message().contains("builtin fallback"));
    let fallback_sampler = SamplerHandle { index: 0, generation: 0 };
    let sampler_error = renderer.destroy_sampler(fallback_sampler).unwrap_err();
    assert!(sampler_error.message().contains("builtin fallback"));
    renderer.create_material(&MaterialDescriptor::new(s("b"), MaterialModel::Unlit)).unwrap();
    let entries = journal.entries();
    assert_eq!(entries.iter().filter(|entry| entry.contains("create_texture chaos.white")).count(), 1);
}

#[test]
fn create_material_uses_builtin_fallbacks_once() {
    let (mut renderer, journal) = mock_renderer();
    renderer.create_material(&MaterialDescriptor::new(s("a"), MaterialModel::Unlit)).unwrap();
    renderer.create_material(&MaterialDescriptor::new(s("b"), MaterialModel::Unlit)).unwrap();
    let entries = journal.entries();
    assert_eq!(entries.iter().filter(|entry| entry.contains("chaos.white")).count(), 1);
    assert_eq!(entries.iter().filter(|entry| entry.contains("chaos.default_sampler")).count(), 1);
    assert_eq!(
        entries[entries.len() - 1],
        "create_material_binding b texture=0 sampler=0 color=(1, 1, 1, 1) mr=0 normal=1 ao=0 em=0"
    );
}

#[test]
fn create_material_forwards_texture_sampler_and_color() {
    let (mut renderer, journal) = mock_renderer();
    let texture = renderer
        .create_texture(&TextureDescriptor::sampled(s("albedo"), 1, 1, TextureFormat::R8Unorm, vec![255]))
        .unwrap();
    let sampler = renderer.create_sampler(&SamplerDescriptor::new(s("s"))).unwrap();
    renderer
        .create_material(
            &MaterialDescriptor::new(s("m"), MaterialModel::Unlit)
                .with_base_color(rgb(0.5, 0.25, 1.0))
                .with_texture(texture)
                .with_sampler(sampler),
        )
        .unwrap();
    let entries = journal.entries();
    assert_eq!(
        entries[entries.len() - 1],
        "create_material_binding m texture=0 sampler=0 color=(0.5, 0.25, 1, 1) mr=1 normal=2 ao=1 em=1"
    );
}

#[test]
fn destroy_material_destroys_its_binding() {
    let (mut renderer, journal) = mock_renderer();
    let material = plain_material(&mut renderer, "p");
    renderer.destroy_material(material).unwrap();
    render_frame(&mut renderer).unwrap();
    let entries = journal.entries();
    assert_eq!(entries[entries.len() - 1], "destroy_material_binding index=0");
    let error = renderer.destroy_material(material).unwrap_err();
    assert!(error.message().contains("stale"));
}

// ---------------------------------------------------------------------
// The plan of a frame.

#[test]
fn interleaved_materials_are_grouped_in_the_plan() {
    let (mut renderer, journal) = mock_renderer();
    let first = plain_material(&mut renderer, "a");
    let second = plain_material(&mut renderer, "b");
    let mesh = create_mesh(&mut renderer, "tri", &triangle());
    let submissions = [(second, 1.0), (first, 2.0), (second, 3.0), (first, 4.0)];
    for (material, x) in submissions {
        renderer.queue_draw(draw_at(mesh, material, x, 0.0, 0.0));
    }
    render_frame(&mut renderer).unwrap();
    let entries = journal.entries();
    assert_eq!(
        entries[entries.len() - 1],
        "render r=0 g=0 b=0 a=1 vp=[0, 0, 0] draws=[\
         (1, Some(0), None, 3, b=Some(0), m=[2, 0, 0], inst=2), \
         (1, Some(0), None, 3, b=Some(1), m=[1, 0, 0], inst=2)]"
    );
    assert_eq!(create_pipeline_lines(&journal).iter().filter(|line| line.contains(" instanced")).count(), 1);
}

#[test]
fn shared_mesh_draws_with_distinct_transforms() {
    let (mut renderer, journal) = mock_renderer();
    let material = plain_material(&mut renderer, "p");
    let mesh = create_mesh(&mut renderer, "cube", &cube());
    for x in [-2.0, 0.0, 2.0] {
        renderer.queue_draw(draw_at(mesh, material, x, 0.0, 0.0));
    }
    render_frame(&mut renderer).unwrap();
    let entries = journal.entries();
    assert_eq!(
        entries[entries.len() - 1],
        "render r=0 g=0 b=0 a=1 vp=[0, 0, 0] draws=[\
         (1, Some(0), Some(1), 36, b=Some(0), m=[-2, 0, 0], inst=3)]"
    );
}

#[test]
fn many_draws_reach_the_plan_in_submission_order() {
    let (mut renderer, journal) = mock_renderer();
    let material = plain_material(&mut renderer, "p");
    for index in 0u8..16 {
        let mesh = create_mesh(&mut renderer, &format!("cube.{index}"), &cube());
        renderer.queue_draw(draw_at(mesh, material, f32::from(index), 0.0, 0.0));
    }
    render_frame(&mut renderer).unwrap();
    let entries = journal.entries();
    let plan = entries[entries.len() - 1].clone();
    assert_eq!(plan.matches("m=[").count(), 16);
    let positions: Vec<usize> =
        (0u8..16).map(|index| plan.find(&format!("m=[{}, 0, 0]", f32::from(index))).unwrap()).collect();
    assert!(positions.windows(2).all(|pair| pair[0] < pair[1]));
}

#[test]
fn the_order_drives_the_schedule_not_the_registration() {
    let (mut renderer, journal) = mock_renderer();
    renderer.add_pass(&surface_pass("after").with_order(5)).unwrap();
    renderer.add_pass(&surface_pass("before").with_order(-5)).unwrap();
    renderer.add_pass(&surface_pass("tied").with_order(5)).unwrap();
    render_frame(&mut renderer).unwrap();
    render_frame(&mut renderer).unwrap();
    let lines = render_lines(&journal);
    assert_eq!(lines.len(), 8);
    for frame in lines.chunks(4) {
        assert!(frame[0].ends_with(" pass=before"));
        assert!(!frame[1].contains(" pass="));
        assert!(frame[2].ends_with(" pass=after"));
        assert!(frame[3].ends_with(" pass=tied"));
    }
}

#[test]
fn pass_labels_are_validated() {
    let (mut renderer, _journal) = mock_renderer();
    let empty = renderer.add_pass(&surface_pass("")).unwrap_err();
    assert!(empty.message().contains("cannot be empty"));
    let reserved = renderer.add_pass(&surface_pass("chaos.shadow")).unwrap_err();
    assert!(reserved.message().contains("reserved for engine passes"));
    renderer.add_pass(&surface_pass("overlay")).unwrap();
    let duplicate = renderer.add_pass(&surface_pass("overlay")).unwrap_err();
    assert!(duplicate.message().contains("'overlay' already exists"));
}

#[test]
fn invalid_dependencies_are_refused_by_name() {
    let (mut renderer, _journal) = mock_renderer();
    let target = small_target(&mut renderer, "viewport");
    let feedback = renderer.add_pass(&target_pass("loop", target).with_reads(vec![target])).unwrap_err();
    assert!(feedback.message().contains("feedback loop"));
    renderer.add_pass(&surface_pass("reader").with_reads(vec![target]).with_order(-1)).unwrap();
    let writer = renderer.add_pass(&target_pass("writer", target)).unwrap_err();
    let message = writer.message();
    assert!(message.contains("'writer' writes 'viewport' after pass 'reader' reads it"));
    assert!(message.contains("schedule it earlier"));
    renderer.add_pass(&target_pass("writer", target).with_order(-2)).unwrap();
}

#[test]
fn a_read_without_a_writer_is_legal() {
    let (mut renderer, journal) = mock_renderer();
    let target = small_target(&mut renderer, "viewport");
    renderer.add_pass(&surface_pass("reader").with_reads(vec![target])).unwrap();
    render_frame(&mut renderer).unwrap();
    assert_eq!(render_lines(&journal).len(), 2);
}

#[test]
fn update_pass_revalidates_the_whole_schedule() {
    let (mut renderer, _journal) = mock_renderer();
    let target = small_target(&mut renderer, "viewport");
    let writer = renderer.add_pass(&target_pass("writer", target).with_order(-2)).unwrap();
    renderer.add_pass(&surface_pass("reader").with_reads(vec![target]).with_order(-1)).unwrap();
    let pushed = target_pass("writer", target).with_order(3);
    let refused = renderer.update_pass(writer, &pushed).unwrap_err();
    assert!(refused.message().contains("schedule it earlier"));
    let kept = target_pass("writer", target).with_order(-3);
    renderer.update_pass(writer, &kept).unwrap();
}

#[test]
fn the_main_pass_destination_and_label_are_protected() {
    let (mut renderer, journal) = mock_renderer();
    let target = small_target(&mut renderer, "viewport");
    let main = renderer.main_pass();
    let moved = renderer.update_pass(main, &target_pass("chaos.main", target)).unwrap_err();
    assert!(moved.message().contains("destination cannot change"));
    let renamed = renderer.update_pass(main, &surface_pass("scene")).unwrap_err();
    assert!(renamed.message().contains("label cannot change"));
    renderer.update_pass(main, &surface_pass("chaos.main").with_load(PassLoad::Keep).with_order(10)).unwrap();
    render_frame(&mut renderer).unwrap();
    assert!(render_lines(&journal)[0].ends_with(" load=keep"));
}

#[test]
fn a_disabled_pass_is_skipped_cleanly() {
    let (mut renderer, journal) = mock_renderer();
    let overlay = renderer.add_pass(&surface_pass("overlay")).unwrap();
    let material = plain_material(&mut renderer, "p");
    let mesh = create_mesh(&mut renderer, "tri", &triangle());
    let command = draw(mesh, material);
    renderer.set_pass_enabled(overlay, false).unwrap();
    renderer.queue_draw_to(overlay, command).unwrap();
    render_frame(&mut renderer).unwrap();
    assert_eq!(render_lines(&journal).len(), 1);
    let report = renderer.frame_report();
    assert_eq!(report.passes.len(), 2);
    assert_eq!(report.passes[1].label, "overlay");
    assert_eq!(report.passes[1].outcome, PassOutcome::Disabled);
    renderer.set_pass_enabled(overlay, true).unwrap();
    render_frame(&mut renderer).unwrap();
    assert_eq!(render_lines(&journal).len(), 3);
}

#[test]
fn each_pass_owns_its_queue_and_the_count_sums_them() {
    let (mut renderer, journal) = mock_renderer();
    let overlay = renderer.add_pass(&surface_pass("overlay")).unwrap();
    let material = plain_material(&mut renderer, "p");
    let mesh = create_mesh(&mut renderer, "tri", &triangle());
    let command = draw(mesh, material);
    renderer.queue_draw(command);
    renderer.queue_draw_to(overlay, command).unwrap();
    renderer.queue_draw_to(overlay, command).unwrap();
    assert_eq!(renderer.draw_count(), 3);
    render_frame(&mut renderer).unwrap();
    let lines = render_lines(&journal);
    assert_eq!(lines[0].matches("m=[").count(), 1);
    assert_eq!(lines[1].matches("m=[").count(), 1);
    assert!(lines[1].contains("inst=2"));
    assert_eq!(renderer.frame_report().passes[1].draws, 2);
    assert_eq!(renderer.frame_report().passes[1].draw_calls, 1);
    renderer.clear_draws();
    assert_eq!(renderer.draw_count(), 0);
    let unknown = renderer.queue_draw_to(PassHandle(42), command).unwrap_err();
    assert!(unknown.message().contains("unknown"));
}

#[test]
fn each_pass_travels_with_its_own_camera() {
    let (mut renderer, journal) = mock_renderer();
    let overlay = renderer.add_pass(&surface_pass("overlay")).unwrap();
    renderer.set_view_projection(translation_matrix(1.0, 0.0, 0.0));
    renderer.set_pass_camera(overlay, translation_matrix(0.0, 2.0, 0.0)).unwrap();
    render_frame(&mut renderer).unwrap();
    let lines = render_lines(&journal);
    assert!(lines[0].contains("vp=[1, 0, 0]"));
    assert!(lines[1].contains("vp=[0, 2, 0]"));
}

#[test]
fn a_stale_destination_disables_the_pass_until_updated() {
    let (mut renderer, journal) = mock_renderer();
    let target = small_target(&mut renderer, "viewport");
    let mirror = renderer.add_pass(&target_pass("mirror", target).with_order(-1)).unwrap();
    let fresh = renderer.resize_render_target(target, 8, 8).unwrap();
    render_frame(&mut renderer).unwrap();
    let report = renderer.frame_report();
    assert_eq!(report.passes[0].label, "mirror");
    assert_eq!(report.passes[0].outcome, PassOutcome::StaleTarget);
    assert_eq!(render_lines(&journal).len(), 1);
    render_frame(&mut renderer).unwrap();
    assert_eq!(renderer.frame_report().passes[0].outcome, PassOutcome::Disabled);
    renderer.update_pass(mirror, &target_pass("mirror", fresh).with_order(-1)).unwrap();
    render_frame(&mut renderer).unwrap();
    assert_eq!(renderer.frame_report().passes[0].outcome, PassOutcome::Executed);
    assert!(render_lines(&journal).last().is_some_and(|line| !line.contains("pass=")));
}

#[test]
fn an_undeclared_feedback_draw_is_dropped() {
    let (mut renderer, journal) = mock_renderer();
    let target = small_target(&mut renderer, "viewport");
    let color = renderer.render_target_color(target).unwrap();
    let looping = renderer
        .create_material(&MaterialDescriptor::new(s("looping"), MaterialModel::Unlit).with_texture(color))
        .unwrap();
    let sane = plain_material(&mut renderer, "sane");
    let mesh = create_mesh(&mut renderer, "tri", &triangle());
    let textured_mesh = renderer.create_textured_mesh(&s("quad"), &textured_quad(), bounds_of(textured_quad().vertices.iter().map(|v| v.position))).unwrap();
    let mirror = renderer.add_pass(&target_pass("mirror", target).with_order(-1)).unwrap();
    renderer.queue_draw_to(mirror, draw(textured_mesh, looping)).unwrap();
    renderer.queue_draw_to(mirror, draw(mesh, sane)).unwrap();
    render_frame(&mut renderer).unwrap();
    let mirror_line = render_lines(&journal).into_iter().find(|line| line.contains("pass=mirror")).unwrap();
    assert_eq!(mirror_line.matches("m=[").count(), 1);
    assert_eq!(renderer.frame_report().passes[0].draws, 1);
}

#[test]
fn an_empty_plan_still_flushes_the_retirement() {
    let (mut renderer, journal) = mock_renderer();
    let main = renderer.main_pass();
    renderer.set_pass_enabled(main, false).unwrap();
    let material = plain_material(&mut renderer, "p");
    renderer.destroy_material(material).unwrap();
    assert_eq!(renderer.resource_stats().retired, 1);
    let outcome = render_frame(&mut renderer).unwrap();
    assert_eq!(outcome, FrameOutcome::Rendered);
    assert_eq!(renderer.resource_stats().retired, 0);
    assert!(render_lines(&journal).is_empty());
    assert_eq!(renderer.frame_report().passes[0].outcome, PassOutcome::Disabled);
}

#[test]
fn target_passes_survive_a_skipped_surface() {
    let (mut renderer, journal) = mock_renderer_with(FrameOutcome::Skipped(FrameSkipReason::ZeroArea));
    let target = small_target(&mut renderer, "viewport");
    renderer.add_pass(&target_pass("mirror", target).with_order(-1)).unwrap();
    let outcome = render_frame(&mut renderer).unwrap();
    assert_eq!(outcome, FrameOutcome::Skipped(FrameSkipReason::ZeroArea));
    assert!(!render_lines(&journal).is_empty());
    let report = renderer.frame_report();
    assert_eq!(report.passes[0].outcome, PassOutcome::Executed);
    assert_eq!(report.passes[1].outcome, PassOutcome::SurfaceSkipped);
}

#[test]
fn the_report_covers_the_orchestrated_frame_only() {
    let (mut renderer, _journal) = mock_renderer();
    assert!(renderer.frame_report().passes.is_empty());
    let target = small_target(&mut renderer, "viewport");
    render_frame(&mut renderer).unwrap();
    assert_eq!(renderer.frame_report().passes.len(), 1);
    assert_eq!(renderer.frame_report().passes[0].label, "chaos.main");
    render_to_target(&mut renderer, target, black(), identity_matrix(), &[]).unwrap();
    assert_eq!(renderer.frame_report().passes.len(), 1);
}

#[test]
fn render_to_target_is_the_offscreen_pass() {
    let (mut renderer, journal) = mock_renderer();
    let target = small_target(&mut renderer, "viewport");
    render_to_target(&mut renderer, target, black(), identity_matrix(), &[]).unwrap();
    let line = render_lines(&journal).pop().unwrap();
    assert!(line.contains(" dest=target0 pass=chaos.offscreen"));
}

#[test]
fn the_declared_mirror_flow_is_the_checkpoint() {
    let (mut renderer, journal) = mock_renderer();
    let target = small_target(&mut renderer, "viewport");
    let scene_material = plain_material(&mut renderer, "scene");
    let color = renderer.render_target_color(target).unwrap();
    let screen_material = renderer
        .create_material(&MaterialDescriptor::new(s("screen"), MaterialModel::Unlit).with_texture(color))
        .unwrap();
    let mesh = create_mesh(&mut renderer, "tri", &triangle());
    let screen_mesh = renderer.create_textured_mesh(&s("screen"), &textured_quad(), bounds_of(textured_quad().vertices.iter().map(|v| v.position))).unwrap();
    let mirror = renderer
        .add_pass(&target_pass("mirror", target).with_load(PassLoad::Clear(rgb(0.1, 0.0, 0.2))).with_order(-10))
        .unwrap();
    for _ in 0..2 {
        renderer.clear_draws();
        renderer.queue_draw_to(mirror, draw(mesh, scene_material)).unwrap();
        renderer.queue_draw(draw(mesh, scene_material));
        renderer.queue_draw(draw(screen_mesh, screen_material));
        render_frame(&mut renderer).unwrap();
    }
    let lines = render_lines(&journal);
    assert_eq!(lines.len(), 4);
    for frame in lines.chunks(2) {
        assert!(frame[0].starts_with("render r=0.1 g=0 b=0.2 a=1"));
        assert!(frame[0].contains(" dest=target0 pass=mirror"));
        assert!(!frame[1].contains(" pass="));
        assert_eq!(frame[1].matches("m=[").count(), 2);
    }
    let report = renderer.frame_report();
    assert_eq!(report.passes[0].label, "mirror");
    assert_eq!(report.passes[0].draws, 1);
    assert_eq!(report.passes[0].outcome, PassOutcome::Executed);
    assert_eq!(report.passes[1].label, "chaos.main");
    assert_eq!(report.passes[1].draws, 2);
    assert_eq!(report.passes[1].outcome, PassOutcome::Executed);
    assert!(renderer.add_pass(&surface_pass("mirror")).is_err());
    assert!(renderer.add_pass(&target_pass("loop", target).with_reads(vec![target])).is_err());
}

#[test]
fn offscreen_then_display_is_the_full_checkpoint_flow() {
    let (mut renderer, journal) = mock_renderer();
    let target = small_target(&mut renderer, "viewport");
    let scene_material = plain_material(&mut renderer, "scene");
    let mesh = create_mesh(&mut renderer, "tri", &triangle());
    let screen_mesh = renderer.create_textured_mesh(&s("screen"), &textured_quad(), bounds_of(textured_quad().vertices.iter().map(|v| v.position))).unwrap();
    render_to_target(&mut renderer, target, black(), identity_matrix(), &[draw(mesh, scene_material)]).unwrap();
    let color = renderer.render_target_color(target).unwrap();
    let screen_material = renderer
        .create_material(&MaterialDescriptor::new(s("screen"), MaterialModel::Unlit).with_texture(color))
        .unwrap();
    renderer.queue_draw(draw(screen_mesh, screen_material));
    render_frame(&mut renderer).unwrap();
    renderer.destroy_material(screen_material).unwrap();
    let resized = renderer.resize_render_target(target, 8, 8).unwrap();
    let new_color = renderer.render_target_color(resized).unwrap();
    let screen_material = renderer
        .create_material(&MaterialDescriptor::new(s("screen"), MaterialModel::Unlit).with_texture(new_color))
        .unwrap();
    render_to_target(&mut renderer, resized, black(), identity_matrix(), &[draw(mesh, scene_material)]).unwrap();
    renderer.clear_draws();
    renderer.queue_draw(draw(screen_mesh, screen_material));
    render_frame(&mut renderer).unwrap();
    let entries = journal.entries();
    assert_eq!(entries.iter().filter(|entry| entry.contains("dest=target")).count(), 2);
    assert!(entries.iter().any(|entry| entry.contains("dest=target1")));
    assert!(entries.iter().filter(|entry| entry.contains("dest=target")).all(|entry| entry.contains("draws=[(")));
}

// ---------------------------------------------------------------------
// Materials and their permutations.

#[test]
fn same_model_and_state_share_one_pipeline() {
    let (mut renderer, journal) = mock_renderer();
    plain_material(&mut renderer, "a");
    plain_material(&mut renderer, "b");
    assert_eq!(create_pipeline_lines(&journal).len(), 1);
    assert!(create_pipeline_lines(&journal)[0].starts_with("create_pipeline chaos.material.vertex_color "));
}

#[test]
fn each_state_is_its_own_permutation() {
    let (mut renderer, journal) = mock_renderer();
    renderer.create_material(&MaterialDescriptor::new(s("culled"), MaterialModel::VertexColor)).unwrap();
    renderer.create_material(&MaterialDescriptor::new(s("flat"), MaterialModel::VertexColor).double_sided()).unwrap();
    renderer
        .create_material(
            &MaterialDescriptor::new(s("glass"), MaterialModel::VertexColor).with_opacity(MaterialOpacity::Transparent),
        )
        .unwrap();
    let lines = create_pipeline_lines(&journal);
    assert_eq!(lines.len(), 3);
    assert!(lines[1].contains("chaos.material.vertex_color.double_sided"));
    assert!(lines[2].contains("chaos.material.vertex_color.transparent"));
    assert!(lines[2].ends_with(" blend=alpha"));
}

#[test]
fn one_material_serves_surface_and_target_passes() {
    let (mut renderer, journal) = mock_renderer();
    let target = small_target(&mut renderer, "viewport");
    let material = plain_material(&mut renderer, "scene");
    let mesh = create_mesh(&mut renderer, "tri", &triangle());
    let mirror = renderer.add_pass(&target_pass("mirror", target).with_order(-1)).unwrap();
    let command = draw(mesh, material);
    renderer.queue_draw_to(mirror, command).unwrap();
    renderer.queue_draw(command);
    render_frame(&mut renderer).unwrap();
    let pipelines = create_pipeline_lines(&journal);
    assert_eq!(pipelines.len(), 2);
    assert!(pipelines[1].contains("target=Rgba8UnormSrgb"));
    let lines = render_lines(&journal);
    assert!(lines[0].contains("dest=target0"));
    assert!(lines[0].contains("draws=[(1,"));
    assert!(lines[1].contains("draws=[(0,"));
}

#[test]
fn a_custom_model_resolves_or_fails_at_creation() {
    let (mut renderer, journal) = mock_renderer();
    renderer
        .create_material(&MaterialDescriptor::new(
            s("toon"),
            MaterialModel::Custom {
                shader: ShaderRef::Inline(s("custom-code")),
                vertex_layout: ColorVertex::layout(),
                material_inputs: false,
            },
        ))
        .unwrap();
    assert!(create_pipeline_lines(&journal)[0].starts_with("create_pipeline chaos.material.custom.inline code=custom-code"));
    let missing = renderer
        .create_material(&MaterialDescriptor::new(
            s("broken"),
            MaterialModel::Custom {
                shader: ShaderRef::Named(s("game.missing")),
                vertex_layout: ColorVertex::layout(),
                material_inputs: false,
            },
        ))
        .unwrap_err();
    assert!(missing.message().contains("not found in the library"));
}

#[test]
fn a_mismatched_vertex_layout_drops_the_draw() {
    let (mut renderer, journal) = mock_renderer();
    let (texture, sampler) = texture_and_sampler(&mut renderer);
    let material = textured_material(&mut renderer, "m", texture, sampler);
    let wrong_mesh = create_mesh(&mut renderer, "tri", &triangle());
    let right_mesh = renderer.create_textured_mesh(&s("quad"), &textured_quad(), bounds_of(textured_quad().vertices.iter().map(|v| v.position))).unwrap();
    renderer.queue_draw(draw(wrong_mesh, material));
    renderer.queue_draw(draw(right_mesh, material));
    render_frame(&mut renderer).unwrap();
    let line = render_lines(&journal).pop().unwrap();
    assert_eq!(line.matches("m=[").count(), 1);
    assert_eq!(renderer.frame_report().passes[0].draws, 1);
}

#[test]
fn inputs_on_an_inputless_model_are_refused() {
    let (mut renderer, _journal) = mock_renderer();
    let (texture, sampler) = texture_and_sampler(&mut renderer);
    let with_texture = renderer
        .create_material(&MaterialDescriptor::new(s("t"), MaterialModel::VertexColor).with_texture(texture))
        .unwrap_err();
    assert!(with_texture.message().contains("no material inputs"));
    let with_sampler = renderer
        .create_material(&MaterialDescriptor::new(s("s"), MaterialModel::VertexColor).with_sampler(sampler))
        .unwrap_err();
    assert!(with_sampler.message().contains("no material inputs"));
    let with_color = renderer
        .create_material(&MaterialDescriptor::new(s("c"), MaterialModel::VertexColor).with_base_color(rgb(1.0, 0.0, 0.0)))
        .unwrap_err();
    assert!(with_color.message().contains("base_color"));
    let plain = plain_material(&mut renderer, "p");
    let set_color = renderer.set_material_color(plain, rgb(1.0, 0.0, 0.0)).unwrap_err();
    assert!(set_color.message().contains("no material inputs"));
    let set_texture = renderer.set_material_texture(plain, Some(texture)).unwrap_err();
    assert!(set_texture.message().contains("no material inputs"));
}

#[test]
fn set_material_color_writes_in_place() {
    let (mut renderer, journal) = mock_renderer();
    let (texture, sampler) = texture_and_sampler(&mut renderer);
    let material = textured_material(&mut renderer, "m", texture, sampler);
    let bindings_before = bindings_created(&journal);
    let pipelines_before = create_pipeline_lines(&journal).len();
    renderer.set_material_color(material, rgb(0.9, 0.1, 0.2)).unwrap();
    let entries = journal.entries();
    assert_eq!(entries[entries.len() - 1], "update_material_binding index=0 color=(0.9, 0.1, 0.2, 1)");
    assert_eq!(bindings_created(&journal), bindings_before);
    assert_eq!(create_pipeline_lines(&journal).len(), pipelines_before);
    let info = renderer.material_info(material).unwrap();
    assert_eq!(info.base_color, rgb(0.9, 0.1, 0.2));
    renderer.destroy_material(material).unwrap();
    let stale = renderer.set_material_color(material, white()).unwrap_err();
    assert!(stale.message().contains("stale"));
}

#[test]
fn set_material_texture_swaps_transactionally() {
    let (mut renderer, journal) = mock_renderer();
    let first = small_texture(&mut renderer, "first");
    let second = small_texture(&mut renderer, "second");
    let sampler = renderer.create_sampler(&SamplerDescriptor::new(s("s"))).unwrap();
    let material = textured_material(&mut renderer, "m", first, sampler);
    renderer.set_material_texture(material, Some(second)).unwrap();
    renderer.destroy_texture(first).unwrap();
    let still_used = renderer.destroy_texture(second).unwrap_err();
    assert!(still_used.message().contains("1 material(s)"));
    assert_eq!(renderer.material_info(material).unwrap().texture, second);
    render_frame(&mut renderer).unwrap();
    assert!(journal.entries().contains(&String::from("destroy_material_binding index=0")));
    let bindings_before = bindings_created(&journal);
    renderer.set_material_texture(material, Some(second)).unwrap();
    assert_eq!(bindings_created(&journal), bindings_before);
    let cube = renderer.create_texture(&TextureDescriptor::cube(s("env"), 1, TextureFormat::Rgba8Unorm, vec![0; 24])).unwrap();
    let refused = renderer.set_material_texture(material, Some(cube)).unwrap_err();
    assert!(refused.message().contains("cubemap"));
}

#[test]
fn opaque_draws_come_before_transparent_ones() {
    let (mut renderer, journal) = mock_renderer();
    let glass = renderer
        .create_material(
            &MaterialDescriptor::new(s("glass"), MaterialModel::VertexColor).with_opacity(MaterialOpacity::Transparent),
        )
        .unwrap();
    let solid = plain_material(&mut renderer, "solid");
    let mesh = create_mesh(&mut renderer, "tri", &triangle());
    renderer.queue_draw(draw_at(mesh, glass, 1.0, 0.0, 0.0));
    renderer.queue_draw(draw_at(mesh, solid, 2.0, 0.0, 0.0));
    render_frame(&mut renderer).unwrap();
    let line = render_lines(&journal).pop().unwrap();
    let opaque_at = line.find("m=[2, 0, 0]").unwrap();
    let transparent_at = line.find("m=[1, 0, 0]").unwrap();
    assert!(opaque_at < transparent_at);
    let target = small_target(&mut renderer, "viewport");
    let mut wide = identity_matrix();
    wide.cols[0][0] = 0.001f32.to_bits();
    wide.cols[1][1] = 0.001f32.to_bits();
    wide.cols[2][2] = (-0.001f32).to_bits();
    render_to_target(
        &mut renderer,
        target,
        black(),
        wide,
        &[draw_at(mesh, glass, 1.0, 0.0, 0.0), draw_at(mesh, solid, 2.0, 0.0, 0.0)],
    )
    .unwrap();
    let offscreen = render_lines(&journal).pop().unwrap();
    let opaque_at = offscreen.find("m=[2, 0, 0]").unwrap();
    let transparent_at = offscreen.find("m=[1, 0, 0]").unwrap();
    assert!(opaque_at < transparent_at);
}

#[test]
fn material_info_is_the_full_inspection() {
    let (mut renderer, _journal) = mock_renderer();
    let (texture, sampler) = texture_and_sampler(&mut renderer);
    let material = renderer
        .create_material(
            &MaterialDescriptor::new(s("inspected"), MaterialModel::Unlit)
                .double_sided()
                .with_opacity(MaterialOpacity::Transparent)
                .with_base_color(rgb(0.5, 0.25, 1.0))
                .with_texture(texture)
                .with_sampler(sampler),
        )
        .unwrap();
    let info = renderer.material_info(material).unwrap();
    assert_eq!(info.label, "inspected");
    assert!(matches!(info.model, MaterialModel::Unlit));
    assert_eq!(info.base_color, rgb(0.5, 0.25, 1.0));
    assert_eq!(info.texture, texture);
    assert_eq!(info.sampler, sampler);
    assert!(info.double_sided);
    assert_eq!(info.opacity, MaterialOpacity::Transparent);
    renderer.destroy_material(material).unwrap();
    assert!(message(renderer.material_info(material)).contains("stale"));
}

#[test]
fn stats_count_lazy_permutations_and_bindings() {
    let (mut renderer, _journal) = mock_renderer();
    let target = small_target(&mut renderer, "viewport");
    let material = plain_material(&mut renderer, "scene");
    let mesh = create_mesh(&mut renderer, "tri", &triangle());
    let stats = renderer.resource_stats();
    assert_eq!(stats.pipelines, 1);
    assert_eq!(stats.materials, 1);
    assert_eq!(stats.bindings, 1);
    let mirror = renderer.add_pass(&target_pass("mirror", target).with_order(-1)).unwrap();
    renderer.queue_draw_to(mirror, draw(mesh, material)).unwrap();
    render_frame(&mut renderer).unwrap();
    assert_eq!(renderer.resource_stats().pipelines, 2);
}

#[test]
fn a_feedback_introduced_by_update_is_caught() {
    let (mut renderer, journal) = mock_renderer();
    let target = small_target(&mut renderer, "viewport");
    let texture = small_texture(&mut renderer, "innocent");
    let material = renderer
        .create_material(&MaterialDescriptor::new(s("screen"), MaterialModel::Unlit).with_texture(texture))
        .unwrap();
    let mesh = renderer.create_textured_mesh(&s("quad"), &textured_quad(), bounds_of(textured_quad().vertices.iter().map(|v| v.position))).unwrap();
    let mirror = renderer.add_pass(&target_pass("mirror", target).with_order(-1)).unwrap();
    renderer.queue_draw_to(mirror, draw(mesh, material)).unwrap();
    render_frame(&mut renderer).unwrap();
    assert_eq!(renderer.frame_report().passes[0].draws, 1);
    let color = renderer.render_target_color(target).unwrap();
    renderer.set_material_texture(material, Some(color)).unwrap();
    render_frame(&mut renderer).unwrap();
    assert_eq!(renderer.frame_report().passes[0].draws, 0);
    let _ = journal;
}

#[test]
fn the_material_system_checkpoint() {
    let (mut renderer, journal) = mock_renderer();
    let target = small_target(&mut renderer, "viewport");
    let checker = small_texture(&mut renderer, "checker");
    let shared = renderer
        .create_material(&MaterialDescriptor::new(s("shared"), MaterialModel::Unlit).with_texture(checker))
        .unwrap();
    let tinted = renderer
        .create_material(&MaterialDescriptor::new(s("tinted"), MaterialModel::Unlit).with_base_color(rgb(0.2, 0.4, 0.8)))
        .unwrap();
    let mesh_a = renderer.create_textured_mesh(&s("a"), &textured_quad(), bounds_of(textured_quad().vertices.iter().map(|v| v.position))).unwrap();
    let mesh_b = renderer.create_textured_mesh(&s("b"), &textured_quad(), bounds_of(textured_quad().vertices.iter().map(|v| v.position))).unwrap();
    let mesh_c = renderer.create_textured_mesh(&s("c"), &textured_quad(), bounds_of(textured_quad().vertices.iter().map(|v| v.position))).unwrap();
    let wrong = create_mesh(&mut renderer, "wrong", &triangle());
    let mirror = renderer.add_pass(&target_pass("mirror", target).with_order(-10)).unwrap();
    for _ in 0..2 {
        renderer.clear_draws();
        for mesh in [mesh_a, mesh_b] {
            renderer.queue_draw(draw(mesh, shared));
        }
        renderer.queue_draw(draw(mesh_c, tinted));
        renderer.queue_draw(draw(wrong, tinted));
        renderer.queue_draw_to(mirror, draw(mesh_a, shared)).unwrap();
        render_frame(&mut renderer).unwrap();
        renderer.set_material_color(tinted, rgb(0.9, 0.9, 0.1)).unwrap();
    }
    let report = renderer.frame_report();
    assert_eq!(report.passes[0].label, "mirror");
    assert_eq!(report.passes[0].draws, 1);
    assert_eq!(report.passes[1].label, "chaos.main");
    assert_eq!(report.passes[1].draws, 3);
    let entries = journal.entries();
    assert_eq!(create_pipeline_lines(&journal).len(), 2);
    assert_eq!(entries.iter().filter(|entry| entry.starts_with("create_material_binding")).count(), 2);
    assert_eq!(entries.iter().filter(|entry| entry.starts_with("update_material_binding")).count(), 2);
}

#[test]
fn a_lit_material_resolves_the_lit_permutation() {
    let (mut renderer, journal) = mock_renderer();
    let material = renderer.create_material(&MaterialDescriptor::new(s("shaded"), MaterialModel::Lit)).unwrap();
    assert!(create_pipeline_lines(&journal)[0].starts_with("create_pipeline chaos.material.lit "));
    let mesh = lit_quad_mesh(&mut renderer, "quad");
    renderer.queue_draw(draw(mesh, material));
    render_frame(&mut renderer).unwrap();
    let line = render_lines(&journal).pop().unwrap();
    assert_eq!(line.matches("m=[").count(), 1);
}

#[test]
fn a_textured_mesh_under_a_lit_material_is_dropped() {
    let (mut renderer, journal) = mock_renderer();
    let material = renderer.create_material(&MaterialDescriptor::new(s("shaded"), MaterialModel::Lit)).unwrap();
    let wrong = renderer.create_textured_mesh(&s("quad"), &textured_quad(), bounds_of(textured_quad().vertices.iter().map(|v| v.position))).unwrap();
    renderer.queue_draw(draw(wrong, material));
    render_frame(&mut renderer).unwrap();
    let line = render_lines(&journal).pop().unwrap();
    assert!(line.ends_with("draws=[]"));
}

// ---------------------------------------------------------------------
// Lighting.

#[test]
fn an_unlit_frame_emits_no_lights_line() {
    let (mut renderer, journal) = mock_renderer();
    render_frame(&mut renderer).unwrap();
    assert!(lights_lines(&journal).is_empty());
}

#[test]
fn lights_overflow_is_truncated_predictably() {
    let (mut renderer, journal) = mock_renderer();
    for index in 0..20u8 {
        renderer.submit_light(Light::point(v3(f32::from(index), 0.0, 0.0), white(), 1.0f32.to_bits(), 5.0f32.to_bits()));
    }
    render_frame(&mut renderer).unwrap();
    let line = lights_lines(&journal).pop().unwrap();
    assert!(line.contains("count=16"));
    assert!(line.contains("[point p=(0, 0, 0)"));
    assert!(line.contains("p=(15, 0, 0)"));
    assert!(!line.contains("p=(16, 0, 0)"));
    renderer.clear_draws();
    renderer.submit_light(Light::point(v3(0.0, 0.0, 0.0), white(), 1.0f32.to_bits(), 5.0f32.to_bits()));
    render_frame(&mut renderer).unwrap();
    assert!(lights_lines(&journal).pop().unwrap().contains("count=1"));
}

#[test]
fn clear_draws_clears_lights_but_keeps_the_ambient() {
    let (mut renderer, journal) = mock_renderer();
    renderer.set_ambient_light(white(), 0.2f32.to_bits());
    renderer.submit_light(Light::point(v3(0.0, 0.0, 0.0), white(), 1.0f32.to_bits(), 5.0f32.to_bits()));
    render_frame(&mut renderer).unwrap();
    assert!(lights_lines(&journal).pop().unwrap().contains("count=1"));

    renderer.clear_draws();
    render_frame(&mut renderer).unwrap();
    let line = lights_lines(&journal).pop().unwrap();
    assert!(line.contains("count=0"));
    assert!(line.contains("ambient=(1, 1, 1, 0.2)"));
    assert_eq!(renderer.ambient_light(), (white(), 0.2f32.to_bits()));
}

#[test]
fn the_frame_lights_serve_every_pass() {
    let (mut renderer, journal) = mock_renderer();
    let target = small_target(&mut renderer, "viewport");
    renderer.add_pass(&target_pass("mirror", target).with_order(-1)).unwrap();
    renderer.submit_light(Light::point(v3(0.0, 0.0, 0.0), white(), 1.0f32.to_bits(), 5.0f32.to_bits()));
    render_frame(&mut renderer).unwrap();
    assert_eq!(lights_lines(&journal).len(), 1);
    assert_eq!(render_lines(&journal).len(), 2);
}

#[test]
fn render_to_target_carries_the_collected_lights() {
    let (mut renderer, journal) = mock_renderer();
    let target = small_target(&mut renderer, "viewport");
    let mut off = Light::point(v3(1.0, 0.0, 0.0), white(), 1.0f32.to_bits(), 5.0f32.to_bits());
    off.set_enabled(false);
    renderer.submit_light(off);
    renderer.submit_light(Light::point(v3(0.0, 0.0, 0.0), white(), 1.0f32.to_bits(), 5.0f32.to_bits()));
    render_to_target(&mut renderer, target, black(), identity_matrix(), &[]).unwrap();
    let line = lights_lines(&journal).pop().unwrap();
    assert!(line.contains("count=1"));
    assert!(line.contains("p=(0, 0, 0)"));
}

#[test]
fn an_empty_plan_sends_no_lights() {
    let (mut renderer, journal) = mock_renderer();
    let main = renderer.main_pass();
    renderer.set_pass_enabled(main, false).unwrap();
    renderer.submit_light(Light::point(v3(0.0, 0.0, 0.0), white(), 1.0f32.to_bits(), 5.0f32.to_bits()));
    render_frame(&mut renderer).unwrap();
    assert!(lights_lines(&journal).is_empty());
    assert!(render_lines(&journal).is_empty());
}

#[test]
fn the_lighting_checkpoint() {
    let (mut renderer, journal) = mock_renderer();
    let (texture, sampler) = texture_and_sampler(&mut renderer);
    let material = renderer
        .create_material(
            &MaterialDescriptor::new(s("shaded"), MaterialModel::Lit).with_texture(texture).with_sampler(sampler),
        )
        .unwrap();
    let mesh = lit_quad_mesh(&mut renderer, "quad");
    renderer.set_ambient_light(white(), 0.05f32.to_bits());

    for frame in 0..2 {
        renderer.clear_draws();
        renderer.queue_draw(draw(mesh, material));
        let mut sun = Light::directional(v3(0.0, -1.0, 0.0), white(), 1.0f32.to_bits());
        sun.set_enabled(frame == 0);
        renderer.submit_light(sun);
        renderer.submit_light(Light::point(v3(1.0, 0.0, 0.0), rgb(1.0, 0.0, 0.0), 2.0f32.to_bits(), 4.0f32.to_bits()));
        renderer.submit_light(Light::point(v3(0.0, 0.0, 1.0), rgb(0.0, 0.0, 1.0), 2.0f32.to_bits(), 4.0f32.to_bits()));
        renderer.submit_light(Light::spot(
            v3(0.0, 1.0, 0.0),
            v3(0.0, -1.0, 0.0),
            white(),
            3.0f32.to_bits(),
            8.0f32.to_bits(),
            0.2f32.to_bits(),
            0.4f32.to_bits(),
        ));
        render_frame(&mut renderer).unwrap();
    }

    let lines = lights_lines(&journal);
    assert_eq!(lines.len(), 2);
    assert!(lines[0].contains("count=4"));
    assert!(lines[0].contains("[directional"));
    assert!(lines[0].contains("[spot p=(0, 1, 0) d=(0, -1, 0) r=8]"));
    assert!(lines[1].contains("count=3"));
    assert!(!lines[1].contains("[directional"));
    for line in render_lines(&journal) {
        assert_eq!(line.matches("m=[").count(), 1);
    }
}

// ---------------------------------------------------------------------
// Opacity, PBR and the transparent sort.

fn binding_lines(journal: &Journal) -> Vec<String> {
    journal.entries().into_iter().filter(|entry| entry.starts_with("create_material_binding")).collect()
}

fn sky_cubemap(renderer: &mut TestRenderer) -> TextureHandle {
    renderer
        .create_texture(&TextureDescriptor::cube(s("sky.cube"), 1, TextureFormat::Rgba8Unorm, vec![0; 4 * 6]))
        .unwrap()
}

fn material_with(renderer: &mut TestRenderer, label: &str, model: MaterialModel, opacity: MaterialOpacity) -> MaterialHandle {
    renderer.create_material(&MaterialDescriptor::new(s(label), model).with_opacity(opacity)).unwrap()
}

#[test]
fn pbr_properties_are_refused_on_non_pbr_models() {
    let (mut renderer, _journal) = mock_renderer();
    let refused = message(
        renderer.create_material(&MaterialDescriptor::new(s("m"), MaterialModel::Lit).with_metallic(0.5f32.to_bits())),
    );
    assert!(refused.contains("does not consume PBR"));
    assert!(refused.contains("'metallic'"));
    let (texture, _sampler) = texture_and_sampler(&mut renderer);
    let mapped =
        message(renderer.create_material(&MaterialDescriptor::new(s("m"), MaterialModel::Unlit).with_normal_map(texture)));
    assert!(mapped.contains("'normal_map'"));

    renderer
        .create_material(
            &MaterialDescriptor::new(s("p"), MaterialModel::Pbr)
                .with_metallic(0.5f32.to_bits())
                .with_roughness(0.3f32.to_bits()),
        )
        .unwrap();
    renderer
        .create_material(
            &MaterialDescriptor::new(
                s("c"),
                MaterialModel::Custom {
                    shader: ShaderRef::Inline(s("custom-code")),
                    vertex_layout: LitVertex::layout(),
                    material_inputs: true,
                },
            )
            .with_emissive(rgb(1.0, 0.0, 0.0)),
        )
        .unwrap();
}

#[test]
fn receive_shadows_off_is_refused_on_unlit_models() {
    let (mut renderer, journal) = mock_renderer();
    let vertex_color = message(
        renderer.create_material(&MaterialDescriptor::new(s("m"), MaterialModel::VertexColor).without_shadow_receive()),
    );
    assert!(vertex_color.contains("does not react to lighting"));
    assert!(vertex_color.contains("'receive_shadows'"));
    let unlit =
        message(renderer.create_material(&MaterialDescriptor::new(s("m"), MaterialModel::Unlit).without_shadow_receive()));
    assert!(unlit.contains("does not react to lighting"));

    renderer.create_material(&MaterialDescriptor::new(s("l"), MaterialModel::Lit).without_shadow_receive()).unwrap();
    assert!(binding_lines(&journal).pop().unwrap().contains("recv=off"));
    renderer.create_material(&MaterialDescriptor::new(s("v"), MaterialModel::VertexColor).without_shadow_cast()).unwrap();
}

#[test]
fn masked_contracts_are_validated_at_creation() {
    let (mut renderer, _journal) = mock_renderer();
    let blind = message(renderer.create_material(
        &MaterialDescriptor::new(s("m"), MaterialModel::VertexColor).with_opacity(MaterialOpacity::Masked),
    ));
    assert!(blind.contains("no alpha to test"));
    let inert = message(
        renderer.create_material(&MaterialDescriptor::new(s("m"), MaterialModel::Lit).with_alpha_cutoff(0.3f32.to_bits())),
    );
    assert!(inert.contains("'alpha_cutoff'"));
    let wild = message(
        renderer.create_material(
            &MaterialDescriptor::new(s("m"), MaterialModel::Lit)
                .with_opacity(MaterialOpacity::Masked)
                .with_alpha_cutoff(1.5f32.to_bits()),
        ),
    );
    assert!(wild.contains("0..=1"));
    renderer
        .create_material(
            &MaterialDescriptor::new(s("grid"), MaterialModel::Lit)
                .with_opacity(MaterialOpacity::Masked)
                .with_alpha_cutoff(0.35f32.to_bits()),
        )
        .unwrap();
    let probe = material_with(&mut renderer, "probe", MaterialModel::Unlit, MaterialOpacity::Masked);
    let info = renderer.material_info(probe).unwrap();
    assert_eq!(info.opacity, MaterialOpacity::Masked);
    assert_eq!(info.alpha_cutoff, 0.5f32.to_bits());
}

#[test]
fn the_masked_permutation_has_its_own_pipeline_and_entry() {
    let (mut renderer, journal) = mock_renderer();
    renderer.create_material(&MaterialDescriptor::new(s("solid"), MaterialModel::Lit)).unwrap();
    material_with(&mut renderer, "grid", MaterialModel::Lit, MaterialOpacity::Masked);
    let lines = create_pipeline_lines(&journal);
    assert!(lines[0].starts_with("create_pipeline chaos.material.lit "));
    assert!(!lines[0].contains(" entry="));
    assert!(lines[1].starts_with("create_pipeline chaos.material.lit.masked "));
    assert!(lines[1].contains(" entry=fs_masked"));
    assert!(!lines[1].contains(" blend=alpha"));
    material_with(&mut renderer, "fence", MaterialModel::Lit, MaterialOpacity::Masked);
    assert_eq!(create_pipeline_lines(&journal).len(), 2);
}

#[test]
fn the_alpha_cutoff_updates_in_place() {
    let (mut renderer, journal) = mock_renderer();
    let grid = renderer
        .create_material(
            &MaterialDescriptor::new(s("grid"), MaterialModel::Lit)
                .with_opacity(MaterialOpacity::Masked)
                .with_alpha_cutoff(0.35f32.to_bits()),
        )
        .unwrap();
    assert!(binding_lines(&journal).pop().unwrap().contains(" cutoff=0.35"));
    let bindings_before = binding_lines(&journal).len();
    let pipelines_before = create_pipeline_lines(&journal).len();
    renderer.set_material_alpha_cutoff(grid, 0.7f32.to_bits()).unwrap();
    assert!(journal
        .entries()
        .iter()
        .rfind(|entry| entry.starts_with("update_material_binding"))
        .unwrap()
        .contains(" cutoff=0.7"));
    assert_eq!(binding_lines(&journal).len(), bindings_before);
    assert_eq!(create_pipeline_lines(&journal).len(), pipelines_before);
    assert_eq!(renderer.material_info(grid).unwrap().alpha_cutoff, 0.7f32.to_bits());
    let solid = renderer.create_material(&MaterialDescriptor::new(s("solid"), MaterialModel::Lit)).unwrap();
    let refused = message(renderer.set_material_alpha_cutoff(solid, 0.3f32.to_bits()));
    assert!(refused.contains("is not Masked"));
    let wild = message(renderer.set_material_alpha_cutoff(grid, 2.0f32.to_bits()));
    assert!(wild.contains("0..=1"));
}

#[test]
fn transparent_draws_are_sorted_back_to_front() {
    let (mut renderer, journal) = mock_renderer();
    let glass = material_with(&mut renderer, "glass", MaterialModel::Lit, MaterialOpacity::Transparent);
    let mesh = lit_quad_mesh(&mut renderer, "pane");
    for z in [-1.0, -5.0, -3.0] {
        renderer.queue_draw(draw_at(mesh, glass, 0.0, 0.0, z));
    }
    render_frame(&mut renderer).unwrap();
    let line = render_lines(&journal).pop().unwrap();
    let far = line.find("m=[0, 0, -5]").unwrap();
    let mid = line.find("m=[0, 0, -3]").unwrap();
    let near = line.find("m=[0, 0, -1]").unwrap();
    assert!(far < mid && mid < near);
}

#[test]
fn the_transparent_sort_follows_the_camera() {
    let (mut renderer, journal) = mock_renderer();
    let glass = material_with(&mut renderer, "glass", MaterialModel::Lit, MaterialOpacity::Transparent);
    let mesh = lit_quad_mesh(&mut renderer, "pane");
    for z in [-1.0, -5.0] {
        renderer.queue_draw(draw_at(mesh, glass, 0.0, 0.0, z));
    }
    renderer.set_camera_position(v3(0.0, 0.0, 2.0));
    render_frame_from(&mut renderer, &[(0, [0.0, 0.0, 2.0])]).unwrap();
    let first = render_lines(&journal).pop().unwrap();
    assert!(first.find("m=[0, 0, -5]").unwrap() < first.find("m=[0, 0, -1]").unwrap());
    renderer.set_camera_position(v3(0.0, 0.0, -8.0));
    render_frame_from(&mut renderer, &[(0, [0.0, 0.0, -8.0])]).unwrap();
    let second = render_lines(&journal).pop().unwrap();
    assert!(second.find("m=[0, 0, -1]").unwrap() < second.find("m=[0, 0, -5]").unwrap());
}

#[test]
fn equal_depths_keep_the_submission_order() {
    let (mut renderer, journal) = mock_renderer();
    let veil = material_with(&mut renderer, "veil", MaterialModel::Lit, MaterialOpacity::Transparent);
    let tint = material_with(&mut renderer, "tint", MaterialModel::Lit, MaterialOpacity::Transparent);
    let mesh = lit_quad_mesh(&mut renderer, "pane");
    for material in [tint, veil] {
        renderer.queue_draw(draw_at(mesh, material, 0.0, 0.0, -2.0));
    }
    render_frame(&mut renderer).unwrap();
    let line = render_lines(&journal).pop().unwrap();
    assert!(line.find("b=Some(0)").unwrap() < line.find("b=Some(1)").unwrap());
}

#[test]
fn the_pass_order_is_opaque_masked_sky_transparent() {
    let (mut renderer, journal) = mock_renderer();
    let cubemap = sky_cubemap(&mut renderer);
    renderer.set_environment(&EnvironmentDescriptor::new(cubemap)).unwrap();
    let solid = renderer.create_material(&MaterialDescriptor::new(s("solid"), MaterialModel::Lit)).unwrap();
    let grid = material_with(&mut renderer, "grid", MaterialModel::Lit, MaterialOpacity::Masked);
    let glass = material_with(&mut renderer, "glass", MaterialModel::Lit, MaterialOpacity::Transparent);
    let mesh = lit_quad_mesh(&mut renderer, "pane");
    for material in [glass, grid, solid] {
        renderer.queue_draw(draw(mesh, material));
    }
    render_frame(&mut renderer).unwrap();
    let line = render_lines(&journal).pop().unwrap();
    let solid_at = line.find("b=Some(0)").unwrap();
    let grid_at = line.find("b=Some(1)").unwrap();
    let sky_at = line.find(", None, None, 3, b=None").unwrap();
    let glass_at = line.find("b=Some(2)").unwrap();
    assert!(solid_at < grid_at);
    assert!(grid_at < sky_at);
    assert!(sky_at < glass_at);
}

#[test]
fn the_breakdown_reports_the_categories() {
    let (mut renderer, _journal) = mock_renderer();
    let cubemap = sky_cubemap(&mut renderer);
    renderer.set_environment(&EnvironmentDescriptor::new(cubemap)).unwrap();
    let solid = renderer.create_material(&MaterialDescriptor::new(s("solid"), MaterialModel::Lit)).unwrap();
    let grid = material_with(&mut renderer, "grid", MaterialModel::Lit, MaterialOpacity::Masked);
    let glass = material_with(&mut renderer, "glass", MaterialModel::Lit, MaterialOpacity::Transparent);
    let mesh = lit_quad_mesh(&mut renderer, "pane");
    for material in [solid, solid, grid, glass] {
        renderer.queue_draw(draw(mesh, material));
    }
    render_frame(&mut renderer).unwrap();
    let report = renderer.frame_report();
    assert_eq!(report.passes[0].breakdown, DrawBreakdown { opaque: 2, masked: 1, transparent: 1, injected: 1 });
    assert_eq!(report.passes[0].draws, 5);
    let main = renderer.main_pass();
    renderer.set_pass_enabled(main, false).unwrap();
    render_frame(&mut renderer).unwrap();
    assert_eq!(renderer.frame_report().passes[0].breakdown, DrawBreakdown::default());
}

fn demo_shadow() -> DirectionalShadowDescriptor {
    DirectionalShadowDescriptor::new(ShadowVolume { center: v3(0.0, 0.0, 0.0), half_extents: v3(10.0, 10.0, 10.0) })
}

fn sun() -> Light {
    Light::directional(v3(0.0, -1.0, 0.0), white(), 1.0f32.to_bits())
}

#[test]
fn masked_materials_cast_shadow_silhouettes() {
    let (mut renderer, _journal) = mock_renderer();
    renderer.set_directional_shadow(&demo_shadow()).unwrap();
    renderer.submit_light(sun());
    let grid = material_with(&mut renderer, "grid", MaterialModel::Lit, MaterialOpacity::Masked);
    let glass = material_with(&mut renderer, "glass", MaterialModel::Lit, MaterialOpacity::Transparent);
    let mesh = lit_quad_mesh(&mut renderer, "pane");
    for material in [grid, glass] {
        renderer.queue_draw(draw(mesh, material));
    }
    render_frame(&mut renderer).unwrap();
    assert_eq!(
        renderer.frame_report().shadow,
        Some(ShadowReport { draws: 1, draw_calls: 1, culled: 0, resolution: 2048 })
    );
}

#[test]
fn material_info_reflects_the_shadow_flags() {
    let (mut renderer, _journal) = mock_renderer();
    let material = renderer
        .create_material(
            &MaterialDescriptor::new(s("m"), MaterialModel::Pbr).without_shadow_cast().without_shadow_receive(),
        )
        .unwrap();
    let info = renderer.material_info(material).unwrap();
    assert!(!info.cast_shadows);
    assert!(!info.receive_shadows);
    let lit = renderer.create_material(&MaterialDescriptor::new(s("d"), MaterialModel::Lit)).unwrap();
    let info = renderer.material_info(lit).unwrap();
    assert!(info.cast_shadows);
    assert!(info.receive_shadows);
}

#[test]
fn a_pbr_material_resolves_its_permutation_and_draws() {
    let (mut renderer, journal) = mock_renderer();
    let material = renderer.create_material(&MaterialDescriptor::new(s("shaded"), MaterialModel::Pbr)).unwrap();
    assert!(create_pipeline_lines(&journal)[0].starts_with("create_pipeline chaos.material.pbr "));
    let mesh = lit_quad_mesh(&mut renderer, "quad");
    renderer.queue_draw(draw(mesh, material));
    render_frame(&mut renderer).unwrap();
    let line = render_lines(&journal).pop().unwrap();
    assert_eq!(line.matches("m=[").count(), 1);
}

#[test]
fn the_binding_carries_the_seven_slots() {
    let (mut renderer, journal) = mock_renderer();
    let mr = small_texture(&mut renderer, "mr");
    let normal = small_texture(&mut renderer, "bumps");
    renderer
        .create_material(
            &MaterialDescriptor::new(s("full"), MaterialModel::Pbr)
                .with_metallic(0.7f32.to_bits())
                .with_roughness(0.25f32.to_bits())
                .with_metallic_roughness_texture(mr)
                .with_normal_map(normal)
                .with_emissive(rgb(2.0, 1.0, 0.5)),
        )
        .unwrap();
    let line = binding_lines(&journal).pop().unwrap();
    assert!(line.contains("texture=2"));
    assert!(line.contains(" mr=0 "));
    assert!(line.contains(" normal=1 "));
    assert!(line.contains(" ao=2 "));
    assert!(line.contains(" em=2"));
    assert!(line.contains(" metallic=0.7"));
    assert!(line.contains(" roughness=0.25"));
    assert!(line.contains(" emissive=(2, 1, 0.5)"));
}

#[test]
fn cubemaps_are_refused_on_every_pbr_slot() {
    let (mut renderer, _journal) = mock_renderer();
    let cube = renderer
        .create_texture(&TextureDescriptor::cube(s("env"), 1, TextureFormat::Rgba8Unorm, vec![0; 24]))
        .unwrap();
    let slots: [fn(MaterialDescriptor, TextureHandle) -> MaterialDescriptor; 4] = [
        |d, t| d.with_metallic_roughness_texture(t),
        |d, t| d.with_normal_map(t),
        |d, t| d.with_occlusion_texture(t),
        |d, t| d.with_emissive_texture(t),
    ];
    for attach in slots {
        let descriptor = attach(MaterialDescriptor::new(s("m"), MaterialModel::Pbr), cube);
        let refused = message(renderer.create_material(&descriptor));
        assert!(refused.contains("cubemap"));
    }
}

#[test]
fn every_pbr_slot_is_refcounted() {
    let (mut renderer, _journal) = mock_renderer();
    let mr = small_texture(&mut renderer, "mr");
    let material = renderer
        .create_material(&MaterialDescriptor::new(s("m"), MaterialModel::Pbr).with_metallic_roughness_texture(mr))
        .unwrap();
    let refused = message(renderer.destroy_texture(mr));
    assert!(refused.contains("still used by 1 material(s)"));
    renderer.destroy_material(material).unwrap();
    renderer.destroy_texture(mr).unwrap();
}

#[test]
fn a_doubled_slot_takes_two_shares() {
    let (mut renderer, _journal) = mock_renderer();
    let shared = small_texture(&mut renderer, "both");
    let material = renderer
        .create_material(
            &MaterialDescriptor::new(s("m"), MaterialModel::Pbr).with_texture(shared).with_emissive_texture(shared),
        )
        .unwrap();
    let refused = message(renderer.destroy_texture(shared));
    assert!(refused.contains("still used by 2 material(s)"));
    renderer.destroy_material(material).unwrap();
    renderer.destroy_texture(shared).unwrap();
}

#[test]
fn pbr_params_update_in_place() {
    let (mut renderer, journal) = mock_renderer();
    let material = renderer.create_material(&MaterialDescriptor::new(s("m"), MaterialModel::Pbr)).unwrap();
    let bindings_before = binding_lines(&journal).len();
    let pipelines_before = create_pipeline_lines(&journal).len();

    renderer.set_material_metallic(material, 0.9f32.to_bits()).unwrap();
    renderer.set_material_roughness(material, 0.2f32.to_bits()).unwrap();
    renderer.set_material_emissive(material, rgb(3.0, 1.5, 0.0)).unwrap();

    let entries = journal.entries();
    assert_eq!(
        entries[entries.len() - 1],
        "update_material_binding index=0 color=(1, 1, 1, 1) metallic=0.9 roughness=0.2 emissive=(3, 1.5, 0)"
    );
    assert_eq!(binding_lines(&journal).len(), bindings_before);
    assert_eq!(create_pipeline_lines(&journal).len(), pipelines_before);

    let info = renderer.material_info(material).unwrap();
    assert_eq!(info.metallic, 0.9f32.to_bits());
    assert_eq!(info.roughness, 0.2f32.to_bits());
    assert_eq!(info.emissive, rgb(3.0, 1.5, 0.0));

    let lit = renderer.create_material(&MaterialDescriptor::new(s("lit"), MaterialModel::Lit)).unwrap();
    let refused = message(renderer.set_material_metallic(lit, 0.5f32.to_bits()));
    assert!(refused.contains("does not consume PBR"));

    renderer.destroy_material(material).unwrap();
    let stale = message(renderer.set_material_roughness(material, 0.5f32.to_bits()));
    assert!(stale.contains("stale"));
}

#[test]
fn a_pbr_slot_feedback_is_dropped() {
    let (mut renderer, _journal) = mock_renderer();
    let target = small_target(&mut renderer, "viewport");
    let color = renderer.render_target_color(target).unwrap();
    let material = renderer
        .create_material(&MaterialDescriptor::new(s("glow"), MaterialModel::Pbr).with_emissive_texture(color))
        .unwrap();
    let mesh = lit_quad_mesh(&mut renderer, "quad");
    let mirror = renderer.add_pass(&target_pass("mirror", target).with_order(-1)).unwrap();
    renderer.queue_draw_to(mirror, draw(mesh, material)).unwrap();
    render_frame(&mut renderer).unwrap();
    assert_eq!(renderer.frame_report().passes[0].draws, 0);
}

#[test]
fn the_camera_position_travels_per_pass() {
    let (mut renderer, journal) = mock_renderer();
    let target = small_target(&mut renderer, "viewport");
    let mirror = renderer
        .add_pass(&target_pass("mirror", target).with_camera_position(v3(0.0, 7.0, 0.0)).with_order(-1))
        .unwrap();
    renderer.set_camera_position(v3(1.0, 2.0, 3.0));
    render_frame(&mut renderer).unwrap();
    let lines = render_lines(&journal);
    assert!(lines[0].ends_with(" cam=(0, 7, 0)"));
    assert!(lines[1].ends_with(" cam=(1, 2, 3)"));

    renderer.set_pass_camera_position(mirror, v3(0.0, 0.0, 0.0)).unwrap();
    renderer.set_camera_position(v3(0.0, 0.0, 0.0));
    render_frame(&mut renderer).unwrap();
    let lines = render_lines(&journal);
    assert!(!lines[2].contains("cam="));
    assert!(!lines[3].contains("cam="));

    render_to_target(&mut renderer, target, black(), identity_matrix(), &[]).unwrap();
    assert!(!render_lines(&journal).pop().unwrap().contains("cam="));
}

#[test]
fn the_pbr_checkpoint() {
    let (mut renderer, journal) = mock_renderer();
    let normal_map = small_texture(&mut renderer, "bumps");
    let mesh = lit_quad_mesh(&mut renderer, "sphere");

    let mut materials = Vec::new();
    for (index, (metallic, roughness)) in [(0.0f32, 0.1f32), (0.0, 1.0), (1.0, 0.1), (1.0, 1.0)].iter().enumerate() {
        materials.push(
            renderer
                .create_material(
                    &MaterialDescriptor::new(format!("grid.{index}"), MaterialModel::Pbr)
                        .with_metallic(metallic.to_bits())
                        .with_roughness(roughness.to_bits()),
                )
                .unwrap(),
        );
    }
    let bumpy = renderer
        .create_material(&MaterialDescriptor::new(s("bumpy"), MaterialModel::Pbr).with_normal_map(normal_map))
        .unwrap();
    let glowing = renderer
        .create_material(&MaterialDescriptor::new(s("glowing"), MaterialModel::Pbr).with_emissive(rgb(2.0, 0.5, 0.1)))
        .unwrap();

    renderer.set_camera_position(v3(0.0, 1.0, 6.0));
    renderer.submit_light(sun());
    for material in materials.iter().chain([&bumpy, &glowing]) {
        renderer.queue_draw(draw(mesh, *material));
    }
    render_frame_from(&mut renderer, &[(0, [0.0, 1.0, 6.0])]).unwrap();

    assert_eq!(
        create_pipeline_lines(&journal).iter().filter(|line| line.contains("chaos.material.pbr")).count(),
        1
    );
    assert_eq!(binding_lines(&journal).len(), 6);
    let line = render_lines(&journal).pop().unwrap();
    assert_eq!(line.matches("m=[").count(), 6);
    assert!(line.ends_with(" cam=(0, 1, 6)"));

    let bindings_before = binding_lines(&journal).len();
    renderer.set_material_emissive(glowing, rgb(0.5, 0.1, 0.0)).unwrap();
    render_frame_from(&mut renderer, &[(0, [0.0, 1.0, 6.0])]).unwrap();
    assert_eq!(binding_lines(&journal).len(), bindings_before);
    assert_eq!(renderer.material_info(glowing).unwrap().emissive, rgb(0.5, 0.1, 0.0));
}

// ---------------------------------------------------------------------
// The environment.

fn env_cubemap(renderer: &mut TestRenderer, label: &str) -> TextureHandle {
    renderer.create_texture(&TextureDescriptor::cube(s(label), 1, TextureFormat::Rgba8Unorm, vec![0; 24])).unwrap()
}

fn environment_lines(journal: &Journal) -> Vec<String> {
    journal.entries().into_iter().filter(|entry| entry.starts_with("set_environment")).collect()
}

const SKY_DRAW: &str = ", None, None, 3, b=None, m=[0, 0, 0])";

fn last_environment(journal: &Journal) -> Option<String> {
    journal.entries().iter().rfind(|entry| entry.starts_with("environment ")).cloned()
}

#[test]
fn an_environment_requires_a_living_cubemap() {
    let (mut renderer, _journal) = mock_renderer();
    let flat = small_texture(&mut renderer, "flat");
    let refused = message(renderer.set_environment(&EnvironmentDescriptor::new(flat)));
    assert!(refused.contains("'flat'"));
    assert!(refused.contains("D2"));
    assert!(refused.contains("expects a cubemap"));

    let cube = env_cubemap(&mut renderer, "sky");
    renderer.destroy_texture(cube).unwrap();
    let stale = message(renderer.set_environment(&EnvironmentDescriptor::new(cube)));
    assert!(stale.contains("stale"));

    let alive = env_cubemap(&mut renderer, "sky2");
    let negative =
        message(renderer.set_environment(&EnvironmentDescriptor::new(alive).with_intensity((-1.0f32).to_bits())));
    assert!(negative.contains("finite and non-negative"));
    let nan = message(renderer.set_environment(&EnvironmentDescriptor::new(alive).with_intensity(f32::NAN.to_bits())));
    assert!(nan.contains("finite and non-negative"));
    assert!(renderer.environment_info().is_none());
}

#[test]
fn setting_the_environment_rebinds_the_backend_once() {
    let (mut renderer, journal) = mock_renderer();
    let cube = env_cubemap(&mut renderer, "sky");
    renderer.set_environment(&EnvironmentDescriptor::new(cube)).unwrap();
    assert_eq!(environment_lines(&journal), vec![s("set_environment index=0")]);

    renderer.set_environment(&EnvironmentDescriptor::new(cube).with_intensity(0.5f32.to_bits())).unwrap();
    assert_eq!(environment_lines(&journal).len(), 1);
    assert_eq!(renderer.environment_info().unwrap().intensity, 0.5f32.to_bits());

    let other = env_cubemap(&mut renderer, "night");
    renderer.set_environment(&EnvironmentDescriptor::new(other)).unwrap();
    assert_eq!(environment_lines(&journal).pop().unwrap(), "set_environment index=1");
}

#[test]
fn clearing_the_environment_rebinds_the_fallback() {
    let (mut renderer, journal) = mock_renderer();
    renderer.clear_environment().unwrap();
    assert!(environment_lines(&journal).is_empty());

    let cube = env_cubemap(&mut renderer, "sky");
    renderer.set_environment(&EnvironmentDescriptor::new(cube)).unwrap();
    renderer.clear_environment().unwrap();
    renderer.clear_environment().unwrap();
    assert_eq!(environment_lines(&journal), vec![s("set_environment index=0"), s("set_environment none")]);
    assert!(renderer.environment_info().is_none());
}

#[test]
fn the_active_environment_refuses_destruction() {
    let (mut renderer, _journal) = mock_renderer();
    let cube = env_cubemap(&mut renderer, "sky");
    renderer.set_environment(&EnvironmentDescriptor::new(cube)).unwrap();
    let refused = message(renderer.destroy_texture(cube));
    assert!(refused.contains("'sky' is the active environment: clear it first"));
    renderer.clear_environment().unwrap();
    renderer.destroy_texture(cube).unwrap();
}

#[test]
fn the_sky_draw_covers_clear_passes() {
    let (mut renderer, journal) = mock_renderer();
    let target = small_target(&mut renderer, "viewport");
    let mirror = renderer.add_pass(&target_pass("mirror", target).with_order(-1)).unwrap();
    let opaque = plain_material(&mut renderer, "solid");
    let transparent = material_with(&mut renderer, "glass", MaterialModel::VertexColor, MaterialOpacity::Transparent);
    let mesh = create_mesh(&mut renderer, "tri", &triangle());
    let cube = env_cubemap(&mut renderer, "sky");
    renderer.set_environment(&EnvironmentDescriptor::new(cube)).unwrap();

    for material in [opaque, transparent] {
        renderer.queue_draw(draw(mesh, material));
        renderer.queue_draw_to(mirror, draw(mesh, material)).unwrap();
    }
    render_frame(&mut renderer).unwrap();

    for line in render_lines(&journal) {
        let sky = line.find(SKY_DRAW).unwrap();
        assert!(line[..sky].contains("Some("));
        assert!(line[sky + SKY_DRAW.len()..].contains("Some("));
    }
    for report in &renderer.frame_report().passes {
        assert_eq!(report.draws, 3);
    }

    render_to_target(&mut renderer, target, black(), identity_matrix(), &[]).unwrap();
    assert!(render_lines(&journal).pop().unwrap().contains(SKY_DRAW));

    renderer.clear_environment().unwrap();
    render_frame(&mut renderer).unwrap();
    assert!(!render_lines(&journal).pop().unwrap().contains(SKY_DRAW));
}

#[test]
fn a_keep_pass_never_draws_the_sky() {
    let (mut renderer, journal) = mock_renderer();
    renderer.add_pass(&surface_pass("overlay").with_load(PassLoad::Keep).with_order(1)).unwrap();
    let cube = env_cubemap(&mut renderer, "sky");
    renderer.set_environment(&EnvironmentDescriptor::new(cube)).unwrap();
    render_frame(&mut renderer).unwrap();
    let lines = render_lines(&journal);
    assert!(lines[0].contains(SKY_DRAW));
    assert!(!lines[1].contains(SKY_DRAW));
    assert!(lines[1].ends_with(" load=keep"));
}

#[test]
fn the_sky_respects_its_flag() {
    let (mut renderer, journal) = mock_renderer();
    let cube = env_cubemap(&mut renderer, "sky");
    renderer.set_environment(&EnvironmentDescriptor::new(cube).with_sky(false)).unwrap();
    render_frame(&mut renderer).unwrap();
    assert!(!render_lines(&journal).pop().unwrap().contains(SKY_DRAW));
    assert!(create_pipeline_lines(&journal).is_empty());
    assert_eq!(journal.entries().iter().filter(|entry| entry.starts_with("environment ")).count(), 1);
}

#[test]
fn no_environment_means_no_journal_delta() {
    let (mut renderer, journal) = mock_renderer();
    renderer.set_exposure(1.0f32.to_bits()).unwrap();
    render_frame(&mut renderer).unwrap();
    assert!(journal
        .entries()
        .iter()
        .all(|entry| !entry.starts_with("environment ") && !entry.starts_with("set_environment")));
    assert!(create_pipeline_lines(&journal).is_empty());
}

#[test]
fn the_sky_pipeline_is_one_permutation_per_format() {
    let (mut renderer, journal) = mock_renderer();
    let target = small_target(&mut renderer, "viewport");
    renderer.add_pass(&target_pass("mirror", target).with_order(-1)).unwrap();
    let cube = env_cubemap(&mut renderer, "sky");
    renderer.set_environment(&EnvironmentDescriptor::new(cube)).unwrap();
    render_frame(&mut renderer).unwrap();
    render_frame(&mut renderer).unwrap();
    let lines = create_pipeline_lines(&journal);
    assert_eq!(lines.len(), 2);
    assert!(lines[0].starts_with("create_pipeline chaos.sky.Rgba8UnormSrgb "));
    assert!(lines[1].starts_with("create_pipeline chaos.sky "));
    for line in &lines {
        assert!(line.ends_with(" depth=less_equal"));
    }
}

#[test]
fn the_environment_line_travels_with_the_plan() {
    let (mut renderer, journal) = mock_renderer();
    let cube = env_cubemap(&mut renderer, "sky");
    renderer.set_environment(&EnvironmentDescriptor::new(cube).with_intensity(2.0f32.to_bits())).unwrap();
    renderer.set_exposure(1.5f32.to_bits()).unwrap();
    render_frame(&mut renderer).unwrap();
    assert_eq!(last_environment(&journal).as_deref(), Some("environment intensity=2 exposure=1.5"));

    renderer.clear_environment().unwrap();
    render_frame(&mut renderer).unwrap();
    assert_eq!(last_environment(&journal).as_deref(), Some("environment intensity=0 exposure=1.5"));
}

#[test]
fn exposure_is_validated_and_persistent() {
    let (mut renderer, _journal) = mock_renderer();
    assert_eq!(renderer.exposure(), 1.0f32.to_bits());
    for invalid in [0.0f32, -1.0, f32::NAN, f32::INFINITY] {
        let refused = message(renderer.set_exposure(invalid.to_bits()));
        assert!(refused.contains("positive, finite"));
    }
    renderer.set_exposure(2.0f32.to_bits()).unwrap();
    renderer.clear_draws();
    assert_eq!(renderer.exposure(), 2.0f32.to_bits());
}

#[test]
fn environment_info_reflects_the_state() {
    let (mut renderer, _journal) = mock_renderer();
    let cube = renderer
        .create_texture(
            &TextureDescriptor::cube(s("hdr"), 2, TextureFormat::Rgba16Float, vec![0; 192]).with_mips(TextureMips::Generate),
        )
        .unwrap();
    renderer
        .set_environment(&EnvironmentDescriptor::new(cube).with_intensity(0.8f32.to_bits()).with_sky(false))
        .unwrap();
    let info = renderer.environment_info().unwrap();
    assert_eq!(info.label, "hdr");
    assert_eq!(info.intensity, 0.8f32.to_bits());
    assert!(!info.sky);
    assert_eq!(info.mip_levels, 2);
    renderer.clear_environment().unwrap();
    assert!(renderer.environment_info().is_none());
}

#[test]
fn the_environment_checkpoint() {
    let (mut renderer, journal) = mock_renderer();
    let target = small_target(&mut renderer, "viewport");
    renderer.add_pass(&target_pass("mirror", target).with_order(-1)).unwrap();
    let mesh = lit_quad_mesh(&mut renderer, "sphere");
    let mut materials = Vec::new();
    for (index, metallic) in [0.0f32, 1.0].iter().enumerate() {
        materials.push(
            renderer
                .create_material(
                    &MaterialDescriptor::new(format!("grid.{index}"), MaterialModel::Pbr)
                        .with_metallic(metallic.to_bits())
                        .with_roughness(0.2f32.to_bits()),
                )
                .unwrap(),
        );
    }
    let hdr = renderer
        .create_texture(
            &TextureDescriptor::cube(s("env"), 2, TextureFormat::Rgba16Float, vec![0; 192]).with_mips(TextureMips::Generate),
        )
        .unwrap();
    renderer.set_environment(&EnvironmentDescriptor::new(hdr)).unwrap();

    for material in &materials {
        renderer.queue_draw(draw(mesh, *material));
    }
    render_frame(&mut renderer).unwrap();

    let lines = render_lines(&journal);
    assert!(lines[0].contains(SKY_DRAW));
    assert!(lines[1].contains(SKY_DRAW));
    assert_eq!(lines[1].matches("m=[").count(), 3);
    assert_eq!(
        create_pipeline_lines(&journal).iter().filter(|line| line.contains("chaos.material.pbr")).count(),
        1
    );
    assert_eq!(last_environment(&journal).as_deref(), Some("environment intensity=1 exposure=1"));

    renderer.set_exposure(2.0f32.to_bits()).unwrap();
    renderer.set_environment(&EnvironmentDescriptor::new(hdr).with_intensity(0.5f32.to_bits())).unwrap();
    let pipelines_before = create_pipeline_lines(&journal).len();
    render_frame(&mut renderer).unwrap();
    assert_eq!(environment_lines(&journal).len(), 1);
    assert_eq!(create_pipeline_lines(&journal).len(), pipelines_before);
    assert_eq!(last_environment(&journal).as_deref(), Some("environment intensity=0.5 exposure=2"));

    renderer.clear_environment().unwrap();
    render_frame(&mut renderer).unwrap();
    assert!(!render_lines(&journal).pop().unwrap().contains(SKY_DRAW));
}

// ---------------------------------------------------------------------
// Directional shadows.

fn set_shadow_lines(journal: &Journal) -> Vec<String> {
    journal.entries().into_iter().filter(|entry| entry.starts_with("set_shadow")).collect()
}

fn shadow_lines(journal: &Journal) -> Vec<String> {
    journal.entries().into_iter().filter(|entry| entry.starts_with("shadow ")).collect()
}

fn lit_caster(renderer: &mut TestRenderer, label: &str) -> DrawCommand {
    let material = renderer.create_material(&MaterialDescriptor::new(s(label), MaterialModel::Lit)).unwrap();
    let mesh = lit_quad_mesh(renderer, label);
    draw(mesh, material)
}

fn one_caster_report() -> Option<ShadowReport> {
    Some(ShadowReport { draws: 1, draw_calls: 1, culled: 0, resolution: 2048 })
}

#[test]
fn configuring_the_shadow_reaches_the_backend_once() {
    let (mut renderer, journal) = mock_renderer();
    renderer.set_directional_shadow(&demo_shadow()).unwrap();
    assert_eq!(set_shadow_lines(&journal), vec!["set_shadow resolution=2048"]);

    renderer
        .set_directional_shadow(&demo_shadow().with_depth_bias(0.01f32.to_bits()).with_normal_bias(0.1f32.to_bits()))
        .unwrap();
    assert_eq!(set_shadow_lines(&journal).len(), 1);

    renderer.set_directional_shadow(&demo_shadow().with_resolution(1024)).unwrap();
    assert_eq!(set_shadow_lines(&journal), vec!["set_shadow resolution=2048", "set_shadow resolution=1024"]);

    renderer.clear_directional_shadow().unwrap();
    renderer.clear_directional_shadow().unwrap();
    assert_eq!(
        set_shadow_lines(&journal),
        vec!["set_shadow resolution=2048", "set_shadow resolution=1024", "set_shadow none"]
    );
}

#[test]
fn shadow_settings_are_validated_before_the_backend() {
    let (mut renderer, journal) = mock_renderer();
    let refused = message(renderer.set_directional_shadow(&demo_shadow().with_resolution(8)));
    assert!(refused.contains("16..=8192"));
    let flat = message(renderer.set_directional_shadow(&DirectionalShadowDescriptor::new(ShadowVolume {
        center: v3(0.0, 0.0, 0.0),
        half_extents: v3(10.0, 0.0, 10.0),
    })));
    assert!(flat.contains("half extents"));
    assert!(set_shadow_lines(&journal).is_empty());
    assert!(renderer.directional_shadow_info().is_none());
}

#[test]
fn shadow_info_mirrors_the_state() {
    let (mut renderer, _journal) = mock_renderer();
    assert!(renderer.directional_shadow_info().is_none());
    renderer.set_directional_shadow(&demo_shadow().with_resolution(512).with_depth_bias(0.01f32.to_bits())).unwrap();
    let info = renderer.directional_shadow_info().unwrap();
    assert_eq!(info.resolution, 512);
    assert_eq!(info.depth_bias, 0.01f32.to_bits());
    assert_eq!(info.volume.half_extents, v3(10.0, 10.0, 10.0));
    renderer.clear_directional_shadow().unwrap();
    assert!(renderer.directional_shadow_info().is_none());
}

#[test]
fn the_shadow_pass_travels_first_with_the_casting_draws() {
    let (mut renderer, journal) = mock_renderer();
    renderer.set_directional_shadow(&demo_shadow()).unwrap();
    renderer.submit_light(sun());
    let command = lit_caster(&mut renderer, "caster");
    renderer.queue_draw(command);
    render_frame(&mut renderer).unwrap();

    assert!(create_pipeline_lines(&journal)
        .iter()
        .any(|line| line.starts_with("create_pipeline chaos.shadow.32 ") && line.contains(" depth_only")));
    let entries = journal.entries();
    let shadow_at = entries.iter().position(|entry| entry.starts_with("shadow ")).unwrap();
    let render_at = entries.iter().position(|entry| entry.starts_with("render ")).unwrap();
    assert!(shadow_at < render_at);
    let shadow = &entries[shadow_at];
    assert!(shadow.contains("res=2048"));
    assert!(shadow.contains("light=0"));
    assert!(shadow.contains("b=None"));
    assert_eq!(renderer.frame_report().shadow, one_caster_report());
}

#[test]
fn without_a_directional_light_the_shadow_pass_is_absent() {
    let (mut renderer, journal) = mock_renderer();
    renderer.set_directional_shadow(&demo_shadow()).unwrap();
    let command = lit_caster(&mut renderer, "caster");
    renderer.queue_draw(command);

    render_frame(&mut renderer).unwrap();
    assert!(shadow_lines(&journal).is_empty());
    assert_eq!(renderer.frame_report().shadow, None);

    renderer.submit_light(Light::point(v3(0.0, 1.0, 0.0), white(), 1.0f32.to_bits(), 5.0f32.to_bits()));
    render_frame(&mut renderer).unwrap();
    assert!(shadow_lines(&journal).is_empty());

    let mut off = sun();
    off.set_enabled(false);
    renderer.submit_light(off);
    render_frame(&mut renderer).unwrap();
    assert!(shadow_lines(&journal).is_empty());
    assert_eq!(renderer.frame_report().shadow, None);
}

#[test]
fn the_first_enabled_directional_is_the_caster() {
    let (mut renderer, journal) = mock_renderer();
    renderer.set_directional_shadow(&demo_shadow()).unwrap();
    let command = lit_caster(&mut renderer, "caster");
    renderer.queue_draw(command);
    renderer.submit_light(Light::point(v3(0.0, 1.0, 0.0), white(), 1.0f32.to_bits(), 5.0f32.to_bits()));
    renderer.submit_light(sun());
    renderer.submit_light(Light::directional(v3(-1.0, 0.0, 0.0), white(), 0.5f32.to_bits()));
    render_frame(&mut renderer).unwrap();
    let shadow = shadow_lines(&journal).pop().unwrap();
    assert!(shadow.contains("light=1"));
}

#[test]
fn transparent_and_non_casting_materials_never_cast() {
    let (mut renderer, journal) = mock_renderer();
    renderer.set_directional_shadow(&demo_shadow()).unwrap();
    renderer.submit_light(sun());
    let caster = lit_caster(&mut renderer, "caster");
    renderer.queue_draw(caster);
    let opted_out =
        renderer.create_material(&MaterialDescriptor::new(s("shy"), MaterialModel::Lit).without_shadow_cast()).unwrap();
    let glass = material_with(&mut renderer, "glass", MaterialModel::Lit, MaterialOpacity::Transparent);
    let mesh = lit_quad_mesh(&mut renderer, "extra");
    renderer.queue_draw(draw(mesh, opted_out));
    renderer.queue_draw(draw(mesh, glass));
    render_frame(&mut renderer).unwrap();
    assert_eq!(renderer.frame_report().shadow, one_caster_report());
    let shadow = shadow_lines(&journal).pop().unwrap();
    assert_eq!(shadow.matches("m=[").count(), 1);
}

#[test]
fn the_sky_never_casts_a_shadow() {
    let (mut renderer, journal) = mock_renderer();
    let cubemap = sky_cubemap(&mut renderer);
    renderer.set_environment(&EnvironmentDescriptor::new(cubemap)).unwrap();
    renderer.set_directional_shadow(&demo_shadow()).unwrap();
    renderer.submit_light(sun());
    let command = lit_caster(&mut renderer, "caster");
    renderer.queue_draw(command);
    render_frame(&mut renderer).unwrap();
    assert_eq!(renderer.frame_report().shadow, one_caster_report());
    let render = render_lines(&journal).pop().unwrap();
    assert_eq!(render.matches("m=[").count(), 2);
}

#[test]
fn shadow_pipelines_are_permutations_cached_by_layout_and_state() {
    let (mut renderer, journal) = mock_renderer();
    renderer.set_directional_shadow(&demo_shadow()).unwrap();
    renderer.submit_light(sun());
    let first = lit_caster(&mut renderer, "first");
    let second = lit_caster(&mut renderer, "second");
    let leafy =
        renderer.create_material(&MaterialDescriptor::new(s("leafy"), MaterialModel::Lit).double_sided()).unwrap();
    renderer.queue_draw(first);
    renderer.queue_draw(second);
    renderer.queue_draw(draw(first.mesh, leafy));
    render_frame(&mut renderer).unwrap();
    renderer.queue_draw(first);
    render_frame(&mut renderer).unwrap();
    let shadow_pipelines: Vec<String> =
        create_pipeline_lines(&journal).into_iter().filter(|line| line.contains("chaos.shadow")).collect();
    assert_eq!(shadow_pipelines.len(), 3);
    assert!(shadow_pipelines[0].starts_with("create_pipeline chaos.shadow.32 "));
    assert!(shadow_pipelines[1].starts_with("create_pipeline chaos.shadow.32.double_sided "));
    assert!(shadow_pipelines[2].starts_with("create_pipeline chaos.shadow.32.instanced "));
    assert!(shadow_lines(&journal).pop().unwrap().contains("inst=2"));
}

#[test]
fn a_layout_without_position_is_excluded_from_casting() {
    let journal = Journal::default();
    let mut backend = MockBackend::new(journal.clone(), FrameOutcome::Rendered, default_limits());
    let library = ShaderLibrary::new();
    let mut lifetime = LifetimeTracker::new();
    let mut caches = PipelineCaches::new();
    let key = ShadowKey {
        vertex_layout: VertexLayout::packed(&[VertexAttributeFormat::Float32x2]),
        double_sided: false,
        instanced: false,
    };
    assert!(caches.resolve_shadow(&mut backend, &library, &mut lifetime, &key).is_none());
    assert!(caches.resolve_shadow(&mut backend, &library, &mut lifetime, &key).is_none());
    assert!(create_pipeline_lines(&journal).iter().all(|line| !line.contains("chaos.shadow")));
}

#[test]
fn render_to_target_carries_no_shadow_pass() {
    let (mut renderer, journal) = mock_renderer();
    renderer.set_directional_shadow(&demo_shadow()).unwrap();
    renderer.submit_light(sun());
    let target = renderer
        .create_render_target(&RenderTargetDescriptor::new(s("vignette"), 64, 64, TextureFormat::Rgba8UnormSrgb))
        .unwrap();
    let command = lit_caster(&mut renderer, "caster");
    render_to_target(&mut renderer, target, black(), identity_matrix(), &[command]).unwrap();
    assert!(shadow_lines(&journal).is_empty());
    assert_eq!(renderer.frame_report().shadow, None);
}

#[test]
fn an_empty_plan_skips_the_shadow_too() {
    let (mut renderer, journal) = mock_renderer();
    renderer.set_directional_shadow(&demo_shadow()).unwrap();
    renderer.submit_light(sun());
    let main = renderer.main_pass();
    renderer.set_pass_enabled(main, false).unwrap();
    render_frame(&mut renderer).unwrap();
    assert!(shadow_lines(&journal).is_empty());
    assert_eq!(renderer.frame_report().shadow, None);
}

#[test]
fn shadow_maps_are_counted_in_the_stats() {
    let (mut renderer, _journal) = mock_renderer();
    let baseline = renderer.resource_stats();
    assert_eq!(baseline.shadow_maps, KindStats::default());
    renderer.set_directional_shadow(&demo_shadow().with_resolution(1024)).unwrap();
    let stats = renderer.resource_stats();
    assert_eq!(stats.shadow_maps.alive, 1);
    assert_eq!(stats.shadow_maps.bytes, 1024 * 1024 * 4);
    assert_eq!(stats.estimated_bytes, baseline.estimated_bytes + 1024 * 1024 * 4);
    renderer.clear_directional_shadow().unwrap();
    assert_eq!(renderer.resource_stats(), baseline);
}

// ---------------------------------------------------------------------
// Instancing.

#[test]
fn transparents_are_never_instanced() {
    let (mut renderer, journal) = mock_renderer();
    let glass = material_with(&mut renderer, "glass", MaterialModel::Lit, MaterialOpacity::Transparent);
    let mesh = lit_quad_mesh(&mut renderer, "pane");
    for z in [-1.0, -2.0, -3.0] {
        renderer.queue_draw(draw_at(mesh, glass, 0.0, 0.0, z));
    }
    render_frame(&mut renderer).unwrap();
    let line = render_lines(&journal).pop().unwrap();
    assert_eq!(line.matches("m=[").count(), 3);
    assert!(!line.contains("inst="));
    let report = renderer.frame_report();
    assert_eq!(report.passes[0].draws, 3);
    assert_eq!(report.passes[0].draw_calls, 3);
}

#[test]
fn masked_and_opaque_runs_never_share_a_batch() {
    let (mut renderer, journal) = mock_renderer();
    let solid = renderer.create_material(&MaterialDescriptor::new(s("solid"), MaterialModel::Lit)).unwrap();
    let grid = material_with(&mut renderer, "grid", MaterialModel::Lit, MaterialOpacity::Masked);
    let mesh = lit_quad_mesh(&mut renderer, "pane");
    for material in [grid, solid, grid, solid] {
        renderer.queue_draw(draw(mesh, material));
    }
    render_frame(&mut renderer).unwrap();
    let line = render_lines(&journal).pop().unwrap();
    assert_eq!(line.matches("inst=2").count(), 2);
    let instanced_pipelines: Vec<String> =
        create_pipeline_lines(&journal).into_iter().filter(|line| line.contains(" instanced")).collect();
    assert_eq!(instanced_pipelines.len(), 2);
    assert!(instanced_pipelines.iter().any(|line| line.starts_with("create_pipeline chaos.material.lit.instanced ")));
    assert!(instanced_pipelines.iter().any(|line| {
        line.starts_with("create_pipeline chaos.material.lit.masked.instanced ") && line.contains(" entry=fs_masked")
    }));
    assert_eq!(
        renderer.frame_report().passes[0].breakdown,
        DrawBreakdown { opaque: 2, masked: 2, transparent: 0, injected: 0 }
    );
    assert_eq!(renderer.frame_report().passes[0].draws, 4);
    assert_eq!(renderer.frame_report().passes[0].draw_calls, 2);
}

#[test]
fn render_to_target_batches_too() {
    let (mut renderer, journal) = mock_renderer();
    let solid = renderer.create_material(&MaterialDescriptor::new(s("solid"), MaterialModel::Lit)).unwrap();
    let mesh = lit_quad_mesh(&mut renderer, "pane");
    let target = renderer
        .create_render_target(&RenderTargetDescriptor::new(s("vignette"), 64, 64, TextureFormat::Rgba8UnormSrgb))
        .unwrap();
    let command = draw(mesh, solid);
    render_to_target(&mut renderer, target, black(), identity_matrix(), &[command, command]).unwrap();
    let line = render_lines(&journal).pop().unwrap();
    assert_eq!(line.matches("m=[").count(), 1);
    assert!(line.contains("inst=2"));
    assert!(create_pipeline_lines(&journal)
        .iter()
        .any(|line| line.contains(".instanced") && line.contains(" target=Rgba8UnormSrgb")));
}

#[test]
fn instanced_shadow_casters_report_their_draw_calls() {
    let (mut renderer, journal) = mock_renderer();
    renderer.set_directional_shadow(&demo_shadow()).unwrap();
    renderer.submit_light(sun());
    let caster = lit_caster(&mut renderer, "caster");
    for x in 0u8..5 {
        renderer.queue_draw(DrawCommand { transform: at(f32::from(x), 0.0, 0.0), ..caster });
    }
    render_frame(&mut renderer).unwrap();
    assert_eq!(
        renderer.frame_report().shadow,
        Some(ShadowReport { draws: 5, draw_calls: 1, culled: 0, resolution: 2048 })
    );
    let shadow = shadow_lines(&journal).pop().unwrap();
    assert_eq!(shadow.matches("m=[").count(), 1);
    assert!(shadow.contains("inst=5"));
}

#[test]
fn checkpoint_instancing_v1_a_crowd_collapses_to_a_few_draw_calls() {
    let (mut renderer, journal) = mock_renderer();
    renderer
        .set_directional_shadow(&DirectionalShadowDescriptor::new(ShadowVolume {
            center: v3(250.0, 0.0, 0.0),
            half_extents: v3(300.0, 20.0, 300.0),
        }))
        .unwrap();
    let crowd = lit_caster(&mut renderer, "crowd");
    let loner = lit_caster(&mut renderer, "loner");
    let glass = material_with(&mut renderer, "glass", MaterialModel::Lit, MaterialOpacity::Transparent);
    let queue_scene = |renderer: &mut TestRenderer| {
        renderer.submit_light(Light::directional(v3(0.0, -1.0, 0.0), white(), 0.9f32.to_bits()));
        for index in 0..500u16 {
            renderer.queue_draw(DrawCommand { transform: at(f32::from(index), 0.0, 0.0), ..crowd });
        }
        renderer.queue_draw(loner);
        for z in [-1.0, -2.0, -3.0] {
            renderer.queue_draw(draw_at(loner.mesh, glass, 0.0, 0.0, z));
        }
    };

    queue_scene(&mut renderer);
    render_frame(&mut renderer).unwrap();
    let report = renderer.frame_report();
    assert_eq!(report.passes[0].draws, 504);
    assert_eq!(report.passes[0].draw_calls, 5);
    assert_eq!(report.shadow, Some(ShadowReport { draws: 501, draw_calls: 2, culled: 0, resolution: 2048 }));
    let line = render_lines(&journal).pop().unwrap();
    assert!(line.contains("inst=500"));

    let pipelines_before = create_pipeline_lines(&journal).len();
    renderer.clear_draws();
    queue_scene(&mut renderer);
    render_frame(&mut renderer).unwrap();
    assert_eq!(create_pipeline_lines(&journal).len(), pipelines_before);
    assert_eq!(renderer.frame_report().passes[0].draw_calls, 5);
}

#[test]
fn checkpoint_transparency_v1_full_scene_over_two_frames() {
    let (mut renderer, journal) = mock_renderer();
    let cubemap = renderer
        .create_texture(&TextureDescriptor::cube(s("chk.sky"), 1, TextureFormat::Rgba8Unorm, vec![0; 4 * 6]))
        .unwrap();
    renderer.set_environment(&EnvironmentDescriptor::new(cubemap)).unwrap();
    renderer.set_directional_shadow(&demo_shadow()).unwrap();
    let solid = renderer.create_material(&MaterialDescriptor::new(s("chk.solid"), MaterialModel::Lit)).unwrap();
    let grid = renderer
        .create_material(
            &MaterialDescriptor::new(s("chk.grid"), MaterialModel::Lit)
                .with_opacity(MaterialOpacity::Masked)
                .with_alpha_cutoff(0.4f32.to_bits()),
        )
        .unwrap();
    let glass = material_with(&mut renderer, "chk.glass", MaterialModel::Lit, MaterialOpacity::Transparent);
    let mesh = lit_quad_mesh(&mut renderer, "chk.pane");
    let light = Light::directional(v3(0.0, -1.0, 0.0), white(), 0.9f32.to_bits());
    let queue_scene = |renderer: &mut TestRenderer| {
        for (material, z) in [(solid, -4.0), (grid, -2.0), (glass, -1.0), (glass, -6.0)] {
            renderer.queue_draw(draw_at(mesh, material, 0.0, 0.0, z));
        }
    };

    renderer.set_camera_position(v3(0.0, 0.0, 2.0));
    renderer.submit_light(light);
    queue_scene(&mut renderer);
    render_frame_from(&mut renderer, &[(0, [0.0, 0.0, 2.0])]).unwrap();
    let report = renderer.frame_report();
    assert_eq!(report.passes[0].breakdown, DrawBreakdown { opaque: 1, masked: 1, transparent: 2, injected: 1 });
    assert_eq!(report.shadow, Some(ShadowReport { draws: 2, draw_calls: 2, culled: 0, resolution: 2048 }));
    let first = render_lines(&journal).pop().unwrap();
    assert!(first.find("m=[0, 0, -6]").unwrap() > first.find("m=[0, 0, -2]").unwrap());
    assert!(first.find("m=[0, 0, -6]").unwrap() < first.find("m=[0, 0, -1]").unwrap());

    let pipelines_before = create_pipeline_lines(&journal).len();
    renderer.set_material_alpha_cutoff(grid, 0.8f32.to_bits()).unwrap();
    renderer.clear_draws();
    renderer.set_camera_position(v3(0.0, 0.0, -12.0));
    renderer.submit_light(light);
    queue_scene(&mut renderer);
    render_frame_from(&mut renderer, &[(0, [0.0, 0.0, -12.0])]).unwrap();
    let second = render_lines(&journal).pop().unwrap();
    assert!(second.find("m=[0, 0, -1]").unwrap() < second.find("m=[0, 0, -6]").unwrap());
    assert_eq!(create_pipeline_lines(&journal).len(), pipelines_before);
    assert_eq!(renderer.material_info(grid).unwrap().alpha_cutoff, 0.8f32.to_bits());
    assert_eq!(
        renderer.frame_report().passes[0].breakdown,
        DrawBreakdown { opaque: 1, masked: 1, transparent: 2, injected: 1 }
    );
}

#[test]
fn checkpoint_shadows_v1_full_scene_over_two_frames() {
    let (mut renderer, journal) = mock_renderer();
    renderer.set_directional_shadow(&demo_shadow()).unwrap();
    renderer.set_ambient_light(white(), 0.05f32.to_bits());

    let caster = lit_caster(&mut renderer, "chk.caster");
    let shy = renderer
        .create_material(&MaterialDescriptor::new(s("chk.shy"), MaterialModel::Lit).without_shadow_cast())
        .unwrap();
    let numb = renderer
        .create_material(&MaterialDescriptor::new(s("chk.numb"), MaterialModel::Pbr).without_shadow_receive())
        .unwrap();
    let glass = material_with(&mut renderer, "chk.glass", MaterialModel::Lit, MaterialOpacity::Transparent);
    let mesh = lit_quad_mesh(&mut renderer, "chk.mesh");
    let mut light = Light::directional(v3(-1.0, -2.0, -1.0), white(), 0.9f32.to_bits());

    renderer.submit_light(light);
    renderer.queue_draw(caster);
    for material in [shy, numb, glass] {
        renderer.queue_draw(draw(mesh, material));
    }
    render_frame(&mut renderer).unwrap();
    assert_eq!(
        renderer.frame_report().shadow,
        Some(ShadowReport { draws: 2, draw_calls: 2, culled: 0, resolution: 2048 })
    );
    let first_shadow = shadow_lines(&journal).pop().unwrap();

    renderer
        .set_directional_shadow(
            &DirectionalShadowDescriptor::new(ShadowVolume {
                center: v3(2.0, 0.0, 2.0),
                half_extents: v3(6.0, 6.0, 6.0),
            })
            .with_depth_bias(0.004f32.to_bits()),
        )
        .unwrap();
    renderer.clear_draws();
    renderer.submit_light(light);
    renderer.queue_draw(caster);
    render_frame(&mut renderer).unwrap();
    assert_eq!(set_shadow_lines(&journal).len(), 1);
    let second_shadow = shadow_lines(&journal).pop().unwrap();
    assert_ne!(first_shadow, second_shadow);
    assert_eq!(renderer.frame_report().shadow, one_caster_report());

    light.set_enabled(false);
    renderer.clear_draws();
    renderer.submit_light(light);
    renderer.queue_draw(caster);
    render_frame(&mut renderer).unwrap();
    assert_eq!(shadow_lines(&journal).len(), 2);
    assert_eq!(renderer.frame_report().shadow, None);

    renderer.clear_directional_shadow().unwrap();
    assert_eq!(set_shadow_lines(&journal).last().map(String::as_str), Some("set_shadow none"));
    assert_eq!(renderer.resource_stats().shadow_maps, KindStats::default());
    assert!(renderer.directional_shadow_info().is_none());
}

// ---------------------------------------------------------------------
// Diagnostics.

/// The facts of every queued draw, in view and in the light volume as
/// `seen` decides (the frustum tests that would decide it are float work).
fn facts_seen(renderer: &TestRenderer, seen: impl Fn(u32, &DrawCommand) -> (bool, bool)) -> Vec<Vec<DrawFacts>> {
    let mut all = facts_with_cameras(renderer, &[]);
    for pass in 0..renderer.pass_count() as u32 {
        let queue = renderer.queued_draws(PassHandle(pass)).unwrap();
        for (fact, command) in all[pass as usize].iter_mut().zip(queue.iter()) {
            let (in_view, in_light) = seen(pass, command);
            fact.in_view = in_view;
            fact.in_light = in_light;
        }
    }
    all
}

fn x_of(command: &DrawCommand) -> f32 {
    float(command.transform.translation[0])
}

fn render_frame_seen(
    renderer: &mut TestRenderer,
    seen: impl Fn(u32, &DrawCommand) -> (bool, bool),
) -> Result<FrameOutcome, RenderError> {
    let facts = facts_seen(renderer, seen);
    renderer.render_frame(&facts, Some(identity_matrix()))
}

fn debug_vertex(p: [f32; 3]) -> DebugVertex {
    DebugVertex { position: f3(p), color: [1.0f32.to_bits(); 4] }
}

/// A debug primitive of `segments` segments, drawn this frame only.
fn debug_segments(segments: usize, depth: DebugDepth) -> DebugDraw {
    let mut vertices = Vec::new();
    for index in 0..segments {
        let x = index as f32;
        vertices.push(debug_vertex([x, 0.0, 0.0]));
        vertices.push(debug_vertex([x + 1.0, 0.0, 0.0]));
    }
    DebugDraw { vertices, depth, duration: 0, category: s("default"), pass: None }
}

fn debug_line() -> DebugDraw {
    debug_segments(1, DebugDepth::Scene)
}

/// A point cross: three axis segments.
fn debug_point() -> DebugDraw {
    debug_segments(3, DebugDepth::Scene)
}

fn lasting(mut draw: DebugDraw, seconds: f32) -> DebugDraw {
    draw.duration = seconds.to_bits();
    draw
}

fn in_category(mut draw: DebugDraw, category: &str) -> DebugDraw {
    draw.category = s(category);
    draw
}

fn advance(renderer: &mut TestRenderer, delta: f32) {
    let remaining: Vec<u32> = renderer.debug_remaining().iter().map(|r| (float(*r) - delta).to_bits()).collect();
    renderer.advance_debug_time(delta.to_bits(), remaining);
}

#[test]
fn diagnostics_count_the_instanced_crowd_exactly() {
    let (mut renderer, _journal) = mock_renderer();
    let crowd = lit_caster(&mut renderer, "crowd");
    let loner = lit_caster(&mut renderer, "loner");
    let glass = material_with(&mut renderer, "glass", MaterialModel::Lit, MaterialOpacity::Transparent);
    for index in 0..500u16 {
        renderer.queue_draw(DrawCommand { transform: at(f32::from(index), 0.0, 0.0), ..crowd });
    }
    renderer.queue_draw(loner);
    for z in [-1.0, -2.0, -3.0] {
        renderer.queue_draw(draw_at(loner.mesh, glass, 0.0, 0.0, z));
    }
    render_frame(&mut renderer).unwrap();
    let frame = renderer.diagnostics().frame;
    assert_eq!(frame.submitted, 504);
    assert_eq!(frame.resolved, 504);
    assert_eq!(frame.classic_draws, 4);
    assert_eq!(frame.instanced_draws, 1);
    assert_eq!(frame.instances, 500);
    assert_eq!(frame.culled, 0);
    assert_eq!(frame.injected, 0);
    assert_eq!(frame.triangles, 1008);
    assert_eq!(frame.pipeline_switches, 3);
    assert_eq!(frame.material_switches, 3);
    assert_eq!(frame.passes_executed, 1);
    let pass = &renderer.diagnostics().passes[0];
    assert_eq!(pass.draw_calls, 5);
    assert_eq!(pass.instances, 500);
    assert!(matches!(&renderer.diagnostics().gpu, GpuFrameTime::Unavailable(reason) if reason.contains("mock")));
}

#[test]
fn diagnostics_measure_the_culling_gains() {
    let (mut renderer, _journal) = mock_renderer();
    let material = plain_material(&mut renderer, "crowd");
    let mesh = create_mesh(&mut renderer, "cube", &cube());
    for index in 0..10u16 {
        renderer.queue_draw(draw_at(mesh, material, 250.0 * f32::from(index), 0.0, 0.0));
    }
    render_frame_seen(&mut renderer, |_, command| (x_of(command) < 1100.0, true)).unwrap();
    let frame = renderer.diagnostics().frame;
    assert_eq!(frame.submitted, 10);
    assert_eq!(frame.resolved, 5);
    assert_eq!(frame.culled, 5);
    assert_eq!(frame.instanced_draws, 1);
    assert_eq!(frame.instances, 5);
    assert_eq!(frame.triangles, 60);
}

#[test]
fn the_sky_and_debug_are_counted_honestly() {
    let (mut renderer, _journal) = mock_renderer();
    let cubemap = env_cubemap(&mut renderer, "diag.sky");
    renderer.set_environment(&EnvironmentDescriptor::new(cubemap)).unwrap();
    renderer.queue_debug(debug_line());
    renderer.queue_debug(debug_segments(3, DebugDepth::Overlay));
    render_frame(&mut renderer).unwrap();
    let frame = renderer.diagnostics().frame;
    assert_eq!(frame.resolved, 3);
    assert_eq!(frame.injected, 3);
    assert_eq!(frame.triangles, 1);
    assert_eq!(frame.debug_segments, 4);
    assert_eq!(frame.classic_draws, 1);
    assert_eq!(frame.pipeline_switches, 3);
    assert_eq!(frame.material_switches, 0);
}

#[test]
fn surface_events_accumulate_by_reason() {
    for (outcome, check) in [
        (FrameOutcome::Skipped(FrameSkipReason::SurfaceUnavailable), 0usize),
        (FrameOutcome::Skipped(FrameSkipReason::SurfaceReconfigured), 1),
        (FrameOutcome::Skipped(FrameSkipReason::ZeroArea), 2),
        (FrameOutcome::Rendered, 3),
    ] {
        let (mut renderer, _journal) = mock_renderer_with(outcome);
        render_frame(&mut renderer).unwrap();
        render_frame(&mut renderer).unwrap();
        let surface = renderer.diagnostics().surface;
        let counters = [surface.skipped_unavailable, surface.reconfigured, surface.zero_area, surface.presented];
        for (index, counter) in counters.iter().enumerate() {
            assert_eq!(*counter, if index == check { 2 } else { 0 });
        }
    }
}

#[test]
fn the_cpu_budget_is_validated_and_stored() {
    let (mut renderer, _journal) = mock_renderer();
    assert_eq!(renderer.diagnostics().budget.budget_ms, None);
    renderer.set_cpu_budget(Some(4.0f32.to_bits()));
    assert_eq!(renderer.diagnostics().budget.budget_ms, Some(4.0f32.to_bits()));
    renderer.set_cpu_budget(Some(f32::NAN.to_bits()));
    renderer.set_cpu_budget(Some((-1.0f32).to_bits()));
    renderer.set_cpu_budget(Some(0.0f32.to_bits()));
    assert_eq!(renderer.diagnostics().budget.budget_ms, Some(4.0f32.to_bits()));
    renderer.set_cpu_budget(None);
    assert_eq!(renderer.diagnostics().budget.budget_ms, None);
}

/// A frame, and the CPU cost its caller measured around it.
fn timed_frame(renderer: &mut TestRenderer, total_ms: f32) {
    render_frame(renderer).unwrap();
    renderer.record_cpu_cost((total_ms / 4.0).to_bits(), (total_ms / 2.0).to_bits(), total_ms.to_bits());
}

#[test]
fn the_budget_counts_overruns() {
    let (mut renderer, _journal) = mock_renderer();
    timed_frame(&mut renderer, 0.25);
    assert_eq!(renderer.diagnostics().budget.over_budget_frames, 0);
    assert!(!renderer.diagnostics().budget.last_frame_over);
    renderer.set_cpu_budget(Some(f32::MIN_POSITIVE.to_bits()));
    timed_frame(&mut renderer, 0.25);
    timed_frame(&mut renderer, 0.25);
    assert_eq!(renderer.diagnostics().budget.over_budget_frames, 2);
    assert!(renderer.diagnostics().budget.last_frame_over);
    renderer.set_cpu_budget(None);
    timed_frame(&mut renderer, 0.25);
    assert_eq!(renderer.diagnostics().budget.over_budget_frames, 2);
    assert!(!renderer.diagnostics().budget.last_frame_over);
}

#[test]
fn the_recorded_cpu_cost_is_the_snapshot() {
    let (mut renderer, _journal) = mock_renderer();
    renderer.set_cpu_budget(Some(1.0f32.to_bits()));
    timed_frame(&mut renderer, 0.5);
    let cpu = renderer.diagnostics().cpu;
    assert_eq!((cpu.resolve_ms, cpu.backend_ms, cpu.total_ms), (0.125f32.to_bits(), 0.25f32.to_bits(), 0.5f32.to_bits()));
    assert!(!renderer.diagnostics().budget.last_frame_over);
    timed_frame(&mut renderer, 1.5);
    assert!(renderer.diagnostics().budget.last_frame_over);
    assert_eq!(renderer.diagnostics().budget.over_budget_frames, 1);
}

#[test]
fn degraded_permutations_and_builtins_are_visible_fallbacks() {
    let journal = Journal::default();
    let mut backend = MockBackend::new(journal.clone(), FrameOutcome::Rendered, default_limits());
    backend.refused_pipelines = Some(s("chaos.shadow"));
    let mut renderer = Renderer::with_backend(backend);
    renderer.set_directional_shadow(&demo_shadow()).unwrap();
    renderer.submit_light(sun());
    let material = renderer.create_material(&MaterialDescriptor::new(s("bare"), MaterialModel::Unlit)).unwrap();
    let mesh = renderer.create_textured_mesh(&s("pane"), &textured_quad(), bounds_of(textured_quad().vertices.iter().map(|v| v.position))).unwrap();
    renderer.queue_draw(draw(mesh, material));
    render_frame(&mut renderer).unwrap();
    let fallbacks = renderer.diagnostics().fallbacks;
    assert_eq!(fallbacks.degraded_permutations, 1);
    assert!(fallbacks.fallback_textures >= 1);
    assert!(fallbacks.fallback_samplers >= 1);
    assert_eq!(renderer.frame_report().passes[0].draws, 1);
}

#[test]
fn checkpoint_diagnostics_v1_the_frame_explains_itself() {
    let (mut renderer, _journal) = mock_renderer();
    renderer
        .set_directional_shadow(&DirectionalShadowDescriptor::new(ShadowVolume {
            center: v3(100.0, 0.0, 0.0),
            half_extents: v3(150.0, 20.0, 150.0),
        }))
        .unwrap();
    let cubemap = env_cubemap(&mut renderer, "chk.sky");
    renderer.set_environment(&EnvironmentDescriptor::new(cubemap)).unwrap();
    let crowd = lit_caster(&mut renderer, "crowd");
    let grid = material_with(&mut renderer, "grid", MaterialModel::Lit, MaterialOpacity::Masked);
    let glass = material_with(&mut renderer, "glass", MaterialModel::Lit, MaterialOpacity::Transparent);
    let queue_scene = |renderer: &mut TestRenderer| {
        renderer.submit_light(Light::directional(v3(0.0, -1.0, 0.0), white(), 0.9f32.to_bits()));
        for index in 0..200u16 {
            renderer.queue_draw(DrawCommand { transform: at(f32::from(index), 0.0, 0.0), ..crowd });
        }
        for index in 0..5u16 {
            renderer.queue_draw(DrawCommand { transform: at(5000.0 + f32::from(index), 0.0, 0.0), ..crowd });
        }
        renderer.queue_draw(draw(crowd.mesh, grid));
        for z in [-1.0, -2.0] {
            renderer.queue_draw(draw_at(crowd.mesh, glass, 0.0, 0.0, z));
        }
        renderer.queue_debug(debug_line());
        renderer.queue_debug(debug_segments(3, DebugDepth::Overlay));
    };
    let seen = |_: u32, command: &DrawCommand| (x_of(command) < 1000.0, x_of(command) < 1000.0);

    queue_scene(&mut renderer);
    render_frame_seen(&mut renderer, seen).unwrap();
    let first = renderer.diagnostics();
    let frame = first.frame;
    assert_eq!(frame.submitted, 208);
    assert_eq!(frame.resolved, 206);
    assert_eq!(frame.classic_draws, 4);
    assert_eq!(frame.instanced_draws, 1);
    assert_eq!(frame.instances, 200);
    assert_eq!(frame.culled, 5);
    assert_eq!(frame.injected, 3);
    assert_eq!(frame.triangles, 407);
    assert_eq!(frame.debug_segments, 4);
    assert_eq!(frame.pipeline_switches, 6);
    assert_eq!(frame.material_switches, 3);
    assert_eq!(frame.passes_executed, 1);
    assert_eq!(frame.passes_skipped, 0);
    assert_eq!(
        first.shadow,
        Some(ShadowStats { draws: 201, draw_calls: 2, culled: 5, instances: 200, triangles: 402 })
    );
    assert!(matches!(&first.gpu, GpuFrameTime::Unavailable(reason) if reason.contains("mock")));
    assert_eq!(first.resources, renderer.resource_stats());
    assert!(first.fallbacks.fallback_textures >= 1);
    assert_eq!(first.fallbacks.degraded_permutations, 0);
    assert_eq!(first.surface.presented, 1);
    assert_eq!(first.budget.over_budget_frames, 0);
    let (first_frame, first_shadow, first_passes, first_calls) =
        (first.frame, first.shadow, first.passes.len(), first.passes[0].draw_calls);

    renderer.clear_draws();
    queue_scene(&mut renderer);
    render_frame_seen(&mut renderer, seen).unwrap();
    let second = renderer.diagnostics();
    assert_eq!(second.frame, first_frame);
    assert_eq!(second.shadow, first_shadow);
    assert_eq!(second.passes.len(), first_passes);
    assert_eq!(second.passes[0].draw_calls, first_calls);
    assert_eq!(second.surface.presented, 2);
}

#[test]
fn render_to_target_leaves_the_diagnostics_alone() {
    let (mut renderer, _journal) = mock_renderer();
    let material = plain_material(&mut renderer, "p");
    let mesh = create_mesh(&mut renderer, "cube", &cube());
    renderer.queue_draw(draw(mesh, material));
    render_frame(&mut renderer).unwrap();
    let before = format!("{:?}", renderer.diagnostics());
    let target = small_target(&mut renderer, "viewport");
    render_to_target(&mut renderer, target, black(), identity_matrix(), &[draw(mesh, material)]).unwrap();
    assert_eq!(format!("{:?}", renderer.diagnostics()), before);
}

#[test]
fn the_empty_plan_still_snapshots() {
    let (mut renderer, _journal) = mock_renderer();
    let main = renderer.main_pass();
    renderer.set_pass_enabled(main, false).unwrap();
    render_frame(&mut renderer).unwrap();
    let diagnostics = renderer.diagnostics();
    assert_eq!(diagnostics.frame.passes_executed, 0);
    assert_eq!(diagnostics.frame.passes_skipped, 1);
    assert_eq!(diagnostics.frame.resolved, 0);
    assert_eq!(diagnostics.surface.presented, 0);
}

#[test]
fn the_mock_backend_declares_its_gpu_time_unavailable() {
    let (renderer, _journal) = mock_renderer();
    assert!(matches!(&renderer.diagnostics().gpu, GpuFrameTime::Unavailable(reason) if !reason.is_empty()));
}

#[test]
fn device_limits_refuse_oversized_resources_by_name() {
    let (mut renderer, _journal) = mock_renderer();
    let refused = message(renderer.create_texture(&TextureDescriptor::sampled(
        s("huge"),
        8193,
        1,
        TextureFormat::R8Unorm,
        vec![0; 8193],
    )));
    assert!(refused.contains("8193x1 exceeds the device texture limit (8192)"));
    let refused = message(renderer.create_render_target(&RenderTargetDescriptor::new(
        s("huge"),
        8193,
        1,
        TextureFormat::Rgba8UnormSrgb,
    )));
    assert!(refused.contains("device texture limit (8192)"));
    assert!(renderer
        .create_texture(&TextureDescriptor::sampled(s("edge"), 8192, 1, TextureFormat::R8Unorm, vec![0; 8192]))
        .is_ok());
}

#[test]
fn lowered_device_limits_speak_for_the_device() {
    let limits = DeviceLimits { max_texture_2d: 1024, max_buffer_bytes: 1000, max_anisotropy: 8 };
    let (mut renderer, _journal) = mock_renderer_with_limits(limits);
    let refused = message(renderer.create_texture(&TextureDescriptor::sampled(
        s("big"),
        2048,
        1,
        TextureFormat::R8Unorm,
        vec![0; 2048],
    )));
    assert!(refused.contains("device texture limit (1024)"));
    let refused = message(renderer.create_buffer(&BufferDescriptor::vertex(s("big"), vec![0; 1001])));
    assert!(refused.contains("device buffer limit (1000)"));
    // A lit strip of 40 vertices: 1280 bytes of vertex data.
    let strip = LitGeometry {
        vertices: (0..40u8)
            .map(|i| LitVertex {
                position: f3([f32::from(i), 0.0, 0.0]),
                normal: f3([0.0, 0.0, 1.0]),
                uv: [0, 0],
            })
            .collect(),
        indices: Vec::new(),
    };
    let refused = message(renderer.create_lit_mesh(&s("ball"), &strip, None));
    assert!(refused.contains("device buffer limit (1000)"));
    let descriptor = demo_shadow();
    let refused = message(renderer.set_directional_shadow(&descriptor));
    assert!(refused.contains("shadow map resolution 2048 exceeds the device texture limit (1024)"));
    assert!(renderer.set_directional_shadow(&descriptor.with_resolution(1024)).is_ok());
    let refused = message(
        renderer.create_sampler(&SamplerDescriptor::new(s("aniso")).with_mip_filter(SamplerFilter::Linear).with_anisotropy(16)),
    );
    assert!(refused.contains("anisotropy x16 exceeds the device ceiling (x8)"));
    assert!(renderer
        .create_sampler(&SamplerDescriptor::new(s("aniso.ok")).with_mip_filter(SamplerFilter::Linear).with_anisotropy(8))
        .is_ok());
    assert!(renderer
        .create_texture(&TextureDescriptor::sampled(s("edge"), 1024, 1, TextureFormat::R8Unorm, vec![0; 1024]))
        .is_ok());
}

// ---------------------------------------------------------------------
// Debug rendering.

#[test]
fn debug_draws_route_by_duration_and_expire() {
    let (mut renderer, _journal) = mock_renderer();
    renderer.queue_debug(debug_line());
    renderer.queue_debug(lasting(debug_point(), 2.0));
    assert_eq!(renderer.debug_stats(), DebugStats { frame: 1, retained: 1 });
    renderer.clear_draws();
    assert_eq!(renderer.debug_stats(), DebugStats { frame: 0, retained: 1 });
    advance(&mut renderer, 1.0);
    advance(&mut renderer, f32::NAN);
    advance(&mut renderer, -5.0);
    assert_eq!(renderer.debug_stats().retained, 1);
    advance(&mut renderer, 1.0);
    assert_eq!(renderer.debug_stats(), DebugStats { frame: 0, retained: 0 });
}

#[test]
fn invalid_debug_draws_are_dropped_at_submit() {
    let (mut renderer, _journal) = mock_renderer();
    // A line with a NaN end.
    let mut nan_line = debug_line();
    nan_line.vertices[0].position[0] = f32::NAN.to_bits();
    renderer.queue_debug(nan_line);
    // A zero-radius sphere: every vertex at the center.
    let mut flat_sphere = debug_segments(72, DebugDepth::Scene);
    for vertex in flat_sphere.vertices.iter_mut() {
        vertex.position = f3([0.0, 0.0, 0.0]);
    }
    renderer.queue_debug(flat_sphere);
    renderer.queue_debug(lasting(debug_line(), -1.0));
    let mut stray = debug_point();
    stray.pass = Some(PassHandle(42));
    renderer.queue_debug(stray);
    assert_eq!(renderer.debug_stats(), DebugStats { frame: 0, retained: 0 });
    renderer.queue_debug(debug_point());
    assert_eq!(renderer.debug_stats().frame, 1);
}

#[test]
fn debug_toggles_flip_the_rendering_state() {
    let (mut renderer, _journal) = mock_renderer();
    assert!(renderer.debug_enabled());
    renderer.set_debug_enabled(false);
    assert!(!renderer.debug_enabled());
    assert!(renderer.debug_category_enabled(&s("physics")));
    renderer.set_debug_category_enabled(&s("physics"), false);
    assert!(!renderer.debug_category_enabled(&s("physics")));
    assert!(renderer.debug_category_enabled(&s("default")));
    renderer.set_debug_category_enabled(&s("physics"), true);
    assert!(renderer.debug_category_enabled(&s("physics")));
}

#[test]
fn debug_is_injected_after_the_transparents() {
    let (mut renderer, journal) = mock_renderer();
    let glass = material_with(&mut renderer, "glass", MaterialModel::Lit, MaterialOpacity::Transparent);
    let mesh = lit_quad_mesh(&mut renderer, "pane");
    renderer.queue_draw(draw_at(mesh, glass, 0.0, 0.0, -1.0));
    renderer.queue_debug(debug_line());
    render_frame(&mut renderer).unwrap();
    let line = render_lines(&journal).pop().unwrap();
    assert!(line.contains(" dbg=[v=2 p="));
    assert!(create_pipeline_lines(&journal).iter().any(|line| {
        line.starts_with("create_pipeline chaos.debug ")
            && line.contains(" blend=alpha")
            && line.contains(" depth=less_equal")
            && line.contains(" topology=lines")
    }));
    let report = &renderer.frame_report().passes[0];
    assert_eq!(report.breakdown.transparent, 1);
    assert_eq!(report.breakdown.injected, 1);
    assert_eq!(report.draws, 2);
    assert_eq!(report.draw_calls, 2);
}

#[test]
fn the_overlay_batch_comes_last_with_its_own_permutation() {
    let (mut renderer, journal) = mock_renderer();
    renderer.queue_debug(debug_segments(3, DebugDepth::Overlay));
    renderer.queue_debug(debug_line());
    render_frame(&mut renderer).unwrap();
    let line = render_lines(&journal).pop().unwrap();
    let scene_at = line.find(" dbg=[v=2 p=").unwrap();
    let overlay_at = line.find(", v=6 p=").unwrap();
    assert!(scene_at < overlay_at);
    assert!(create_pipeline_lines(&journal).iter().any(|line| {
        line.starts_with("create_pipeline chaos.debug.overlay ")
            && line.contains(" depth=always")
            && line.contains(" topology=lines")
    }));
    let report = &renderer.frame_report().passes[0];
    assert_eq!(report.breakdown.injected, 2);
    assert_eq!(report.draw_calls, 2);
}

#[test]
fn debug_routes_to_its_target_pass_with_its_format() {
    let (mut renderer, journal) = mock_renderer();
    let target = small_target(&mut renderer, "viewport");
    let mirror = renderer.add_pass(&target_pass("mirror", target).with_order(-1)).unwrap();
    renderer.queue_debug(debug_line());
    let mut aimed = debug_line();
    aimed.pass = Some(mirror);
    renderer.queue_debug(aimed);
    render_frame(&mut renderer).unwrap();
    let lines = render_lines(&journal);
    assert!(lines[0].contains("pass=mirror"));
    assert!(lines[0].contains(" dbg=[v=2 p="));
    assert!(lines[1].contains(" dbg=[v=2 p="));
    assert!(create_pipeline_lines(&journal).iter().any(|line| {
        line.starts_with("create_pipeline chaos.debug.Rgba8UnormSrgb ") && line.contains(" target=Rgba8UnormSrgb")
    }));
    let report = renderer.frame_report();
    assert_eq!(report.passes[0].breakdown.injected, 1);
    assert_eq!(report.passes[1].breakdown.injected, 1);
}

#[test]
fn disabled_debug_leaves_the_journal_clean() {
    let (mut renderer, journal) = mock_renderer();
    renderer.queue_debug(debug_line());
    renderer.queue_debug(in_category(debug_segments(72, DebugDepth::Scene), "bounds"));
    renderer.set_debug_enabled(false);
    render_frame(&mut renderer).unwrap();
    assert_eq!(render_lines(&journal).pop().unwrap(), "render r=0 g=0 b=0 a=1 vp=[0, 0, 0] draws=[]");
    assert_eq!(renderer.frame_report().passes[0].breakdown.injected, 0);
    renderer.set_debug_enabled(true);
    renderer.set_debug_category_enabled(&s("bounds"), false);
    render_frame(&mut renderer).unwrap();
    let line = render_lines(&journal).pop().unwrap();
    assert!(line.contains(" dbg=[v=2 p="));
    assert!(!line.contains(", v="));
    renderer.set_debug_category_enabled(&s("bounds"), true);
    render_frame(&mut renderer).unwrap();
    assert!(render_lines(&journal).pop().unwrap().contains(" dbg=[v=146 p="));
}

#[test]
fn retained_debug_survives_clear_draws_and_expires_on_screen() {
    let (mut renderer, journal) = mock_renderer();
    renderer.queue_debug(lasting(debug_point(), 5.0));
    render_frame(&mut renderer).unwrap();
    assert!(render_lines(&journal).pop().unwrap().contains(" dbg=["));
    renderer.clear_draws();
    render_frame(&mut renderer).unwrap();
    assert!(render_lines(&journal).pop().unwrap().contains(" dbg=["));
    advance(&mut renderer, 6.0);
    render_frame(&mut renderer).unwrap();
    assert!(!render_lines(&journal).pop().unwrap().contains(" dbg=["));
}

#[test]
fn checkpoint_debug_v1_the_visual_language_lives_and_expires() {
    let (mut renderer, journal) = mock_renderer();
    let material = plain_material(&mut renderer, "prop");
    let mesh = create_mesh(&mut renderer, "cube", &cube());
    // Eleven primitives of this frame, the axes over everything; their
    // shapes are tessellated by the caller, here stand-in segment lists.
    let queue_scene = |renderer: &mut TestRenderer| {
        renderer.queue_draw(draw(mesh, material));
        renderer.queue_debug(debug_segments(22, DebugDepth::Scene));
        renderer.queue_debug(debug_segments(3, DebugDepth::Overlay));
        renderer.queue_debug(debug_segments(12, DebugDepth::Scene));
        renderer.queue_debug(in_category(debug_segments(72, DebugDepth::Scene), "bounds"));
        for segments in [12, 1, 3, 3, 4, 9, 12] {
            renderer.queue_debug(debug_segments(segments, DebugDepth::Scene));
        }
    };

    queue_scene(&mut renderer);
    renderer.queue_debug(in_category(lasting(debug_point(), 3.0), "markers"));
    render_frame(&mut renderer).unwrap();
    let report = &renderer.frame_report().passes[0];
    assert_eq!(report.breakdown.injected, 12);
    assert_eq!(report.draws, 13);
    assert_eq!(report.draw_calls, 3);
    let line = render_lines(&journal).pop().unwrap();
    assert_eq!(line.matches("v=").count(), 2);
    let pipelines_after_first = create_pipeline_lines(&journal).len();

    renderer.clear_draws();
    advance(&mut renderer, 1.0);
    render_frame(&mut renderer).unwrap();
    let report = &renderer.frame_report().passes[0];
    assert_eq!(report.breakdown.injected, 1);
    assert_eq!(report.draws, 1);
    assert_eq!(report.draw_calls, 1);
    assert_eq!(create_pipeline_lines(&journal).len(), pipelines_after_first);

    renderer.set_debug_category_enabled(&s("markers"), false);
    advance(&mut renderer, 1.0);
    render_frame(&mut renderer).unwrap();
    assert_eq!(renderer.frame_report().passes[0].breakdown.injected, 0);
    assert_eq!(renderer.debug_stats().retained, 1);

    renderer.set_debug_category_enabled(&s("markers"), true);
    advance(&mut renderer, 1.5);
    render_frame(&mut renderer).unwrap();
    assert_eq!(renderer.debug_stats().retained, 0);
    assert_eq!(render_lines(&journal).pop().unwrap(), "render r=0 g=0 b=0 a=1 vp=[0, 0, 0] draws=[]");
}

#[test]
fn render_to_target_draws_no_debug() {
    let (mut renderer, journal) = mock_renderer();
    let material = plain_material(&mut renderer, "p");
    let mesh = create_mesh(&mut renderer, "cube", &cube());
    let target = small_target(&mut renderer, "viewport");
    renderer.queue_debug(debug_line());
    render_to_target(&mut renderer, target, black(), identity_matrix(), &[draw(mesh, material)]).unwrap();
    assert!(!render_lines(&journal).pop().unwrap().contains(" dbg=["));
}

// ---------------------------------------------------------------------
// Culling: what the frustum tests decided reaches the library as facts.

/// In view of the wide main camera (x within ±1000).
fn in_wide_view(command: &DrawCommand) -> bool {
    x_of(command).abs() <= 1000.5
}

#[test]
fn an_out_of_view_draw_is_culled_from_the_pass() {
    let (mut renderer, journal) = mock_renderer();
    let material = plain_material(&mut renderer, "p");
    let mesh = create_mesh(&mut renderer, "tri", &triangle());
    renderer.queue_draw(draw_at(mesh, material, 5000.0, 0.0, 0.0));
    render_frame_seen(&mut renderer, |_, command| (in_wide_view(command), true)).unwrap();
    let line = render_lines(&journal).pop().unwrap();
    assert!(line.ends_with("vp=[0, 0, 0] draws=[]"));
    let report = &renderer.frame_report().passes[0];
    assert_eq!(report.draws, 0);
    assert_eq!(report.draw_calls, 0);
    assert_eq!(report.culled, 1);
    assert_eq!(report.breakdown, DrawBreakdown::default());
}

#[test]
fn an_unculled_material_ignores_every_frustum() {
    let (mut renderer, journal) = mock_renderer();
    renderer.set_directional_shadow(&demo_shadow()).unwrap();
    renderer.submit_light(sun());
    let ghost =
        renderer.create_material(&MaterialDescriptor::new(s("ghost"), MaterialModel::Lit).without_frustum_culling()).unwrap();
    let mesh = lit_quad_mesh(&mut renderer, "pane");
    renderer.queue_draw(draw_at(mesh, ghost, 5000.0, 0.0, 0.0));
    render_frame_seen(&mut renderer, |_, _| (false, false)).unwrap();
    assert!(render_lines(&journal).pop().unwrap().contains("m=[5000, 0, 0]"));
    assert!(shadow_lines(&journal).pop().unwrap().contains("m=[5000, 0, 0]"));
    assert_eq!(renderer.frame_report().passes[0].culled, 0);
    assert_eq!(renderer.frame_report().shadow.unwrap().culled, 0);
}

#[test]
fn transparents_are_culled_before_the_sort() {
    let (mut renderer, journal) = mock_renderer();
    let glass = material_with(&mut renderer, "glass", MaterialModel::Lit, MaterialOpacity::Transparent);
    let mesh = lit_quad_mesh(&mut renderer, "pane");
    for (x, z) in [(0.0, -1.0), (0.0, -2.0), (5000.0, 0.0)] {
        renderer.queue_draw(draw_at(mesh, glass, x, 0.0, z));
    }
    render_frame_seen(&mut renderer, |_, command| (in_wide_view(command), true)).unwrap();
    let line = render_lines(&journal).pop().unwrap();
    assert_eq!(line.matches("m=[").count(), 2);
    assert!(!line.contains("5000"));
    let report = &renderer.frame_report().passes[0];
    assert_eq!(report.breakdown.transparent, 2);
    assert_eq!(report.culled, 1);
}

#[test]
fn instancing_only_fuses_the_visible() {
    let (mut renderer, journal) = mock_renderer();
    let material = plain_material(&mut renderer, "crowd");
    let mesh = create_mesh(&mut renderer, "cube", &cube());
    for index in 0..10u16 {
        renderer.queue_draw(draw_at(mesh, material, 250.0 * f32::from(index), 0.0, 0.0));
    }
    render_frame_seen(&mut renderer, |_, command| (in_wide_view(command), true)).unwrap();
    let line = render_lines(&journal).pop().unwrap();
    assert_eq!(line.matches("m=[").count(), 1);
    assert!(line.contains("inst=5"));
    let report = &renderer.frame_report().passes[0];
    assert_eq!(report.draws, 5);
    assert_eq!(report.draw_calls, 1);
    assert_eq!(report.culled, 5);
}

#[test]
fn a_caster_off_screen_keeps_its_shadow_and_vice_versa() {
    let (mut renderer, journal) = mock_renderer();
    renderer
        .set_directional_shadow(&DirectionalShadowDescriptor::new(ShadowVolume {
            center: v3(0.0, 0.0, 0.0),
            half_extents: v3(2.0, 2.0, 2.0),
        }))
        .unwrap();
    renderer.submit_light(sun());
    let hidden = lit_caster(&mut renderer, "hidden");
    let lonely = lit_caster(&mut renderer, "lonely");
    renderer.queue_draw(hidden);
    renderer.queue_draw(DrawCommand { transform: at(5.0, 0.0, 0.5), ..lonely });
    // The narrow camera sees x in [4, 6]; the light volume spans ±2.
    render_frame_seen(&mut renderer, |_, command| {
        let x = x_of(command);
        ((4.0..=6.0).contains(&x), x.abs() <= 2.5)
    })
    .unwrap();
    let render = render_lines(&journal).pop().unwrap();
    assert!(render.contains("m=[5, 0, 0.5]"));
    assert!(!render.contains("m=[0, 0, 0]"));
    let shadow = shadow_lines(&journal).pop().unwrap();
    assert!(shadow.contains("m=[0, 0, 0]"));
    assert!(!shadow.contains("m=[5, 0, 0.5]"));
    let report = renderer.frame_report();
    assert_eq!(report.passes[0].draws, 1);
    assert_eq!(report.passes[0].culled, 1);
    assert_eq!(report.shadow, Some(ShadowReport { draws: 1, draw_calls: 1, culled: 1, resolution: 2048 }));
}

#[test]
fn each_view_culls_with_its_own_frustum() {
    let (mut renderer, journal) = mock_renderer();
    let overlay = renderer.add_pass(&surface_pass("overlay")).unwrap();
    renderer.set_pass_camera(overlay, translation_matrix(-5.0, 0.0, 0.0)).unwrap();
    let material = plain_material(&mut renderer, "p");
    let mesh = create_mesh(&mut renderer, "cube", &cube());
    let near = draw_at(mesh, material, 5.0, 0.0, 0.0);
    let far = DrawCommand { transform: at(500.0, 0.0, 0.0), ..near };
    for command in [near, far] {
        renderer.queue_draw(command);
        renderer.queue_draw_to(overlay, command).unwrap();
    }
    // The main pass sees both; the overlay camera only x in [4, 6].
    render_frame_seen(&mut renderer, |pass, command| {
        let x = x_of(command);
        (pass == 0 || (4.0..=6.0).contains(&x), true)
    })
    .unwrap();
    let report = renderer.frame_report();
    assert_eq!(report.passes[0].draws, 2);
    assert_eq!(report.passes[0].culled, 0);
    assert_eq!(report.passes[1].draws, 1);
    assert_eq!(report.passes[1].culled, 1);
    let lines = render_lines(&journal);
    assert!(lines[1].contains("m=[5, 0, 0]"));
    assert!(!lines[1].contains("m=[500, 0, 0]"));
}

#[test]
fn checkpoint_culling_v1_a_stress_scene_pays_only_for_the_visible() {
    let (mut renderer, journal) = mock_renderer();
    renderer
        .set_directional_shadow(&DirectionalShadowDescriptor::new(ShadowVolume {
            center: v3(50.0, 0.0, 0.0),
            half_extents: v3(60.0, 20.0, 60.0),
        }))
        .unwrap();
    let crowd = lit_caster(&mut renderer, "crowd");
    let queue_scene = |renderer: &mut TestRenderer| {
        renderer.submit_light(Light::directional(v3(0.0, -1.0, 0.0), white(), 0.9f32.to_bits()));
        for index in 0..1000u16 {
            let x = if index < 100 { f32::from(index) } else { 5000.0 + f32::from(index) };
            renderer.queue_draw(DrawCommand { transform: at(x, 0.0, 0.0), ..crowd });
        }
        renderer.queue_draw(DrawCommand { transform: at(50.0, 0.0, 15.0), ..crowd });
    };
    // In view: in front of the camera and within ±1000; in the light
    // volume: x within -10..=110.
    let seen = |_: u32, command: &DrawCommand| {
        let z = float(command.transform.translation[2]);
        (in_wide_view(command) && z <= 0.0, (-10.0..=110.0).contains(&x_of(command)))
    };

    queue_scene(&mut renderer);
    render_frame_seen(&mut renderer, seen).unwrap();
    let report = renderer.frame_report();
    assert_eq!(report.passes[0].draws, 100);
    assert_eq!(report.passes[0].draw_calls, 1);
    assert_eq!(report.passes[0].culled, 901);
    assert_eq!(report.shadow, Some(ShadowReport { draws: 101, draw_calls: 1, culled: 900, resolution: 2048 }));
    let render = render_lines(&journal).pop().unwrap();
    assert_eq!(render.matches("m=[").count(), 1);
    assert!(render.contains("inst=100"));
    assert!(shadow_lines(&journal).pop().unwrap().contains("inst=101"));

    let pipelines_before = create_pipeline_lines(&journal).len();
    renderer.clear_draws();
    queue_scene(&mut renderer);
    render_frame_seen(&mut renderer, seen).unwrap();
    assert_eq!(create_pipeline_lines(&journal).len(), pipelines_before);
    assert_eq!(renderer.frame_report().passes[0].culled, 901);
    assert_eq!(renderer.frame_report().shadow.unwrap().draws, 101);
}

#[test]
fn render_to_target_culls_with_its_own_camera() {
    let (mut renderer, journal) = mock_renderer();
    let material = plain_material(&mut renderer, "p");
    let mesh = create_mesh(&mut renderer, "cube", &cube());
    let target = small_target(&mut renderer, "viewport");
    let inside = draw(mesh, material);
    let outside = DrawCommand { transform: at(5000.0, 0.0, 0.0), ..inside };
    let commands = vec![inside, outside];
    // The identity camera sees the unit cube only.
    let facts: Vec<DrawFacts> = commands
        .iter()
        .map(|command| {
            let mut f = fact(command, [0.0, 0.0, 0.0]);
            f.in_view = x_of(command).abs() <= 1.5;
            f
        })
        .collect();
    renderer.render_to_target(target, black(), identity_matrix(), &commands, &facts).unwrap();
    let line = render_lines(&journal).pop().unwrap();
    assert_eq!(line.matches("m=[").count(), 1);
    assert!(line.contains("m=[0, 0, 0]"));
    assert!(!line.contains("5000"));
}

// ---------------------------------------------------------------------
// Mip generation, light validation, boundless meshes, stale samplers.

#[test]
fn generate_is_resolved_before_the_backend() {
    let (mut renderer, journal) = mock_renderer();
    renderer
        .create_texture(
            &TextureDescriptor::sampled(s("auto"), 2, 2, TextureFormat::Rgba8Unorm, vec![0; 16])
                .with_mips(TextureMips::Generate),
        )
        .unwrap();
    assert_eq!(journal.entries(), vec!["create_texture auto 2x2 format=Rgba8Unorm usage=Sampled bytes=20 levels=2"]);
}

#[test]
fn a_level_is_the_rounded_mean_of_its_block() {
    // A 2×2 single-channel level: (10 + 20 + 30 + 41 + 2) / 4 = 25.
    assert_eq!(downsample(&vec![10, 20, 30, 41], 2, 2, 1), vec![25]);
    // A 3×1 level clamps its right edge: texels 0,1 then 2,2 (rows clamped).
    assert_eq!(downsample(&vec![0, 100, 200], 3, 1, 1), vec![50]);
    // Two channels are filtered apart.
    assert_eq!(downsample(&vec![0, 255, 4, 255, 8, 255, 12, 255], 2, 2, 2), vec![6, 255]);
}

#[test]
fn a_generated_chain_goes_down_to_one_texel() {
    let level0: Vec<u8> = (0..16).collect();
    let resolved = resolve_mips(
        &TextureDescriptor::sampled(s("ramp"), 4, 4, TextureFormat::R8Unorm, level0.clone())
            .with_mips(TextureMips::Generate),
    );
    assert_eq!(resolved.mips, TextureMips::Provided(3));
    // Level 1: means of the four 2×2 blocks; level 2: their mean.
    let mut expected = level0;
    expected.extend_from_slice(&[3, 5, 11, 13, 8]);
    assert_eq!(resolved.pixels, expected);
}

#[test]
fn a_float_or_cube_chain_is_left_to_the_backend() {
    let float = resolve_mips(
        &TextureDescriptor::sampled(s("hdr"), 2, 2, TextureFormat::Rgba16Float, vec![0; 32]).with_mips(TextureMips::Generate),
    );
    assert_eq!(float.mips, TextureMips::Generate);
    assert_eq!(float.pixels.len(), 32);
    let cube = resolve_mips(&TextureDescriptor::cube(s("env"), 2, TextureFormat::Rgba8Unorm, vec![0; 96]).with_mips(TextureMips::Generate));
    assert_eq!(cube.mips, TextureMips::Generate);
}

#[test]
fn disabled_and_invalid_lights_are_excluded() {
    let (mut renderer, journal) = mock_renderer();
    let mut off = Light::point(v3(0.0, 0.0, 0.0), white(), 1.0f32.to_bits(), 5.0f32.to_bits());
    off.set_enabled(false);
    renderer.submit_light(off);
    // Invalid: dropped at submit, never stored.
    renderer.submit_light(Light::directional(v3(0.0, 0.0, 0.0), white(), 1.0f32.to_bits()));
    renderer.submit_light(Light::point(v3(0.0, 0.0, 0.0), white(), (-1.0f32).to_bits(), 5.0f32.to_bits()));
    renderer.submit_light(Light::spot(
        v3(0.0, 0.0, 0.0),
        v3(0.0, -1.0, 0.0),
        white(),
        1.0f32.to_bits(),
        5.0f32.to_bits(),
        0.4f32.to_bits(),
        0.4f32.to_bits(),
    ));
    renderer.submit_light(Light::point(v3(1.0, 0.0, 0.0), white(), 1.0f32.to_bits(), 5.0f32.to_bits()));
    render_frame(&mut renderer).unwrap();
    let line = lights_lines(&journal).pop().unwrap();
    assert!(line.contains("count=1"));
    assert!(line.contains("p=(1, 0, 0)"));
}

#[test]
fn light_validity_is_decided_on_bits() {
    let nan = f32::NAN.to_bits();
    assert!(valid_light(&Light::point(v3(1.0, 0.0, 0.0), white(), 1.0f32.to_bits(), 5.0f32.to_bits())));
    assert!(!valid_light(&Light::point(v3(1.0, 0.0, 0.0), white(), nan, 5.0f32.to_bits())));
    assert!(!valid_light(&Light::point(v3(1.0, 0.0, 0.0), white(), 1.0f32.to_bits(), 0.0f32.to_bits())));
    assert!(!valid_light(&Light::directional(Vec3 { x: 0, y: 0x8000_0000, z: 0 }, white(), 1.0f32.to_bits())));
    assert!(valid_light(&Light::directional(v3(0.0, -2.0, 0.0), white(), 1.0f32.to_bits())));
    let spot = |inner: f32, outer: f32| {
        Light::spot(v3(0.0, 0.0, 0.0), v3(0.0, -1.0, 0.0), white(), 1.0f32.to_bits(), 5.0f32.to_bits(), inner.to_bits(), outer.to_bits())
    };
    assert!(valid_light(&spot(0.2, 0.4)));
    assert!(valid_light(&spot(0.0, std::f32::consts::FRAC_PI_2)));
    assert!(!valid_light(&spot(0.4, 0.2)));
    assert!(!valid_light(&spot(0.2, 2.0)));
    assert!(!valid_light(&spot(-0.1, 0.4)));
}

#[test]
fn a_boundless_mesh_is_never_culled() {
    let (mut renderer, _journal) = mock_renderer();
    let material = plain_material(&mut renderer, "p");
    let mut broken = triangle();
    broken.vertices[0].position[0] = f32::NAN.to_bits();
    let mesh = create_mesh(&mut renderer, "broken", &broken);
    assert_eq!(renderer.mesh_bounds(mesh).unwrap(), None);
    renderer.queue_draw(DrawCommand { mesh, material, transform: at(5000.0, 0.0, 0.0) });
    // Even reported outside every frustum, it is drawn.
    render_frame_seen(&mut renderer, |_, _| (false, false)).unwrap();
    assert_eq!(renderer.frame_report().passes[0].culled, 0);
    assert_eq!(renderer.frame_report().passes[0].draws, 1);
}

#[test]
fn a_bounded_mesh_outside_the_view_is_culled() {
    let (mut renderer, _journal) = mock_renderer();
    let material = plain_material(&mut renderer, "p");
    let mesh = create_mesh(&mut renderer, "tri", &triangle());
    assert!(renderer.mesh_bounds(mesh).unwrap().is_some());
    renderer.queue_draw(DrawCommand { mesh, material, transform: at(5000.0, 0.0, 0.0) });
    render_frame_seen(&mut renderer, |_, _| (false, false)).unwrap();
    assert_eq!(renderer.frame_report().passes[0].culled, 1);
}

#[test]
fn a_destroyed_sampler_is_refused_by_a_material() {
    let (mut renderer, _journal) = mock_renderer();
    let (texture, sampler) = texture_and_sampler(&mut renderer);
    let material = renderer
        .create_material(&MaterialDescriptor::new(s("m"), MaterialModel::Unlit).with_texture(texture))
        .unwrap();
    renderer.destroy_sampler(sampler).unwrap();
    let error = renderer.set_material_sampler(material, Some(sampler)).unwrap_err();
    assert!(matches!(error, RenderError::Stale(chaos_renderer::error::ResourceKind::Sampler)));
    assert_ne!(renderer.material_info(material).unwrap().sampler, sampler);
}

#[test]
fn a_refused_index_buffer_leaves_no_vertex_buffer_behind() {
    let limits = DeviceLimits { max_texture_2d: 1024, max_buffer_bytes: 72, max_anisotropy: 8 };
    let (mut renderer, _journal) = mock_renderer_with_limits(limits);
    let before = renderer.resource_stats();
    // 3 vertices of 24 bytes fit the limit exactly; 39 indices do not.
    let mut heavy = triangle();
    heavy.indices = [0, 1, 2].iter().cycle().take(39).copied().collect();
    let error = renderer.create_mesh(&s("heavy"), &heavy, None).unwrap_err();
    assert!(matches!(error, RenderError::BufferLimit { .. }));
    let after = renderer.resource_stats();
    assert_eq!(after.buffers, before.buffers);
    assert_eq!(after.meshes, before.meshes);
    // The vertex buffer already made is released at the next frame.
    assert_eq!(after.retired, before.retired + 1);
}

#[test]
fn empty_slots_share_builtin_fallbacks_made_once() {
    let (mut renderer, journal) = mock_renderer();
    let first = renderer.create_material(&MaterialDescriptor::new(s("a"), MaterialModel::Unlit)).unwrap();
    let second = renderer.create_material(&MaterialDescriptor::new(s("b"), MaterialModel::Unlit)).unwrap();
    let (a, b) = (renderer.material_info(first).unwrap(), renderer.material_info(second).unwrap());
    assert_eq!(a.texture, b.texture);
    assert_eq!(a.normal_map, b.normal_map);
    assert_ne!(a.texture, a.normal_map);
    let made = |label: &str| journal.entries().iter().filter(|entry| entry.starts_with(&format!("create_texture {label} "))).count();
    assert_eq!(made("chaos.white"), 1);
    assert_eq!(made("chaos.flat_normal"), 1);
}

#[test]
fn the_mock_reports_deterministic_capabilities() {
    let (renderer, journal) = mock_renderer();
    let capabilities = renderer.capabilities();
    assert_eq!(capabilities.backend, "mock");
    assert_eq!(capabilities.adapter, "journal");
    assert_eq!(capabilities.limits, default_limits());
    assert_eq!(renderer.device_limits(), default_limits());
    // No optional feature is assumed: timestamps are off, with their reason.
    assert!(matches!(
        &capabilities.decision("timestamp queries").unwrap().status,
        CapabilityStatus::Disabled { reason } if !reason.is_empty()
    ));
    assert!(capabilities.decision("ray tracing").is_none());
    assert_eq!(capabilities.degraded(), vec![0]);
    // Reading the report asks nothing of the backend.
    assert!(journal.entries().is_empty());
}

#[test]
fn refusal_messages_read_exactly() {
    let (mut renderer, _journal) = mock_renderer();
    let refused = renderer
        .create_texture(&TextureDescriptor::sampled(s("huge"), 8193, 1, TextureFormat::R8Unorm, vec![0; 8193]))
        .unwrap_err();
    assert_eq!(refused.message(), "texture 'huge': 8193x1 exceeds the device texture limit (8192)");
    let stale = RenderError::Stale(chaos_renderer::error::ResourceKind::Mesh);
    assert_eq!(stale.message(), "mesh handle is stale or already destroyed");
}
