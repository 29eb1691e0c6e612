# chaos_renderer

The frame-planning core of the Chaos engine renderer, verified with Verus.

The renderer owns GPU resources through handles (buffers, textures,
samplers, render targets, meshes, materials), tracks their lifetimes and
sharing, declares render passes with an execution order and their read
dependencies, and turns the queued draws of a frame into a plan for a
graphics backend: materials resolved to pipeline permutations, draws
grouped by material, opaque then masked then sky then transparent (sorted
back to front), compatible draws fused into instanced batches, the
directional shadow pass harvested from the casters, debug lines appended,
and a report and diagnostics of what the frame did.

Floats travel as their `f32` bit patterns. What needs float arithmetic
(model matrices, frustum tests, the light view, sort depths, bounds, light
normalization, debug shape tessellation, CPU timing) is done outside the
verified code and handed in as facts. Decisions on floats (light validity,
debug primitive shapes, durations, budgets) are taken on the bit patterns
in the library; generated mip chains of 8-bit textures are filtered there
too, on bytes.

## Layout

- `src/` — the verified library.
  - `pool.rs`, `registry.rs`, `lifetime.rs` — generational handles, keyed
    registries, the owned resources and their deferred release.
  - `descriptors.rs`, `textures.rs`, `layout.rs`, `geometry.rs`, `mips.rs` —
    resource descriptions, their validation, byte layouts and generated
    mip chains.
  - `materials.rs`, `shaders.rs`, `pipelines.rs` — material models and
    their rules, the shader library, pipeline permutations and their caches.
  - `backend.rs`, `capabilities.rs` — the backend interface, the record of
    the calls made to it, and the capability report it gives.
  - `passes.rs`, `order.rs`, `batching.rs`, `analysis.rs`, `lights.rs`,
    `debug.rs`, `frame.rs` — the pass schedule, the draw order, instancing,
    frame statistics, lights, debug primitives, the frame plan and reports.
  - `renderer/` — the `Renderer` and its operations; `orchestrate.rs`
    plans and submits frames.
- `tests/` — tests against a journaling backend.
- `app/` — the float side: facts of a frame, timing, light directions,
  bounds, debug shapes.
