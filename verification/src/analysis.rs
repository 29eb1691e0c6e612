//! Instrumentation: the analysis of resolved draws (the exact state
//! changes the backend will encode), the frame totals summed over the
//! passes, and the cumulative surface and budget counters.

use vstd::prelude::*;
use crate::batching::FrameDraw;
use crate::handles::{BindingHandle, PipelineHandle};

verus! {

/// A batch of debug line vertices with its pipeline.
#[derive(Clone, Copy, Debug)]
pub struct FrameDebugBatch {
    pub pipeline: PipelineHandle,
    pub first_vertex: u32,
    pub vertex_count: u32,
}

/// What a list of resolved draws costs the backend.
#[derive(Clone, Copy, Debug, PartialEq, Eq, Structural, Default)]
pub struct DrawAnalysis {
    pub classic_draws: usize,
    pub instanced_draws: usize,
    pub instances: usize,
    pub triangles: usize,
    pub debug_segments: usize,
    pub pipeline_switches: usize,
    pub material_switches: usize,
}

/// A count capped at the largest `usize`.
pub open spec fn cap(n: nat) -> usize {
    if n > usize::MAX {
        usize::MAX
    } else {
        n as usize
    }
}

/// The instances a draw stands for.
pub open spec fn draw_instances(d: FrameDraw) -> nat {
    match d.instances {
        Some(r) => r.count as nat,
        None => 1,
    }
}

/// The number of classic (non-instanced) draws.
pub open spec fn classic_count(draws: Seq<FrameDraw>) -> nat
    decreases draws.len(),
{
    if draws.len() == 0 {
        0
    } else {
        classic_count(draws.drop_last()) + if draws.last().instances is None { 1nat } else { 0nat }
    }
}

/// The number of instanced draws.
pub open spec fn instanced_count(draws: Seq<FrameDraw>) -> nat
    decreases draws.len(),
{
    if draws.len() == 0 {
        0
    } else {
        instanced_count(draws.drop_last()) + if draws.last().instances is Some { 1nat } else { 0nat }
    }
}

/// The instances of the instanced draws.
pub open spec fn instance_total(draws: Seq<FrameDraw>) -> nat
    decreases draws.len(),
{
    if draws.len() == 0 {
        0
    } else {
        instance_total(draws.drop_last()) + match draws.last().instances {
            Some(r) => r.count as nat,
            None => 0nat,
        }
    }
}

/// The triangles drawn: a third of the elements, per instance.
pub open spec fn triangle_total(draws: Seq<FrameDraw>) -> nat
    decreases draws.len(),
{
    if draws.len() == 0 {
        0
    } else {
        triangle_total(draws.drop_last()) + (draws.last().element_count / 3) as nat * draw_instances(draws.last())
    }
}

/// The debug line segments: half the vertices of each batch.
pub open spec fn segment_total(batches: Seq<FrameDebugBatch>) -> nat
    decreases batches.len(),
{
    if batches.len() == 0 {
        0
    } else {
        segment_total(batches.drop_last()) + (batches.last().vertex_count / 2) as nat
    }
}

/// The pipelines bound in encoding order: the draws', then the debug
/// batches'.
pub open spec fn bound_pipelines(draws: Seq<FrameDraw>, batches: Seq<FrameDebugBatch>) -> Seq<PipelineHandle> {
    Seq::new(draws.len(), |i: int| draws[i].pipeline) + Seq::new(batches.len(), |i: int| batches[i].pipeline)
}

/// The pipeline binds: each position whose pipeline differs from the
/// previous one (the first always binds).
pub open spec fn switch_count(pipelines: Seq<PipelineHandle>) -> nat
    decreases pipelines.len(),
{
    if pipelines.len() == 0 {
        0
    } else {
        switch_count(pipelines.drop_last()) + if pipelines.len() == 1 || pipelines[pipelines.len() - 2]
            != pipelines.last() {
            1nat
        } else {
            0nat
        }
    }
}

/// The binding bound after the draws: the last draw that carries one.
pub open spec fn last_binding(draws: Seq<FrameDraw>) -> Option<BindingHandle>
    decreases draws.len(),
{
    if draws.len() == 0 {
        None
    } else if draws.last().binding is Some {
        draws.last().binding
    } else {
        last_binding(draws.drop_last())
    }
}

/// The material binds: each draw carrying a binding other than the one
/// bound before it.
pub open spec fn material_switch_count(draws: Seq<FrameDraw>) -> nat
    decreases draws.len(),
{
    if draws.len() == 0 {
        0
    } else {
        material_switch_count(draws.drop_last()) + if draws.last().binding is Some && last_binding(
            draws.drop_last(),
        ) != draws.last().binding {
            1nat
        } else {
            0nat
        }
    }
}

/// The exact analysis of draws followed by debug batches.
pub open spec fn analysis_of(draws: Seq<FrameDraw>, batches: Seq<FrameDebugBatch>) -> DrawAnalysis {
    DrawAnalysis {
        classic_draws: cap(classic_count(draws)),
        instanced_draws: cap(instanced_count(draws)),
        instances: cap(instance_total(draws)),
        triangles: cap(triangle_total(draws)),
        debug_segments: cap(segment_total(batches)),
        pipeline_switches: cap(switch_count(bound_pipelines(draws, batches))),
        material_switches: cap(material_switch_count(draws)),
    }
}

/// Analyses resolved draws and debug batches — one pass over the
/// submissions, mirroring the backend's binding rule.
pub fn analyze_draws(draws: &[FrameDraw], debug: &[FrameDebugBatch]) -> (analysis: DrawAnalysis)
    ensures
        analysis == analysis_of(draws@, debug@),
{
    let mut classic: usize = 0;
    let mut instanced: usize = 0;
    let mut instances: usize = 0;
    let mut triangles: usize = 0;
    let mut segments: usize = 0;
    let mut pipeline_switches: usize = 0;
    let mut material_switches: usize = 0;
    let mut bound_pipeline: Option<PipelineHandle> = None;
    let mut bound_material: Option<BindingHandle> = None;
    let ghost all = bound_pipelines(draws@, debug@);
    let mut i: usize = 0;
    while i < draws.len()
        invariant
            i <= draws@.len(),
            all == bound_pipelines(draws@, debug@),
            classic == cap(classic_count(draws@.subrange(0, i as int))),
            instanced == cap(instanced_count(draws@.subrange(0, i as int))),
            instances == cap(instance_total(draws@.subrange(0, i as int))),
            triangles == cap(triangle_total(draws@.subrange(0, i as int))),
            pipeline_switches == cap(switch_count(all.subrange(0, i as int))),
            material_switches == cap(material_switch_count(draws@.subrange(0, i as int))),
            bound_material == last_binding(draws@.subrange(0, i as int)),
            bound_pipeline == (if i == 0 { None } else { Some(all[i - 1]) }),
        decreases draws@.len() - i,
    {
        let draw = draws[i];
        proof {
            let p = draws@.subrange(0, i + 1);
            assert(p.drop_last() =~= draws@.subrange(0, i as int));
            assert(p.last() == draw);
            assert(all.subrange(0, i + 1).drop_last() =~= all.subrange(0, i as int));
            assert(all[i as int] == draw.pipeline);
            if i > 0 {
                assert(all.subrange(0, i + 1)[i - 1] == all[i - 1]);
            }
        }
        let count: usize = match draw.instances {
            Some(range) => range.count as usize,
            None => 1,
        };
        match draw.instances {
            Some(range) => {
                instanced = instanced.saturating_add(1);
                instances = instances.saturating_add(range.count as usize);
            },
            None => {
                classic = classic.saturating_add(1);
            },
        }
        let per = (draw.element_count / 3) as usize;
        proof {
            assert((per as u128) * (count as u128) <= 0xFFFF_FFFF_u128 * 0xFFFF_FFFF_u128) by (nonlinear_arith)
                requires
                    per <= 0xFFFF_FFFF,
                    count <= 0xFFFF_FFFF,
            ;
        }
        let product: u128 = (per as u128) * (count as u128);
        let term: usize = if product > usize::MAX as u128 { usize::MAX } else { product as usize };
        triangles = triangles.saturating_add(term);
        if bound_pipeline != Some(draw.pipeline) {
            pipeline_switches = pipeline_switches.saturating_add(1);
            bound_pipeline = Some(draw.pipeline);
        }
        if let Some(binding) = draw.binding {
            if bound_material != Some(binding) {
                material_switches = material_switches.saturating_add(1);
                bound_material = Some(binding);
            }
        }
        i = i + 1;
    }
    proof {
        assert(draws@.subrange(0, i as int) =~= draws@);
    }
    let mut j: usize = 0;
    while j < debug.len()
        invariant
            j <= debug@.len(),
            i == draws@.len(),
            all == bound_pipelines(draws@, debug@),
            segments == cap(segment_total(debug@.subrange(0, j as int))),
            pipeline_switches == cap(switch_count(all.subrange(0, i + j))),
            bound_pipeline == (if i + j == 0 { None } else { Some(all[i + j - 1]) }),
        decreases debug@.len() - j,
    {
        let batch = debug[j];
        proof {
            let p = debug@.subrange(0, j + 1);
            assert(p.drop_last() =~= debug@.subrange(0, j as int));
            assert(p.last() == batch);
            assert(all.subrange(0, i + j + 1).drop_last() =~= all.subrange(0, i + j));
            assert(all[i + j] == batch.pipeline);
            if i + j > 0 {
                assert(all.subrange(0, i + j + 1)[i + j - 1] == all[i + j - 1]);
            }
        }
        segments = segments.saturating_add((batch.vertex_count / 2) as usize);
        if bound_pipeline != Some(batch.pipeline) {
            pipeline_switches = pipeline_switches.saturating_add(1);
            bound_pipeline = Some(batch.pipeline);
        }
        j = j + 1;
    }
    proof {
        assert(debug@.subrange(0, j as int) =~= debug@);
        assert(all.subrange(0, i + j) =~= all);
    }
    DrawAnalysis {
        classic_draws: classic,
        instanced_draws: instanced,
        instances,
        triangles,
        debug_segments: segments,
        pipeline_switches,
        material_switches,
    }
}

} // verus!
