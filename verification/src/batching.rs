//! Automatic instancing: consecutive draws of the same (material, mesh)
//! fuse into one instanced draw, their transforms moved to the instance
//! buffer — in each depth-writing class of a pass, and over the shadow
//! casters harvested from every pass once sorted.

use vstd::prelude::*;
use crate::handles::{BindingHandle, BufferHandle, PipelineHandle};
use crate::math::Mat4;
use crate::order::{is_permutation, stable_order, stably_sorted};

verus! {

/// The grouping identity of a draw: its material and mesh indices.
#[derive(Clone, Copy, Debug, PartialEq, Eq, Structural)]
pub struct BatchKey {
    pub material: u32,
    pub mesh: u32,
}

/// A range of the instance buffer.
#[derive(Clone, Copy, Debug, PartialEq, Eq, Structural)]
pub struct InstanceRange {
    pub first: u32,
    pub count: u32,
}

/// A draw ready for the backend.
#[derive(Clone, Copy, Debug)]
pub struct FrameDraw {
    pub pipeline: PipelineHandle,
    pub vertex_buffer: Option<BufferHandle>,
    pub index_buffer: Option<BufferHandle>,
    pub element_count: u32,
    pub model: Mat4,
    pub normal: Mat4,
    pub binding: Option<BindingHandle>,
    /// `Some` for an instanced draw: its transforms in the instance buffer.
    pub instances: Option<InstanceRange>,
}

/// The transforms of one instance.
#[derive(Clone, Copy, Debug)]
pub struct InstanceTransforms {
    pub model: Mat4,
    pub normal: Mat4,
}

/// The end of the run of equal keys starting at `i`.
pub open spec fn run_end(keys: Seq<BatchKey>, i: int) -> int
    decreases keys.len() - i,
{
    if i + 1 >= keys.len() || i < 0 {
        keys.len() as int
    } else if keys[i + 1] != keys[i] {
        i + 1
    } else {
        run_end(keys, i + 1)
    }
}

pub proof fn lemma_run_end(keys: Seq<BatchKey>, i: int)
    requires
        0 <= i < keys.len(),
    ensures
        i < run_end(keys, i) <= keys.len(),
        forall|j: int| i <= j < run_end(keys, i) ==> #[trigger] keys[j] == keys[i],
        run_end(keys, i) < keys.len() ==> keys[run_end(keys, i)] != keys[i],
    decreases keys.len() - i,
{
    if i + 1 < keys.len() && keys[i + 1] == keys[i] {
        lemma_run_end(keys, i + 1);
    }
}

/// The instanced pipeline of a key in a table, the first entry for it.
pub open spec fn lookup(table: Seq<(BatchKey, PipelineHandle)>, key: BatchKey) -> Option<PipelineHandle>
    decreases table.len(),
{
    if table.len() == 0 {
        None
    } else if table[0].0 == key {
        Some(table[0].1)
    } else {
        lookup(table.drop_first(), key)
    }
}

/// A count as a `u32`, saturating.
pub open spec fn cap32(n: int) -> u32 {
    if n > u32::MAX {
        u32::MAX
    } else if n < 0 {
        0
    } else {
        n as u32
    }
}

/// The transforms of a run of draws.
pub open spec fn transforms_of(draws: Seq<FrameDraw>) -> Seq<InstanceTransforms> {
    Seq::new(draws.len(), |i: int| InstanceTransforms { model: draws[i].model, normal: draws[i].normal })
}

/// The lead draw of a fused run: the first draw, on the instanced
/// pipeline, covering `count` instances from `first`.
pub open spec fn lead_draw(draw: FrameDraw, pipeline: PipelineHandle, first: int, count: int) -> FrameDraw {
    FrameDraw {
        pipeline,
        instances: Some(InstanceRange { first: cap32(first), count: cap32(count) }),
        ..draw
    }
}

/// The batched draws and new instances from position `i` on, the instance
/// buffer already holding `base` transforms: each maximal run of equal
/// keys of length ≥ 2 with an instanced pipeline becomes its lead draw,
/// other runs stay as they are.
pub open spec fn batch_from(
    draws: Seq<FrameDraw>,
    keys: Seq<BatchKey>,
    table: Seq<(BatchKey, PipelineHandle)>,
    i: int,
    base: int,
) -> (Seq<FrameDraw>, Seq<InstanceTransforms>)
    decreases draws.len() - i,
{
    if i < 0 || i >= draws.len() || draws.len() != keys.len() {
        (Seq::empty(), Seq::empty())
    } else {
        let e = run_end(keys, i);
        let n = e - i;
        proof {
            lemma_run_end(keys, i);
        }
        if e <= i {
            (Seq::empty(), Seq::empty())
        } else if n >= 2 && lookup(table, keys[i]) is Some {
            let rest = batch_from(draws, keys, table, e, base + n);
            (
                seq![lead_draw(draws[i], lookup(table, keys[i])->0, base, n)] + rest.0,
                transforms_of(draws.subrange(i, e)) + rest.1,
            )
        } else {
            let rest = batch_from(draws, keys, table, e, base);
            (draws.subrange(i, e) + rest.0, rest.1)
        }
    }
}

/// The keys whose runs may fuse: keys starting a maximal run of length ≥ 2.
pub open spec fn fusable(keys: Seq<BatchKey>, key: BatchKey) -> bool {
    exists|i: int|
        0 <= i < keys.len() && (i == 0 || keys[i - 1] != keys[i]) && run_end(keys, i) - i >= 2
            && #[trigger] keys[i] == key
}

fn lookup_pipeline(table: &Vec<(BatchKey, PipelineHandle)>, key: BatchKey) -> (found: Option<PipelineHandle>)
    ensures
        found == lookup(table@, key),
{
    let mut i: usize = 0;
    assert(table@.subrange(0, table@.len() as int) =~= table@);
    while i < table.len()
        invariant
            i <= table@.len(),
            lookup(table@, key) == lookup(table@.subrange(i as int, table@.len() as int), key),
        decreases table@.len() - i,
    {
        proof {
            let rest = table@.subrange(i as int, table@.len() as int);
            assert(rest.drop_first() =~= table@.subrange(i + 1, table@.len() as int));
        }
        if table[i].0 == key {
            return Some(table[i].1);
        }
        i = i + 1;
    }
    None
}

/// The keys that start a fusable run, in order (a key may repeat).
pub fn fusable_keys(keys: &Vec<BatchKey>) -> (found: Vec<BatchKey>)
    ensures
        forall|k: BatchKey| fusable(keys@, k) <==> found@.contains(k),
{
    let mut found: Vec<BatchKey> = Vec::new();
    let mut start: usize = 0;
    while start < keys.len()
        invariant
            start <= keys@.len(),
            start == 0 || start == keys@.len() || keys@[start - 1] != keys@[start as int],
            forall|k: BatchKey| #[trigger] found@.contains(k) ==> fusable(keys@, k),
            forall|i: int|
                0 <= i < start && (i == 0 || keys@[i - 1] != keys@[i]) && run_end(keys@, i) - i >= 2
                    ==> found@.contains(keys@[i]),
        decreases keys@.len() - start,
    {
        proof {
            lemma_run_end(keys@, start as int);
        }
        let mut end = start + 1;
        while end < keys.len() && keys[end] == keys[start]
            invariant
                start < end <= keys@.len(),
                forall|j: int| start <= j < end ==> #[trigger] keys@[j] == keys@[start as int],
                end <= run_end(keys@, start as int),
                start < keys@.len(),
            decreases keys@.len() - end,
        {
            proof {
                lemma_run_end_step(keys@, start as int, end as int);
            }
            end = end + 1;
        }
        proof {
            lemma_run_end_at(keys@, start as int, end as int);
        }
        let ghost before = found@;
        if end - start >= 2 {
            found.push(keys[start]);
            proof {
                assert(found@[found@.len() - 1] == keys@[start as int]);
            }
        }
        proof {
            assert forall|k: BatchKey| #[trigger] found@.contains(k) implies fusable(keys@, k) by {
                if !before.contains(k) {
                    assert(keys@[start as int] == k);
                }
            }
            assert forall|i: int|
                0 <= i < end && (i == 0 || keys@[i - 1] != keys@[i]) && run_end(keys@, i) - i >= 2
                    implies found@.contains(keys@[i]) by {
                if i >= start {
                    if i > start {
                        assert(keys@[i - 1] == keys@[start as int]);
                        assert(keys@[i] == keys@[start as int]);
                    }
                    assert(found@[found@.len() - 1] == keys@[start as int]);
                } else {
                    assert(before.contains(keys@[i]));
                    let p = choose|p: int| 0 <= p < before.len() && before[p] == keys@[i];
                    assert(found@[p] == keys@[i]);
                }
            }
        }
        start = end;
    }
    found
}

proof fn lemma_run_end_step(keys: Seq<BatchKey>, i: int, j: int)
    requires
        0 <= i < j < keys.len(),
        keys[j] == keys[i],
        forall|m: int| i <= m < j ==> #[trigger] keys[m] == keys[i],
        j <= run_end(keys, i),
    ensures
        j + 1 <= run_end(keys, i),
    decreases j - i,
{
    lemma_run_end(keys, i);
    if j == run_end(keys, i) {
        assert(keys[run_end(keys, i)] != keys[i]);
    }
}

proof fn lemma_run_end_at(keys: Seq<BatchKey>, i: int, e: int)
    requires
        0 <= i < e <= keys.len(),
        forall|m: int| i <= m < e ==> #[trigger] keys[m] == keys[i],
        e == keys.len() || keys[e] != keys[i],
        e <= run_end(keys, i),
    ensures
        run_end(keys, i) == e,
{
    lemma_run_end(keys, i);
    if run_end(keys, i) > e {
        assert(keys[e] == keys[i]);
    }
}

/// Fuses the runs of `draws` (grouped by `keys`) whose key has an
/// instanced pipeline in `table`; the fused transforms are appended to
/// `instances`.
pub fn batch_class(
    draws: &Vec<FrameDraw>,
    keys: &Vec<BatchKey>,
    table: &Vec<(BatchKey, PipelineHandle)>,
    instances: &mut Vec<InstanceTransforms>,
) -> (batched: Vec<FrameDraw>)
    requires
        draws@.len() == keys@.len(),
    ensures
        ({
            let r = batch_from(draws@, keys@, table@, 0, old(instances)@.len() as int);
            &&& batched@ == r.0
            &&& final(instances)@ == old(instances)@ + r.1
        }),
{
    let mut batched: Vec<FrameDraw> = Vec::new();
    let ghost base = instances@.len() as int;
    let ghost start_instances = instances@;
    let ghost total = batch_from(draws@, keys@, table@, 0, base);
    let mut start: usize = 0;
    while start < draws.len()
        invariant
            draws@.len() == keys@.len(),
            start <= draws@.len(),
            total == batch_from(draws@, keys@, table@, 0, base),
            start == 0 || start == keys@.len() || keys@[start - 1] != keys@[start as int],
            instances@.len() >= start_instances.len(),
            instances@.subrange(0, start_instances.len() as int) == start_instances,
            total.0 == batched@ + batch_from(draws@, keys@, table@, start as int, instances@.len() as int).0,
            total.1 == instances@.subrange(start_instances.len() as int, instances@.len() as int)
                + batch_from(draws@, keys@, table@, start as int, instances@.len() as int).1,
        decreases draws@.len() - start,
    {
        proof {
            lemma_run_end(keys@, start as int);
        }
        let mut end = start + 1;
        while end < keys.len() && keys[end] == keys[start]
            invariant
                start < end <= keys@.len(),
                forall|j: int| start <= j < end ==> #[trigger] keys@[j] == keys@[start as int],
                end <= run_end(keys@, start as int),
                start < keys@.len(),
            decreases keys@.len() - end,
        {
            proof {
                lemma_run_end_step(keys@, start as int, end as int);
            }
            end = end + 1;
        }
        proof {
            lemma_run_end_at(keys@, start as int, end as int);
        }
        let run = end - start;
        let pipeline = if run >= 2 {
            lookup_pipeline(table, keys[start])
        } else {
            None
        };
        let ghost here = instances@.len() as int;
        let ghost before_batched = batched@;
        let ghost before_instances = instances@;
        match pipeline {
            Some(p) => {
                let first: u32 = if instances.len() > 0xFFFF_FFFF { 0xFFFF_FFFF } else { instances.len() as u32 };
                let count: u32 = if run > 0xFFFF_FFFF { 0xFFFF_FFFF } else { run as u32 };
                let mut k = start;
                while k < end
                    invariant
                        start <= k <= end <= draws@.len(),
                        instances@ == before_instances + transforms_of(draws@.subrange(start as int, k as int)),
                    decreases end - k,
                {
                    instances.push(InstanceTransforms { model: draws[k].model, normal: draws[k].normal });
                    k = k + 1;
                    proof {
                        assert(instances@ =~= before_instances + transforms_of(draws@.subrange(start as int, k as int)));
                    }
                }
                let lead = draws[start];
                batched.push(FrameDraw { pipeline: p, instances: Some(InstanceRange { first, count }), ..lead });
                proof {
                    assert(batched@ =~= before_batched + seq![lead_draw(draws@[start as int], p, here, run as int)]);
                }
            },
            None => {
                let mut k = start;
                while k < end
                    invariant
                        start <= k <= end <= draws@.len(),
                        batched@ == before_batched + draws@.subrange(start as int, k as int),
                    decreases end - k,
                {
                    batched.push(draws[k]);
                    k = k + 1;
                    proof {
                        assert(batched@ =~= before_batched + draws@.subrange(start as int, k as int));
                    }
                }
            },
        }
        proof {
            let rest_here = batch_from(draws@, keys@, table@, start as int, here);
            assert(instances@.subrange(0, start_instances.len() as int) =~= start_instances) by {
                assert(before_instances.subrange(0, start_instances.len() as int) == start_instances);
            }
            if pipeline is Some {
                assert(rest_here.0 == seq![lead_draw(draws@[start as int], pipeline->0, here, run as int)]
                    + batch_from(draws@, keys@, table@, end as int, instances@.len() as int).0);
                assert(total.0 =~= batched@ + batch_from(draws@, keys@, table@, end as int, instances@.len() as int).0);
                assert(instances@.subrange(start_instances.len() as int, instances@.len() as int) =~= before_instances.subrange(
                    start_instances.len() as int,
                    before_instances.len() as int,
                ) + transforms_of(draws@.subrange(start as int, end as int)));
                assert(total.1 =~= instances@.subrange(start_instances.len() as int, instances@.len() as int)
                    + batch_from(draws@, keys@, table@, end as int, instances@.len() as int).1);
            } else {
                assert(total.0 =~= batched@ + batch_from(draws@, keys@, table@, end as int, instances@.len() as int).0);
                assert(instances@ == before_instances);
            }
        }
        start = end;
    }
    proof {
        assert(instances@ =~= start_instances + instances@.subrange(start_instances.len() as int, instances@.len() as int));
    }
    batched
}

/// The shadow casters' sort key.
pub open spec fn caster_key(key: BatchKey) -> u64 {
    (key.material as int * 0x1_0000_0000 + key.mesh as int) as u64
}

/// Sorts the harvested shadow casters by key (stable): duplicates of
/// several passes become one run, ready to batch like a class (the order
/// of a depth pass is irrelevant).
pub fn sort_casters(draws: &Vec<FrameDraw>, keys: &Vec<BatchKey>) -> (sorted: (Vec<FrameDraw>, Vec<BatchKey>))
    requires
        draws@.len() == keys@.len(),
    ensures
        exists|order: Seq<usize>|
            #![trigger is_permutation(order, keys@.len())]
            is_permutation(order, keys@.len()) && stably_sorted(
                Seq::new(keys@.len(), |i: int| caster_key(keys@[i])),
                order,
            ) && sorted.0@ == Seq::new(order.len(), |i: int| draws@[order[i] as int]) && sorted.1@ == Seq::new(
                order.len(),
                |i: int| keys@[order[i] as int],
            ),
{
    let mut sort_keys: Vec<u64> = Vec::new();
    let mut i: usize = 0;
    while i < keys.len()
        invariant
            i <= keys@.len(),
            sort_keys@ == Seq::new(keys@.len(), |j: int| caster_key(keys@[j])).subrange(0, i as int),
        decreases keys@.len() - i,
    {
        let k = keys[i];
        let key = ((k.material as u64) << 32) | (k.mesh as u64);
        proof {
            let m = k.material as u64;
            let n = k.mesh as u64;
            assert(((m << 32u64) | n) == m * 0x1_0000_0000 + n) by (bit_vector)
                requires
                    m < 0x1_0000_0000,
                    n < 0x1_0000_0000,
            ;
        }
        sort_keys.push(key);
        i = i + 1;
        assert(sort_keys@ =~= Seq::new(keys@.len(), |j: int| caster_key(keys@[j])).subrange(0, i as int));
    }
    assert(sort_keys@ =~= Seq::new(keys@.len(), |j: int| caster_key(keys@[j])));
    let order = stable_order(&sort_keys);
    let mut sorted_draws: Vec<FrameDraw> = Vec::new();
    let mut sorted_keys: Vec<BatchKey> = Vec::new();
    let mut j: usize = 0;
    while j < order.len()
        invariant
            j <= order@.len(),
            is_permutation(order@, keys@.len()),
            draws@.len() == keys@.len(),
            sorted_draws@ == Seq::new(order@.len(), |i: int| draws@[order@[i] as int]).subrange(0, j as int),
            sorted_keys@ == Seq::new(order@.len(), |i: int| keys@[order@[i] as int]).subrange(0, j as int),
        decreases order@.len() - j,
    {
        sorted_draws.push(draws[order[j]]);
        sorted_keys.push(keys[order[j]]);
        j = j + 1;
        assert(sorted_draws@ =~= Seq::new(order@.len(), |i: int| draws@[order@[i] as int]).subrange(0, j as int));
        assert(sorted_keys@ =~= Seq::new(order@.len(), |i: int| keys@[order@[i] as int]).subrange(0, j as int));
    }
    assert(sorted_draws@ =~= Seq::new(order@.len(), |i: int| draws@[order@[i] as int]));
    assert(sorted_keys@ =~= Seq::new(order@.len(), |i: int| keys@[order@[i] as int]));
    (sorted_draws, sorted_keys)
}

/// The logical objects a list of draws stands for: each instanced draw its
/// instance count, each other draw one.
pub open spec fn objects(draws: Seq<FrameDraw>) -> nat
    decreases draws.len(),
{
    if draws.len() == 0 {
        0
    } else {
        objects(draws.drop_last()) + match draws.last().instances {
            Some(range) => range.count as nat,
            None => 1nat,
        }
    }
}

proof fn lemma_objects_append(a: Seq<FrameDraw>, b: Seq<FrameDraw>)
    ensures
        objects(a + b) == objects(a) + objects(b),
    decreases b.len(),
{
    if b.len() == 0 {
        assert(a + b =~= a);
    } else {
        lemma_objects_append(a, b.drop_last());
        assert((a + b).drop_last() =~= a + b.drop_last());
    }
}

proof fn lemma_objects_plain(draws: Seq<FrameDraw>)
    requires
        forall|i: int| 0 <= i < draws.len() ==> (#[trigger] draws[i]).instances is None,
    ensures
        objects(draws) == draws.len(),
    decreases draws.len(),
{
    if draws.len() > 0 {
        lemma_objects_plain(draws.drop_last());
    }
}

/// Law: instancing never changes what is drawn — the batched draws stand
/// for exactly the submitted objects, and every fused instance has its
/// transform in the instance buffer (as long as the counts fit a `u32`).
pub proof fn lemma_batching_preserves_objects(
    draws: Seq<FrameDraw>,
    keys: Seq<BatchKey>,
    table: Seq<(BatchKey, PipelineHandle)>,
    i: int,
    base: int,
)
    requires
        draws.len() == keys.len(),
        0 <= i <= draws.len(),
        0 <= base,
        base + (draws.len() - i) <= u32::MAX,
        forall|j: int| 0 <= j < draws.len() ==> (#[trigger] draws[j]).instances is None,
    ensures
        objects(batch_from(draws, keys, table, i, base).0) == draws.len() - i,
        batch_from(draws, keys, table, i, base).0.len() <= draws.len() - i,
    decreases draws.len() - i,
{
    if i == draws.len() {
        assert(objects(Seq::<FrameDraw>::empty()) == 0);
    }
    if i < draws.len() {
        lemma_run_end(keys, i);
        let e = run_end(keys, i);
        let n = e - i;
        if n >= 2 && lookup(table, keys[i]) is Some {
            lemma_batching_preserves_objects(draws, keys, table, e, base + n);
            let rest = batch_from(draws, keys, table, e, base + n);
            let lead = lead_draw(draws[i], lookup(table, keys[i])->0, base, n);
            lemma_objects_append(seq![lead], rest.0);
            assert(seq![lead].drop_last() =~= Seq::<FrameDraw>::empty());
            assert(objects(Seq::<FrameDraw>::empty()) == 0);
            assert(objects(seq![lead]) == n);
            assert(batch_from(draws, keys, table, i, base).0 == seq![lead] + rest.0);
        } else {
            lemma_batching_preserves_objects(draws, keys, table, e, base);
            let rest = batch_from(draws, keys, table, e, base);
            lemma_objects_append(draws.subrange(i, e), rest.0);
            lemma_objects_plain(draws.subrange(i, e));
            assert(batch_from(draws, keys, table, i, base).0 == draws.subrange(i, e) + rest.0);
        }
    }
}

/// Batching looks a table up only on fusable keys: two tables agreeing
/// there batch alike.
pub proof fn lemma_batch_from_congruent(
    draws: Seq<FrameDraw>,
    keys: Seq<BatchKey>,
    t1: Seq<(BatchKey, PipelineHandle)>,
    t2: Seq<(BatchKey, PipelineHandle)>,
    i: int,
    base: int,
)
    requires
        draws.len() == keys.len(),
        0 <= i <= draws.len(),
        i == 0 || i == draws.len() || keys[i - 1] != keys[i],
        forall|k: BatchKey| #[trigger] fusable(keys, k) ==> lookup(t1, k) == lookup(t2, k),
    ensures
        batch_from(draws, keys, t1, i, base) == batch_from(draws, keys, t2, i, base),
    decreases draws.len() - i,
{
    if i < draws.len() {
        lemma_run_end(keys, i);
        let e = run_end(keys, i);
        if e - i >= 2 {
            assert(fusable(keys, keys[i]));
        }
        if e < keys.len() {
            assert(keys[e - 1] == keys[i]);
        }
        lemma_batch_from_congruent(draws, keys, t1, t2, e, base + (e - i));
        lemma_batch_from_congruent(draws, keys, t1, t2, e, base);
    }
}

/// A table lookup finds the first entry of its key.
pub proof fn lemma_lookup_first(table: Seq<(BatchKey, PipelineHandle)>, key: BatchKey)
    ensures
        lookup(table, key) == crate::pipelines::find_entry(table, key),
    decreases table.len(),
{
    if table.len() > 0 && table[0].0 != key {
        lemma_lookup_first(table.drop_first(), key);
    }
}

/// Appending an entry changes a lookup only for a key not yet in the table.
pub proof fn lemma_lookup_push(table: Seq<(BatchKey, PipelineHandle)>, entry: (BatchKey, PipelineHandle), key: BatchKey)
    ensures
        lookup(table.push(entry), key) == if lookup(table, key) is Some {
            lookup(table, key)
        } else if entry.0 == key {
            Some(entry.1)
        } else {
            None
        },
    decreases table.len(),
{
    if table.len() > 0 {
        assert(table.push(entry)[0] == table[0]);
        assert(table.push(entry).drop_first() =~= table.drop_first().push(entry));
        lemma_lookup_push(table.drop_first(), entry, key);
    } else {
        assert(table.push(entry)[0] == entry);
        assert(table.push(entry).drop_first() =~= Seq::<(BatchKey, PipelineHandle)>::empty());
        assert(lookup(Seq::<(BatchKey, PipelineHandle)>::empty(), key) is None);
    }
}

} // verus!
