//! The declared render passes: the registry (labels, dependencies and
//! schedule validated), the per-pass cameras, the draw queues, and the
//! execution order.

use vstd::prelude::*;
use vstd::string::*;
use crate::error::{RenderError, ResourceKind};
use crate::handles::{MaterialHandle, MeshHandle, PassHandle, RenderTargetHandle};
use crate::lifetime::LifetimeTracker;
use crate::math::{Color, Mat4, Transform, Vec3};
use crate::order::{is_permutation, stable_order, stably_sorted};
use crate::registry::Key;

verus! {

/// Where a pass renders.
#[derive(Clone, Copy, Debug, PartialEq, Eq, Structural)]
pub enum RenderDestination {
    /// The presented surface.
    Surface,
    /// An offscreen render target.
    Target(RenderTargetHandle),
}

/// What a pass does with its destination before drawing.
#[derive(Clone, Copy, Debug, PartialEq, Eq, Structural)]
pub enum PassLoad {
    /// Clear to a color.
    Clear(Color),
    /// Keep the previous content.
    Keep,
}

/// A request to draw a mesh with a material at a transform.
#[derive(Clone, Copy, Debug)]
pub struct DrawCommand {
    pub mesh: MeshHandle,
    pub material: MaterialHandle,
    pub transform: Transform,
}

/// The declaration of a render pass.
#[derive(Debug)]
pub struct RenderPassDescriptor {
    pub label: String,
    pub destination: RenderDestination,
    pub load: PassLoad,
    /// The execution rank: lower first, ties in registration order.
    pub order: i32,
    /// The render targets the pass samples.
    pub reads: Vec<RenderTargetHandle>,
    pub enabled: bool,
    pub view_projection: Mat4,
    pub camera_position: Vec3,
}

/// The value of a pass descriptor.
pub struct PassSpec {
    pub label: Seq<char>,
    pub destination: RenderDestination,
    pub load: PassLoad,
    pub order: i32,
    pub reads: Seq<RenderTargetHandle>,
    pub enabled: bool,
    pub view_projection: Mat4,
    pub camera_position: Vec3,
}

impl View for RenderPassDescriptor {
    type V = PassSpec;

    open spec fn view(&self) -> PassSpec {
        PassSpec {
            label: self.label@,
            destination: self.destination,
            load: self.load,
            order: self.order,
            reads: self.reads@,
            enabled: self.enabled,
            view_projection: self.view_projection,
            camera_position: self.camera_position,
        }
    }
}

/// The label prefix reserved for engine passes.
pub open spec fn reserved_prefix() -> Seq<char> {
    seq!['c', 'h', 'a', 'o', 's', '.']
}

/// The label starts with the reserved `chaos.` prefix.
pub open spec fn is_reserved(label: Seq<char>) -> bool {
    label.len() >= 6 && label.subrange(0, 6) == reserved_prefix()
}

/// The label of the main pass.
pub open spec fn main_label() -> Seq<char> {
    seq!['c', 'h', 'a', 'o', 's', '.', 'm', 'a', 'i', 'n']
}

/// The pass samples its own destination.
pub open spec fn is_feedback(d: PassSpec) -> bool {
    match d.destination {
        RenderDestination::Target(t) => d.reads.contains(t),
        RenderDestination::Surface => false,
    }
}

/// Pass `w` runs after pass `r`: a higher order, or the same order and a
/// later registration.
pub open spec fn runs_after(passes: Seq<PassSpec>, w: int, r: int) -> bool {
    passes[w].order > passes[r].order || (passes[w].order == passes[r].order && w > r)
}

/// Pass `w` writes the `t`-th read of pass `r` but runs after it.
pub open spec fn conflict(passes: Seq<PassSpec>, w: int, r: int, t: int) -> bool {
    &&& 0 <= w < passes.len()
    &&& 0 <= r < passes.len()
    &&& w != r
    &&& 0 <= t < passes[r].reads.len()
    &&& passes[w].destination == RenderDestination::Target(passes[r].reads[t])
    &&& runs_after(passes, w, r)
}

/// The conflict the schedule check meets first: by reader, then by read,
/// then by writer, in declaration order.
pub open spec fn first_conflict(passes: Seq<PassSpec>, w: int, r: int, t: int) -> bool {
    &&& conflict(passes, w, r, t)
    &&& forall|ww: int, rr: int, tt: int| 0 <= rr < r ==> !#[trigger] conflict(passes, ww, rr, tt)
    &&& forall|ww: int, tt: int| 0 <= tt < t ==> !#[trigger] conflict(passes, ww, r, tt)
    &&& forall|ww: int| 0 <= ww < w ==> !#[trigger] conflict(passes, ww, r, t)
}

/// Some pass writes a target after another pass reads it.
pub open spec fn has_conflict(passes: Seq<PassSpec>) -> bool {
    exists|w: int, r: int, t: int| conflict(passes, w, r, t)
}

/// A valid schedule: pass labels are unique, no pass samples its own
/// destination, and no pass writes a target after a pass that reads it.
pub open spec fn schedule_valid(passes: Seq<PassSpec>) -> bool {
    &&& forall|i: int, j: int| 0 <= i < j < passes.len() ==> (#[trigger] passes[i]).label != (#[trigger] passes[j]).label
    &&& !has_conflict(passes)
    &&& forall|i: int| 0 <= i < passes.len() ==> !is_feedback(#[trigger] passes[i])
}

/// Passes that differ only in what the schedule does not read (loads,
/// cameras, enabled flags) are valid together or not at all.
pub proof fn lemma_same_shape(a: Seq<PassSpec>, b: Seq<PassSpec>)
    requires
        a.len() == b.len(),
        forall|i: int|
            0 <= i < a.len() ==> (#[trigger] a[i]).order == b[i].order && a[i].destination == b[i].destination
                && a[i].reads == b[i].reads && a[i].label == b[i].label,
    ensures
        schedule_valid(a) == schedule_valid(b),
{
    if has_conflict(a) {
        let (w, r, t) = choose|w: int, r: int, t: int| conflict(a, w, r, t);
        assert(conflict(b, w, r, t));
    }
    if has_conflict(b) {
        let (w, r, t) = choose|w: int, r: int, t: int| conflict(b, w, r, t);
        assert(conflict(a, w, r, t));
    }
    if schedule_valid(a) {
        assert forall|i: int| 0 <= i < b.len() implies !is_feedback(#[trigger] b[i]) by {
            assert(!is_feedback(a[i]));
        }
        assert forall|i: int, j: int| 0 <= i < j < b.len() implies (#[trigger] b[i]).label != (#[trigger] b[j]).label by {
            assert(a[i].label != a[j].label);
        }
    }
    if schedule_valid(b) {
        assert forall|i: int| 0 <= i < a.len() implies !is_feedback(#[trigger] a[i]) by {
            assert(!is_feedback(b[i]));
        }
        assert forall|i: int, j: int| 0 <= i < j < a.len() implies (#[trigger] a[i]).label != (#[trigger] a[j]).label by {
            assert(b[i].label != b[j].label);
        }
    }
}

/// The name a conflict gives its target: its label if it lives, otherwise
/// a generic name.
pub open spec fn target_name(targets: Map<Key, crate::lifetime::RenderTargetInfo>, t: RenderTargetHandle) -> Seq<char> {
    if targets.contains_key(t.spec_key()) {
        targets[t.spec_key()].label@
    } else {
        "render target"@
    }
}

/// The pass's destination and reads are live targets.
pub open spec fn resources_live(targets: Map<Key, crate::lifetime::RenderTargetInfo>, d: PassSpec) -> bool {
    &&& (d.destination matches RenderDestination::Target(t) ==> targets.contains_key(t.spec_key()))
    &&& forall|i: int| 0 <= i < d.reads.len() ==> targets.contains_key(#[trigger] d.reads[i].spec_key())
}

/// The execution order of a set of passes: stable by `order`.
pub open spec fn is_schedule(passes: Seq<PassSpec>, schedule: Seq<usize>) -> bool {
    &&& is_permutation(schedule, passes.len())
    &&& forall|a: int, b: int|
        #![trigger schedule[a], schedule[b]]
        0 <= a < b < schedule.len() ==> !runs_after(passes, schedule[a] as int, schedule[b] as int)
}

impl RenderPassDescriptor {
    /// A pass to `destination`: cleared to black, order 0, no reads,
    /// enabled, identity camera at the origin.
    pub fn new(label: String, destination: RenderDestination) -> (d: Self)
        ensures
            d@.label == label@,
            d@.destination == destination,
            d@.load == PassLoad::Clear(Color { r: 0, g: 0, b: 0, a: crate::math::ONE_BITS }),
            d@.order == 0,
            d@.reads == Seq::<RenderTargetHandle>::empty(),
            d@.enabled,
            d@.camera_position == (Vec3 { x: 0, y: 0, z: 0 }),
    {
        RenderPassDescriptor {
            label,
            destination,
            load: PassLoad::Clear(Color::black()),
            order: 0,
            reads: Vec::new(),
            enabled: true,
            view_projection: Mat4::identity(),
            camera_position: Vec3::zero(),
        }
    }

    /// The same pass seen from another camera position.
    pub fn with_camera_position(self, camera_position: Vec3) -> (d: Self)
        ensures
            d@ == (PassSpec { camera_position, ..self@ }),
    {
        RenderPassDescriptor { camera_position, ..self }
    }

    /// The same pass with another execution rank.
    pub fn with_order(self, order: i32) -> (d: Self)
        ensures
            d@ == (PassSpec { order, ..self@ }),
    {
        RenderPassDescriptor { order, ..self }
    }

    /// The same pass with another load.
    pub fn with_load(self, load: PassLoad) -> (d: Self)
        ensures
            d@ == (PassSpec { load, ..self@ }),
    {
        RenderPassDescriptor { load, ..self }
    }

    /// The same pass sampling `reads`.
    pub fn with_reads(self, reads: Vec<RenderTargetHandle>) -> (d: Self)
        ensures
            d@ == (PassSpec { reads: reads@, ..self@ }),
    {
        RenderPassDescriptor { reads, ..self }
    }

    /// A copy of the descriptor.
    pub fn duplicate(&self) -> (d: Self)
        ensures
            d@ == self@,
    {
        let mut reads: Vec<RenderTargetHandle> = Vec::new();
        let mut i: usize = 0;
        while i < self.reads.len()
            invariant
                i <= self.reads@.len(),
                reads@ == self.reads@.subrange(0, i as int),
            decreases self.reads@.len() - i,
        {
            reads.push(self.reads[i]);
            i = i + 1;
            assert(reads@ =~= self.reads@.subrange(0, i as int));
        }
        assert(reads@ =~= self.reads@);
        RenderPassDescriptor {
            label: self.label.clone(),
            destination: self.destination,
            load: self.load,
            order: self.order,
            reads,
            enabled: self.enabled,
            view_projection: self.view_projection,
            camera_position: self.camera_position,
        }
    }
}

/// Whether `label` starts with the reserved prefix.
pub fn has_reserved_prefix(label: &String) -> (reserved: bool)
    ensures
        reserved == is_reserved(label@),
{
    let s = label.as_str();
    if s.unicode_len() < 6 {
        return false;
    }
    let c0 = s.get_char(0);
    let c1 = s.get_char(1);
    let c2 = s.get_char(2);
    let c3 = s.get_char(3);
    let c4 = s.get_char(4);
    let c5 = s.get_char(5);
    let reserved = c0 == 'c' && c1 == 'h' && c2 == 'a' && c3 == 'o' && c4 == 's' && c5 == '.';
    proof {
        if reserved {
            assert(label@.subrange(0, 6) =~= reserved_prefix());
        } else {
            if label@.subrange(0, 6) == reserved_prefix() {
                assert(label@.subrange(0, 6)[0] == label@[0]);
                assert(label@.subrange(0, 6)[5] == label@[5]);
                assert(false);
            }
        }
    }
    reserved
}

/// A declared pass and its queue of draws.
pub struct PassRecord {
    pub descriptor: RenderPassDescriptor,
    pub queue: Vec<DrawCommand>,
}

/// The registry of declared passes; the main pass is always the first.
pub struct PassRegistry {
    records: Vec<PassRecord>,
}

/// The keys under which draws of a queue are ordered: the material index.
pub open spec fn material_keys(queue: Seq<DrawCommand>) -> Seq<u64> {
    Seq::new(queue.len(), |i: int| queue[i].material.index as u64)
}

/// The sum of the queue lengths.
pub open spec fn total_draws(queues: Seq<Seq<DrawCommand>>) -> nat
    decreases queues.len(),
{
    if queues.len() == 0 {
        0
    } else {
        total_draws(queues.drop_last()) + queues.last().len()
    }
}

/// A count capped at the largest `usize`.
pub open spec fn capped_count(n: nat) -> usize {
    if n > usize::MAX {
        usize::MAX
    } else {
        n as usize
    }
}

impl PassRegistry {
    pub closed spec fn wf(&self) -> bool {
        &&& 1 <= self.records@.len() < u32::MAX
        &&& self.records@[0].descriptor@.label == main_label()
        &&& self.records@[0].descriptor@.destination == RenderDestination::Surface
        &&& schedule_valid(self.passes())
    }

    /// The declared passes, in registration order.
    pub closed spec fn passes(&self) -> Seq<PassSpec> {
        Seq::new(self.records@.len(), |i: int| self.records@[i].descriptor@)
    }

    /// The draw queue of each pass.
    pub closed spec fn queues(&self) -> Seq<Seq<DrawCommand>> {
        Seq::new(self.records@.len(), |i: int| self.records@[i].queue@)
    }

    /// The main pass is always there, first.
    pub proof fn lemma_main(&self)
        requires
            self.wf(),
        ensures
            1 <= self.passes().len() < u32::MAX,
            self.queues().len() == self.passes().len(),
            self.passes()[0].label == main_label(),
            self.passes()[0].destination == RenderDestination::Surface,
            schedule_valid(self.passes()),
    {
    }

    /// A registry holding only the main pass `chaos.main` (surface).
    pub fn new() -> (r: Self)
        ensures
            r.wf(),
            r.passes().len() == 1,
            r.passes()[0].label == main_label(),
            r.passes()[0].destination == RenderDestination::Surface,
            r.passes()[0].order == 0,
            r.passes()[0].enabled,
            r.passes()[0].reads.len() == 0,
            r.passes()[0].load == PassLoad::Clear(Color { r: 0, g: 0, b: 0, a: crate::math::ONE_BITS }),
            r.queues() == seq![Seq::<DrawCommand>::empty()],
    {
        let label = String::from_str("chaos.main");
        proof {
            reveal_strlit("chaos.main");
            assert(label@ =~= main_label());
        }
        let mut records: Vec<PassRecord> = Vec::new();
        records.push(PassRecord {
            descriptor: RenderPassDescriptor::new(label, RenderDestination::Surface),
            queue: Vec::new(),
        });
        let r = PassRegistry { records };
        assert(r.queues() =~= seq![Seq::<DrawCommand>::empty()]);
        r
    }

    /// The number of declared passes.
    pub fn len(&self) -> (n: usize)
        ensures
            n == self.passes().len(),
    {
        self.records.len()
    }

    /// The descriptor of a pass.
    pub fn descriptor(&self, index: usize) -> (d: &RenderPassDescriptor)
        requires
            index < self.passes().len(),
        ensures
            d@ == self.passes()[index as int],
    {
        &self.records[index].descriptor
    }

    /// The queue of a pass, in submission order.
    pub fn queue(&self, index: usize) -> (q: &Vec<DrawCommand>)
        requires
            index < self.passes().len(),
        ensures
            q@ == self.queues()[index as int],
    {
        &self.records[index].queue
    }

    /// The total number of queued draws, all passes together (capped at
    /// the largest `usize`).
    pub fn draw_count(&self) -> (n: usize)
        ensures
            n == capped_count(total_draws(self.queues())),
    {
        let mut n: usize = 0;
        let mut i: usize = 0;
        while i < self.records.len()
            invariant
                i <= self.records@.len(),
                n == capped_count(total_draws(self.queues().subrange(0, i as int))),
            decreases self.records@.len() - i,
        {
            proof {
                assert(self.queues().subrange(0, i + 1).drop_last() =~= self.queues().subrange(0, i as int));
            }
            n = n.saturating_add(self.records[i].queue.len());
            i = i + 1;
        }
        assert(self.queues().subrange(0, i as int) =~= self.queues());
        n
    }
}

/// The passes with `d` declared at `index`: appended when `index` is the
/// number of passes, replacing pass `index` otherwise.
pub open spec fn candidates(passes: Seq<PassSpec>, index: int, d: PassSpec) -> Seq<PassSpec> {
    if index == passes.len() {
        passes.push(d)
    } else {
        passes.update(index, d)
    }
}

/// Another pass than `except` carries the label.
pub open spec fn label_taken(passes: Seq<PassSpec>, label: Seq<char>, except: int) -> bool {
    exists|j: int| 0 <= j < passes.len() && j != except && #[trigger] passes[j].label == label
}

/// The refusal owed to the declaration (or update) of `d` at `index`,
/// in the order the rules are checked; `None` when it is accepted.
pub enum PassRule {
    EmptyLabel,
    Feedback,
    MainDestination,
    MainLabel,
    Reserved,
    Duplicate,
    StaleDestination,
    StaleRead,
    Conflict,
}

/// The first rule the declaration of `d` at `index` breaks.
pub open spec fn broken_rule(
    passes: Seq<PassSpec>,
    targets: Map<Key, crate::lifetime::RenderTargetInfo>,
    index: int,
    d: PassSpec,
) -> Option<PassRule> {
    if d.label.len() == 0 {
        Some(PassRule::EmptyLabel)
    } else if is_feedback(d) {
        Some(PassRule::Feedback)
    } else if index == 0 && d.destination != RenderDestination::Surface {
        Some(PassRule::MainDestination)
    } else if index == 0 && d.label != main_label() {
        Some(PassRule::MainLabel)
    } else if index != 0 && is_reserved(d.label) {
        Some(PassRule::Reserved)
    } else if index != 0 && label_taken(passes, d.label, index) {
        Some(PassRule::Duplicate)
    } else if d.destination matches RenderDestination::Target(t) && !targets.contains_key(t.spec_key()) {
        Some(PassRule::StaleDestination)
    } else if !resources_live(targets, d) {
        Some(PassRule::StaleRead)
    } else if has_conflict(candidates(passes, index, d)) {
        Some(PassRule::Conflict)
    } else {
        None
    }
}

/// The error reports the broken rule, naming what the rule names.
pub open spec fn reports_rule(
    error: RenderError,
    rule: PassRule,
    passes: Seq<PassSpec>,
    targets: Map<Key, crate::lifetime::RenderTargetInfo>,
    index: int,
    d: PassSpec,
) -> bool {
    match rule {
        PassRule::EmptyLabel => error is EmptyPassLabel,
        PassRule::Feedback => error matches RenderError::FeedbackLoop { pass } && pass@ == d.label,
        PassRule::MainDestination => error is MainPassDestination,
        PassRule::MainLabel => error is MainPassLabel,
        PassRule::Reserved => error matches RenderError::ReservedPassLabel { label } && label@ == d.label,
        PassRule::Duplicate => error matches RenderError::DuplicatePassLabel { label } && label@ == d.label,
        PassRule::StaleDestination => error matches RenderError::StaleDestination { pass } && pass@ == d.label,
        PassRule::StaleRead => error matches RenderError::StaleRead { pass } && pass@ == d.label,
        PassRule::Conflict => error matches RenderError::ScheduleConflict { writer, reader, target } && {
            let c = candidates(passes, index, d);
            exists|w: int, r: int, t: int|
                #![trigger first_conflict(c, w, r, t)]
                first_conflict(c, w, r, t) && writer@ == c[w].label && reader@ == c[r].label && target@
                    == target_name(targets, c[r].reads[t])
        },
    }
}

impl PassRegistry {
    /// The descriptor of candidate pass `j`.
    fn candidate<'a>(&'a self, j: usize, index: usize, d: &'a RenderPassDescriptor) -> (c: &'a RenderPassDescriptor)
        requires
            index <= self.passes().len(),
            j < candidates(self.passes(), index as int, d@).len(),
        ensures
            c@ == candidates(self.passes(), index as int, d@)[j as int],
    {
        if j == index {
            d
        } else {
            &self.records[j].descriptor
        }
    }

    /// A write-after-read conflict among the candidates, if any.
    fn find_conflict(&self, index: usize, d: &RenderPassDescriptor) -> (found: Option<(usize, usize, usize)>)
        requires
            index <= self.passes().len(),
            self.passes().len() < usize::MAX,
        ensures
            match found {
                Some((w, r, t)) => first_conflict(candidates(self.passes(), index as int, d@), w as int, r as int, t as int),
                None => !has_conflict(candidates(self.passes(), index as int, d@)),
            },
    {
        let ghost c = candidates(self.passes(), index as int, d@);
        let n: usize = if index == self.records.len() { self.records.len() + 1 } else { self.records.len() };
        assert(n == c.len());
        let mut r: usize = 0;
        while r < n
            invariant
                n == c.len(),
                index <= self.passes().len(),
                c == candidates(self.passes(), index as int, d@),
                r <= n,
                forall|w: int, rr: int, t: int| 0 <= rr < r ==> !#[trigger] conflict(c, w, rr, t),
            decreases n - r,
        {
            let reader = self.candidate(r, index, d);
            let mut t: usize = 0;
            while t < reader.reads.len()
                invariant
                    n == c.len(),
                    index <= self.passes().len(),
                    c == candidates(self.passes(), index as int, d@),
                    r < n,
                    reader@ == c[r as int],
                    t <= reader@.reads.len(),
                    forall|w: int, rr: int, tt: int| 0 <= rr < r ==> !#[trigger] conflict(c, w, rr, tt),
                    forall|w: int, tt: int| 0 <= tt < t ==> !#[trigger] conflict(c, w, r as int, tt),
                decreases reader@.reads.len() - t,
            {
                let read = reader.reads[t];
                let mut w: usize = 0;
                while w < n
                    invariant
                        n == c.len(),
                        index <= self.passes().len(),
                        c == candidates(self.passes(), index as int, d@),
                        r < n,
                        reader@ == c[r as int],
                        t < reader@.reads.len(),
                        read == reader@.reads[t as int],
                        w <= n,
                        forall|ww: int, rr: int, tt: int| 0 <= rr < r ==> !#[trigger] conflict(c, ww, rr, tt),
                        forall|ww: int, tt: int| 0 <= tt < t ==> !#[trigger] conflict(c, ww, r as int, tt),
                        forall|ww: int| 0 <= ww < w ==> !#[trigger] conflict(c, ww, r as int, t as int),
                    decreases n - w,
                {
                    if w != r {
                        let writer = self.candidate(w, index, d);
                        if writer.destination == RenderDestination::Target(read)
                            && (writer.order > reader.order || (writer.order == reader.order && w > r))
                        {
                            return Some((w, r, t));
                        }
                    }
                    w = w + 1;
                }
                t = t + 1;
            }
            r = r + 1;
        }
        None
    }

    /// Whether a pass other than `except` carries `label`.
    fn label_in_use(&self, label: &String, except: usize) -> (taken: bool)
        ensures
            taken == label_taken(self.passes(), label@, except as int),
    {
        let mut j: usize = 0;
        while j < self.records.len()
            invariant
                j <= self.records@.len(),
                forall|k: int| 0 <= k < j && k != except ==> #[trigger] self.passes()[k].label != label@,
            decreases self.records@.len() - j,
        {
            if j != except && self.records[j].descriptor.label == *label {
                assert(self.passes()[j as int].label == label@);
                return true;
            }
            j = j + 1;
        }
        false
    }

    /// The first broken rule for `d` at `index`, reported as an error.
    #[verifier::loop_isolation(false)]
    fn check(&self, index: usize, d: &RenderPassDescriptor, lifetime: &LifetimeTracker) -> (result: Result<(), RenderError>)
        requires
            self.wf(),
            lifetime.wf(),
            index <= self.passes().len(),
            self.passes().len() < usize::MAX,
        ensures
            match broken_rule(self.passes(), lifetime.targets(), index as int, d@) {
                None => result is Ok,
                Some(rule) => result matches Err(e) && reports_rule(e, rule, self.passes(), lifetime.targets(), index as int, d@),
            },
    {
        if d.label.as_str().is_empty() {
            return Err(RenderError::EmptyPassLabel);
        }
        if let RenderDestination::Target(target) = d.destination {
            let mut i: usize = 0;
            while i < d.reads.len()
                invariant
                    i <= d.reads@.len(),
                    d.destination == RenderDestination::Target(target),
                    forall|k: int| 0 <= k < i ==> d.reads@[k] != target,
                decreases d.reads@.len() - i,
            {
                if d.reads[i] == target {
                    assert(d@.reads[i as int] == target);
                    assert(d@.reads.contains(target));
                    return Err(RenderError::FeedbackLoop { pass: d.label.clone() });
                }
                i = i + 1;
            }
        }
        if index == 0 {
            if d.destination != RenderDestination::Surface {
                return Err(RenderError::MainPassDestination);
            }
            if !(d.label == self.records[0].descriptor.label) {
                return Err(RenderError::MainPassLabel);
            }
        } else {
            if has_reserved_prefix(&d.label) {
                return Err(RenderError::ReservedPassLabel { label: d.label.clone() });
            }
            if self.label_in_use(&d.label, index) {
                return Err(RenderError::DuplicatePassLabel { label: d.label.clone() });
            }
        }
        if let RenderDestination::Target(target) = d.destination {
            if lifetime.render_target_info(target).is_none() {
                return Err(RenderError::StaleDestination { pass: d.label.clone() });
            }
        }
        let mut i: usize = 0;
        while i < d.reads.len()
            invariant
                i <= d.reads@.len(),
                lifetime.wf(),
                forall|k: int| 0 <= k < i ==> lifetime.targets().contains_key(#[trigger] d.reads@[k].spec_key()),
            decreases d.reads@.len() - i,
        {
            if lifetime.render_target_info(d.reads[i]).is_none() {
                assert(!lifetime.targets().contains_key(d@.reads[i as int].spec_key()));
                assert(!resources_live(lifetime.targets(), d@));
                return Err(RenderError::StaleRead { pass: d.label.clone() });
            }
            i = i + 1;
        }
        match self.find_conflict(index, d) {
            None => Ok(()),
            Some((w, r, t)) => {
                let writer = self.candidate(w, index, d);
                let reader = self.candidate(r, index, d);
                let read = reader.reads[t];
                let target = match lifetime.render_target_info(read) {
                    Some(info) => info.label.clone(),
                    None => {
                        let name = String::from_str("render target");
                        name
                    },
                };
                Err(RenderError::ScheduleConflict { writer: writer.label.clone(), reader: reader.label.clone(), target })
            },
        }
    }
}


impl PassRegistry {
    /// Declares a pass. The declaration is validated before entering the
    /// registry (see [`broken_rule`]); a refusal names the rule and leaves
    /// the registry intact. Passes are permanent.
    pub fn add_pass(&mut self, descriptor: &RenderPassDescriptor, lifetime: &LifetimeTracker) -> (result: Result<PassHandle, RenderError>)
        requires
            old(self).wf(),
            lifetime.wf(),
        ensures
            final(self).wf(),
            match broken_rule(old(self).passes(), lifetime.targets(), old(self).passes().len() as int, descriptor@) {
                Some(rule) => result matches Err(e) && reports_rule(
                    e,
                    rule,
                    old(self).passes(),
                    lifetime.targets(),
                    old(self).passes().len() as int,
                    descriptor@,
                ),
                None => if old(self).passes().len() + 1 < u32::MAX {
                    &&& result == Ok::<PassHandle, RenderError>(PassHandle(old(self).passes().len() as u32))
                    &&& final(self).passes() == old(self).passes().push(descriptor@)
                    &&& final(self).queues() == old(self).queues().push(Seq::empty())
                } else {
                    result matches Err(RenderError::PoolFull(ResourceKind::Pass))
                },
            },
            result is Err ==> final(self).passes() == old(self).passes() && final(self).queues() == old(self).queues(),
            result is Ok ==> !has_conflict(final(self).passes()),
    {
        let index = self.records.len();
        self.check(index, descriptor, lifetime)?;
        if index + 1 >= 0xFFFF_FFFF {
            return Err(RenderError::PoolFull(ResourceKind::Pass));
        }
        let ghost before = *self;
        self.records.push(PassRecord { descriptor: descriptor.duplicate(), queue: Vec::new() });
        proof {
            assert(self.passes() =~= before.passes().push(descriptor@));
            assert(self.queues() =~= before.queues().push(Seq::empty()));
        }
        Ok(PassHandle(index as u32))
    }

    /// Replaces the descriptor of a declared pass, keeping its queue. The
    /// same rules as a declaration, revalidated over the whole registry;
    /// the main pass keeps its label and its surface destination. A refusal
    /// leaves everything intact.
    pub fn update_pass(&mut self, pass: PassHandle, descriptor: &RenderPassDescriptor, lifetime: &LifetimeTracker) -> (result: Result<(), RenderError>)
        requires
            old(self).wf(),
            lifetime.wf(),
        ensures
            final(self).wf(),
            pass.0 >= old(self).passes().len() ==> (result matches Err(RenderError::Stale(ResourceKind::Pass))),
            pass.0 < old(self).passes().len() ==> match broken_rule(old(self).passes(), lifetime.targets(), pass.0 as int, descriptor@) {
                Some(rule) => result matches Err(e) && reports_rule(
                    e,
                    rule,
                    old(self).passes(),
                    lifetime.targets(),
                    pass.0 as int,
                    descriptor@,
                ),
                None => {
                    &&& result is Ok
                    &&& final(self).passes() == old(self).passes().update(pass.0 as int, descriptor@)
                    &&& final(self).queues() == old(self).queues()
                },
            },
            result is Err ==> final(self).passes() == old(self).passes() && final(self).queues() == old(self).queues(),
            result is Ok ==> !has_conflict(final(self).passes()),
    {
        let index = pass.0 as usize;
        if index >= self.records.len() {
            return Err(RenderError::Stale(ResourceKind::Pass));
        }
        self.check(index, descriptor, lifetime)?;
        let ghost before = *self;
        let mut replaced = descriptor.duplicate();
        std::mem::swap(&mut replaced, &mut self.records[index].descriptor);
        proof {
            assert(self.passes() =~= before.passes().update(index as int, descriptor@));
            assert(self.queues() =~= before.queues());
        }
        Ok(())
    }

    /// Enables or disables a pass (a disabled pass is skipped each frame;
    /// its draws are accepted then cleared).
    pub fn set_pass_enabled(&mut self, pass: PassHandle, enabled: bool) -> (result: Result<(), RenderError>)
        requires
            old(self).wf(),
        ensures
            final(self).wf(),
            final(self).queues() == old(self).queues(),
            pass.0 < old(self).passes().len() ==> result is Ok && final(self).passes() == old(self).passes().update(
                pass.0 as int,
                PassSpec { enabled, ..old(self).passes()[pass.0 as int] },
            ),
            pass.0 >= old(self).passes().len() ==> (result matches Err(RenderError::Stale(ResourceKind::Pass)))
                && final(self).passes() == old(self).passes(),
    {
        let index = pass.0 as usize;
        if index >= self.records.len() {
            return Err(RenderError::Stale(ResourceKind::Pass));
        }
        let ghost before = *self;
        self.records[index].descriptor.enabled = enabled;
        proof {
            assert(self.passes() =~= before.passes().update(index as int, PassSpec { enabled, ..before.passes()[index as int] }));
            assert(self.queues() =~= before.queues());
            lemma_same_shape(before.passes(), self.passes());
        }
        Ok(())
    }

    /// Replaces the camera (view-projection) of a pass.
    pub fn set_pass_camera(&mut self, pass: PassHandle, view_projection: Mat4) -> (result: Result<(), RenderError>)
        requires
            old(self).wf(),
        ensures
            final(self).wf(),
            final(self).queues() == old(self).queues(),
            pass.0 < old(self).passes().len() ==> result is Ok && final(self).passes() == old(self).passes().update(
                pass.0 as int,
                PassSpec { view_projection, ..old(self).passes()[pass.0 as int] },
            ),
            pass.0 >= old(self).passes().len() ==> (result matches Err(RenderError::Stale(ResourceKind::Pass)))
                && final(self).passes() == old(self).passes(),
    {
        let index = pass.0 as usize;
        if index >= self.records.len() {
            return Err(RenderError::Stale(ResourceKind::Pass));
        }
        let ghost before = *self;
        self.records[index].descriptor.view_projection = view_projection;
        proof {
            assert(self.passes() =~= before.passes().update(index as int, PassSpec { view_projection, ..before.passes()[index as int] }));
            assert(self.queues() =~= before.queues());
            lemma_same_shape(before.passes(), self.passes());
        }
        Ok(())
    }

    /// Replaces the world camera position of a pass.
    pub fn set_pass_camera_position(&mut self, pass: PassHandle, camera_position: Vec3) -> (result: Result<(), RenderError>)
        requires
            old(self).wf(),
        ensures
            final(self).wf(),
            final(self).queues() == old(self).queues(),
            pass.0 < old(self).passes().len() ==> result is Ok && final(self).passes() == old(self).passes().update(
                pass.0 as int,
                PassSpec { camera_position, ..old(self).passes()[pass.0 as int] },
            ),
            pass.0 >= old(self).passes().len() ==> (result matches Err(RenderError::Stale(ResourceKind::Pass)))
                && final(self).passes() == old(self).passes(),
    {
        let index = pass.0 as usize;
        if index >= self.records.len() {
            return Err(RenderError::Stale(ResourceKind::Pass));
        }
        let ghost before = *self;
        self.records[index].descriptor.camera_position = camera_position;
        proof {
            assert(self.passes() =~= before.passes().update(index as int, PassSpec { camera_position, ..before.passes()[index as int] }));
            assert(self.queues() =~= before.queues());
            lemma_same_shape(before.passes(), self.passes());
        }
        Ok(())
    }

    /// Replaces the load of the main pass.
    pub fn set_main_load(&mut self, load: PassLoad)
        requires
            old(self).wf(),
        ensures
            final(self).wf(),
            final(self).queues() == old(self).queues(),
            final(self).passes() == old(self).passes().update(0, PassSpec { load, ..old(self).passes()[0] }),
    {
        let ghost before = *self;
        self.records[0].descriptor.load = load;
        proof {
            assert(self.passes() =~= before.passes().update(0, PassSpec { load, ..before.passes()[0] }));
            assert(self.queues() =~= before.queues());
            lemma_same_shape(before.passes(), self.passes());
        }
    }

    /// Submits a draw to a declared pass; a disabled pass accepts it too.
    pub fn queue_draw_to(&mut self, pass: PassHandle, command: DrawCommand) -> (result: Result<(), RenderError>)
        requires
            old(self).wf(),
        ensures
            final(self).wf(),
            final(self).passes() == old(self).passes(),
            pass.0 < old(self).passes().len() ==> result is Ok && final(self).queues() == old(self).queues().update(
                pass.0 as int,
                old(self).queues()[pass.0 as int].push(command),
            ),
            pass.0 >= old(self).passes().len() ==> (result matches Err(RenderError::Stale(ResourceKind::Pass)))
                && final(self).queues() == old(self).queues(),
    {
        let index = pass.0 as usize;
        if index >= self.records.len() {
            return Err(RenderError::Stale(ResourceKind::Pass));
        }
        let ghost before = *self;
        self.records[index].queue.push(command);
        proof {
            assert(self.passes() =~= before.passes());
            assert(self.queues() =~= before.queues().update(index as int, before.queues()[index as int].push(command)));
        }
        Ok(())
    }

    /// Empties the queue of every pass.
    pub fn clear_queues(&mut self)
        requires
            old(self).wf(),
        ensures
            final(self).wf(),
            final(self).passes() == old(self).passes(),
            final(self).queues().len() == old(self).queues().len(),
            forall|i: int| 0 <= i < final(self).queues().len() ==> #[trigger] final(self).queues()[i] == Seq::<DrawCommand>::empty(),
    {
        let ghost start = *self;
        let mut i: usize = 0;
        while i < self.records.len()
            invariant
                self.wf(),
                i <= self.records@.len(),
                self.passes() == start.passes(),
                self.records@.len() == start.records@.len(),
                forall|k: int| 0 <= k < i ==> #[trigger] self.queues()[k] == Seq::<DrawCommand>::empty(),
            decreases self.records@.len() - i,
        {
            let ghost before = *self;
            self.records[i].queue.clear();
            proof {
                assert(self.passes() =~= before.passes());
                assert forall|k: int| 0 <= k < i + 1 implies #[trigger] self.queues()[k] == Seq::<DrawCommand>::empty() by {
                    if k < i {
                        assert(self.records@[k] == before.records@[k]);
                        assert(before.queues()[k] == Seq::<DrawCommand>::empty());
                    } else {
                        assert(self.records@[k].queue@ =~= Seq::<DrawCommand>::empty());
                    }
                }
            }
            i = i + 1;
        }
    }

    /// The execution order of the passes: by `order`, ties in registration
    /// order.
    pub fn schedule(&self) -> (schedule: Vec<usize>)
        ensures
            is_schedule(self.passes(), schedule@),
    {
        let mut keys: Vec<u64> = Vec::new();
        let mut i: usize = 0;
        while i < self.records.len()
            invariant
                i <= self.records@.len(),
                keys@.len() == i,
                forall|k: int| 0 <= k < i ==> #[trigger] keys@[k] == order_key(self.passes()[k].order),
            decreases self.records@.len() - i,
        {
            keys.push(order_key_of(self.records[i].descriptor.order));
            i = i + 1;
        }
        let schedule = stable_order(&keys);
        proof {
            assert forall|a: int, b: int|
                #![trigger schedule@[a], schedule@[b]]
                0 <= a < b < schedule@.len() implies !runs_after(self.passes(), schedule@[a] as int, schedule@[b] as int) by {
                let x = schedule@[a] as int;
                let y = schedule@[b] as int;
                assert(keys@[x] == order_key(self.passes()[x].order));
                assert(keys@[y] == order_key(self.passes()[y].order));
            }
        }
        schedule
    }
}

/// The unsigned key of an order: monotone in the order.
pub open spec fn order_key(order: i32) -> u64 {
    (order as int + 0x8000_0000) as u64
}

fn order_key_of(order: i32) -> (key: u64)
    ensures
        key == order_key(order),
{
    (order as i64 + 0x8000_0000) as u64
}

} // verus!
