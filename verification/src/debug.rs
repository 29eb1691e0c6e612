//! Debug rendering: the store of debug primitives (those of the current
//! simulation frame, and the retained ones that expire with time), the
//! enable toggles, and the selection of what a pass draws.

use vstd::prelude::*;
use crate::floats::{finite, finite_non_negative, is_finite, is_finite_non_negative, is_positive, positive};
use crate::handles::PassHandle;

verus! {

/// How a debug primitive meets the scene depth.
#[derive(Clone, Copy, Debug, PartialEq, Eq, Structural)]
pub enum DebugDepth {
    /// Depth-tested against the scene.
    Scene,
    /// Drawn over everything.
    Overlay,
}

/// A vertex of a debug line: position and RGBA color (bit patterns).
#[derive(Clone, Copy, Debug)]
pub struct DebugVertex {
    pub position: [u32; 3],
    pub color: [u32; 4],
}

/// A debug primitive, already tessellated into a line list.
#[derive(Debug)]
pub struct DebugDraw {
    /// The line-list vertices (two per segment).
    pub vertices: Vec<DebugVertex>,
    pub depth: DebugDepth,
    /// Seconds to keep the primitive (bit pattern); zero: this frame only.
    pub duration: u32,
    pub category: String,
    /// The pass that draws it; `None`: the main pass.
    pub pass: Option<PassHandle>,
}

/// A retained primitive and its remaining lifetime (bit pattern).
#[derive(Debug)]
pub struct RetainedDebugDraw {
    pub draw: DebugDraw,
    pub remaining: u32,
}

/// The counts of the debug store.
#[derive(Clone, Copy, Debug, PartialEq, Eq, Structural)]
pub struct DebugStats {
    pub frame: usize,
    pub retained: usize,
}

/// A vertex whose position and color are finite.
pub open spec fn vertex_finite(v: DebugVertex) -> bool {
    &&& is_finite(v.position[0]) && is_finite(v.position[1]) && is_finite(v.position[2])
    &&& is_finite(v.color[0]) && is_finite(v.color[1]) && is_finite(v.color[2]) && is_finite(v.color[3])
}

/// A drawable line list: at least one segment, whole segments, finite
/// vertices, and some extent (not every vertex at the same position: a
/// zero-sized shape draws nothing).
pub open spec fn shape_ok(vertices: Seq<DebugVertex>) -> bool {
    &&& vertices.len() > 0
    &&& vertices.len() % 2 == 0
    &&& forall|i: int| 0 <= i < vertices.len() ==> vertex_finite(#[trigger] vertices[i])
    &&& exists|i: int| 0 <= i < vertices.len() && #[trigger] vertices[i].position != vertices[0].position
}

/// Whether a line list is drawable (see [`shape_ok`]).
pub fn shape_valid(vertices: &Vec<DebugVertex>) -> (ok: bool)
    ensures
        ok == shape_ok(vertices@),
{
    let n = vertices.len();
    if n == 0 || n % 2 != 0 {
        return false;
    }
    let first = vertices[0].position;
    let mut extent = false;
    let mut i: usize = 0;
    while i < n
        invariant
            n == vertices@.len(),
            n > 0,
            i <= n,
            first == vertices@[0].position,
            forall|j: int| 0 <= j < i ==> vertex_finite(#[trigger] vertices@[j]),
            extent == exists|j: int| 0 <= j < i && #[trigger] vertices@[j].position != first,
        decreases n - i,
    {
        let v = vertices[i];
        if !(finite(v.position[0]) && finite(v.position[1]) && finite(v.position[2]) && finite(v.color[0])
            && finite(v.color[1]) && finite(v.color[2]) && finite(v.color[3])) {
            return false;
        }
        if v.position[0] != first[0] || v.position[1] != first[1] || v.position[2] != first[2] {
            extent = true;
            assert(vertices@[i as int].position != first);
        } else {
            assert(vertices@[i as int].position =~= first);
        }
        i = i + 1;
    }
    extent
}

/// The value of a debug primitive.
pub struct DebugDrawView {
    pub vertices: Seq<DebugVertex>,
    pub depth: DebugDepth,
    pub duration: u32,
    pub category: Seq<char>,
    pub pass: Option<PassHandle>,
}

impl View for DebugDraw {
    type V = DebugDrawView;

    open spec fn view(&self) -> DebugDrawView {
        DebugDrawView {
            vertices: self.vertices@,
            depth: self.depth,
            duration: self.duration,
            category: self.category@,
            pass: self.pass,
        }
    }
}

/// The debug store: the frame primitives (cleared with the draws), the
/// retained ones (expiring with time), and the toggles, which filter at
/// render time only.
pub struct DebugStore {
    enabled: bool,
    disabled: Vec<String>,
    frame: Vec<DebugDraw>,
    retained: Vec<RetainedDebugDraw>,
}

/// The views of the primitives of a list.
pub open spec fn draw_views(draws: Seq<DebugDraw>) -> Seq<DebugDrawView> {
    Seq::new(draws.len(), |i: int| draws[i]@)
}

/// The views of retained primitives with their remaining lifetime.
pub open spec fn retained_views(retained: Seq<RetainedDebugDraw>) -> Seq<(DebugDrawView, u32)> {
    Seq::new(retained.len(), |i: int| (retained[i].draw@, retained[i].remaining))
}

/// The entries of `retained` whose new remaining lifetime is positive,
/// carrying it, in order.
pub open spec fn survivors(retained: Seq<(DebugDrawView, u32)>, remaining: Seq<u32>) -> Seq<(DebugDrawView, u32)>
    decreases retained.len(),
{
    if retained.len() == 0 || remaining.len() != retained.len() {
        Seq::empty()
    } else {
        let rest = survivors(retained.drop_last(), remaining.drop_last());
        if is_positive(remaining.last()) {
            rest.push((retained.last().0, remaining.last()))
        } else {
            rest
        }
    }
}

/// The pass a primitive is drawn by.
pub open spec fn target_pass(d: DebugDrawView, main: int) -> int {
    match d.pass {
        Some(p) => p.0 as int,
        None => main,
    }
}

/// The primitive is drawn by pass `pass` at depth mode `depth`: its
/// category is on and it aims at the pass (`None` aims at the main pass,
/// index 0).
pub open spec fn shown(d: DebugDrawView, disabled: Set<Seq<char>>, pass: int, depth: DebugDepth) -> bool {
    !disabled.contains(d.category) && target_pass(d, 0) == pass && d.depth == depth
}

/// The primitives of `draws` a pass draws at a depth mode, in order.
pub open spec fn selected(
    draws: Seq<DebugDrawView>,
    disabled: Set<Seq<char>>,
    pass: int,
    depth: DebugDepth,
) -> Seq<DebugDrawView>
    decreases draws.len(),
{
    if draws.len() == 0 {
        Seq::empty()
    } else {
        let rest = selected(draws.drop_last(), disabled, pass, depth);
        if shown(draws.last(), disabled, pass, depth) {
            rest.push(draws.last())
        } else {
            rest
        }
    }
}

/// The vertices of a list of primitives, concatenated.
pub open spec fn all_vertices(draws: Seq<DebugDrawView>) -> Seq<DebugVertex>
    decreases draws.len(),
{
    if draws.len() == 0 {
        Seq::empty()
    } else {
        all_vertices(draws.drop_last()) + draws.last().vertices
    }
}

impl DebugStore {
    pub closed spec fn wf(&self) -> bool {
        forall|a: int, b: int| 0 <= a < b < self.disabled@.len() ==> self.disabled@[a]@ != self.disabled@[b]@
    }

    /// Debug rendering is on.
    pub closed spec fn is_enabled(&self) -> bool {
        self.enabled
    }

    /// The disabled categories.
    pub closed spec fn disabled_categories(&self) -> Set<Seq<char>> {
        Set::new(|c: Seq<char>| exists|i: int| 0 <= i < self.disabled@.len() && #[trigger] self.disabled@[i]@ == c)
    }

    /// The primitives of the current simulation frame, in submission order.
    pub closed spec fn frame_draws(&self) -> Seq<DebugDrawView> {
        draw_views(self.frame@)
    }

    /// The retained primitives and their remaining lifetime, in submission
    /// order.
    pub closed spec fn retained_draws(&self) -> Seq<(DebugDrawView, u32)> {
        retained_views(self.retained@)
    }

    /// Every primitive a pass may draw: the frame ones, then the retained.
    pub open spec fn all_draws(&self) -> Seq<DebugDrawView> {
        self.frame_draws() + Seq::new(self.retained_draws().len(), |i: int| self.retained_draws()[i].0)
    }

    /// An enabled, empty store with every category on.
    pub fn new() -> (store: Self)
        ensures
            store.wf(),
            store.is_enabled(),
            store.disabled_categories() == Set::<Seq<char>>::empty(),
            store.frame_draws() == Seq::<DebugDrawView>::empty(),
            store.retained_draws() == Seq::<(DebugDrawView, u32)>::empty(),
    {
        let store = DebugStore { enabled: true, disabled: Vec::new(), frame: Vec::new(), retained: Vec::new() };
        assert(store.disabled_categories() =~= Set::<Seq<char>>::empty());
        assert(store.frame_draws() =~= Seq::<DebugDrawView>::empty());
        assert(store.retained_draws() =~= Seq::<(DebugDrawView, u32)>::empty());
        store
    }

    /// Stores a primitive: a positive duration retains it, any other
    /// duration keeps it for the current frame only.
    pub fn push(&mut self, draw: DebugDraw)
        requires
            old(self).wf(),
        ensures
            final(self).wf(),
            final(self).is_enabled() == old(self).is_enabled(),
            final(self).disabled_categories() == old(self).disabled_categories(),
            if is_positive(draw.duration) {
                &&& final(self).retained_draws() == old(self).retained_draws().push((draw@, draw.duration))
                &&& final(self).frame_draws() == old(self).frame_draws()
            } else {
                &&& final(self).frame_draws() == old(self).frame_draws().push(draw@)
                &&& final(self).retained_draws() == old(self).retained_draws()
            },
    {
        let ghost view = draw@;
        if positive(draw.duration) {
            let remaining = draw.duration;
            self.retained.push(RetainedDebugDraw { draw, remaining });
            assert(self.retained_draws() =~= old(self).retained_draws().push((view, remaining)));
        } else {
            self.frame.push(draw);
            assert(self.frame_draws() =~= old(self).frame_draws().push(view));
        }
    }

    /// Drops the frame primitives; the retained ones stay.
    pub fn clear_frame(&mut self)
        requires
            old(self).wf(),
        ensures
            final(self).wf(),
            final(self).is_enabled() == old(self).is_enabled(),
            final(self).disabled_categories() == old(self).disabled_categories(),
            final(self).frame_draws() == Seq::<DebugDrawView>::empty(),
            final(self).retained_draws() == old(self).retained_draws(),
    {
        self.frame.clear();
        assert(self.frame_draws() =~= Seq::<DebugDrawView>::empty());
    }

    /// The remaining lifetimes of the retained primitives, in order.
    pub fn remaining(&self) -> (remaining: Vec<u32>)
        ensures
            remaining@.len() == self.retained_draws().len(),
            forall|i: int| 0 <= i < remaining@.len() ==> remaining@[i] == #[trigger] self.retained_draws()[i].1,
    {
        let mut remaining: Vec<u32> = Vec::new();
        let mut i: usize = 0;
        while i < self.retained.len()
            invariant
                i <= self.retained@.len(),
                remaining@.len() == i,
                forall|k: int| 0 <= k < i ==> remaining@[k] == self.retained@[k].remaining,
            decreases self.retained@.len() - i,
        {
            remaining.push(self.retained[i].remaining);
            i = i + 1;
        }
        remaining
    }

    /// Advances the debug time by `delta` seconds: each retained primitive
    /// takes its new remaining lifetime from `remaining` (its old one less
    /// `delta`) and those left without a positive lifetime expire. A delta
    /// that is not finite and non-negative changes nothing.
    pub fn advance(&mut self, delta: u32, remaining: Vec<u32>)
        requires
            old(self).wf(),
            remaining@.len() == old(self).retained_draws().len(),
        ensures
            final(self).wf(),
            final(self).is_enabled() == old(self).is_enabled(),
            final(self).disabled_categories() == old(self).disabled_categories(),
            final(self).frame_draws() == old(self).frame_draws(),
            final(self).retained_draws() == if is_finite_non_negative(delta) {
                survivors(old(self).retained_draws(), remaining@)
            } else {
                old(self).retained_draws()
            },
    {
        if !finite_non_negative(delta) {
            return;
        }
        let mut old_retained: Vec<RetainedDebugDraw> = Vec::new();
        std::mem::swap(&mut old_retained, &mut self.retained);
        let ghost before = retained_views(old_retained@);
        let mut kept: Vec<RetainedDebugDraw> = Vec::new();
        let mut taken: Vec<RetainedDebugDraw> = Vec::new();
        let mut i: usize = 0;
        let total = old_retained.len();
        // Walk the old list from its end so each entry can be moved out.
        let mut rest = old_retained;
        while rest.len() > 0
            invariant
                rest@.len() + taken@.len() == total,
                total == before.len(),
                remaining@.len() == total,
                retained_views(rest@) == before.subrange(0, rest@.len() as int),
                forall|k: int| 0 <= k < taken@.len() ==> (#[trigger] taken@[k]).draw@ == before[total - 1 - k].0,
            decreases rest@.len(),
        {
            proof {
                assert(retained_views(rest@)[rest@.len() - 1] == before[rest@.len() - 1]);
            }
            let entry = rest.pop().unwrap();
            taken.push(entry);
            proof {
                assert(retained_views(rest@) =~= before.subrange(0, rest@.len() as int));
            }
        }
        while i < total
            invariant
                i <= total,
                total == before.len(),
                remaining@.len() == total,
                taken@.len() + i == total,
                forall|k: int| 0 <= k < taken@.len() ==> (#[trigger] taken@[k]).draw@ == before[total - 1 - k].0,
                retained_views(kept@) == survivors(before.subrange(0, i as int), remaining@.subrange(0, i as int)),
            decreases total - i,
        {
            let entry = taken.pop().unwrap();
            let left = remaining[i];
            proof {
                let b = before.subrange(0, i + 1);
                let r = remaining@.subrange(0, i + 1);
                assert(b.drop_last() =~= before.subrange(0, i as int));
                assert(r.drop_last() =~= remaining@.subrange(0, i as int));
                assert(entry.draw@ == before[i as int].0);
            }
            if positive(left) {
                let ghost view = entry.draw@;
                let ghost before_kept = kept@;
                kept.push(RetainedDebugDraw { draw: entry.draw, remaining: left });
                proof {
                    assert(retained_views(kept@) =~= retained_views(before_kept).push((view, left)));
                }
            }
            i = i + 1;
        }
        proof {
            assert(before.subrange(0, total as int) =~= before);
            assert(remaining@.subrange(0, total as int) =~= remaining@);
        }
        self.retained = kept;
    }

    /// Turns all debug rendering on or off.
    pub fn set_enabled(&mut self, enabled: bool)
        ensures
            final(self).is_enabled() == enabled,
            final(self).disabled_categories() == old(self).disabled_categories(),
            final(self).frame_draws() == old(self).frame_draws(),
            final(self).retained_draws() == old(self).retained_draws(),
            final(self).wf() == old(self).wf(),
    {
        self.enabled = enabled;
    }

    /// Whether debug rendering is on.
    pub fn enabled(&self) -> (enabled: bool)
        ensures
            enabled == self.is_enabled(),
    {
        self.enabled
    }

    fn category_position(&self, category: &String) -> (position: Option<usize>)
        ensures
            match position {
                Some(i) => i < self.disabled@.len() && self.disabled@[i as int]@ == category@,
                None => !self.disabled_categories().contains(category@),
            },
    {
        let mut i: usize = 0;
        while i < self.disabled.len()
            invariant
                i <= self.disabled@.len(),
                forall|k: int| 0 <= k < i ==> self.disabled@[k]@ != category@,
            decreases self.disabled@.len() - i,
        {
            if self.disabled[i] == *category {
                return Some(i);
            }
            i = i + 1;
        }
        None
    }

    /// Turns one category on or off; the others keep their state.
    pub fn set_category_enabled(&mut self, category: &String, enabled: bool)
        requires
            old(self).wf(),
        ensures
            final(self).wf(),
            final(self).disabled_categories() == if enabled {
                old(self).disabled_categories().remove(category@)
            } else {
                old(self).disabled_categories().insert(category@)
            },
            final(self).is_enabled() == old(self).is_enabled(),
            final(self).frame_draws() == old(self).frame_draws(),
            final(self).retained_draws() == old(self).retained_draws(),
    {
        let found = self.category_position(category);
        match found {
            Some(i) => {
                if enabled {
                    let ghost before = self.disabled@;
                    self.disabled.remove(i);
                    proof {
                        assert forall|c: Seq<char>| #[trigger] self.disabled_categories().contains(c) == old(
                            self,
                        ).disabled_categories().remove(category@).contains(c) by {
                            if self.disabled_categories().contains(c) {
                                let k = choose|k: int| 0 <= k < self.disabled@.len() && #[trigger] self.disabled@[k]@ == c;
                                if k < i {
                                    assert(before[k]@ == c);
                                    assert(before[k]@ != before[i as int]@);
                                } else {
                                    assert(before[k + 1]@ == c);
                                    assert(before[i as int]@ != before[k + 1]@);
                                }
                            }
                            if old(self).disabled_categories().remove(category@).contains(c) {
                                let k = choose|k: int| 0 <= k < before.len() && #[trigger] before[k]@ == c;
                                if k < i {
                                    assert(self.disabled@[k]@ == c);
                                } else {
                                    assert(k != i);
                                    assert(self.disabled@[k - 1]@ == c);
                                }
                            }
                        }
                        assert(self.disabled_categories() =~= old(self).disabled_categories().remove(category@));
                    }
                } else {
                    proof {
                        assert(self.disabled_categories().contains(category@));
                        assert(self.disabled_categories() =~= old(self).disabled_categories().insert(category@));
                    }
                }
            },
            None => {
                if !enabled {
                    let ghost before = self.disabled@;
                    self.disabled.push(category.clone());
                    proof {
                        assert forall|c: Seq<char>| #[trigger] self.disabled_categories().contains(c) == old(
                            self,
                        ).disabled_categories().insert(category@).contains(c) by {
                            if self.disabled_categories().contains(c) {
                                let k = choose|k: int| 0 <= k < self.disabled@.len() && #[trigger] self.disabled@[k]@ == c;
                                if k < before.len() {
                                    assert(before[k]@ == c);
                                }
                            }
                            if old(self).disabled_categories().contains(c) {
                                let k = choose|k: int| 0 <= k < before.len() && #[trigger] before[k]@ == c;
                                assert(self.disabled@[k]@ == c);
                            }
                            if c == category@ {
                                assert(self.disabled@[before.len() as int]@ == c);
                            }
                        }
                        assert(self.disabled_categories() =~= old(self).disabled_categories().insert(category@));
                        assert forall|a: int, b: int| 0 <= a < b < self.disabled@.len() implies self.disabled@[a]@
                            != self.disabled@[b]@ by {
                            if b == before.len() {
                                assert(self.disabled@[a]@ == before[a]@);
                            }
                        }
                    }
                } else {
                    proof {
                        assert(self.disabled_categories() =~= old(self).disabled_categories().remove(category@));
                    }
                }
            },
        }
    }

    /// Whether a category is on.
    pub fn category_enabled(&self, category: &String) -> (enabled: bool)
        ensures
            enabled == !self.disabled_categories().contains(category@),
    {
        self.category_position(category).is_none()
    }

    /// The counts of frame and retained primitives.
    pub fn stats(&self) -> (stats: DebugStats)
        ensures
            stats.frame == self.frame_draws().len(),
            stats.retained == self.retained_draws().len(),
    {
        DebugStats { frame: self.frame.len(), retained: self.retained.len() }
    }
    fn append_selected(
        &self,
        draw: &DebugDraw,
        pass: u32,
        depth: DebugDepth,
        vertices: &mut Vec<DebugVertex>,
        count: &mut usize,
    )
        requires
            self.wf(),
        ensures
            shown(draw@, self.disabled_categories(), pass as int, depth) ==> {
                &&& final(vertices)@ == old(vertices)@ + draw.vertices@
                &&& *final(count) == if *old(count) == usize::MAX { usize::MAX } else { (*old(count) + 1) as usize }
            },
            !shown(draw@, self.disabled_categories(), pass as int, depth) ==> final(vertices)@ == old(vertices)@
                && *final(count) == *old(count),
    {
        if !self.category_enabled(&draw.category) {
            return;
        }
        let target: u32 = match draw.pass {
            Some(p) => p.0,
            None => 0,
        };
        if target != pass || draw.depth != depth {
            return;
        }
        let mut i: usize = 0;
        let ghost start = vertices@;
        while i < draw.vertices.len()
            invariant
                i <= draw.vertices@.len(),
                vertices@ == start + draw.vertices@.subrange(0, i as int),
            decreases draw.vertices@.len() - i,
        {
            vertices.push(draw.vertices[i]);
            i = i + 1;
            assert(vertices@ =~= start + draw.vertices@.subrange(0, i as int));
        }
        assert(draw.vertices@.subrange(0, i as int) =~= draw.vertices@);
        *count = count.saturating_add(1);
    }

    /// The line vertices a pass draws at a depth mode — every shown
    /// primitive, frame ones then retained ones, in order — and how many
    /// primitives they come from (saturating).
    pub fn pass_vertices(&self, pass: u32, depth: DebugDepth) -> (result: (Vec<DebugVertex>, usize))
        requires
            self.wf(),
        ensures
            result.0@ == all_vertices(selected(self.all_draws(), self.disabled_categories(), pass as int, depth)),
            result.1 == crate::frame::sat(
                selected(self.all_draws(), self.disabled_categories(), pass as int, depth).len() as int,
            ),
    {
        let mut vertices: Vec<DebugVertex> = Vec::new();
        let mut count: usize = 0;
        let ghost all = self.all_draws();
        let ghost disabled = self.disabled_categories();
        let mut i: usize = 0;
        while i < self.frame.len()
            invariant
                i <= self.frame@.len(),
                self.wf(),
                all == self.all_draws(),
                disabled == self.disabled_categories(),
                vertices@ == all_vertices(selected(all.subrange(0, i as int), disabled, pass as int, depth)),
                count == crate::frame::sat(selected(all.subrange(0, i as int), disabled, pass as int, depth).len() as int),
            decreases self.frame@.len() - i,
        {
            proof {
                assert(all.subrange(0, i + 1).drop_last() =~= all.subrange(0, i as int));
                assert(all[i as int] == self.frame@[i as int]@);
            }
            let ghost previous = selected(all.subrange(0, i as int), disabled, pass as int, depth);
            self.append_selected(&self.frame[i], pass, depth, &mut vertices, &mut count);
            proof {
                assert(previous.push(all[i as int]).drop_last() =~= previous);
            }
            i = i + 1;
        }
        let n = self.frame.len();
        let mut j: usize = 0;
        while j < self.retained.len()
            invariant
                j <= self.retained@.len(),
                n == self.frame@.len(),
                self.wf(),
                all == self.all_draws(),
                all.len() == n + self.retained@.len(),
                disabled == self.disabled_categories(),
                vertices@ == all_vertices(selected(all.subrange(0, n + j), disabled, pass as int, depth)),
                count == crate::frame::sat(selected(all.subrange(0, n + j), disabled, pass as int, depth).len() as int),
            decreases self.retained@.len() - j,
        {
            proof {
                assert(all.subrange(0, n + j + 1).drop_last() =~= all.subrange(0, n + j));
                assert(all[n + j] == self.retained@[j as int].draw@);
            }
            let ghost previous = selected(all.subrange(0, n + j), disabled, pass as int, depth);
            self.append_selected(&self.retained[j].draw, pass, depth, &mut vertices, &mut count);
            proof {
                assert(previous.push(all[n + j]).drop_last() =~= previous);
            }
            j = j + 1;
        }
        assert(all.subrange(0, n + j) =~= all);
        (vertices, count)
    }
}

/// Law: a category reads back as it was last set, and setting it leaves
/// every other category as it was.
pub proof fn lemma_category_read_back(
    before: DebugStore,
    after: DebugStore,
    category: Seq<char>,
    enabled: bool,
    other: Seq<char>,
)
    requires
        after.disabled_categories() == if enabled {
            before.disabled_categories().remove(category)
        } else {
            before.disabled_categories().insert(category)
        },
    ensures
        !after.disabled_categories().contains(category) == enabled,
        other != category ==> after.disabled_categories().contains(other) == before.disabled_categories().contains(
            other,
        ),
{
}

} // verus!
