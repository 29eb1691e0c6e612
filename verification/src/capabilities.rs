//! The capability report: what the GPU and the platform offer, what the
//! renderer decided of each optional domain and why, captured once at
//! initialization.

use vstd::prelude::*;
use vstd::string::*;
use crate::backend::DeviceLimits;

verus! {

/// What the renderer decided of a capability domain.
#[derive(Debug)]
pub enum CapabilityStatus {
    /// The domain is used.
    Active,
    /// The domain is not used, for the given reason.
    Disabled { reason: String },
}

/// The decision taken for one domain.
#[derive(Debug)]
pub struct CapabilityDecision {
    /// The domain, such as `timestamp queries`.
    pub domain: String,
    pub status: CapabilityStatus,
}

/// The capability report of a backend.
#[derive(Debug)]
pub struct RendererCapabilities {
    /// The graphics API or backend name.
    pub backend: String,
    /// The adapter the backend runs on.
    pub adapter: String,
    /// The limits the renderer enforces before any backend call.
    pub limits: DeviceLimits,
    /// One decision per optional domain.
    pub decisions: Vec<CapabilityDecision>,
}

/// The decisions whose domain is not active, in report order.
pub open spec fn degraded_of(decisions: Seq<CapabilityDecision>) -> Seq<int>
    decreases decisions.len(),
{
    if decisions.len() == 0 {
        Seq::empty()
    } else {
        let rest = degraded_of(decisions.drop_last());
        if decisions.last().status is Active {
            rest
        } else {
            rest.push(decisions.len() - 1)
        }
    }
}

impl RendererCapabilities {
    /// The decision about `domain` (the first, should the report repeat
    /// it); `None` when the report does not mention it.
    pub fn decision(&self, domain: &str) -> (found: Option<&CapabilityDecision>)
        ensures
            match found {
                Some(d) => exists|i: int|
                    0 <= i < self.decisions@.len() && self.decisions@[i] == *d && d.domain@ == domain@ && forall|j: int|
                        0 <= j < i ==> (#[trigger] self.decisions@[j]).domain@ != domain@,
                None => forall|i: int| 0 <= i < self.decisions@.len() ==> (#[trigger] self.decisions@[i]).domain@ != domain@,
            },
    {
        let wanted = String::from_str(domain);
        let mut i: usize = 0;
        while i < self.decisions.len()
            invariant
                i <= self.decisions@.len(),
                wanted@ == domain@,
                forall|j: int| 0 <= j < i ==> (#[trigger] self.decisions@[j]).domain@ != domain@,
            decreases self.decisions@.len() - i,
        {
            if self.decisions[i].domain == wanted {
                return Some(&self.decisions[i]);
            }
            i = i + 1;
        }
        None
    }

    /// The indices of the decisions that are not active, in report order.
    pub fn degraded(&self) -> (indices: Vec<usize>)
        ensures
            indices@.len() == degraded_of(self.decisions@).len(),
            forall|k: int| 0 <= k < indices@.len() ==> indices@[k] == degraded_of(self.decisions@)[k],
    {
        let mut indices: Vec<usize> = Vec::new();
        let mut i: usize = 0;
        while i < self.decisions.len()
            invariant
                i <= self.decisions@.len(),
                indices@.len() == degraded_of(self.decisions@.subrange(0, i as int)).len(),
                forall|k: int|
                    0 <= k < indices@.len() ==> indices@[k] == degraded_of(self.decisions@.subrange(0, i as int))[k],
            decreases self.decisions@.len() - i,
        {
            proof {
                assert(self.decisions@.subrange(0, i + 1).drop_last() =~= self.decisions@.subrange(0, i as int));
            }
            match self.decisions[i].status {
                CapabilityStatus::Active => {},
                CapabilityStatus::Disabled { .. } => {
                    indices.push(i);
                },
            }
            i = i + 1;
        }
        proof {
            assert(self.decisions@.subrange(0, i as int) =~= self.decisions@);
        }
        indices
    }
}

} // verus!
