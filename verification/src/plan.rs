//! The sizing decision: how a wanted count and an observed count become a plan.

use vstd::prelude::*;

verus! {

/// What has to happen to the fleet so that it reaches the wanted size.
#[derive(Clone, Copy, Debug, PartialEq, Eq, Structural)]
pub enum Plan {
    /// The fleet already has the wanted size.
    NoOp,
    /// This many instances are to be created.
    ScaleUp(usize),
    /// This many instances are to be deleted.
    ScaleDown(usize),
}

/// The plan for a wanted count and an observed count, over the integers: to
/// create what is missing, to delete what is in surplus, or to do nothing.
pub open spec fn plan_for(desired: int, observed: int) -> Plan {
    if desired > observed {
        Plan::ScaleUp((desired - observed) as usize)
    } else if desired < observed {
        Plan::ScaleDown((observed - desired) as usize)
    } else {
        Plan::NoOp
    }
}

/// Compares the wanted count with the number of managed instances.
pub fn reconcile(desired: u16, observed: usize) -> (plan: Plan)
    ensures
        plan == plan_for(desired as int, observed as int),
{
    let wanted: usize = desired as usize;
    if wanted > observed {
        Plan::ScaleUp(wanted - observed)
    } else if wanted < observed {
        Plan::ScaleDown(observed - wanted)
    } else {
        Plan::NoOp
    }
}

} // verus!
