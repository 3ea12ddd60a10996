//! Decommissioning: which instances of the managed fleet are deleted.

use crate::instance::{views_of, Instance, InstanceView};
use vstd::prelude::*;

verus! {

/// The victims among a managed fleet when `count` instances have to go: the
/// first `count` in listing order.
pub open spec fn victims_among(managed: Seq<InstanceView>, count: int) -> Seq<InstanceView> {
    managed.take(count)
}

/// Whether no two instances of a listing carry the same identifier.
pub open spec fn ids_distinct(instances: Seq<InstanceView>) -> bool {
    forall|i: int, j: int|
        0 <= i < j < instances.len() ==> (#[trigger] instances[i]).id != (#[trigger] instances[j]).id
}

/// Selects the instances to delete: the first `count` of the managed fleet, in
/// listing order.
pub fn select_victims(managed: Vec<Instance>, count: usize) -> (victims: Vec<Instance>)
    requires
        count <= managed.len(),
    ensures
        views_of(victims@) == victims_among(views_of(managed@), count as int),
{
    let mut victims = managed;
    victims.truncate(count);
    victims
}

/// The selection takes the leading instances and nothing else: the victim at
/// each position is the instance that the fleet lists at that position, so a
/// victim is always an instance of the fleet, and no instance is selected
/// twice. Where the listing gives every instance an identifier of its own, no
/// identifier occurs twice among the victims.
pub proof fn lemma_victims_lead_the_fleet(managed: Seq<InstanceView>, count: int)
    requires
        0 <= count <= managed.len(),
    ensures
        victims_among(managed, count).len() == count,
        forall|i: int| 0 <= i < count ==> victims_among(managed, count)[i] == managed[i],
        forall|i: int| 0 <= i < count ==> managed.contains(#[trigger] victims_among(managed, count)[i]),
        ids_distinct(managed) ==> ids_distinct(victims_among(managed, count)),
{
}

} // verus!
