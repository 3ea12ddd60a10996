//! Instances as the provider lists them, and the narrowing of a listing to the
//! managed fleet.

use crate::labels::{is_member, labels_match, LabelSet};
use vstd::prelude::*;

verus! {

/// The state that the provider reports for an instance.
#[derive(Clone, Copy, Debug, PartialEq, Eq, Structural)]
pub enum Status {
    Initializing,
    Starting,
    Running,
    Stopping,
    Off,
    Deleting,
    Migrating,
    Rebuilding,
    Unknown,
}

/// One instance of a provider's listing.
#[derive(Debug)]
pub struct Instance {
    /// The identifier that the provider gave the instance.
    pub id: i64,
    /// The name that the instance was created with.
    pub name: String,
    /// The public address; an instance that is still being set up has none.
    pub address: Option<String>,
    pub status: Status,
    pub labels: LabelSet,
}

/// What an instance holds, as mathematical values.
pub struct InstanceView {
    pub id: i64,
    pub name: Seq<char>,
    pub address: Option<Seq<char>>,
    pub status: Status,
    pub labels: Map<Seq<char>, Seq<char>>,
}

impl View for Instance {
    type V = InstanceView;

    open spec fn view(&self) -> InstanceView {
        InstanceView {
            id: self.id,
            name: self.name@,
            address: match self.address {
                Some(address) => Some(address@),
                None => None,
            },
            status: self.status,
            labels: self.labels@,
        }
    }
}

/// The instances of a listing as mathematical values, in listing order.
pub open spec fn views_of(instances: Seq<Instance>) -> Seq<InstanceView> {
    instances.map_values(|instance: Instance| instance@)
}

/// The managed fleet within a listing: the instances whose labels satisfy the
/// requirement, in listing order.
pub open spec fn managed_among(
    listing: Seq<InstanceView>,
    required: Map<Seq<char>, Seq<char>>,
) -> Seq<InstanceView> {
    listing.filter(|instance: InstanceView| is_member(instance.labels, required))
}

/// Narrows a listing to the managed fleet. The order of the listing is kept.
pub fn managed_fleet(listing: Vec<Instance>, required: &LabelSet) -> (managed: Vec<Instance>)
    ensures
        views_of(managed@) == managed_among(views_of(listing@), required@),
{
    let mut managed: Vec<Instance> = Vec::new();
    let ghost belongs = |instance: InstanceView| is_member(instance.labels, required@);
    let ghost all = views_of(listing@);
    proof {
        reveal(Seq::filter);
    }
    for instance in iter: listing
        invariant
            all == views_of(listing@),
            belongs == |instance: InstanceView| is_member(instance.labels, required@),
            views_of(managed@) == all.take(iter.index() as int).filter(belongs),
    {
        let ghost before = views_of(managed@);
        let ghost seen = iter.index() as int;
        let member = labels_match(&instance.labels, required);
        proof {
            reveal(Seq::filter);
            assert(all.take(seen + 1).drop_last() =~= all.take(seen));
        }
        if member {
            managed.push(instance);
        }
    }
    assert(all.take(all.len() as int) =~= all);
    managed
}

} // verus!
