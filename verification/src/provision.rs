//! Provisioning: what is asked of the provider for one new instance.

use crate::config::{texts_of, Config, ConfigView};
use crate::identity::{generate, is_identity};
use crate::labels::LabelSet;
use crate::template::{render, rendered};
use vstd::prelude::*;
use vstd::string::*;

verus! {

/// What a new instance is made of.
#[derive(Debug)]
pub struct InstanceSpec {
    pub image: String,
    pub instance_type: String,
    pub zone: String,
    pub ssh_keys: Vec<String>,
    /// The bootstrap data, rendered for this instance.
    pub cloud_init: String,
    pub labels: LabelSet,
}

/// What an instance specification holds, as mathematical values.
pub struct InstanceSpecView {
    pub image: Seq<char>,
    pub instance_type: Seq<char>,
    pub zone: Seq<char>,
    pub ssh_keys: Seq<Seq<char>>,
    pub cloud_init: Seq<char>,
    pub labels: Map<Seq<char>, Seq<char>>,
}

impl View for InstanceSpec {
    type V = InstanceSpecView;

    open spec fn view(&self) -> InstanceSpecView {
        InstanceSpecView {
            image: self.image@,
            instance_type: self.instance_type@,
            zone: self.zone@,
            ssh_keys: texts_of(self.ssh_keys@),
            cloud_init: self.cloud_init@,
            labels: self.labels@,
        }
    }
}

/// One creation request: the name of the new instance and what it is made of.
#[derive(Debug)]
pub struct ProvisionRequest {
    pub name: String,
    pub spec: InstanceSpec,
}

/// What a creation request holds, as mathematical values.
pub struct ProvisionRequestView {
    pub name: Seq<char>,
    pub spec: InstanceSpecView,
}

impl View for ProvisionRequest {
    type V = ProvisionRequestView;

    open spec fn view(&self) -> ProvisionRequestView {
        ProvisionRequestView { name: self.name@, spec: self.spec@ }
    }
}

/// The name of an instance: the prefix, a hyphen and the identity.
pub open spec fn name_for(prefix: Seq<char>, identity: Seq<char>) -> Seq<char> {
    prefix + seq!['-'] + identity
}

/// The creation request that a configuration gives for an identity: the
/// configured image, type, zone and keys, the bootstrap template rendered for
/// the identity, and the labels of the managed fleet.
pub open spec fn request_for(config: ConfigView, identity: Seq<char>) -> ProvisionRequestView {
    ProvisionRequestView {
        name: name_for(config.prefix, identity),
        spec: InstanceSpecView {
            image: config.image,
            instance_type: config.instance_type,
            zone: config.zone,
            ssh_keys: config.ssh_keys,
            cloud_init: rendered(config.cloud_init, identity),
            labels: config.labels,
        },
    }
}

/// Composes the name of an instance from the prefix and the identity.
pub fn instance_name(prefix: &str, identity: &str) -> (name: String)
    ensures
        name@ == name_for(prefix@, identity@),
{
    proof {
        reveal_strlit("-");
    }
    let name = prefix.to_owned().concat("-").concat(identity);
    name
}

/// Builds the creation request for one new instance with the identity
/// `identity`.
pub fn build_request(config: &Config, identity: &str) -> (request: ProvisionRequest)
    ensures
        request@ == request_for(config@, identity@),
{
    let ssh_keys = config.ssh_keys.clone();
    ProvisionRequest {
        name: instance_name(config.prefix.as_str(), identity),
        spec: InstanceSpec {
            image: config.image.clone(),
            instance_type: config.instance_type.clone(),
            zone: config.zone.clone(),
            ssh_keys,
            cloud_init: render(config.cloud_init.as_str(), identity),
            labels: config.labels.clone(),
        },
    }
}

/// Builds the creation request for one new instance under a fresh identity.
/// Which identity it is, is left to chance; the request is the one that the
/// configuration gives for it.
pub fn provision(config: &Config) -> (request: ProvisionRequest)
    ensures
        exists|identity: Seq<char>|
            is_identity(identity) && request@ == #[trigger] request_for(config@, identity),
{
    let identity = generate();
    build_request(config, identity.as_str())
}

} // verus!
