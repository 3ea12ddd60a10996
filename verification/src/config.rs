//! The configuration of one run: what a new instance is made of, and which
//! labels define the managed fleet.

use crate::labels::LabelSet;
use vstd::prelude::*;

verus! {

/// The wanted configuration, read once per run and not changed by it.
#[derive(Debug)]
pub struct Config {
    /// The base of every instance name.
    pub prefix: String,
    /// The credential for the provider's interface.
    pub api_key: String,
    /// The keys that may log in to a new instance.
    pub ssh_keys: Vec<String>,
    pub image: String,
    pub instance_type: String,
    pub zone: String,
    /// The bootstrap template; it holds the placeholder where the identity
    /// belongs.
    pub cloud_init: String,
    /// The labels that an instance must carry to belong to the managed fleet.
    /// Every new instance is given them.
    pub labels: LabelSet,
}

/// What a configuration holds, as mathematical values.
pub struct ConfigView {
    pub prefix: Seq<char>,
    pub api_key: Seq<char>,
    pub ssh_keys: Seq<Seq<char>>,
    pub image: Seq<char>,
    pub instance_type: Seq<char>,
    pub zone: Seq<char>,
    pub cloud_init: Seq<char>,
    pub labels: Map<Seq<char>, Seq<char>>,
}

/// A list of strings as a sequence of character sequences.
pub open spec fn texts_of(items: Seq<String>) -> Seq<Seq<char>> {
    items.map_values(|item: String| item@)
}

impl View for Config {
    type V = ConfigView;

    open spec fn view(&self) -> ConfigView {
        ConfigView {
            prefix: self.prefix@,
            api_key: self.api_key@,
            ssh_keys: texts_of(self.ssh_keys@),
            image: self.image@,
            instance_type: self.instance_type@,
            zone: self.zone@,
            cloud_init: self.cloud_init@,
            labels: self.labels@,
        }
    }
}

} // verus!
