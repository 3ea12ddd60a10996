//! Sizing of a labelled fleet of cloud instances: the decision between the
//! number of instances that is wanted and the number that is running, and the
//! requests that carry the decision out.

pub mod config;
pub mod decommission;
pub mod identity;
pub mod instance;
pub mod labels;
pub mod plan;
pub mod provision;
pub mod session;
pub mod template;
pub mod text;
