//! Startup configuration, handed to the core as plain values by the
//! bootstrap collaborator that reads the configuration file.

use vstd::prelude::*;

verus! {

/// The balancer's startup parameters: the address to bind, the selection
/// strategy's name, and the initial endpoint list.
pub struct Config {
    pub addr: String,
    pub policy: String,
    pub endpoints: Vec<String>,
}

/// The configuration file's top-level shape: a single `config` table.
pub struct LbConfig {
    pub config: Config,
}

} // verus!
