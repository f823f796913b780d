//! The command line of the node program.
use vstd::prelude::*;
use crate::resources::{NodeRole, role_named};

verus! {

/// The command line.
#[derive(Debug)]
pub struct Cli {
    pub command: Commands,
}

/// The program's commands.
#[derive(Debug)]
pub enum Commands {
    /// Starts the node daemon.
    Daemon { port: u16, api_port: u16, roles: String, swarm_key: Option<String> },
    /// Starts the GraphQL gateway.
    ApiGateway { port: u16 },
    /// Shares local resources.
    Share { role: Option<String> },
    /// Runs a WASM image locally.
    Run { manifest: String, image: Option<String> },
    /// Shows the node's status.
    Status,
}

/// The role shared by `share`: the named one, compute when none or an unknown one is given.
pub fn share_role(role: Option<&str>) -> (r: NodeRole)
    ensures
        r == (match role {
            Some(s) => match role_named(s@) {
                Some(x) => x,
                None => NodeRole::Compute,
            },
            None => NodeRole::Compute,
        }),
{
    match role {
        Some(s) => match NodeRole::parse(s) {
            Some(x) => x,
            None => NodeRole::Compute,
        },
        None => NodeRole::Compute,
    }
}

} // verus!
