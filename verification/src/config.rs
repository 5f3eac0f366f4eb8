//! How the service reaches the docker host.

use vstd::prelude::*;

verus! {

/// Where the compose projects live and how to log in to their host.
#[derive(Debug, Clone)]
pub struct Config {
    pub ssh_host: String,
    pub ssh_username: String,
    pub projects_dir: String,
    pub public_key: String,
    pub private_key: String,
    /// Projects to take down when the service starts.
    pub initial_projects: Vec<String>,
}

} // verus!
