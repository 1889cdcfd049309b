//! The data home: where each subsystem keeps its files, and what a server
//! create or update asks of the engine.

use vstd::prelude::*;

use crate::launch::{join_str, path_join};

verus! {

/// Everything a server create needs from the caller.
#[derive(Debug, Clone, Default)]
pub struct ServerCreateSpec {
    pub name: String,
    pub flavor: String,
    pub version: String,
    pub loader_version: Option<String>,
    pub port: Option<u16>,
    /// Configuration entries (key, value) applied once the server exists.
    pub config: Vec<(String, String)>,
    /// The caller confirms the user accepted the Minecraft EULA.
    pub eula: bool,
}

/// Everything a server update needs from the caller.
#[derive(Debug, Clone, Default)]
pub struct ServerUpdateSpec {
    pub server: String,
    pub version: String,
    pub loader_version: Option<String>,
    pub allow_downgrade: bool,
}

/// Where each subsystem keeps its files under a data home.
#[derive(Debug, Clone)]
pub struct HomeLayout {
    pub cache: String,
    pub java: String,
    pub accounts: String,
    pub servers: String,
    pub instances: String,
    pub skins: String,
    pub shared: String,
    pub profiles: String,
    pub updates: String,
    pub processes: String,
}

/// Where each subsystem keeps its files under `home`: every one in a
/// directory (or, for accounts, a file) of its own.
pub fn layout(home: &str) -> (r: HomeLayout)
    ensures
        r.cache@ == path_join(home@, "cache"@),
        r.java@ == path_join(home@, "java"@),
        r.accounts@ == path_join(home@, "accounts.json"@),
        r.servers@ == path_join(home@, "servers"@),
        r.instances@ == path_join(home@, "instances"@),
        r.skins@ == path_join(home@, "skins"@),
        r.shared@ == path_join(home@, "shared"@),
        r.profiles@ == path_join(home@, "profiles"@),
        r.updates@ == path_join(home@, "updates"@),
        r.processes@ == path_join(home@, "processes"@),
{
    HomeLayout {
        cache: join_str(home, "cache"),
        java: join_str(home, "java"),
        accounts: join_str(home, "accounts.json"),
        servers: join_str(home, "servers"),
        instances: join_str(home, "instances"),
        skins: join_str(home, "skins"),
        shared: join_str(home, "shared"),
        profiles: join_str(home, "profiles"),
        updates: join_str(home, "updates"),
        processes: join_str(home, "processes"),
    }
}

} // verus!
