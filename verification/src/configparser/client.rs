//! The configuration that the server hands out to its clients.
use crate::configparser::Config;
use vstd::prelude::*;

verus! {

/// The configuration of a client.
#[derive(Debug)]
pub struct Configure {
    pub server: RemoteServer,
    pub statistics: Statistics,
}

/// Whether the client gathers statistics.
#[derive(Debug)]
pub struct Statistics {
    pub enabled: bool,
}

/// The server that a client reports to.
#[derive(Debug)]
pub struct RemoteServer {
    pub server_address: String,
    pub token: String,
    pub backup_servers: Option<Vec<String>>,
    pub interval: Option<u32>,
}

impl Configure {
    /// The configuration of a client that reports to the server at
    /// `server_address`: it carries the server's token, names no backup
    /// servers and no interval, and has statistics switched off.
    pub fn from_cfg(cfg: &Config, server_address: &str) -> (r: Configure)
        ensures
            r.server.server_address@ == server_address@,
            r.server.token@ == cfg@.server.token,
            r.server.backup_servers is None,
            r.server.interval is None,
            !r.statistics.enabled,
    {
        Configure {
            server: RemoteServer {
                server_address: server_address.to_owned(),
                token: cfg.get_auth_token().clone(),
                backup_servers: None,
                interval: None,
            },
            statistics: Statistics { enabled: false },
        }
    }
}

} // verus!
