//! Effective settings: each function turns the raw value of one
//! environment variable, read by the surrounding program, into the setting
//! the system runs with, applying the documented default.

use vstd::prelude::*;

verus! {

/// The address the HTTP server binds.
pub fn hostname(var: Option<String>) -> (r: String)
    ensures
        match var {
            Some(v) => r@ == v@,
            None => r@ == "0.0.0.0"@,
        },
{
    match var {
        Some(v) => v,
        None => "0.0.0.0".to_owned(),
    }
}

/// The port the HTTP server binds.
pub fn port(var: Option<String>) -> (r: String)
    ensures
        match var {
            Some(v) => r@ == v@,
            None => r@ == "54428"@,
        },
{
    match var {
        Some(v) => v,
        None => "54428".to_owned(),
    }
}

/// The data directory path.
pub fn datadir(var: Option<String>) -> (r: String)
    ensures
        match var {
            Some(v) => r@ == v@,
            None => r@ == "/var/lib/miniapp-factory"@,
        },
{
    match var {
        Some(v) => v,
        None => "/var/lib/miniapp-factory".to_owned(),
    }
}

/// The repo-hosting token; the system cannot run without one.
pub fn ghtoken(var: Option<String>) -> (r: String)
    requires
        var is Some,
    ensures
        r@ == var->0@,
{
    match var {
        Some(v) => v,
        None => {
            proof {
                assert(false);
            }
            String::new()
        },
    }
}

/// The prefix put before the repo-hosting command.
pub fn gh(var: Option<String>) -> (r: String)
    ensures
        match var {
            Some(v) => r@ == v@,
            None => r@ == ""@,
        },
{
    match var {
        Some(v) => v,
        None => "".to_owned(),
    }
}

/// The database connection string.
pub fn database(var: Option<String>) -> (r: String)
    ensures
        match var {
            Some(v) => r@ == v@,
            None => r@ == "postgres:openxai-indexer?host=/run/postgresql"@,
        },
{
    match var {
        Some(v) => v,
        None => "postgres:openxai-indexer?host=/run/postgresql".to_owned(),
    }
}

/// The NFT minter key; the system cannot run without one.
pub fn nftminterkey(var: Option<String>) -> (r: String)
    requires
        var is Some,
    ensures
        r@ == var->0@,
{
    match var {
        Some(v) => v,
        None => {
            proof {
                assert(false);
            }
            String::new()
        },
    }
}

/// The HTTP RPC endpoint.
pub fn httprpc(var: Option<String>) -> (r: String)
    ensures
        match var {
            Some(v) => r@ == v@,
            None => r@ == "https://base-rpc.publicnode.com"@,
        },
{
    match var {
        Some(v) => v,
        None => "https://base-rpc.publicnode.com".to_owned(),
    }
}

/// The websocket RPC endpoint.
pub fn wsrpc(var: Option<String>) -> (r: String)
    ensures
        match var {
            Some(v) => r@ == v@,
            None => r@ == "wss://base-rpc.publicnode.com"@,
        },
{
    match var {
        Some(v) => v,
        None => "wss://base-rpc.publicnode.com".to_owned(),
    }
}

/// The provisioner API key; the fleet manager cannot run without one.
pub fn hyperstackapikey(var: Option<String>) -> (r: String)
    requires
        var is Some,
    ensures
        r@ == var->0@,
{
    match var {
        Some(v) => v,
        None => {
            proof {
                assert(false);
            }
            String::new()
        },
    }
}

} // verus!
