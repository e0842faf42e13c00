//! The configuration of the daemon, read from ENV variables, and the
//! settings stored in the database.

pub mod defaults;
pub mod setting;

use vstd::prelude::*;

verus! {

/// A socket address to listen on: an IPv4 or IPv6 address and a port.
#[derive(Debug, Clone, Copy, PartialEq, Eq)]
pub enum HttpAddr {
    /// An IPv4 address, by its octets, and a port.
    V4 { ip: [u8; 4], port: u16 },
    /// An IPv6 address, by its segments, a port, the flow information and
    /// the scope id.
    V6 { ip: [u16; 8], port: u16, flowinfo: u32, scope_id: u32 },
}

/// The configuration of the daemon. Name ENVs after its fields, uppercase.
#[derive(Debug, Clone)]
pub struct Conf {
    pub openai_api_key: String,
    /// Where the database is; see [`defaults::sql_conn`].
    pub sql_conn: String,
    /// Where to listen for commands; see [`defaults::http_addr`].
    pub http_addr: HttpAddr,
    /// Where bash commands run; see [`defaults::user_home_dir`].
    pub user_home_dir: String,
}

} // verus!
