use vstd::prelude::*;

use crate::error::RuntimeError;
use crate::net::{IpAddress, SocketAddress};
use crate::snapshot::TorrentId;
use crate::time::TimeSpan;

verus! {

/// What the DHT worker is asked to do.
#[derive(Clone, Debug, PartialEq, Eq)]
pub enum DhtCommand {
    Bootstrap,
    GetPeers { torrent: TorrentId, info_hash: [u8; 20] },
    AnnouncePeer { torrent: TorrentId, info_hash: [u8; 20], port: u16, implied_port: bool },
}

/// What the DHT worker reports.
#[derive(Clone, Debug, PartialEq, Eq)]
pub enum DhtRuntimeEvent {
    Bootstrapped { nodes: usize },
    PeersDiscovered { torrent: TorrentId, peers: Vec<SocketAddress> },
    LookupExhausted { torrent: TorrentId },
    Announced { torrent: TorrentId, nodes: u32 },
    Failed { reason: String },
}

/// Settings of the DHT worker.
#[derive(Debug)]
pub struct DhtRuntimeConfig {
    pub enabled: bool,
    pub bind: SocketAddress,
    pub bootstrap_nodes: Vec<SocketAddress>,
    pub query_timeout: TimeSpan,
    pub command_capacity: usize,
    pub metadata_size_limit: u64,
    pub metadata_request_limit: u32,
    pub tick_interval: TimeSpan,
}

impl DhtRuntimeConfig {
    /// Two settings with the same values.
    pub open spec fn same_settings(self, other: DhtRuntimeConfig) -> bool {
        &&& self.enabled == other.enabled
        &&& self.bind == other.bind
        &&& self.bootstrap_nodes@ == other.bootstrap_nodes@
        &&& self.query_timeout == other.query_timeout
        &&& self.command_capacity == other.command_capacity
        &&& self.metadata_size_limit == other.metadata_size_limit
        &&& self.metadata_request_limit == other.metadata_request_limit
        &&& self.tick_interval == other.tick_interval
    }

    /// The first failing check of the DHT settings, in the order they are checked.
    pub open spec fn spec_error(self) -> Option<RuntimeError> {
        if self.bind.port == 0 && !self.bind.ip.spec_is_loopback() {
            Some(RuntimeError::InvalidConfig("dht bind port 0 is only allowed for loopback tests"))
        } else if self.query_timeout@ == 0 {
            Some(RuntimeError::InvalidConfig("dht query_timeout must be greater than zero"))
        } else if self.command_capacity == 0 {
            Some(RuntimeError::InvalidConfig("dht command capacity must be greater than zero"))
        } else if self.metadata_size_limit == 0 {
            Some(RuntimeError::InvalidConfig("dht metadata_size_limit must be greater than zero"))
        } else if self.metadata_request_limit == 0 {
            Some(RuntimeError::InvalidConfig("dht metadata_request_limit must be greater than zero"))
        } else if self.tick_interval@ == 0 {
            Some(RuntimeError::InvalidConfig("dht tick_interval must be greater than zero"))
        } else {
            None
        }
    }

    /// Accepts the settings, or reports the first that fails.
    pub fn validate(&self) -> (res: Result<(), RuntimeError>)
        ensures
            res == (match self.spec_error() {
                Some(e) => Err(e),
                None => Ok(()),
            }),
    {
        if self.bind.port == 0 && !self.bind.ip.is_loopback() {
            return Err(RuntimeError::InvalidConfig("dht bind port 0 is only allowed for loopback tests"));
        }
        if self.query_timeout.is_zero() {
            return Err(RuntimeError::InvalidConfig("dht query_timeout must be greater than zero"));
        }
        if self.command_capacity == 0 {
            return Err(RuntimeError::InvalidConfig("dht command capacity must be greater than zero"));
        }
        if self.metadata_size_limit == 0 {
            return Err(RuntimeError::InvalidConfig("dht metadata_size_limit must be greater than zero"));
        }
        if self.metadata_request_limit == 0 {
            return Err(RuntimeError::InvalidConfig("dht metadata_request_limit must be greater than zero"));
        }
        if self.tick_interval.is_zero() {
            return Err(RuntimeError::InvalidConfig("dht tick_interval must be greater than zero"));
        }
        Ok(())
    }
}

impl Clone for DhtRuntimeConfig {
    fn clone(&self) -> (copy: Self)
        ensures
            copy.same_settings(*self),
    {
        let mut nodes: Vec<SocketAddress> = Vec::new();
        let mut i: usize = 0;
        while i < self.bootstrap_nodes.len()
            invariant
                i <= self.bootstrap_nodes@.len(),
                nodes@ == self.bootstrap_nodes@.take(i as int),
            decreases self.bootstrap_nodes@.len() - i,
        {
            nodes.push(self.bootstrap_nodes[i]);
            assert(self.bootstrap_nodes@.take(i as int + 1) =~= self.bootstrap_nodes@.take(i as int).push(self.bootstrap_nodes@[i as int]));
            i = i + 1;
        }
        assert(self.bootstrap_nodes@.take(i as int) =~= self.bootstrap_nodes@);
        DhtRuntimeConfig {
            enabled: self.enabled,
            bind: self.bind,
            bootstrap_nodes: nodes,
            query_timeout: self.query_timeout,
            command_capacity: self.command_capacity,
            metadata_size_limit: self.metadata_size_limit,
            metadata_request_limit: self.metadata_request_limit,
            tick_interval: self.tick_interval,
        }
    }
}

impl Default for DhtRuntimeConfig {
    fn default() -> (config: Self)
        ensures
            config.enabled,
            config.bind == (SocketAddress { ip: IpAddress::V4(0, 0, 0, 0), port: 6881, flowinfo: 0, scope_id: 0 }),
            config.bootstrap_nodes@.len() == 0,
            config.query_timeout@ == 15_000_000_000,
            config.command_capacity == 256,
            config.metadata_size_limit == 8 * 1024 * 1024,
            config.metadata_request_limit == 512,
            config.tick_interval@ == 250_000_000,
            (config.spec_error() is None),
    {
        DhtRuntimeConfig {
            enabled: true,
            bind: SocketAddress { ip: IpAddress::V4(0, 0, 0, 0), port: 6881, flowinfo: 0, scope_id: 0 },
            bootstrap_nodes: Vec::new(),
            query_timeout: TimeSpan::from_secs(15),
            command_capacity: 256,
            metadata_size_limit: 8 * 1024 * 1024,
            metadata_request_limit: 512,
            tick_interval: TimeSpan::from_millis(250),
        }
    }
}

/// How many seconds after announcing a torrent on the DHT it is announced again.
pub const DHT_ANNOUNCE_INTERVAL_SECS: u64 = 1800;

/// Whether a torrent is due to be announced on the DHT: a peer lookup for
/// it has come back, the client listens on a port, and the torrent was not
/// announced within the interval.
pub fn dht_announce_due(ready: bool, listen_port: u16, since_last: Option<TimeSpan>) -> (due: bool)
    ensures
        due == (ready && listen_port != 0 && match since_last {
            None => true,
            Some(elapsed) => elapsed@ >= DHT_ANNOUNCE_INTERVAL_SECS * 1_000_000_000,
        }),
{
    ready && listen_port != 0 && match since_last {
        None => true,
        Some(elapsed) => elapsed.as_nanos() >= 1_800_000_000_000,
    }
}

} // verus!
