use vstd::prelude::*;

use crate::config::RuntimeConfig;
use crate::driver::BgEvent;
use crate::error::RuntimeError;
use crate::metadata::MetadataFetchConfig;
use crate::net::SocketAddress;
use crate::snapshot::{hash_same, TorrentId};

verus! {

/// Whether metadata for a magnet link can be sought at all: it needs a v1
/// info hash, and at least one peer to ask.
pub fn check_magnet_resolution(has_v1_info_hash: bool, peer_count: usize) -> (res: Result<(), RuntimeError>)
    ensures
        !has_v1_info_hash ==> (res matches Err(RuntimeError::Magnet(m)) && m@ == "v1 info hash is required for metadata fetch"@),
        has_v1_info_hash && peer_count == 0 ==> (res matches Err(RuntimeError::Magnet(m))
            && m@ == "magnet metadata resolution requires at least one peer"@),
        has_v1_info_hash && peer_count > 0 ==> res is Ok,
{
    if !has_v1_info_hash {
        return Err(RuntimeError::Magnet(String::from_str("v1 info hash is required for metadata fetch")));
    }
    if peer_count == 0 {
        return Err(RuntimeError::Magnet(String::from_str("magnet metadata resolution requires at least one peer")));
    }
    Ok(())
}

/// Accepts resolved metadata only when its info hash is the one the magnet
/// link named.
pub fn validate_magnet_info_hash(expected: &TorrentId, actual: &TorrentId) -> (res: Result<(), RuntimeError>)
    ensures
        expected@ == actual@ ==> res is Ok,
        expected@ != actual@ ==> (res matches Err(RuntimeError::Magnet(m))
            && m@ == "resolved metadata info hash did not match magnet xt"@),
{
    if !hash_same(expected.as_bytes(), actual.as_bytes()) {
        return Err(RuntimeError::Magnet(String::from_str("resolved metadata info hash did not match magnet xt")));
    }
    Ok(())
}

/// The text of the error when no peer gave the metadata: the last peer's
/// error, or that no peer was tried.
pub open spec fn resolution_failure_text(last_error: Option<Seq<char>>) -> Seq<char> {
    "all exact peers failed metadata resolution: "@ + match last_error {
        Some(e) => e,
        None => "no peers attempted"@,
    }
}

/// The error when every peer failed to give the metadata.
pub fn magnet_resolution_failure(last_error: Option<String>) -> (err: RuntimeError)
    ensures
        err matches RuntimeError::Magnet(m) && m@ == resolution_failure_text(match last_error {
            Some(e) => Some(e@),
            None => None,
        }),
{
    let mut message = String::from_str("all exact peers failed metadata resolution: ");
    proof {
        reveal_strlit("all exact peers failed metadata resolution: ");
        reveal_strlit("no peers attempted");
    }
    match last_error {
        Some(e) => message.append(e.as_str()),
        None => message.append("no peers attempted"),
    }
    RuntimeError::Magnet(message)
}

/// The limits of a metadata fetch for a magnet link: the DHT settings'
/// size and request limits, the source timeout, and the usual frame limit.
pub fn magnet_metadata_config(config: &RuntimeConfig) -> (fetch: MetadataFetchConfig)
    ensures
        fetch.max_metadata_size == config.dht.metadata_size_limit,
        fetch.request_limit == config.dht.metadata_request_limit,
        fetch.timeout == config.source_timeout,
        fetch.max_frame_len == 65536,
{
    let defaults = MetadataFetchConfig::default();
    MetadataFetchConfig {
        max_metadata_size: config.dht.metadata_size_limit,
        request_limit: config.dht.metadata_request_limit,
        timeout: config.source_timeout,
        max_frame_len: defaults.max_frame_len,
    }
}

/// The peers asked for a magnet link's metadata: those the DHT found, or
/// the link's own exact peers when it found none.
pub fn resolution_peers(found: Vec<SocketAddress>, exact: Vec<SocketAddress>) -> (peers: Vec<SocketAddress>)
    ensures
        peers@ == (if found@.len() == 0 { exact@ } else { found@ }),
{
    if found.len() == 0 {
        exact
    } else {
        found
    }
}

/// The report when resolving a magnet link's metadata took too long.
pub fn resolution_timed_out(id: TorrentId) -> (report: BgEvent)
    ensures
        report matches BgEvent::Failed { id: rid, reason } && rid == id
            && reason@ == "magnet metadata resolution timed out"@,
{
    BgEvent::Failed { id, reason: String::from_str("magnet metadata resolution timed out") }
}

} // verus!
