use styx_runtime::{
    BlockCorruptionTracker, IpAddress, RuntimeConfig, RuntimeLimits, SocketAddress,
    SourceCandidate, SourceEndpoint, SourceFailure, SourceId, SourceKind, SourceState,
    SourceTable,
};

fn v4(a: u8, b: u8, c: u8, d: u8, port: u16) -> SocketAddress {
    SocketAddress::new(IpAddress::V4(a, b, c, d), port)
}

fn create_table(candidates: Vec<SourceCandidate>) -> SourceTable {
    let config = RuntimeConfig {
        limits: RuntimeLimits {
            max_sources_per_torrent: 10,
            source_retry_limit: 3,
            ..RuntimeLimits::default()
        },
        ..RuntimeConfig::default()
    };
    SourceTable::from_candidates(candidates, &config).unwrap()
}

#[test]
fn record_success_sets_state_to_active_not_fresh() {
    let addr = v4(127, 0, 0, 1, 6881);
    let peer = SourceCandidate::peer(SourceId::new(0), addr);
    let mut table = create_table(vec![peer]);

    let sid = SourceId::new(1);
    table.record_success(sid).unwrap();

    assert_eq!(table.state(sid).unwrap(), SourceState::Active);
}

#[test]
fn next_candidates_does_not_return_successful_sources() {
    let addr = v4(127, 0, 0, 1, 6881);
    let peer = SourceCandidate::peer(SourceId::new(0), addr);
    let mut table = create_table(vec![peer]);

    let sid = SourceId::new(1);
    table.record_success(sid).unwrap();

    let candidates = table.next_candidates(10);
    assert!(
        candidates.is_empty(),
        "successful source should not be returned as a candidate"
    );
}

#[test]
fn next_candidates_returns_fresh_and_cooling_down_sources() {
    let addr1 = v4(127, 0, 0, 1, 6881);
    let addr2 = v4(10, 0, 0, 1, 6881);
    let mut table = create_table(vec![
        SourceCandidate::peer(SourceId::new(0), addr1),
        SourceCandidate::peer(SourceId::new(0), addr2),
    ]);

    let sid = SourceId::new(1);
    table.record_success(sid).unwrap();

    let candidates = table.next_candidates(10);
    assert_eq!(candidates.len(), 1);
    assert_eq!(candidates[0].endpoint, SourceEndpoint::Peer(addr2));
}

#[test]
fn block_corruption_tracker_quarantines_peer_after_threshold() {
    let mut tracker = BlockCorruptionTracker::new(2);
    let peer_a = v4(127, 0, 0, 1, 6881);
    let peer_b = v4(10, 0, 0, 1, 6881);

    assert!(!tracker.record_failure(0, 1, peer_a));
    assert!(!tracker.is_quarantined(&peer_a));
    assert!(tracker.bad_peers_for_block(0, 1).contains(&peer_a));

    assert!(tracker.record_failure(0, 2, peer_a));
    assert!(tracker.is_quarantined(&peer_a));
    assert!(!tracker.is_quarantined(&peer_b));

    let untrusted = tracker.untrusted_peers_for_block(0, 1);
    assert!(untrusted.contains(&peer_a));
    assert!(tracker.bad_peers_for_block(0, 2).contains(&peer_a));
}

#[test]
fn failures_past_the_retry_limit_fail_a_source_for_good() {
    let mut table = create_table(vec![SourceCandidate::peer(SourceId::new(0), v4(10, 0, 0, 2, 51413))]);
    let sid = SourceId::new(1);
    table.record_failure(sid, SourceFailure::Timeout).unwrap();
    assert_eq!(table.state(sid).unwrap(), SourceState::CoolingDown);
    table.record_failure(sid, SourceFailure::Timeout).unwrap();
    table.record_failure(sid, SourceFailure::Timeout).unwrap();
    assert_eq!(table.state(sid).unwrap(), SourceState::Exhausted);
    assert!(table.next_candidates(10).is_empty());
}

#[test]
fn unknown_sources_are_refused() {
    let mut table = create_table(vec![]);
    assert!(table.record_success(SourceId::new(7)).is_err());
    assert!(table.state(SourceId::new(7)).is_err());
}

#[test]
fn added_peers_get_the_next_id_and_duplicates_are_refused() {
    let mut table = create_table(vec![SourceCandidate::peer(SourceId::new(0), v4(10, 0, 0, 3, 6881))]);
    let id = table
        .add_candidate(SourceEndpoint::Peer(v4(10, 0, 0, 4, 6881)), SourceKind::Peer)
        .unwrap();
    assert_eq!(id.get(), 2);
    assert!(table
        .add_candidate(SourceEndpoint::Peer(v4(10, 0, 0, 4, 6881)), SourceKind::Peer)
        .is_err());
    assert_eq!(table.len(), 2);
    assert_eq!(
        table.id_for_endpoint(&SourceEndpoint::Peer(v4(10, 0, 0, 4, 6881))),
        Some(id)
    );
}
