use styx_runtime::{
    FailureScope, RetryClass, RuntimeCommand, RuntimeEngine, RuntimeError, TorrentCommand, TorrentStatus,
    addr_precedes, address_string, sorted_addresses, ActivityLog, BlockCorruptionTracker, IpAddress, RateCounter, RuntimeConfig, RuntimeEvent,
    SocketAddress, SourceEndpoint, SourceFailure, SourceKind, SourceTable, TimeSpan, TorrentId,
    TorrentPlan, TorrentTask, TrackerOutcome, TrackerReply,
};

fn v4(last: u8, port: u16) -> SocketAddress {
    SocketAddress::new(IpAddress::V4(10, 0, 0, last), port)
}

fn empty_table() -> SourceTable {
    SourceTable::from_candidates(Vec::new(), &RuntimeConfig::default()).unwrap()
}

fn plan() -> TorrentPlan {
    TorrentPlan {
        id: TorrentId::new([0xAB; 20]),
        name: "data".to_string(),
        total_size: 32768,
        piece_length: 16384,
        piece_count: 2,
        private: false,
        announce_urls: vec!["http://a.example/announce".to_string(), "http://b.example/announce".to_string()],
        web_seed_urls: Vec::new(),
    }
}

#[test]
fn a_source_id_keeps_naming_its_endpoint() {
    let mut table = empty_table();
    let a = || SourceEndpoint::Peer(v4(1, 6881));
    let id = table.add_candidate(a(), SourceKind::Peer).unwrap();
    assert_eq!(table.id_for_endpoint(&a()), Some(id));
    table.add_candidate(SourceEndpoint::Peer(v4(2, 6881)), SourceKind::Peer).unwrap();
    table.record_failure(id, SourceFailure::Timeout).unwrap();
    table.record_success(id).unwrap();
    assert!(table.add_candidate(a(), SourceKind::DhtPeer).is_err());
    assert_eq!(table.id_for_endpoint(&a()), Some(id));
    assert_eq!(table.id_for_endpoint(&SourceEndpoint::Peer(v4(3, 6881))), None);
}

#[test]
fn the_peers_of_a_block_follow_the_calls_in_order() {
    let mut tracker = BlockCorruptionTracker::new(10);
    let (a, b) = (v4(1, 1), v4(2, 2));
    tracker.record_failure(0, 1, b);
    tracker.record_failure(0, 2, a);
    tracker.record_failure(0, 1, a);
    tracker.record_failure(0, 1, b);
    assert_eq!(tracker.untrusted_peers_for_block(0, 1), vec![b, a, b]);
    assert_eq!(tracker.bad_peers_for_block(0, 2), &[a]);
    assert!(tracker.untrusted_peers_for_block(3, 3).is_empty());
}

#[test]
fn a_quarantined_peer_stays_quarantined_when_it_fails_again() {
    let mut tracker = BlockCorruptionTracker::new(1);
    let a = v4(1, 1);
    assert!(tracker.record_failure(0, 1, a));
    assert!(tracker.record_failure(0, 2, a));
    assert!(tracker.is_quarantined(&a));
    assert!(!tracker.is_quarantined(&v4(2, 2)));
}

#[test]
fn two_readings_at_one_moment_agree_and_later_ones_only_fall() {
    let mut counter = RateCounter::new(TimeSpan::from_secs(2)).unwrap();
    counter.record(1_000_000_000, 400);
    counter.record(2_000_000_000, 200);
    let first = counter.bytes_per_second(2_500_000_000);
    let second = counter.bytes_per_second(2_500_000_000);
    assert_eq!(first, 300);
    assert_eq!(first, second);
    let later = counter.bytes_per_second(3_500_000_000);
    assert_eq!(later, 100);
    assert!(later <= second);
    assert_eq!(counter.bytes_per_second(9_000_000_000), 0);
}

#[test]
fn a_reading_after_a_record_counts_the_window() {
    let mut counter = RateCounter::new(TimeSpan::from_millis(500)).unwrap();
    counter.record(7, 10);
    assert_eq!(counter.bytes_per_second(7), 10);
    let mut counter = RateCounter::new(TimeSpan::from_secs(2)).unwrap();
    counter.record(0, 100);
    counter.record(1_000_000_000, 50);
    counter.record(3_000_000_000, 30);
    assert_eq!(counter.bytes_per_second(3_000_000_000), (50 + 30) / 2);
}

#[test]
fn speed_samples_carry_consecutive_seconds() {
    let mut log = ActivityLog::new();
    for _ in 0..61 {
        log.finish_tick(1, 2);
    }
    let samples = log.speed_samples();
    assert_eq!(samples.len(), 60);
    assert_eq!(samples.first().unwrap().second, 1);
    assert_eq!(samples.last().unwrap().second, 60);
    for pair in samples.windows(2) {
        assert_eq!(pair[0].second + 1, pair[1].second);
    }
}

#[test]
fn tracker_answers_set_the_interval_add_peers_and_report_failures() {
    let mut task = TorrentTask::new(plan());
    let replies = vec![
        TrackerReply {
            url: "http://a.example/announce".to_string(),
            outcome: TrackerOutcome::Peers { interval_secs: 900, peers: vec![v4(1, 6881), v4(2, 0)] },
        },
        TrackerReply {
            url: "http://b.example/announce".to_string(),
            outcome: TrackerOutcome::Failed { reason: "timed out".to_string() },
        },
    ];
    let (interval, events) = task.take_tracker_replies(replies, TimeSpan::from_secs(1800));
    assert_eq!(interval, TimeSpan::from_secs(900));
    assert_eq!(task.sources().len(), 1);
    assert_eq!(
        events,
        vec![RuntimeEvent::SourceFailed {
            torrent: TorrentId::new([0xAB; 20]),
            source: "http://b.example/announce".to_string(),
            reason: "timed out".to_string(),
        }]
    );
}

#[test]
fn without_tracker_answers_the_interval_stays() {
    let mut task = TorrentTask::new(plan());
    let (interval, events) = task.take_tracker_replies(Vec::new(), TimeSpan::from_secs(1800));
    assert_eq!(interval, TimeSpan::from_secs(1800));
    assert!(events.is_empty());
}

#[test]
fn ipv6_scope_ids_tell_addresses_apart() {
    let a = SocketAddress::new(IpAddress::V6(0xfe80, 0, 0, 0, 0, 0, 0, 1), 80);
    let mut b = a;
    b.scope_id = 2;
    let mut c = a;
    c.flowinfo = 7;
    assert_ne!(a, b);
    assert_ne!(a, c);
    assert_eq!(address_string(&a), "[fe80::1]:80");
    assert_eq!(address_string(&b), "[fe80::1%2]:80");
    assert_eq!(address_string(&c), "[fe80::1]:80");
    assert!(addr_precedes(&a, &b));
    assert!(addr_precedes(&b, &c));
    assert_eq!(sorted_addresses(&vec![c, b, a]), vec![a, b, c]);
}

fn engine_with_torrent() -> RuntimeEngine {
    let mut engine = RuntimeEngine::new(RuntimeConfig::default()).unwrap();
    engine.apply(RuntimeCommand::AddPlan(Box::new(plan()))).unwrap();
    engine.apply(RuntimeCommand::Torrent(TorrentId::new([0xAB; 20]), TorrentCommand::Start)).unwrap();
    engine.drain_events();
    engine
}

#[test]
fn a_source_whose_pieces_complete_the_torrent_stands() {
    let mut engine = engine_with_torrent();
    let id = TorrentId::new([0xAB; 20]);
    assert_eq!(engine.settle_source_attempt(id, "web".to_string(), Ok(())), Ok(()));
    assert!(engine.drain_events().is_empty());
}

#[test]
fn a_source_with_a_corrupt_piece_is_quarantined() {
    let mut engine = engine_with_torrent();
    let id = TorrentId::new([0xAB; 20]);
    let res = engine.settle_source_attempt(id, "web".to_string(), Err(RuntimeError::PieceHashMismatch { piece: 3 }));
    assert_eq!(
        res,
        Err(RuntimeError::SourceFailed {
            source_id: "web".to_string(),
            scope: FailureScope::SourceLocal,
            retry: RetryClass::Quarantine,
            reason: "piece 3 failed hash verification".to_string(),
        })
    );
    assert_eq!(
        engine.drain_events(),
        vec![RuntimeEvent::SourceQuarantined { torrent: id, source: "web".to_string() }]
    );
}

#[test]
fn a_source_that_fails_otherwise_may_be_retried() {
    let mut engine = engine_with_torrent();
    let id = TorrentId::new([0xAB; 20]);
    let text = RuntimeError::Cancelled.message();
    let res = engine.settle_source_attempt(id, "web".to_string(), Err(RuntimeError::Cancelled));
    assert_eq!(
        res,
        Err(RuntimeError::SourceFailed {
            source_id: "web".to_string(),
            scope: FailureScope::SourceLocal,
            retry: RetryClass::Retryable,
            reason: text.clone(),
        })
    );
    assert_eq!(
        engine.drain_events(),
        vec![RuntimeEvent::SourceFailed { torrent: id, source: "web".to_string(), reason: text }]
    );
}

#[test]
fn a_torrent_fails_once_every_source_failed() {
    let mut engine = engine_with_torrent();
    let id = TorrentId::new([0xAB; 20]);
    let err = engine.fail_after_sources(id, "all sources failed".to_string());
    assert_eq!(err, RuntimeError::AllPeersFailed { last_error: "all sources failed".to_string() });
    assert_eq!(engine.snapshot().torrents[0].status, TorrentStatus::Failed);
    assert_eq!(
        engine.drain_events(),
        vec![RuntimeEvent::TaskFailed { torrent: id, reason: "all sources failed".to_string() }]
    );
    let mut empty = RuntimeEngine::new(RuntimeConfig::default()).unwrap();
    let err = empty.fail_after_sources(id, "x".to_string());
    assert_eq!(err, RuntimeError::AllPeersFailed { last_error: "x".to_string() });
    assert!(empty.drain_events().is_empty());
}
