use styx_runtime::{
    dht_announce_due, tracker_announce_due, TimeSpan,
    is_legal_transition, is_public_pex_endpoint, IpAddress, RuntimeConfig, RuntimeEvent,
    SocketAddress, SourceKind, TorrentCommand, TorrentId, TorrentPlan, TorrentStatus, TorrentTask,
    MAX_PEX_CONTACTS_PER_FAMILY,
};

fn make_v1_plan() -> TorrentPlan {
    TorrentPlan {
        id: TorrentId::new([0xAB; 20]),
        name: "test".to_string(),
        total_size: 32768,
        piece_length: 16384,
        piece_count: 2,
        private: false,
        announce_urls: vec!["http://tracker.example/announce".to_string()],
        web_seed_urls: Vec::new(),
    }
}

#[test]
fn verify_pieces_root_v1_returns_ok() {
    let task = TorrentTask::new(make_v1_plan());
    assert!(task.verify_pieces_root().is_ok());
}

#[test]
fn transition_to_same_status_returns_empty_events() {
    let task = &mut TorrentTask::new(make_v1_plan());
    let events = task.transition(TorrentStatus::Checking).unwrap();
    assert!(events.is_empty());
}

#[test]
fn t3_t1_new_with_peers_creates_initialized_task() {
    let plan = make_v1_plan();
    let config = RuntimeConfig::default();
    let task = TorrentTask::new_with_peers(plan, &config).unwrap();

    assert_eq!(task.status(), TorrentStatus::Checking);
    assert_eq!(task.sources().len(), 0);
}

#[test]
fn start_moves_a_checking_task_to_discovering_and_reports_it() {
    let mut task = TorrentTask::new(make_v1_plan());
    let events = task.apply(TorrentCommand::Start).unwrap();
    assert_eq!(task.status(), TorrentStatus::Discovering);
    assert_eq!(
        events,
        vec![RuntimeEvent::StateChanged {
            torrent: TorrentId::new([0xAB; 20]),
            from: TorrentStatus::Checking,
            to: TorrentStatus::Discovering,
        }]
    );
}

#[test]
fn illegal_moves_are_refused_and_leave_the_state() {
    let mut task = TorrentTask::new(make_v1_plan());
    assert!(task.transition(TorrentStatus::Seeding).is_err());
    assert_eq!(task.status(), TorrentStatus::Checking);
    assert!(!is_legal_transition(TorrentStatus::Cancelled, TorrentStatus::Downloading));
    assert!(!is_legal_transition(TorrentStatus::Failed, TorrentStatus::Checking));
    assert!(is_legal_transition(TorrentStatus::Paused, TorrentStatus::Seeding));
    assert!(!is_legal_transition(TorrentStatus::Paused, TorrentStatus::Paused));
}

#[test]
fn web_seeds_become_the_first_sources() {
    let mut plan = make_v1_plan();
    plan.web_seed_urls = vec!["http://seed.example/file".to_string()];
    let task = TorrentTask::new_with_peers(plan, &RuntimeConfig::default()).unwrap();
    assert_eq!(task.sources().len(), 1);
}

fn v4(a: u8, b: u8, c: u8, d: u8, port: u16) -> SocketAddress {
    SocketAddress::new(IpAddress::V4(a, b, c, d), port)
}

fn v6(s0: u16, s1: u16, s7: u16, port: u16) -> SocketAddress {
    SocketAddress::new(IpAddress::V6(s0, s1, 0, 0, 0, 0, 0, s7), port)
}

#[test]
fn pex_endpoints_must_be_public() {
    assert!(is_public_pex_endpoint(v4(8, 8, 8, 8, 6881)));
    assert!(!is_public_pex_endpoint(v4(8, 8, 8, 8, 0)));
    for private in [
        v4(0, 0, 0, 0, 1),
        v4(127, 0, 0, 1, 1),
        v4(10, 1, 2, 3, 1),
        v4(172, 16, 0, 1, 1),
        v4(172, 31, 255, 1, 1),
        v4(192, 168, 1, 1, 1),
        v4(169, 254, 0, 1, 1),
        v4(255, 255, 255, 255, 1),
        v4(224, 0, 0, 1, 1),
        v4(239, 1, 1, 1, 1),
        v4(192, 0, 2, 7, 1),
        v4(198, 51, 100, 7, 1),
        v4(203, 0, 113, 7, 1),
        v4(0, 1, 2, 3, 1),
        v4(100, 64, 0, 1, 1),
        v4(100, 127, 0, 1, 1),
        v4(198, 18, 0, 1, 1),
        v4(198, 19, 0, 1, 1),
        v4(240, 0, 0, 1, 1),
    ] {
        assert!(!is_public_pex_endpoint(private), "{private:?}");
    }
    for public in [v4(172, 32, 0, 1, 1), v4(100, 128, 0, 1, 1), v4(198, 20, 0, 1, 1), v4(223, 1, 1, 1, 1)] {
        assert!(is_public_pex_endpoint(public), "{public:?}");
    }
    assert!(is_public_pex_endpoint(v6(0x2606, 0x4700, 1, 1)));
    for private in [
        v6(0, 0, 0, 1),
        v6(0, 0, 1, 1),
        v6(0xff02, 0, 1, 1),
        v6(0xfc00, 0, 1, 1),
        v6(0xfdff, 0, 1, 1),
        v6(0xfe80, 0, 1, 1),
        v6(0xfebf, 0, 1, 1),
        v6(0x2001, 0x0db8, 1, 1),
    ] {
        assert!(!is_public_pex_endpoint(private), "{private:?}");
    }
}

#[test]
fn pex_contacts_are_read_up_to_the_family_limit() {
    let mut task = TorrentTask::new(make_v1_plan());
    let mut peers = Vec::new();
    for i in 0..(MAX_PEX_CONTACTS_PER_FAMILY as u16 + 5) {
        peers.push(v4(8, 8, (i >> 8) as u8, i as u8, 6881));
    }
    peers.push(v6(0x2606, 0x4700, 1, 6881));
    assert_eq!(task.ingest_pex_peers(peers), MAX_PEX_CONTACTS_PER_FAMILY + 1);
    assert_eq!(task.sources().len(), MAX_PEX_CONTACTS_PER_FAMILY + 1);
    assert_eq!(
        task.sources().by_kind(SourceKind::PexPeer).len(),
        MAX_PEX_CONTACTS_PER_FAMILY + 1
    );
}

#[test]
fn pex_skips_private_contacts_and_duplicates() {
    let mut task = TorrentTask::new(make_v1_plan());
    let peers = vec![
        v4(192, 168, 0, 9, 6881),
        v4(8, 8, 8, 8, 6881),
        v4(8, 8, 8, 8, 6881),
        v4(1, 1, 1, 1, 0),
    ];
    assert_eq!(task.ingest_pex_peers(peers), 1);
}

#[test]
fn private_torrents_take_no_pex_contacts() {
    let mut plan = make_v1_plan();
    plan.private = true;
    let mut task = TorrentTask::new(plan);
    assert_eq!(task.ingest_pex_peers(vec![v4(8, 8, 8, 8, 6881)]), 0);
    assert!(task.sources().is_empty());
}

#[test]
fn trackers_are_asked_on_schedule() {
    let interval = TimeSpan::from_secs(1800);
    assert!(!tracker_announce_due(false, 0, None, interval));
    assert!(tracker_announce_due(true, 0, None, interval));
    assert!(!tracker_announce_due(true, 0, Some(TimeSpan::from_millis(4999)), interval));
    assert!(tracker_announce_due(true, 0, Some(TimeSpan::from_secs(5)), interval));
    assert!(!tracker_announce_due(true, 3, Some(TimeSpan::from_secs(899)), interval));
    assert!(tracker_announce_due(true, 3, Some(TimeSpan::from_secs(900)), interval));
    assert!(tracker_announce_due(true, 1, Some(TimeSpan::from_secs(1)), TimeSpan::from_secs(1)));
}

#[test]
fn dht_announces_wait_for_lookup_port_and_interval() {
    assert!(dht_announce_due(true, 6881, None));
    assert!(!dht_announce_due(false, 6881, None));
    assert!(!dht_announce_due(true, 0, None));
    assert!(!dht_announce_due(true, 6881, Some(TimeSpan::from_secs(1799))));
    assert!(dht_announce_due(true, 6881, Some(TimeSpan::from_secs(1800))));
}
