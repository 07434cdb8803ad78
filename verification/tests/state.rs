use styx_runtime::{
    build_plan_announce_request, build_started_announce, check_plan_sources, collect_http_urls,
    daemon_status, emit_peer_events, finish_daemon, is_legacy_schema, join_path,
    peer_events_show_activity, resume_complete, seed_reports, seed_tick_interval,
    select_peer_candidates, validate_metadata_size, validate_piece_payload, AnnounceEvent,
    BgEvent, DaemonConfig, DaemonRuntime, DownloadOutcome, DownloadRunConfig, FailureReasonCode,
    IpAddress, MetadataFetchConfig, PersistenceOutcome, PersistentState, PersistentStateV1,
    PersistentStore, PersistentTorrentSource, PersistentTorrentState, PersistentTorrentV1,
    ResumeSummary, RuntimeConfig, RuntimeError, RuntimeEvent, ShutdownMode, ShutdownReport,
    SmokeConfig, SmokeOutcome, SmokeStage, SocketAddress, TimeSpan, TorrentId, TorrentPlan,
    PERSISTENT_STATE_SCHEMA_VERSION,
};

#[test]
fn empty_state_is_current_and_validates() {
    let state = PersistentState::empty();
    assert_eq!(state.schema_version, PERSISTENT_STATE_SCHEMA_VERSION);
    assert!(state.torrents.is_empty());
    assert_eq!(state.clone().validate(), Ok(state));
    let old = PersistentState { schema_version: 1, torrents: vec![] };
    assert!(matches!(
        old.validate(), Err(RuntimeError::Persistence(t)) if t == "unsupported persistent state schema version"));
    assert!(is_legacy_schema(1));
    assert!(!is_legacy_schema(2));
}

#[test]
fn legacy_state_becomes_file_sources() {
    let legacy = PersistentStateV1 {
        torrents: vec![PersistentTorrentV1 {
            source_path: "/t/a.torrent".to_string(),
            destination: "/d".to_string(),
            state: PersistentTorrentState::Paused,
            added_at_unix: 5,
            completed_at_unix: Some(9),
        }],
    };
    let state = legacy.into_current();
    assert_eq!(state.schema_version, 2);
    assert_eq!(state.torrents.len(), 1);
    assert_eq!(
        state.torrents[0].source,
        PersistentTorrentSource::File { path: "/t/a.torrent".to_string() }
    );
    assert_eq!(state.torrents[0].destination, "/d");
    assert_eq!(state.torrents[0].state, PersistentTorrentState::Paused);
    assert_eq!(state.torrents[0].added_at_unix, 5);
    assert_eq!(state.torrents[0].completed_at_unix, Some(9));
}

#[test]
fn store_paths_join_like_unix_paths() {
    let store = PersistentStore::open("/var/lib/styx").unwrap();
    assert_eq!(store.state_path(), "/var/lib/styx/state.json");
    assert_eq!(store.temp_path(), "/var/lib/styx/state.json.tmp");
    assert_eq!(join_path("dir/", "x"), "dir/x");
    assert_eq!(join_path("", "x"), "x");
}

#[test]
fn smoke_stages_have_snake_case_names() {
    assert_eq!(SmokeStage::LoadingTorrent.as_str(), "loading_torrent");
    assert_eq!(SmokeStage::DownloadingPiece.as_str(), "downloading_piece");
    assert_eq!(SmokeStage::Verified.as_str(), "verified");
}

#[test]
fn run_configs_check_limits_then_port() {
    let mut config = DownloadRunConfig::default_for_paths("a.torrent".to_string(), "out".to_string());
    assert_eq!(config.listen_port, 6881);
    assert_eq!(config.limits, SmokeConfig::default());
    assert_eq!(config.validate(), Ok(()));
    config.listen_port = 0;
    assert_eq!(
        config.validate(),
        Err(RuntimeError::InvalidConfig("listen_port must be greater than zero"))
    );
    config.limits.numwant = 0;
    assert_eq!(
        config.validate(),
        Err(RuntimeError::InvalidConfig("numwant must be greater than zero"))
    );
    config.limits.connect_timeout = TimeSpan::zero();
    assert_eq!(
        config.validate(),
        Err(RuntimeError::InvalidConfig("connect_timeout must be greater than zero"))
    );
}

#[test]
fn outcomes_expose_their_counts() {
    let done = DownloadOutcome::Complete { pieces: 4, bytes: 65536 };
    assert_eq!(done.pieces(), 4);
    assert_eq!(done.bytes(), 65536);
    let smoke = SmokeOutcome::Verified { piece: 0, bytes: 16384 };
    assert_eq!(smoke.piece(), 0);
    assert_eq!(smoke.bytes(), 16384);
}

#[test]
fn metadata_limits_and_sizes() {
    let config = MetadataFetchConfig::default();
    assert_eq!(config.validate(), Ok(config));
    let mut zero = config;
    zero.request_limit = 0;
    assert_eq!(
        zero.validate(),
        Err(RuntimeError::InvalidConfig("metadata request_limit must be greater than zero"))
    );
    assert!(matches!(
        validate_metadata_size(0, config), Err(RuntimeError::Metadata(t)) if t == "peer advertised empty metadata"));
    assert!(matches!(validate_metadata_size(8388609, config), Err(RuntimeError::Metadata(t)) if t == "peer metadata_size 8388609 exceeds configured maximum 8388608"));
    assert_eq!(validate_metadata_size(100, config), Ok(()));
}

#[test]
fn metadata_pieces_have_block_sizes() {
    assert_eq!(validate_piece_payload(0, 40000, 16384), Ok(()));
    assert_eq!(validate_piece_payload(2, 40000, 7232), Ok(()));
    assert!(matches!(
        validate_piece_payload(2, 40000, 16384), Err(RuntimeError::Metadata(t)) if t == "metadata piece 2 had 16384 bytes, expected 7232"));
    assert!(matches!(validate_piece_payload(5, 40000, 1), Err(RuntimeError::Metadata(t)) if t == "metadata piece index out of range"));
}

fn plan() -> TorrentPlan {
    TorrentPlan {
        id: TorrentId::new([7; 20]),
        name: "p".to_string(),
        total_size: 1000,
        piece_length: 512,
        piece_count: 2,
        private: false,
        announce_urls: vec![],
        web_seed_urls: vec![],
    }
}

#[test]
fn announces_report_what_is_left() {
    let request = build_plan_announce_request(&plan(), [1; 20], 400, 50);
    assert_eq!(request.left, 600);
    assert_eq!(request.port, 6881);
    assert_eq!(request.event, None);
    assert_eq!(request.numwant, Some(50));
    let request = build_plan_announce_request(&plan(), [1; 20], 4000, 50);
    assert_eq!(request.left, 0);
    let started = build_started_announce([2; 20], 77, [3; 20], 6000, 30);
    assert_eq!(started.event, Some(AnnounceEvent::Started));
    assert_eq!(started.left, 77);
    assert!(started.compact);
}

#[test]
fn peer_selection_skips_unusable_and_repeated_peers() {
    let a = SocketAddress::new(IpAddress::V4(10, 0, 0, 1), 6881);
    let b = SocketAddress::new(IpAddress::V4(10, 0, 0, 2), 6881);
    let zero_port = SocketAddress::new(IpAddress::V4(10, 0, 0, 3), 0);
    let unspecified = SocketAddress::new(IpAddress::V4(0, 0, 0, 0), 6881);
    let peers = vec![zero_port, a, unspecified, a, b];
    assert_eq!(select_peer_candidates(&peers, 10), vec![a, b]);
    assert_eq!(select_peer_candidates(&peers, 1), vec![a]);
    assert_eq!(select_peer_candidates(&peers, 0), vec![]);
}

#[test]
fn only_new_http_urls_are_collected() {
    let fields = vec![
        b"http://tracker.example/announce".to_vec(),
        b"udp://tracker.example:80".to_vec(),
        b"http://tracker.example/announce".to_vec(),
        vec![0xff, 0xfe],
        b"https://other.example/a".to_vec(),
    ];
    let urls = collect_http_urls(&fields).unwrap();
    assert_eq!(
        urls,
        vec![
            "http://tracker.example/announce".to_string(),
            "https://other.example/a".to_string()
        ]
    );
    let bad = vec![b"http://ok.example/".to_vec(), b"not a url".to_vec()];
    assert_eq!(
        collect_http_urls(&bad),
        Err(RuntimeError::InvalidTrackerUrl { url: "not a url".to_string() })
    );
}

#[test]
fn plans_need_a_source() {
    assert_eq!(check_plan_sources(0, 0, false), Err(RuntimeError::NoHttpTracker));
    assert_eq!(check_plan_sources(1, 0, true), Err(RuntimeError::V2NotSupported));
    assert_eq!(check_plan_sources(0, 1, false), Ok(()));
}

#[test]
fn daemon_start_and_finish() {
    let config = DaemonConfig {
        state_dir: "/s".to_string(),
        socket_path: "/s.sock".to_string(),
        tick_interval: TimeSpan::zero(),
        runtime_config: RuntimeConfig::default(),
    };
    assert_eq!(
        DaemonRuntime::check_config(&config),
        Err(RuntimeError::InvalidConfig("daemon tick_interval must be greater than zero"))
    );
    let status = daemon_status(Some(42), "/s.sock".to_string(), 3, TimeSpan::from_secs(5));
    assert_eq!(status.torrent_count, 3);

    let report = ShutdownReport::new(ShutdownMode::Clean, TimeSpan::from_secs(1));
    let outcome = finish_daemon(Ok(report.clone()), true, TimeSpan::from_secs(2));
    let finished = outcome.result.unwrap();
    assert_eq!(finished.persistence, PersistenceOutcome::Succeeded);
    assert_eq!(outcome.acknowledgement, Ok(()));

    let outcome = finish_daemon(Ok(report), false, TimeSpan::from_secs(2));
    match outcome.result {
        Err(RuntimeError::DaemonShutdown { reason, report }) => {
            assert_eq!(reason, FailureReasonCode::PersistenceFailed);
            assert_eq!(
                report.persistence,
                PersistenceOutcome::Failed(FailureReasonCode::PersistenceFailed)
            );
        }
        other => panic!("unexpected {other:?}"),
    }
    assert!(matches!(
        outcome.acknowledgement, Err(RuntimeError::Persistence(t)) if t == "final daemon persistence failed"));

    let outcome = finish_daemon(Err(RuntimeError::Cancelled), true, TimeSpan::from_secs(2));
    assert_eq!(outcome.acknowledgement, Err(RuntimeError::Cancelled));
    assert!(matches!(
        outcome.result,
        Err(RuntimeError::DaemonShutdown { reason: FailureReasonCode::ChannelClosed, .. })
    ));
}

#[test]
fn background_reports_of_download_events() {
    let id = TorrentId::new([4; 20]);
    let peer = SocketAddress::new(IpAddress::V4(10, 0, 0, 9), 51413);
    let events = vec![
        RuntimeEvent::PeerConnected { torrent: id, addr: peer },
        RuntimeEvent::ProgressUpdated { torrent: id, verified_bytes: 10, total_bytes: 20 },
        RuntimeEvent::SourceQuarantined { torrent: id, source: "s".to_string() },
        RuntimeEvent::TaskCompleted { torrent: id },
    ];
    let (reports, completed) = emit_peer_events(id, &events);
    assert!(completed);
    assert_eq!(reports.len(), 3);
    assert!(matches!(reports[0], BgEvent::Progress { verified_bytes: 10, total_bytes: 20, .. }));
    match &reports[1] {
        BgEvent::SourceFailed { source, reason, .. } => {
            assert_eq!(source, "s");
            assert_eq!(reason, "source quarantined after failed verification");
        }
        other => panic!("unexpected {other:?}"),
    }
    assert!(matches!(reports[2], BgEvent::Completed { .. }));
    assert!(peer_events_show_activity(&events));
    assert!(!peer_events_show_activity(&vec![RuntimeEvent::TaskCompleted { torrent: id }]));

    let seeded = seed_reports(
        id,
        vec![
            RuntimeEvent::PeerDisconnected { torrent: id, addr: peer },
            RuntimeEvent::TaskCompleted { torrent: id },
        ],
    );
    assert!(matches!(seeded[0], BgEvent::PeerDisconnected { addr, .. } if addr == peer));
    assert!(matches!(seeded[1], BgEvent::Runtime { event: RuntimeEvent::TaskCompleted { .. } }));
}

#[test]
fn seeding_needs_every_piece_verified() {
    assert!(resume_complete(&ResumeSummary { verified: 4, missing: 0, failed: 0 }, 4));
    assert!(!resume_complete(&ResumeSummary { verified: 3, missing: 1, failed: 0 }, 4));
    assert_eq!(seed_tick_interval(TimeSpan::from_secs(1)).as_nanos(), 250_000_000);
    assert_eq!(seed_tick_interval(TimeSpan::from_millis(100)).as_nanos(), 100_000_000);
}
