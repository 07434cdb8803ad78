use styx_runtime::{
    announce_round, dht_announce_due, lookup_after_add, lookup_request, lsd_update, on_bg_report, on_dht_event, restore_add, restore_checked,
    BgEvent, DhtRuntimeEvent, IpAddress, PersistentTorrent, PersistentTorrentSource,
    PersistentTorrentState, RestoreStep, ResumeSummary, RuntimeCommand, RuntimeConfig,
    RuntimeEngine, RuntimeEvent, SocketAddress, TickAction, TickState, TimeSpan, TorrentBook,
    TorrentCommand, TorrentId, TorrentPlan, TorrentStatus,
};

fn id(byte: u8) -> TorrentId {
    TorrentId::new([byte; 20])
}

fn plan(byte: u8, private: bool) -> TorrentPlan {
    TorrentPlan {
        id: id(byte),
        name: "data".to_string(),
        total_size: 32768,
        piece_length: 16384,
        piece_count: 2,
        private,
        announce_urls: vec!["http://tracker.example/announce".to_string()],
        web_seed_urls: Vec::new(),
    }
}

fn peer(last: u8) -> SocketAddress {
    SocketAddress::new(IpAddress::V4(10, 0, 0, last), 6881)
}

fn engine() -> RuntimeEngine {
    RuntimeEngine::new(RuntimeConfig::default()).unwrap()
}

fn record(state: PersistentTorrentState) -> PersistentTorrent {
    PersistentTorrent {
        source: PersistentTorrentSource::Magnet { uri: "magnet:?xt=urn:btih:01".to_string() },
        destination: "/data".to_string(),
        state,
        added_at_unix: 0,
        completed_at_unix: None,
    }
}

fn started_engine(byte: u8) -> RuntimeEngine {
    let mut engine = engine();
    engine.apply(RuntimeCommand::AddPlan(Box::new(plan(byte, false)))).unwrap();
    engine.apply(RuntimeCommand::Torrent(id(byte), TorrentCommand::Start)).unwrap();
    engine.drain_events();
    engine
}

fn status_of(engine: &RuntimeEngine, byte: u8) -> Option<TorrentStatus> {
    engine.snapshot().torrents.iter().find(|t| t.id == id(byte)).map(|t| t.status)
}

#[test]
fn bootstrap_looks_up_waiting_magnets_then_announced_torrents() {
    let mut state = TickState::new(true);
    state.add_magnet(id(9));
    let mut engine = started_engine(3);
    let mut book = TorrentBook::new();
    let actions = on_dht_event(&mut state, &mut engine, &mut book, DhtRuntimeEvent::Bootstrapped { nodes: 4 }, TimeSpan::zero());
    assert!(state.dht_bootstrapped());
    assert_eq!(actions.len(), 2);
    assert!(matches!(actions[0], TickAction::RequestDhtLookup { torrent, info_hash } if torrent == id(9) && info_hash == [9; 20]));
    assert!(matches!(actions[1], TickAction::RequestDhtLookup { torrent, info_hash } if torrent == id(3) && info_hash == [3; 20]));
}

#[test]
fn bootstrap_without_a_worker_asks_nothing() {
    let mut state = TickState::new(false);
    state.add_magnet(id(9));
    let mut engine = started_engine(3);
    let mut book = TorrentBook::new();
    let actions = on_dht_event(&mut state, &mut engine, &mut book, DhtRuntimeEvent::Bootstrapped { nodes: 4 }, TimeSpan::zero());
    assert!(actions.is_empty());
    assert!(state.dht_bootstrapped());
}

#[test]
fn peers_for_a_waiting_magnet_go_to_its_resolution() {
    let mut state = TickState::new(true);
    state.add_magnet(id(9));
    let mut engine = engine();
    let mut book = TorrentBook::new();
    let peers = vec![peer(1), peer(2)];
    let actions = on_dht_event(
        &mut state,
        &mut engine,
        &mut book,
        DhtRuntimeEvent::PeersDiscovered { torrent: id(9), peers: peers.clone() },
        TimeSpan::zero(),
    );
    assert!(state.is_ready(&id(9)));
    assert_eq!(actions.len(), 2);
    assert!(matches!(&actions[0], TickAction::KeepDownloadPeers { torrent, peers: p } if *torrent == id(9) && *p == peers));
    assert!(matches!(&actions[1], TickAction::ResolveMagnet { torrent, peers: p } if *torrent == id(9) && *p == peers));
}

#[test]
fn peers_for_a_torrent_are_added_and_it_is_announced() {
    let mut state = TickState::new(true);
    let mut engine = started_engine(3);
    let mut book = TorrentBook::new();
    let actions = on_dht_event(
        &mut state,
        &mut engine,
        &mut book,
        DhtRuntimeEvent::PeersDiscovered { torrent: id(3), peers: vec![peer(1)] },
        TimeSpan::zero(),
    );
    assert_eq!(actions.len(), 1);
    assert!(matches!(actions[0], TickAction::AnnounceDht { torrent, info_hash, port } if torrent == id(3) && info_hash == [3; 20] && port == 6881));
    assert_eq!(
        engine.drain_events(),
        vec![RuntimeEvent::DhtPeersDiscovered { torrent: id(3), peers: 1 }]
    );
}

#[test]
fn a_torrent_announced_recently_is_not_announced_again() {
    let mut state = TickState::new(true);
    let engine = started_engine(3);
    let mut engine = engine;
    let mut book = TorrentBook::new();
    let _ = on_dht_event(&mut state, &mut engine, &mut book, DhtRuntimeEvent::LookupExhausted { torrent: id(3) }, TimeSpan::zero());
    state.record_announce(id(3), TimeSpan::from_secs(100));
    assert_eq!(state.last_announce(&id(3)), Some(TimeSpan::from_secs(100)));
    assert!(announce_round(&state, &engine, TimeSpan::from_secs(100 + 1799)).is_empty());
    let later = announce_round(&state, &engine, TimeSpan::from_secs(100 + 1800));
    assert_eq!(later.len(), 1);
    assert!(matches!(later[0], TickAction::AnnounceDht { torrent, .. } if torrent == id(3)));
}

#[test]
fn a_dry_lookup_fails_a_waiting_magnet() {
    let mut state = TickState::new(true);
    state.add_magnet(id(9));
    let mut engine = engine();
    let mut book = TorrentBook::new();
    book.insert(id(9), record(PersistentTorrentState::Queued));
    let actions = on_dht_event(&mut state, &mut engine, &mut book, DhtRuntimeEvent::LookupExhausted { torrent: id(9) }, TimeSpan::zero());
    assert!(actions.is_empty());
    assert_eq!(book.get(&id(9)).unwrap().state, PersistentTorrentState::Failed);
    assert_eq!(
        engine.drain_events(),
        vec![RuntimeEvent::TaskFailed { torrent: id(9), reason: "DHT peer lookup exhausted".to_string() }]
    );
}

#[test]
fn a_finished_announce_is_queued() {
    let mut state = TickState::new(true);
    let mut engine = engine();
    let mut book = TorrentBook::new();
    let actions = on_dht_event(&mut state, &mut engine, &mut book, DhtRuntimeEvent::Announced { torrent: id(3), nodes: 7 }, TimeSpan::zero());
    assert!(actions.is_empty());
    assert_eq!(engine.drain_events(), vec![RuntimeEvent::DhtAnnounced { torrent: id(3), nodes: 7 }]);
}

#[test]
fn the_announce_check_waits_thirty_minutes() {
    let minute = |m: u64| Some(TimeSpan::from_secs(m * 60));
    assert!(dht_announce_due(true, 6881, None));
    assert!(!dht_announce_due(true, 6881, minute(29)));
    assert!(dht_announce_due(true, 6881, minute(30)));
    assert!(!dht_announce_due(false, 6881, None));
    assert!(!dht_announce_due(true, 0, None));
}

#[test]
fn a_completed_download_is_seeded_from_its_plan() {
    let mut state = TickState::new(true);
    state.add_plan(plan(3, false));
    let mut engine = started_engine(3);
    let mut book = TorrentBook::new();
    book.insert(id(3), record(PersistentTorrentState::Downloading));
    let actions = on_bg_report(&mut state, &mut engine, &mut book, BgEvent::Completed { id: id(3) }, TimeSpan::zero());
    assert_eq!(actions.len(), 2);
    assert!(matches!(actions[0], TickAction::ReleaseWorker { torrent } if torrent == id(3)));
    assert!(matches!(&actions[1], TickAction::SpawnSeed { plan } if plan.id == id(3)));
    assert!(state.planned_ids().is_empty());
    assert_eq!(book.get(&id(3)).unwrap().state, PersistentTorrentState::Complete);
    assert_eq!(book.get(&id(3)).unwrap().completed_at_unix, Some(0));
    assert_eq!(status_of(&engine, 3), Some(TorrentStatus::Seeding));
    assert!(engine.drain_events().contains(&RuntimeEvent::TaskCompleted { torrent: id(3) }));
}

#[test]
fn a_completed_download_without_a_plan_is_not_seeded() {
    let mut state = TickState::new(true);
    let mut engine = started_engine(3);
    let mut book = TorrentBook::new();
    let actions = on_bg_report(&mut state, &mut engine, &mut book, BgEvent::Completed { id: id(3) }, TimeSpan::zero());
    assert_eq!(actions.len(), 1);
    assert!(matches!(actions[0], TickAction::ReleaseWorker { torrent } if torrent == id(3)));
}

#[test]
fn a_failed_download_fails_the_torrent() {
    let mut state = TickState::new(true);
    state.add_plan(plan(3, false));
    let mut engine = engine();
    let mut book = TorrentBook::new();
    book.insert(id(3), record(PersistentTorrentState::Downloading));
    let actions = on_bg_report(
        &mut state,
        &mut engine,
        &mut book,
        BgEvent::Failed { id: id(3), reason: "disk full".to_string() },
        TimeSpan::zero(),
    );
    assert_eq!(actions.len(), 1);
    assert!(state.planned_ids().is_empty());
    assert_eq!(book.get(&id(3)).unwrap().state, PersistentTorrentState::Failed);
    assert_eq!(
        engine.drain_events(),
        vec![RuntimeEvent::TaskFailed { torrent: id(3), reason: "disk full".to_string() }]
    );
}

#[test]
fn resolved_metadata_starts_the_download() {
    let mut state = TickState::new(true);
    state.add_magnet(id(3));
    let mut engine = engine();
    let mut book = TorrentBook::new();
    book.insert(id(3), record(PersistentTorrentState::Queued));
    let actions = on_bg_report(
        &mut state,
        &mut engine,
        &mut book,
        BgEvent::MagnetMetadataResolved { id: id(3), plan: Box::new(plan(3, false)), peers: vec![peer(1)] },
        TimeSpan::zero(),
    );
    assert_eq!(actions.len(), 2);
    assert!(matches!(&actions[1], TickAction::KeepDownloadPeers { peers, .. } if *peers == vec![peer(1)]));
    assert!(!state.has_magnet(&id(3)));
    assert_eq!(state.planned_ids(), vec![id(3)]);
    assert_eq!(book.get(&id(3)).unwrap().state, PersistentTorrentState::Downloading);
    assert_eq!(status_of(&engine, 3), Some(TorrentStatus::Discovering));
}

#[test]
fn a_private_torrent_keeps_no_peers_from_resolution() {
    let mut state = TickState::new(true);
    let mut engine = engine();
    let mut book = TorrentBook::new();
    let actions = on_bg_report(
        &mut state,
        &mut engine,
        &mut book,
        BgEvent::MagnetMetadataResolved { id: id(3), plan: Box::new(plan(3, true)), peers: vec![peer(1)] },
        TimeSpan::zero(),
    );
    assert!(matches!(&actions[1], TickAction::KeepDownloadPeers { peers, .. } if peers.is_empty()));
}

#[test]
fn resolved_metadata_the_runtime_refuses_fails_the_torrent() {
    let mut state = TickState::new(true);
    let mut config = RuntimeConfig::default();
    config.limits.max_active_torrents = 1;
    let mut engine = RuntimeEngine::new(config).unwrap();
    engine.apply(RuntimeCommand::AddPlan(Box::new(plan(4, false)))).unwrap();
    engine.drain_events();
    let mut book = TorrentBook::new();
    book.insert(id(3), record(PersistentTorrentState::Queued));
    let actions = on_bg_report(
        &mut state,
        &mut engine,
        &mut book,
        BgEvent::MagnetMetadataResolved { id: id(3), plan: Box::new(plan(3, false)), peers: Vec::new() },
        TimeSpan::zero(),
    );
    assert_eq!(actions.len(), 2);
    assert!(state.planned_ids().is_empty());
    assert_eq!(book.get(&id(3)).unwrap().state, PersistentTorrentState::Failed);
    let events = engine.drain_events();
    assert!(matches!(events.last(), Some(RuntimeEvent::TaskFailed { torrent, .. }) if *torrent == id(3)));
}

#[test]
fn a_failed_resolution_is_retried_over_the_dht() {
    let mut state = TickState::new(true);
    state.add_magnet(id(9));
    let mut engine = engine();
    let mut book = TorrentBook::new();
    let _ = on_dht_event(&mut state, &mut engine, &mut book, DhtRuntimeEvent::Bootstrapped { nodes: 1 }, TimeSpan::zero());
    let actions = on_bg_report(
        &mut state,
        &mut engine,
        &mut book,
        BgEvent::MagnetResolutionFailed { id: id(9), reason: "no peers".to_string(), try_dht: true },
        TimeSpan::zero(),
    );
    assert_eq!(actions.len(), 2);
    assert!(matches!(actions[1], TickAction::RequestDhtLookup { torrent, .. } if torrent == id(9)));
    assert!(engine.drain_events().is_empty());
}

#[test]
fn a_failed_resolution_without_a_retry_fails_the_torrent() {
    let mut state = TickState::new(false);
    state.add_magnet(id(9));
    let mut engine = engine();
    let mut book = TorrentBook::new();
    book.insert(id(9), record(PersistentTorrentState::Queued));
    let actions = on_bg_report(
        &mut state,
        &mut engine,
        &mut book,
        BgEvent::MagnetResolutionFailed { id: id(9), reason: "no peers".to_string(), try_dht: true },
        TimeSpan::zero(),
    );
    assert_eq!(actions.len(), 1);
    assert_eq!(book.get(&id(9)).unwrap().state, PersistentTorrentState::Failed);
    assert_eq!(
        engine.drain_events(),
        vec![RuntimeEvent::TaskFailed { torrent: id(9), reason: "no peers".to_string() }]
    );
}

#[test]
fn a_torrent_saved_paused_comes_back_paused() {
    let mut engine = engine();
    restore_add(&mut engine, &plan(3, false), RestoreStep::StartPaused).unwrap();
    assert_eq!(status_of(&engine, 3), Some(TorrentStatus::Paused));
}

#[test]
fn a_magnet_link_is_not_added_on_restore() {
    let mut engine = engine();
    restore_add(&mut engine, &plan(3, false), RestoreStep::AwaitMagnet).unwrap();
    assert_eq!(status_of(&engine, 3), None);
}

#[test]
fn a_complete_torrent_whose_data_checks_out_is_seeded() {
    let mut state = TickState::new(true);
    let mut engine = engine();
    restore_add(&mut engine, &plan(3, false), RestoreStep::VerifyComplete).unwrap();
    let summary = ResumeSummary { verified: 2, missing: 0, failed: 0 };
    let actions = restore_checked(&mut state, &mut engine, plan(3, false), RestoreStep::VerifyComplete, &summary).unwrap();
    assert_eq!(actions.len(), 1);
    assert!(matches!(&actions[0], TickAction::SpawnSeed { plan } if plan.id == id(3)));
    assert_eq!(status_of(&engine, 3), Some(TorrentStatus::Seeding));
}

#[test]
fn a_complete_torrent_with_missing_data_is_left_paused() {
    let mut state = TickState::new(true);
    let mut engine = engine();
    restore_add(&mut engine, &plan(3, false), RestoreStep::VerifyComplete).unwrap();
    let summary = ResumeSummary { verified: 1, missing: 1, failed: 0 };
    let actions = restore_checked(&mut state, &mut engine, plan(3, false), RestoreStep::VerifyComplete, &summary).unwrap();
    assert!(actions.is_empty());
    assert_eq!(status_of(&engine, 3), Some(TorrentStatus::Paused));
}

#[test]
fn a_downloading_torrent_is_started_with_its_plan_held() {
    let mut state = TickState::new(true);
    let mut engine = engine();
    restore_add(&mut engine, &plan(3, false), RestoreStep::VerifyAndDownload).unwrap();
    let summary = ResumeSummary { verified: 0, missing: 2, failed: 0 };
    let actions = restore_checked(&mut state, &mut engine, plan(3, false), RestoreStep::VerifyAndDownload, &summary).unwrap();
    assert!(actions.is_empty());
    assert_eq!(state.planned_ids(), vec![id(3)]);
    assert!(state.plan_copy(&id(3)).is_some());
    assert_eq!(status_of(&engine, 3), Some(TorrentStatus::Discovering));
}

#[test]
fn spans_subtract_down_to_zero() {
    let a = TimeSpan::new(5, 100);
    let b = TimeSpan::new(3, 200);
    assert_eq!(a.saturating_sub(&b), TimeSpan::new(1, 999_999_900));
    assert_eq!(b.saturating_sub(&a), TimeSpan::zero());
    assert_eq!(TimeSpan::new(1, 2_500_000_000), TimeSpan::new(3, 500_000_000));
    assert_eq!(TimeSpan::new(1, 2_500_000_000).as_nanos(), 3_500_000_000);
}

#[test]
fn progress_reaches_the_runtime_and_leaves_the_records() {
    let mut state = TickState::new(true);
    let mut engine = started_engine(3);
    let mut book = TorrentBook::new();
    book.insert(id(3), record(PersistentTorrentState::Downloading));
    let actions = on_bg_report(
        &mut state,
        &mut engine,
        &mut book,
        BgEvent::Progress { id: id(3), verified_bytes: 16384, total_bytes: 32768 },
        TimeSpan::zero(),
    );
    assert!(actions.is_empty());
    assert_eq!(book.get(&id(3)).unwrap().state, PersistentTorrentState::Downloading);
    let snapshot = engine.snapshot();
    assert_eq!(snapshot.torrents[0].verified_bytes, 16384);
}

#[test]
fn discovery_targets_are_handed_out_only_when_they_change() {
    let engine = started_engine(3);
    let first = lsd_update(&Vec::new(), &engine).unwrap();
    assert_eq!(first, vec![(id(3), [3; 20])]);
    assert!(lsd_update(&first, &engine).is_none());
    let stale = vec![(id(4), [4; 20])];
    assert_eq!(lsd_update(&stale, &engine), Some(vec![(id(3), [3; 20])]));
    let idle = engine_without_torrents();
    assert!(lsd_update(&Vec::new(), &idle).is_none());
}

fn engine_without_torrents() -> RuntimeEngine {
    engine()
}

#[test]
fn lookups_wait_for_the_bootstrap() {
    let mut state = TickState::new(true);
    let mut engine = started_engine(3);
    let mut book = TorrentBook::new();
    assert!(lookup_request(&state, id(9)).is_none());
    assert!(lookup_after_add(&state, &engine, id(3)).is_none());
    let _ = on_dht_event(&mut state, &mut engine, &mut book, DhtRuntimeEvent::Bootstrapped { nodes: 1 }, TimeSpan::zero());
    assert!(matches!(lookup_request(&state, id(9)), Some(TickAction::RequestDhtLookup { torrent, .. }) if torrent == id(9)));
    assert!(matches!(lookup_after_add(&state, &engine, id(3)), Some(TickAction::RequestDhtLookup { torrent, .. }) if torrent == id(3)));
    assert!(lookup_after_add(&state, &engine, id(5)).is_none());
    assert!(lookup_request(&TickState::new(false), id(9)).is_none());
}

#[test]
fn the_plan_held_is_the_one_last_given() {
    let mut state = TickState::new(true);
    state.add_plan(plan(3, false));
    state.add_plan(plan(4, false));
    state.add_plan(plan(3, true));
    assert_eq!(state.planned_ids(), vec![id(4), id(3)]);
    assert!(state.plan_copy(&id(3)).unwrap().private);
    assert!(!state.plan_copy(&id(4)).unwrap().private);
    assert!(state.plan_copy(&id(5)).is_none());
}
