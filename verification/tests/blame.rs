use styx_runtime::{
    drop_peer, record_accepted_block, settle_piece_check, PeerRoster,
    addr_precedes, sorted_addresses, IpAddress, PieceBlame, RuntimeEvent, SocketAddress,
    SourceEndpoint, SourceId, SourceKind, SourceState, TorrentId, TorrentPlan, TorrentStatus,
    TorrentTask,
};

fn v4(a: u8, b: u8, c: u8, d: u8, port: u16) -> SocketAddress {
    SocketAddress::new(IpAddress::V4(a, b, c, d), port)
}

fn v6(s0: u16, s7: u16, port: u16) -> SocketAddress {
    SocketAddress::new(IpAddress::V6(s0, 0, 0, 0, 0, 0, 0, s7), port)
}

fn plan() -> TorrentPlan {
    TorrentPlan {
        id: TorrentId::new([0x11; 20]),
        name: "blame".to_string(),
        total_size: 32768,
        piece_length: 16384,
        piece_count: 2,
        private: false,
        announce_urls: Vec::new(),
        web_seed_urls: Vec::new(),
    }
}

#[test]
fn addresses_order_as_std_orders_socket_addresses() {
    let cases = vec![
        v6(1, 0, 1),
        v4(10, 0, 0, 2, 1),
        v4(10, 0, 0, 1, 9),
        v4(10, 0, 0, 1, 2),
        v6(0, 0xffff, 80),
        v4(9, 255, 255, 255, 65535),
    ];
    let ours = sorted_addresses(&cases);
    assert_eq!(
        ours,
        vec![
            v4(9, 255, 255, 255, 65535),
            v4(10, 0, 0, 1, 2),
            v4(10, 0, 0, 1, 9),
            v4(10, 0, 0, 2, 1),
            v6(0, 0xffff, 80),
            v6(1, 0, 1),
        ]
    );
    assert!(addr_precedes(&v4(255, 255, 255, 255, 65535), &v6(0, 0, 0)));
    assert!(!addr_precedes(&v4(1, 2, 3, 4, 5), &v4(1, 2, 3, 4, 5)));
}

#[test]
fn duplicate_addresses_are_kept_once() {
    let a = v4(1, 1, 1, 1, 1);
    let b = v4(2, 2, 2, 2, 2);
    assert_eq!(sorted_addresses(&vec![b, a, b, a, a]), vec![a, b]);
    assert_eq!(sorted_addresses(&Vec::new()), Vec::<SocketAddress>::new());
}

#[test]
fn blame_remembers_senders_per_piece() {
    let mut blame = PieceBlame::new();
    blame.record_block(3, 7, Some(v4(1, 1, 1, 1, 1)), false);
    blame.record_block(1, 8, None, true);
    blame.record_block(3, 9, Some(v4(2, 2, 2, 2, 2)), true);
    blame.record_block(1, 7, Some(v4(1, 1, 1, 1, 1)), true);
    assert_eq!(blame.take_pending(), vec![1, 3]);
    assert_eq!(blame.take_pending(), Vec::<u32>::new());
    let (keys, addrs) = blame.take_blame(3);
    assert_eq!(keys, vec![7, 9]);
    assert_eq!(addrs, vec![v4(1, 1, 1, 1, 1), v4(2, 2, 2, 2, 2)]);
    let (keys, addrs) = blame.take_blame(3);
    assert!(keys.is_empty() && addrs.is_empty());
    let (keys, addrs) = blame.take_blame(1);
    assert_eq!(keys, vec![8, 7]);
    assert_eq!(addrs, vec![v4(1, 1, 1, 1, 1)]);
}

#[test]
fn quarantine_marks_known_sources_in_address_order() {
    let mut task = TorrentTask::new(plan());
    let near = v4(10, 0, 0, 1, 6881);
    let far = v4(10, 0, 0, 9, 6881);
    assert_eq!(task.add_tracker_peers(vec![far, near]), 2);
    let unknown = v4(10, 0, 0, 5, 6881);
    let events = task.quarantine_sources(vec![far, unknown, near, far]);
    let id = TorrentId::new([0x11; 20]);
    assert_eq!(
        events,
        vec![
            RuntimeEvent::SourceQuarantined { torrent: id, source: "10.0.0.1:6881".to_string() },
            RuntimeEvent::SourceQuarantined { torrent: id, source: "10.0.0.5:6881".to_string() },
            RuntimeEvent::SourceQuarantined { torrent: id, source: "10.0.0.9:6881".to_string() },
        ]
    );
    let far_id = task.sources().id_for_endpoint(&SourceEndpoint::Peer(far)).unwrap();
    let near_id = task.sources().id_for_endpoint(&SourceEndpoint::Peer(near)).unwrap();
    assert_eq!(task.sources().state(far_id), Ok(SourceState::Quarantined));
    assert_eq!(task.sources().state(near_id), Ok(SourceState::Quarantined));
    assert_eq!(task.sources().len(), 2);
}

#[test]
fn verified_pieces_are_counted_and_reported() {
    let mut task = TorrentTask::new(plan());
    let id = TorrentId::new([0x11; 20]);
    let events = task.record_piece_verified(0, 16384);
    assert_eq!(task.verified_bytes(), 16384);
    assert_eq!(
        events,
        vec![
            RuntimeEvent::PieceVerified { torrent: id, piece: 0, bytes: 16384 },
            RuntimeEvent::ProgressUpdated { torrent: id, verified_bytes: 16384, total_bytes: 32768 },
        ]
    );
    task.record_piece_verified(1, u64::MAX);
    assert_eq!(task.verified_bytes(), u64::MAX);
}

#[test]
fn a_download_completes_when_every_piece_is_verified() {
    let mut task = TorrentTask::new(plan());
    let id = TorrentId::new([0x11; 20]);
    assert!(task.complete_if_done(2).is_empty());
    task.transition(TorrentStatus::Discovering).unwrap();
    task.transition(TorrentStatus::Downloading).unwrap();
    assert!(task.complete_if_done(1).is_empty());
    assert_eq!(task.status(), TorrentStatus::Downloading);
    let events = task.complete_if_done(2);
    assert_eq!(
        events,
        vec![
            RuntimeEvent::StateChanged { torrent: id, from: TorrentStatus::Downloading, to: TorrentStatus::Complete },
            RuntimeEvent::TaskCompleted { torrent: id },
            RuntimeEvent::StateChanged { torrent: id, from: TorrentStatus::Complete, to: TorrentStatus::Seeding },
        ]
    );
    assert_eq!(task.status(), TorrentStatus::Seeding);
}

#[test]
fn tracker_peers_skip_undialable_and_duplicates() {
    let mut task = TorrentTask::new(plan());
    let good = v4(8, 8, 8, 8, 6881);
    let added = task.add_tracker_peers(vec![good, v4(8, 8, 8, 8, 0), v4(0, 0, 0, 0, 1), good]);
    assert_eq!(added, 1);
    assert_eq!(task.sources().by_kind(SourceKind::Peer).len(), 1);
}

#[test]
fn connect_outcomes_update_sources() {
    let mut task = TorrentTask::new(plan());
    let a = v4(8, 8, 8, 8, 6881);
    let b = v4(8, 8, 4, 4, 6881);
    task.add_tracker_peers(vec![a, b]);
    let id = TorrentId::new([0x11; 20]);
    let (event, go_on) = task.record_connect_outcome(SourceId::new(1), a, styx_runtime::ConnectOutcome::Connected);
    assert_eq!(event, Some(RuntimeEvent::PeerConnected { torrent: id, addr: a }));
    assert!(go_on);
    assert_eq!(task.sources().state(SourceId::new(1)), Ok(SourceState::Active));
    let (event, go_on) = task.record_connect_outcome(SourceId::new(2), b, styx_runtime::ConnectOutcome::Failed);
    assert_eq!(event, None);
    assert!(go_on);
    assert_eq!(task.sources().state(SourceId::new(2)), Ok(SourceState::CoolingDown));
    let (event, go_on) = task.record_connect_outcome(SourceId::new(2), b, styx_runtime::ConnectOutcome::AlreadyConnected);
    assert_eq!(event, None);
    assert!(!go_on);
}

#[test]
fn accepted_blocks_are_blamed_on_their_senders() {
    let mut roster = PeerRoster::new(4);
    let known = roster.register(v4(3, 3, 3, 3, 3));
    let mut blame = PieceBlame::new();
    record_accepted_block(&mut blame, &roster, 0, known, false);
    record_accepted_block(&mut blame, &roster, 0, 77, true);
    assert_eq!(blame.take_pending(), vec![0]);
    let (keys, addrs) = blame.take_blame(0);
    assert_eq!(keys, vec![known, 77]);
    assert_eq!(addrs, vec![v4(3, 3, 3, 3, 3)]);
}

#[test]
fn dropped_peers_are_reported() {
    let mut roster = PeerRoster::new(4);
    let key = roster.register(v4(4, 4, 4, 4, 4));
    let id = TorrentId::new([0x11; 20]);
    assert_eq!(
        drop_peer(&mut roster, id, key),
        Some(RuntimeEvent::PeerDisconnected { torrent: id, addr: v4(4, 4, 4, 4, 4) })
    );
    assert_eq!(drop_peer(&mut roster, id, key), None);
}

#[test]
fn served_blocks_are_counted() {
    let mut task = TorrentTask::new(plan());
    let id = TorrentId::new([0x11; 20]);
    let peer = v4(5, 5, 5, 5, 5);
    assert_eq!(
        task.record_upload(peer, 1, 16384, 4096),
        RuntimeEvent::BlockUploaded { torrent: id, peer, piece: 1, offset: 16384, bytes: 4096 }
    );
    task.record_upload(peer, 1, 0, 100);
    let snap = task.snapshot(styx_runtime::PeerActivity { peers: 0, seeds: 0, down_rate: 0, up_rate: 0 });
    assert_eq!(snap.uploaded_bytes, 4196);
}

#[test]
fn quarantine_twice_is_quarantine_once() {
    let mut task = TorrentTask::new(plan());
    let peer = v4(10, 0, 0, 1, 6881);
    task.add_tracker_peers(vec![peer]);
    task.quarantine_sources(vec![peer]);
    task.quarantine_sources(vec![peer]);
    let id = task.sources().id_for_endpoint(&SourceEndpoint::Peer(peer)).unwrap();
    assert_eq!(task.sources().state(id), Ok(SourceState::Quarantined));
    assert_eq!(task.sources().len(), 1);
}

#[test]
fn a_verified_piece_adds_its_bytes() {
    let mut task = TorrentTask::new(plan());
    let mut blame = PieceBlame::new();
    let mut roster = PeerRoster::new(10);
    blame.record_block(0, 4, Some(v4(10, 0, 0, 1, 6881)), true);
    let events = settle_piece_check(&mut task, &mut blame, &mut roster, 0, true);
    let id = TorrentId::new([0x11; 20]);
    assert_eq!(
        events,
        vec![
            RuntimeEvent::PieceVerified { torrent: id, piece: 0, bytes: 16384 },
            RuntimeEvent::ProgressUpdated { torrent: id, verified_bytes: 16384, total_bytes: 32768 },
        ]
    );
    let (keys, addrs) = blame.take_blame(0);
    assert!(keys.is_empty() && addrs.is_empty());
}

#[test]
fn a_corrupt_piece_drops_its_senders_and_quarantines_them() {
    let a = v4(10, 0, 0, 1, 6881);
    let c = v4(10, 0, 0, 3, 6881);
    let mut task = TorrentTask::new(plan());
    task.add_tracker_peers(vec![a, c]);
    let mut blame = PieceBlame::new();
    let mut roster = PeerRoster::new(10);
    let key = roster.register(a);
    blame.record_block(1, key, None, false);
    blame.record_block(1, 99, Some(c), true);
    let events = settle_piece_check(&mut task, &mut blame, &mut roster, 1, false);
    let id = TorrentId::new([0x11; 20]);
    assert_eq!(
        events,
        vec![
            RuntimeEvent::PeerDisconnected { torrent: id, addr: a },
            RuntimeEvent::SourceQuarantined { torrent: id, source: "10.0.0.1:6881".to_string() },
            RuntimeEvent::SourceQuarantined { torrent: id, source: "10.0.0.3:6881".to_string() },
        ]
    );
    assert_eq!(roster.connected_count(), 0);
    let source = task.sources().id_for_endpoint(&SourceEndpoint::Peer(a)).unwrap();
    assert_eq!(task.sources().state(source).unwrap(), SourceState::Quarantined);
    assert_eq!(task.verified_bytes(), 0);
}
