use styx_runtime::{
    downloads_to_start,
    record_file_add, record_magnet_add,
    settle_pause, settle_remove, PersistentTorrent, PersistentTorrentSource, PersistentTorrentState,
    TorrentBook,
    session_totals, SessionTotals,
    app_notice_for, app_refusal, app_status, AppNotice, AppRefusal, AppStatus, RuntimeError,
    RuntimeEvent, RuntimeSnapshot, TorrentId, TorrentSnapshot, TorrentStatus,
};

fn snapshot() -> RuntimeSnapshot {
    RuntimeSnapshot {
        torrents: vec![
            TorrentSnapshot::new(TorrentId::new([1; 20]), "one".to_string(), 10),
            TorrentSnapshot::new(TorrentId::new([2; 20]), "two".to_string(), 20),
            TorrentSnapshot::new(TorrentId::new([2; 20]), "later".to_string(), 20),
        ],
        peers: Vec::new(),
        events: Vec::new(),
    }
}

#[test]
fn statuses_show_as_the_application_groups_them() {
    assert_eq!(app_status(TorrentStatus::Checking), AppStatus::Checking);
    assert_eq!(app_status(TorrentStatus::Discovering), AppStatus::Checking);
    assert_eq!(app_status(TorrentStatus::Downloading), AppStatus::Downloading);
    assert_eq!(app_status(TorrentStatus::Paused), AppStatus::Paused);
    assert_eq!(app_status(TorrentStatus::Complete), AppStatus::Seeding);
    assert_eq!(app_status(TorrentStatus::Seeding), AppStatus::Seeding);
    assert_eq!(app_status(TorrentStatus::Failed), AppStatus::Error);
    assert_eq!(app_status(TorrentStatus::Cancelled), AppStatus::Error);
}

#[test]
fn notices_carry_names_from_the_snapshot() {
    let snap = snapshot();
    let two = TorrentId::new([2; 20]);
    assert_eq!(
        app_notice_for(&RuntimeEvent::TorrentAdded { torrent: two }, &snap),
        Some(AppNotice::TorrentAdded { info_hash: two, name: "two".to_string() })
    );
    let missing = TorrentId::new([9; 20]);
    assert_eq!(
        app_notice_for(&RuntimeEvent::TaskCompleted { torrent: missing }, &snap),
        Some(AppNotice::TorrentCompleted { info_hash: missing, name: String::new() })
    );
    assert_eq!(
        app_notice_for(&RuntimeEvent::TorrentRemoved { torrent: two }, &snap),
        Some(AppNotice::TorrentRemoved { info_hash: two })
    );
    assert_eq!(
        app_notice_for(&RuntimeEvent::PieceVerified { torrent: two, piece: 0, bytes: 1 }, &snap),
        None
    );
}

#[test]
fn refusals_sort_runtime_errors() {
    assert_eq!(
        app_refusal(&RuntimeError::InvalidConfig("destination required")),
        AppRefusal::InvalidCommand("destination required".to_string())
    );
    assert_eq!(
        app_refusal(&RuntimeError::Magnet("bad link".to_string())),
        AppRefusal::InvalidCommand("bad link".to_string())
    );
    assert_eq!(
        app_refusal(&RuntimeError::Backpressure { stage: "engine" }),
        AppRefusal::Backpressure
    );
    assert_eq!(
        app_refusal(&RuntimeError::NoPeers),
        AppRefusal::Internal(RuntimeError::NoPeers.message())
    );
}

#[test]
fn session_totals_add_up_the_torrents() {
    let mut snap = snapshot();
    snap.torrents[0].down_rate = 100;
    snap.torrents[0].up_rate = 5;
    snap.torrents[1].down_rate = 23;
    snap.torrents[2].up_rate = 7;
    assert_eq!(
        session_totals(&snap),
        SessionTotals { torrent_count: 3, peer_count: 0, down_bytes: 123, up_bytes: 12 }
    );
}

fn record(state: PersistentTorrentState) -> PersistentTorrent {
    PersistentTorrent {
        source: PersistentTorrentSource::File { path: "a.torrent".to_string() },
        destination: "/d".to_string(),
        state,
        added_at_unix: 0,
        completed_at_unix: None,
    }
}

#[test]
fn pauses_are_recorded_only_when_the_runtime_took_them() {
    let id = TorrentId::new([1; 20]);
    let mut book = TorrentBook::new();
    book.insert(id, record(PersistentTorrentState::Downloading));
    assert_eq!(
        settle_pause(&mut book, &id, Err(RuntimeError::InvalidConfig("unknown torrent")), false),
        Err(AppRefusal::InvalidCommand("unknown torrent".to_string()))
    );
    assert_eq!(book.get(&id).unwrap().state, PersistentTorrentState::Downloading);
    assert_eq!(settle_pause(&mut book, &id, Ok(()), true), Ok(true));
    assert_eq!(book.get(&id).unwrap().state, PersistentTorrentState::Paused);
}

#[test]
fn removals_forget_the_record_whatever_the_runtime_says() {
    let id = TorrentId::new([1; 20]);
    let mut book = TorrentBook::new();
    book.insert(id, record(PersistentTorrentState::Paused));
    assert_eq!(
        settle_remove(&mut book, &id, Err(RuntimeError::InvalidConfig("unknown torrent"))),
        Err(AppRefusal::InvalidCommand("unknown torrent".to_string()))
    );
    assert!(!book.contains(&id));
    assert_eq!(settle_remove(&mut book, &id, Ok(())), Ok(()));
}

#[test]
fn added_torrents_are_recorded_by_their_source() {
    let id = TorrentId::new([1; 20]);
    let mut book = TorrentBook::new();
    record_file_add(&mut book, id, "a.torrent".to_string(), "/d".to_string());
    assert_eq!(book.get(&id), Some(&record(PersistentTorrentState::Downloading)));
    assert_eq!(
        record_magnet_add(&mut book, id, "magnet:?xt=urn:btih:01".to_string(), "/d".to_string()),
        Err(AppRefusal::InvalidCommand("torrent already exists".to_string()))
    );
    let other = TorrentId::new([2; 20]);
    assert_eq!(
        record_magnet_add(&mut book, other, "magnet:?xt=urn:btih:02".to_string(), "/d".to_string()),
        Ok(())
    );
    assert_eq!(book.get(&other).unwrap().state, PersistentTorrentState::Queued);
}

#[test]
fn ticks_start_planned_discovering_downloads_once() {
    let mut snap = snapshot();
    let one = TorrentId::new([1; 20]);
    let two = TorrentId::new([2; 20]);
    snap.torrents[0].status = TorrentStatus::Discovering;
    snap.torrents[1].status = TorrentStatus::Discovering;
    snap.torrents[2].status = TorrentStatus::Downloading;
    assert_eq!(downloads_to_start(&snap, &Vec::new(), &vec![one, two]), vec![one, two]);
    assert_eq!(downloads_to_start(&snap, &vec![one], &vec![one, two]), vec![two]);
    assert_eq!(downloads_to_start(&snap, &Vec::new(), &vec![two]), vec![two]);
    assert_eq!(downloads_to_start(&snap, &Vec::new(), &Vec::new()), Vec::<TorrentId>::new());
}
