use styx_runtime::{
    restore_step, PersistentTorrent, PersistentTorrentSource, PersistentTorrentState,
    RestoreStep, ResumeRefusal, TorrentBook, TorrentId, PERSISTENT_STATE_SCHEMA_VERSION,
};

fn file_record(path: &str, state: PersistentTorrentState) -> PersistentTorrent {
    PersistentTorrent {
        source: PersistentTorrentSource::File { path: path.to_string() },
        destination: "/downloads".to_string(),
        state,
        added_at_unix: 0,
        completed_at_unix: None,
    }
}

fn magnet_record() -> PersistentTorrent {
    PersistentTorrent {
        source: PersistentTorrentSource::Magnet {
            uri: "magnet:?xt=urn:btih:0000000000000000000000000000000000000000".to_string(),
        },
        destination: "/downloads".to_string(),
        state: PersistentTorrentState::Queued,
        added_at_unix: 0,
        completed_at_unix: None,
    }
}

#[test]
fn book_saves_records_in_info_hash_order() {
    let mut book = TorrentBook::new();
    book.insert(TorrentId::new([3; 20]), file_record("c.torrent", PersistentTorrentState::Downloading));
    book.insert(TorrentId::new([1; 20]), file_record("a.torrent", PersistentTorrentState::Paused));
    book.insert(TorrentId::new([2; 20]), file_record("b.torrent", PersistentTorrentState::Queued));
    let state = book.persistent_state();
    assert_eq!(state.schema_version, PERSISTENT_STATE_SCHEMA_VERSION);
    let paths: Vec<String> = state
        .torrents
        .iter()
        .map(|t| match &t.source {
            PersistentTorrentSource::File { path } => path.clone(),
            PersistentTorrentSource::Magnet { uri } => uri.clone(),
        })
        .collect();
    assert_eq!(paths, vec!["a.torrent", "b.torrent", "c.torrent"]);
}

#[test]
fn book_insert_replaces_an_earlier_record() {
    let mut book = TorrentBook::new();
    let id = TorrentId::new([7; 20]);
    book.insert(id, file_record("old.torrent", PersistentTorrentState::Queued));
    book.insert(id, file_record("new.torrent", PersistentTorrentState::Paused));
    assert_eq!(book.len(), 1);
    assert_eq!(
        book.get(&id),
        Some(&file_record("new.torrent", PersistentTorrentState::Paused))
    );
}

#[test]
fn book_remove_hands_back_the_record() {
    let mut book = TorrentBook::new();
    let id = TorrentId::new([7; 20]);
    book.insert(id, magnet_record());
    assert!(book.contains(&id));
    assert_eq!(book.remove(&id), Some(magnet_record()));
    assert!(!book.contains(&id));
    assert_eq!(book.remove(&id), None);
    assert!(book.persistent_state().torrents.is_empty());
}

#[test]
fn book_state_changes_touch_one_record() {
    let mut book = TorrentBook::new();
    let a = TorrentId::new([1; 20]);
    let b = TorrentId::new([2; 20]);
    book.insert(a, file_record("a.torrent", PersistentTorrentState::Downloading));
    book.insert(b, file_record("b.torrent", PersistentTorrentState::Downloading));
    assert!(book.set_state(&a, PersistentTorrentState::Paused));
    assert!(book.mark_complete(&b));
    assert_eq!(book.get(&a).unwrap().state, PersistentTorrentState::Paused);
    let done = book.get(&b).unwrap();
    assert_eq!(done.state, PersistentTorrentState::Complete);
    assert_eq!(done.completed_at_unix, Some(0));
    assert!(!book.set_state(&TorrentId::new([9; 20]), PersistentTorrentState::Failed));
    assert_eq!(book.len(), 2);
}

#[test]
fn book_resume_refuses_unresolved_magnets() {
    let mut book = TorrentBook::new();
    let magnet = TorrentId::new([1; 20]);
    let file = TorrentId::new([2; 20]);
    book.insert(magnet, magnet_record());
    book.insert(file, file_record("f.torrent", PersistentTorrentState::Paused));
    assert_eq!(
        book.record_resumed(&magnet, false),
        Err(ResumeRefusal::MagnetUnresolved)
    );
    assert_eq!(book.get(&magnet), Some(&magnet_record()));
    assert_eq!(book.record_resumed(&file, false), Ok(()));
    assert_eq!(book.get(&file).unwrap().state, PersistentTorrentState::Downloading);
    assert_eq!(book.record_resumed(&file, true), Ok(()));
    assert_eq!(book.get(&file).unwrap().state, PersistentTorrentState::Complete);
    assert_eq!(book.record_resumed(&TorrentId::new([5; 20]), true), Ok(()));
}

#[test]
fn saved_torrents_are_restored_by_their_state() {
    assert_eq!(restore_step(&magnet_record()), RestoreStep::AwaitMagnet);
    assert_eq!(
        restore_step(&file_record("x", PersistentTorrentState::Paused)),
        RestoreStep::StartPaused
    );
    assert_eq!(
        restore_step(&file_record("x", PersistentTorrentState::Complete)),
        RestoreStep::VerifyComplete
    );
    for state in [
        PersistentTorrentState::Queued,
        PersistentTorrentState::Downloading,
        PersistentTorrentState::Failed,
    ] {
        assert_eq!(
            restore_step(&file_record("x", state)),
            RestoreStep::VerifyAndDownload
        );
    }
}
