use styx_runtime::{
    after_peer_attempt, failure_report, peer_round_outcome, seed_after_resume, stalled_reason,
    web_seed_failure, web_seeds_exhausted, BgEvent, DownloadStep, PeerAttempt, PeerRound,
    ResumeSummary, RuntimeError, RuntimeEvent, TimeSpan, TorrentId, TorrentPlan, TorrentStatus,
    TorrentTask,
};

fn plan() -> TorrentPlan {
    TorrentPlan {
        id: TorrentId::new([0x22; 20]),
        name: "seed".to_string(),
        total_size: 40000,
        piece_length: 16384,
        piece_count: 3,
        private: false,
        announce_urls: Vec::new(),
        web_seed_urls: Vec::new(),
    }
}

#[test]
fn complete_data_starts_seeding() {
    let mut task = TorrentTask::new(plan());
    let summary = ResumeSummary { verified: 3, missing: 0, failed: 0 };
    let events = seed_after_resume(&mut task, &summary).ok().unwrap();
    assert_eq!(
        events,
        vec![RuntimeEvent::StateChanged {
            torrent: TorrentId::new([0x22; 20]),
            from: TorrentStatus::Complete,
            to: TorrentStatus::Seeding,
        }]
    );
    assert_eq!(task.status(), TorrentStatus::Seeding);
    assert_eq!(task.verified_bytes(), 40000);
}

#[test]
fn incomplete_data_is_not_seeded() {
    for summary in [
        ResumeSummary { verified: 2, missing: 1, failed: 0 },
        ResumeSummary { verified: 3, missing: 0, failed: 1 },
        ResumeSummary { verified: 4, missing: 0, failed: 0 },
    ] {
        let mut task = TorrentTask::new(plan());
        match seed_after_resume(&mut task, &summary) {
            Err(BgEvent::Failed { id, reason }) => {
                assert_eq!(id, TorrentId::new([0x22; 20]));
                assert_eq!(reason, "seed data failed resume verification");
            }
            other => panic!("unexpected {other:?}"),
        }
        assert_eq!(task.status(), TorrentStatus::Checking);
    }
}

#[test]
fn worker_failures_carry_the_error_text() {
    let id = TorrentId::new([0x22; 20]);
    match failure_report(id, &RuntimeError::InvalidConfig("listen_port must be greater than zero")) {
        BgEvent::Failed { id: got, reason } => {
            assert_eq!(got, id);
            assert_eq!(reason, "invalid runtime config: listen_port must be greater than zero");
        }
        other => panic!("unexpected {other:?}"),
    }
}

#[test]
fn downloads_fall_back_to_web_seeds() {
    assert_eq!(after_peer_attempt(PeerAttempt::Completed, true), DownloadStep::Done);
    assert_eq!(after_peer_attempt(PeerAttempt::Unavailable, false), DownloadStep::TryWebSeeds);
    assert_eq!(
        after_peer_attempt(PeerAttempt::Failed("no peers".to_string()), true),
        DownloadStep::TryWebSeeds
    );
    assert_eq!(
        after_peer_attempt(PeerAttempt::Failed("no peers".to_string()), false),
        DownloadStep::GiveUp { reason: "no peers".to_string() }
    );
}

#[test]
fn peer_rounds_end_on_completion_or_stall() {
    let timeout = TimeSpan::from_secs(30);
    let idle = TimeSpan::from_secs(31);
    assert_eq!(
        peer_round_outcome(true, TorrentStatus::Complete, idle, timeout),
        PeerRound::Completed { report: false }
    );
    assert_eq!(
        peer_round_outcome(false, TorrentStatus::Complete, idle, timeout),
        PeerRound::Completed { report: true }
    );
    assert_eq!(peer_round_outcome(false, TorrentStatus::Downloading, idle, timeout), PeerRound::Stalled);
    assert_eq!(
        peer_round_outcome(false, TorrentStatus::Downloading, TimeSpan::from_secs(30), timeout),
        PeerRound::Stalled
    );
    assert_eq!(
        peer_round_outcome(false, TorrentStatus::Downloading, TimeSpan::from_secs(29), timeout),
        PeerRound::GoOn
    );
    assert_eq!(stalled_reason(), "peer download made no progress before timeout");
}

#[test]
fn web_seed_reports() {
    let id = TorrentId::new([0x22; 20]);
    match web_seed_failure(id, "http://seed.example/file", &RuntimeError::NoWebSeeds) {
        BgEvent::SourceFailed { id: got, source, reason } => {
            assert_eq!(got, id);
            assert_eq!(source, "http://seed.example/file");
            assert_eq!(reason, RuntimeError::NoWebSeeds.message());
        }
        other => panic!("unexpected {other:?}"),
    }
    match web_seeds_exhausted(id) {
        BgEvent::Failed { id: got, reason } => {
            assert_eq!(got, id);
            assert_eq!(reason, "all web seeds failed");
        }
        other => panic!("unexpected {other:?}"),
    }
}

#[test]
fn piece_bytes_move_a_checking_torrent_to_downloading() {
    let mut task = TorrentTask::new(plan());
    let id = TorrentId::new([0x22; 20]);
    assert_eq!(
        task.begin_piece_bytes(2),
        Err(RuntimeError::InvalidConfig("piece byte count mismatch"))
    );
    assert_eq!(task.status(), TorrentStatus::Checking);
    let (events, saved) = task.begin_piece_bytes(3).unwrap();
    assert_eq!(saved, TorrentStatus::Checking);
    assert_eq!(
        events,
        vec![
            RuntimeEvent::StateChanged { torrent: id, from: TorrentStatus::Checking, to: TorrentStatus::Discovering },
            RuntimeEvent::StateChanged { torrent: id, from: TorrentStatus::Discovering, to: TorrentStatus::Downloading },
        ]
    );
    assert_eq!(task.status(), TorrentStatus::Downloading);
    // The bytes were refused: the torrent goes back to where it was.
    task.restore_status(saved);
    assert_eq!(task.status(), TorrentStatus::Checking);
}

#[test]
fn all_pieces_verified_complete_the_torrent() {
    let mut task = TorrentTask::new(plan());
    let id = TorrentId::new([0x22; 20]);
    task.begin_piece_bytes(3).unwrap();
    assert_eq!(task.finish_piece_bytes(2), Ok(Vec::new()));
    assert_eq!(
        task.finish_piece_bytes(3),
        Ok(vec![
            RuntimeEvent::StateChanged { torrent: id, from: TorrentStatus::Downloading, to: TorrentStatus::Complete },
            RuntimeEvent::TaskCompleted { torrent: id },
            RuntimeEvent::StateChanged { torrent: id, from: TorrentStatus::Complete, to: TorrentStatus::Seeding },
        ])
    );
    let mut paused = TorrentTask::new(plan());
    paused.begin_piece_bytes(3).unwrap();
    paused.transition(TorrentStatus::Paused).unwrap();
    assert_eq!(
        paused.finish_piece_bytes(3),
        Err(RuntimeError::InvalidConfig("illegal torrent state transition"))
    );
    assert_eq!(paused.status(), TorrentStatus::Paused);
}
