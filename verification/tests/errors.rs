use styx_runtime::{FailureScope, RetryClass, RuntimeError};

#[test]
fn partial_eq_torrent_variant_compares_inner_value() {
    let a = RuntimeError::Torrent("missing info".to_string());
    let b = RuntimeError::Torrent("missing info".to_string());
    let c = RuntimeError::Torrent("missing field name in info".to_string());
    assert_eq!(a, b);
    assert_ne!(a, c);
}

#[test]
fn partial_eq_disk_variant_compares_inner_value() {
    let a = RuntimeError::Disk("hash mismatch".to_string());
    let b = RuntimeError::Disk("hash mismatch".to_string());
    let c = RuntimeError::Disk("invalid piece length".to_string());
    assert_eq!(a, b);
    assert_ne!(a, c);
}

#[test]
fn partial_eq_io_variant_uses_discriminant() {
    let a = RuntimeError::Io;
    let b = RuntimeError::Io;
    let c = RuntimeError::Io;
    assert_eq!(a, b);
    assert_eq!(a, c);
    assert_ne!(a, RuntimeError::Cancelled);
}

#[test]
fn partial_eq_tracker_uses_discriminant() {
    let a = RuntimeError::Tracker;
    let b = RuntimeError::Tracker;
    assert_eq!(a, b);
    assert_ne!(a, RuntimeError::Cancelled);
}

#[test]
fn partial_eq_peer_wire_uses_discriminant() {
    let a = RuntimeError::PeerWire;
    let b = RuntimeError::PeerWire;
    assert_eq!(a, b);
    assert_ne!(a, RuntimeError::Cancelled);
}

#[test]
fn partial_eq_existing_unit_variants_still_work() {
    assert_eq!(RuntimeError::Cancelled, RuntimeError::Cancelled);
    assert_eq!(RuntimeError::NoHttpTracker, RuntimeError::NoHttpTracker);
    assert_eq!(RuntimeError::PeerChoked, RuntimeError::PeerChoked);
    assert_eq!(RuntimeError::NoWebSeeds, RuntimeError::NoWebSeeds);
    assert_ne!(RuntimeError::Cancelled, RuntimeError::NoHttpTracker);
    assert_ne!(RuntimeError::NoWebSeeds, RuntimeError::NoPeers);
}

#[test]
fn no_web_seeds_error_string() {
    assert_eq!(
        RuntimeError::NoWebSeeds.message(),
        "torrent does not contain any web seed URLs"
    );
}

#[test]
fn no_web_seeds_scope_and_retry() {
    assert_eq!(RuntimeError::NoWebSeeds.scope(), FailureScope::TorrentGlobal);
    assert_eq!(RuntimeError::NoWebSeeds.retry_class(), RetryClass::Terminal);
}

#[test]
fn structured_failures_compare_every_field() {
    let a = RuntimeError::InvalidWebSeedLength { piece: 1, expected: 10, actual: 9 };
    assert_eq!(a, RuntimeError::InvalidWebSeedLength { piece: 1, expected: 10, actual: 9 });
    assert_ne!(a, RuntimeError::InvalidWebSeedLength { piece: 1, expected: 10, actual: 8 });
    let s = RuntimeError::SourceFailed {
        source_id: "source:1".to_string(),
        scope: FailureScope::SourceLocal,
        retry: RetryClass::Retryable,
        reason: "timeout".to_string(),
    };
    assert_eq!(s.scope(), FailureScope::SourceLocal);
    assert_eq!(s.retry_class(), RetryClass::Retryable);
    assert_eq!(
        s.message(),
        "SourceLocal source `source:1` failed (Retryable): timeout"
    );
}

#[test]
fn messages_follow_the_variant() {
    assert_eq!(
        RuntimeError::InvalidWebSeedLength { piece: 3, expected: 16384, actual: 5 }.message(),
        "web seed returned 5 bytes for piece 3, expected 16384"
    );
    assert_eq!(
        RuntimeError::InvalidTrackerUrl { url: "x".to_string() }.message(),
        "invalid tracker URL `x`"
    );
    assert_eq!(
        RuntimeError::PieceHashMismatch { piece: 12 }.message(),
        "piece 12 failed hash verification"
    );
    assert_eq!(RuntimeError::Timeout { stage: "connecting" }.message(), "timed out while connecting");
}

#[test]
fn scopes_and_retry_classes_of_plain_failures() {
    assert_eq!(RuntimeError::Cancelled.scope(), FailureScope::RuntimeGlobal);
    assert_eq!(RuntimeError::Timeout { stage: "x" }.retry_class(), RetryClass::Retryable);
    assert_eq!(RuntimeError::PieceHashMismatch { piece: 0 }.retry_class(), RetryClass::Quarantine);
    assert_eq!(RuntimeError::Io.scope(), FailureScope::SourceLocal);
}

#[test]
fn failures_outside_the_comparison_equal_nothing() {
    assert_ne!(RuntimeError::SourceTableFull, RuntimeError::SourceTableFull);
    assert_ne!(RuntimeError::DuplicateSource, RuntimeError::DuplicateSource);
    assert_ne!(RuntimeError::Persistence("x"), RuntimeError::Persistence("x"));
    assert_ne!(RuntimeError::Magnet("x".to_string()), RuntimeError::Magnet("x".to_string()));
    assert_ne!(RuntimeError::Metadata("x".to_string()), RuntimeError::Metadata("x".to_string()));
    assert_eq!(RuntimeError::Cancelled, RuntimeError::Cancelled);
    assert_eq!(RuntimeError::Disk("x".to_string()), RuntimeError::Disk("x".to_string()));
}
