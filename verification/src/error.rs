use vstd::prelude::*;

use crate::supervision::{FailureReasonCode, ShutdownReport};
use crate::format::{decimal, decimal_string};
use crate::text::str_eq;

verus! {

/// How far the effect of a failure reaches.
#[derive(Clone, Copy, Debug, PartialEq, Eq, Structural)]
pub enum FailureScope {
    SourceLocal,
    TorrentGlobal,
    RuntimeGlobal,
    IntentStage,
}

/// What the runtime may do after a failure.
#[derive(Clone, Copy, Debug, PartialEq, Eq, Structural)]
pub enum RetryClass {
    Retryable,
    Quarantine,
    Terminal,
    Rollbackable,
}

/// Every failure the runtime reports.
///
/// Failures that come from the I/O layer, the tracker client, the peer wire
/// or HTTP carry no payload here: two of them are equal when their kinds are.
#[derive(Clone, Debug, Eq)]
pub enum RuntimeError {
    InvalidConfig(&'static str),
    V2NotSupported,
    NoHttpTracker,
    InvalidTrackerUrl { url: String },
    PeerChoked,
    UnexpectedPeerMessage { stage: &'static str },
    PieceHashMismatch { piece: u32 },
    NoPeers,
    NoWebSeeds,
    AllPeersFailed { last_error: String },
    UnsupportedWebSeedLayout,
    InvalidWebSeedLength { piece: u32, expected: usize, actual: usize },
    Timeout { stage: &'static str },
    SourceFailed { source_id: String, scope: FailureScope, retry: RetryClass, reason: String },
    V2IntegrityCheckFailed(&'static str),
    Backpressure { stage: &'static str },
    Cancelled,
    Io,
    Torrent(String),
    Tracker,
    PeerWire,
    Disk(String),
    Http,
    SourceTableFull,
    DuplicateSource,
    Persistence(&'static str),
    Magnet(String),
    Metadata(String),
    DaemonShutdown { reason: FailureReasonCode, report: Box<ShutdownReport> },
}

/// When two failures are equal: same kind and same details. A full source
/// table, a duplicate source, and persistence, magnet, metadata and daemon
/// shutdown failures are never equal, not even to themselves: tell them
/// apart by matching on them.
pub open spec fn same_failure(a: RuntimeError, b: RuntimeError) -> bool {
    match (a, b) {
        (RuntimeError::InvalidConfig(x), RuntimeError::InvalidConfig(y)) => x@ == y@,
        (RuntimeError::V2NotSupported, RuntimeError::V2NotSupported) => true,
        (RuntimeError::NoHttpTracker, RuntimeError::NoHttpTracker) => true,
        (RuntimeError::InvalidTrackerUrl { url: x }, RuntimeError::InvalidTrackerUrl { url: y }) => x@ == y@,
        (RuntimeError::PeerChoked, RuntimeError::PeerChoked) => true,
        (RuntimeError::UnexpectedPeerMessage { stage: x }, RuntimeError::UnexpectedPeerMessage { stage: y }) => x@ == y@,
        (RuntimeError::PieceHashMismatch { piece: x }, RuntimeError::PieceHashMismatch { piece: y }) => x == y,
        (RuntimeError::NoPeers, RuntimeError::NoPeers) => true,
        (RuntimeError::NoWebSeeds, RuntimeError::NoWebSeeds) => true,
        (RuntimeError::AllPeersFailed { last_error: x }, RuntimeError::AllPeersFailed { last_error: y }) => x@ == y@,
        (RuntimeError::UnsupportedWebSeedLayout, RuntimeError::UnsupportedWebSeedLayout) => true,
        (
            RuntimeError::InvalidWebSeedLength { piece: p1, expected: e1, actual: a1 },
            RuntimeError::InvalidWebSeedLength { piece: p2, expected: e2, actual: a2 },
        ) => p1 == p2 && e1 == e2 && a1 == a2,
        (RuntimeError::Timeout { stage: x }, RuntimeError::Timeout { stage: y }) => x@ == y@,
        (
            RuntimeError::SourceFailed { source_id: s1, scope: c1, retry: r1, reason: n1 },
            RuntimeError::SourceFailed { source_id: s2, scope: c2, retry: r2, reason: n2 },
        ) => s1@ == s2@ && c1 == c2 && r1 == r2 && n1@ == n2@,
        (RuntimeError::V2IntegrityCheckFailed(x), RuntimeError::V2IntegrityCheckFailed(y)) => x@ == y@,
        (RuntimeError::Backpressure { stage: x }, RuntimeError::Backpressure { stage: y }) => x@ == y@,
        (RuntimeError::Cancelled, RuntimeError::Cancelled) => true,
        (RuntimeError::Io, RuntimeError::Io) => true,
        (RuntimeError::Torrent(x), RuntimeError::Torrent(y)) => x@ == y@,
        (RuntimeError::Tracker, RuntimeError::Tracker) => true,
        (RuntimeError::PeerWire, RuntimeError::PeerWire) => true,
        (RuntimeError::Disk(x), RuntimeError::Disk(y)) => x@ == y@,
        (RuntimeError::Http, RuntimeError::Http) => true,
        _ => false,
    }
}

impl PartialEq for RuntimeError {
    fn eq(&self, other: &Self) -> (same: bool) {
        match self {
            RuntimeError::InvalidConfig(x) => match other {
                RuntimeError::InvalidConfig(y) => str_eq(x, y),
                _ => false,
            },
            RuntimeError::V2NotSupported => matches!(other, RuntimeError::V2NotSupported),
            RuntimeError::NoHttpTracker => matches!(other, RuntimeError::NoHttpTracker),
            RuntimeError::InvalidTrackerUrl { url: x } => match other {
                RuntimeError::InvalidTrackerUrl { url: y } => x.eq(y),
                _ => false,
            },
            RuntimeError::PeerChoked => matches!(other, RuntimeError::PeerChoked),
            RuntimeError::UnexpectedPeerMessage { stage: x } => match other {
                RuntimeError::UnexpectedPeerMessage { stage: y } => str_eq(x, y),
                _ => false,
            },
            RuntimeError::PieceHashMismatch { piece: x } => match other {
                RuntimeError::PieceHashMismatch { piece: y } => *x == *y,
                _ => false,
            },
            RuntimeError::NoPeers => matches!(other, RuntimeError::NoPeers),
            RuntimeError::NoWebSeeds => matches!(other, RuntimeError::NoWebSeeds),
            RuntimeError::AllPeersFailed { last_error: x } => match other {
                RuntimeError::AllPeersFailed { last_error: y } => x.eq(y),
                _ => false,
            },
            RuntimeError::UnsupportedWebSeedLayout => matches!(other, RuntimeError::UnsupportedWebSeedLayout),
            RuntimeError::InvalidWebSeedLength { piece: p1, expected: e1, actual: a1 } => match other {
                RuntimeError::InvalidWebSeedLength { piece: p2, expected: e2, actual: a2 } => *p1 == *p2 && *e1 == *e2
                    && *a1 == *a2,
                _ => false,
            },
            RuntimeError::Timeout { stage: x } => match other {
                RuntimeError::Timeout { stage: y } => str_eq(x, y),
                _ => false,
            },
            RuntimeError::SourceFailed { source_id: s1, scope: c1, retry: r1, reason: n1 } => match other {
                RuntimeError::SourceFailed { source_id: s2, scope: c2, retry: r2, reason: n2 } => s1.eq(s2) && *c1
                    == *c2 && *r1 == *r2 && n1.eq(n2),
                _ => false,
            },
            RuntimeError::V2IntegrityCheckFailed(x) => match other {
                RuntimeError::V2IntegrityCheckFailed(y) => str_eq(x, y),
                _ => false,
            },
            RuntimeError::Backpressure { stage: x } => match other {
                RuntimeError::Backpressure { stage: y } => str_eq(x, y),
                _ => false,
            },
            RuntimeError::Cancelled => matches!(other, RuntimeError::Cancelled),
            RuntimeError::Io => matches!(other, RuntimeError::Io),
            RuntimeError::Torrent(x) => match other {
                RuntimeError::Torrent(y) => x.eq(y),
                _ => false,
            },
            RuntimeError::Tracker => matches!(other, RuntimeError::Tracker),
            RuntimeError::PeerWire => matches!(other, RuntimeError::PeerWire),
            RuntimeError::Disk(x) => match other {
                RuntimeError::Disk(y) => x.eq(y),
                _ => false,
            },
            RuntimeError::Http => matches!(other, RuntimeError::Http),
            RuntimeError::SourceTableFull
            | RuntimeError::DuplicateSource
            | RuntimeError::Persistence(_)
            | RuntimeError::Magnet(_)
            | RuntimeError::Metadata(_)
            | RuntimeError::DaemonShutdown { .. } => false,
        }
    }
}

impl vstd::std_specs::cmp::PartialEqSpecImpl for RuntimeError {
    open spec fn obeys_eq_spec() -> bool {
        true
    }

    open spec fn eq_spec(&self, other: &RuntimeError) -> bool {
        same_failure(*self, *other)
    }
}

impl RuntimeError {
    /// The scope of each failure kind.
    pub open spec fn spec_scope(self) -> FailureScope {
        match self {
            RuntimeError::SourceFailed { scope, .. } => scope,
            RuntimeError::Backpressure { .. }
            | RuntimeError::Cancelled
            | RuntimeError::InvalidConfig(_)
            | RuntimeError::Persistence(_)
            | RuntimeError::DaemonShutdown { .. } => FailureScope::RuntimeGlobal,
            RuntimeError::NoHttpTracker
            | RuntimeError::NoPeers
            | RuntimeError::NoWebSeeds
            | RuntimeError::V2NotSupported
            | RuntimeError::V2IntegrityCheckFailed(_)
            | RuntimeError::AllPeersFailed { .. }
            | RuntimeError::UnsupportedWebSeedLayout
            | RuntimeError::PieceHashMismatch { .. }
            | RuntimeError::InvalidWebSeedLength { .. }
            | RuntimeError::SourceTableFull
            | RuntimeError::Magnet(_) => FailureScope::TorrentGlobal,
            RuntimeError::InvalidTrackerUrl { .. }
            | RuntimeError::PeerChoked
            | RuntimeError::UnexpectedPeerMessage { .. }
            | RuntimeError::Timeout { .. }
            | RuntimeError::Io
            | RuntimeError::Torrent(_)
            | RuntimeError::Tracker
            | RuntimeError::PeerWire
            | RuntimeError::Disk(_)
            | RuntimeError::Http
            | RuntimeError::DuplicateSource
            | RuntimeError::Metadata(_) => FailureScope::SourceLocal,
        }
    }

    /// The retry class of each failure kind.
    pub open spec fn spec_retry_class(self) -> RetryClass {
        match self {
            RuntimeError::SourceFailed { retry, .. } => retry,
            RuntimeError::Timeout { .. }
            | RuntimeError::NoPeers
            | RuntimeError::Backpressure { .. }
            | RuntimeError::SourceTableFull => RetryClass::Retryable,
            RuntimeError::PeerChoked => RetryClass::Terminal,
            RuntimeError::PieceHashMismatch { .. }
            | RuntimeError::UnexpectedPeerMessage { .. }
            | RuntimeError::InvalidWebSeedLength { .. } => RetryClass::Quarantine,
            RuntimeError::AllPeersFailed { .. }
            | RuntimeError::NoHttpTracker
            | RuntimeError::NoWebSeeds
            | RuntimeError::V2NotSupported
            | RuntimeError::V2IntegrityCheckFailed(_)
            | RuntimeError::UnsupportedWebSeedLayout
            | RuntimeError::InvalidConfig(_)
            | RuntimeError::InvalidTrackerUrl { .. }
            | RuntimeError::Cancelled
            | RuntimeError::Io
            | RuntimeError::Torrent(_)
            | RuntimeError::Tracker
            | RuntimeError::PeerWire
            | RuntimeError::Disk(_)
            | RuntimeError::Http
            | RuntimeError::DuplicateSource
            | RuntimeError::Persistence(_)
            | RuntimeError::Magnet(_)
            | RuntimeError::Metadata(_)
            | RuntimeError::DaemonShutdown { .. } => RetryClass::Terminal,
        }
    }

    /// How far this failure reaches.
    pub fn scope(&self) -> (scope: FailureScope)
        ensures
            scope == self.spec_scope(),
    {
        match self {
            RuntimeError::SourceFailed { scope, .. } => *scope,
            RuntimeError::Backpressure { .. }
            | RuntimeError::Cancelled
            | RuntimeError::InvalidConfig(_)
            | RuntimeError::Persistence(_)
            | RuntimeError::DaemonShutdown { .. } => FailureScope::RuntimeGlobal,
            RuntimeError::NoHttpTracker
            | RuntimeError::NoPeers
            | RuntimeError::NoWebSeeds
            | RuntimeError::V2NotSupported
            | RuntimeError::V2IntegrityCheckFailed(_)
            | RuntimeError::AllPeersFailed { .. }
            | RuntimeError::UnsupportedWebSeedLayout
            | RuntimeError::PieceHashMismatch { .. }
            | RuntimeError::InvalidWebSeedLength { .. }
            | RuntimeError::SourceTableFull
            | RuntimeError::Magnet(_) => FailureScope::TorrentGlobal,
            RuntimeError::InvalidTrackerUrl { .. }
            | RuntimeError::PeerChoked
            | RuntimeError::UnexpectedPeerMessage { .. }
            | RuntimeError::Timeout { .. }
            | RuntimeError::Io
            | RuntimeError::Torrent(_)
            | RuntimeError::Tracker
            | RuntimeError::PeerWire
            | RuntimeError::Disk(_)
            | RuntimeError::Http
            | RuntimeError::DuplicateSource
            | RuntimeError::Metadata(_) => FailureScope::SourceLocal,
        }
    }

    /// Whether and how this failure may be retried.
    pub fn retry_class(&self) -> (retry: RetryClass)
        ensures
            retry == self.spec_retry_class(),
    {
        match self {
            RuntimeError::SourceFailed { retry, .. } => *retry,
            RuntimeError::Timeout { .. }
            | RuntimeError::NoPeers
            | RuntimeError::Backpressure { .. }
            | RuntimeError::SourceTableFull => RetryClass::Retryable,
            RuntimeError::PeerChoked => RetryClass::Terminal,
            RuntimeError::PieceHashMismatch { .. }
            | RuntimeError::UnexpectedPeerMessage { .. }
            | RuntimeError::InvalidWebSeedLength { .. } => RetryClass::Quarantine,
            RuntimeError::AllPeersFailed { .. }
            | RuntimeError::NoHttpTracker
            | RuntimeError::NoWebSeeds
            | RuntimeError::V2NotSupported
            | RuntimeError::V2IntegrityCheckFailed(_)
            | RuntimeError::UnsupportedWebSeedLayout
            | RuntimeError::InvalidConfig(_)
            | RuntimeError::InvalidTrackerUrl { .. }
            | RuntimeError::Cancelled
            | RuntimeError::Io
            | RuntimeError::Torrent(_)
            | RuntimeError::Tracker
            | RuntimeError::PeerWire
            | RuntimeError::Disk(_)
            | RuntimeError::Http
            | RuntimeError::DuplicateSource
            | RuntimeError::Persistence(_)
            | RuntimeError::Magnet(_)
            | RuntimeError::Metadata(_)
            | RuntimeError::DaemonShutdown { .. } => RetryClass::Terminal,
        }
    }
}

/// The name of a scope, as `Debug` writes it.
pub open spec fn scope_name(scope: FailureScope) -> Seq<char> {
    match scope {
        FailureScope::SourceLocal => "SourceLocal"@,
        FailureScope::TorrentGlobal => "TorrentGlobal"@,
        FailureScope::RuntimeGlobal => "RuntimeGlobal"@,
        FailureScope::IntentStage => "IntentStage"@,
    }
}

fn scope_str(scope: FailureScope) -> (name: &'static str)
    ensures
        name@ == scope_name(scope),
{
    match scope {
        FailureScope::SourceLocal => "SourceLocal",
        FailureScope::TorrentGlobal => "TorrentGlobal",
        FailureScope::RuntimeGlobal => "RuntimeGlobal",
        FailureScope::IntentStage => "IntentStage",
    }
}

/// The name of a retry class, as `Debug` writes it.
pub open spec fn retry_name(retry: RetryClass) -> Seq<char> {
    match retry {
        RetryClass::Retryable => "Retryable"@,
        RetryClass::Quarantine => "Quarantine"@,
        RetryClass::Terminal => "Terminal"@,
        RetryClass::Rollbackable => "Rollbackable"@,
    }
}

fn retry_str(retry: RetryClass) -> (name: &'static str)
    ensures
        name@ == retry_name(retry),
{
    match retry {
        RetryClass::Retryable => "Retryable",
        RetryClass::Quarantine => "Quarantine",
        RetryClass::Terminal => "Terminal",
        RetryClass::Rollbackable => "Rollbackable",
    }
}

/// The name of a failure code, as `Debug` writes it.
pub open spec fn reason_name(reason: FailureReasonCode) -> Seq<char> {
    match reason {
        FailureReasonCode::Cancelled => "Cancelled"@,
        FailureReasonCode::ChannelClosed => "ChannelClosed"@,
        FailureReasonCode::CommandBackpressure => "CommandBackpressure"@,
        FailureReasonCode::WorkerPanicked => "WorkerPanicked"@,
        FailureReasonCode::ShutdownTimeout => "ShutdownTimeout"@,
        FailureReasonCode::PersistenceFailed => "PersistenceFailed"@,
        FailureReasonCode::DhtFailed => "DhtFailed"@,
        FailureReasonCode::LsdFailed => "LsdFailed"@,
    }
}

fn reason_str(reason: FailureReasonCode) -> (name: &'static str)
    ensures
        name@ == reason_name(reason),
{
    match reason {
        FailureReasonCode::Cancelled => "Cancelled",
        FailureReasonCode::ChannelClosed => "ChannelClosed",
        FailureReasonCode::CommandBackpressure => "CommandBackpressure",
        FailureReasonCode::WorkerPanicked => "WorkerPanicked",
        FailureReasonCode::ShutdownTimeout => "ShutdownTimeout",
        FailureReasonCode::PersistenceFailed => "PersistenceFailed",
        FailureReasonCode::DhtFailed => "DhtFailed",
        FailureReasonCode::LsdFailed => "LsdFailed",
    }
}

/// What each failure says to a person.
pub open spec fn error_text(e: RuntimeError) -> Seq<char> {
    match e {
        RuntimeError::InvalidConfig(m) => "invalid runtime config: "@ + m@,
        RuntimeError::V2NotSupported => "v2-only torrents require hybrid support or a v2-capable transport"@,
        RuntimeError::NoHttpTracker => "torrent does not contain an HTTP tracker announce URL"@,
        RuntimeError::InvalidTrackerUrl { url } => "invalid tracker URL `"@ + url@ + "`"@,
        RuntimeError::PeerChoked => "peer choked before serving the smoke piece"@,
        RuntimeError::UnexpectedPeerMessage { stage } => "peer sent unexpected message while "@ + stage@,
        RuntimeError::PieceHashMismatch { piece } => "piece "@ + decimal(piece as nat) + " failed hash verification"@,
        RuntimeError::NoPeers => "tracker announce returned no usable peers"@,
        RuntimeError::NoWebSeeds => "torrent does not contain any web seed URLs"@,
        RuntimeError::AllPeersFailed { last_error } => "all peer smoke attempts failed: "@ + last_error@,
        RuntimeError::UnsupportedWebSeedLayout => "web seed smoke path supports single-file torrents only"@,
        RuntimeError::InvalidWebSeedLength { piece, expected, actual } => "web seed returned "@ + decimal(
            actual as nat,
        ) + " bytes for piece "@ + decimal(piece as nat) + ", expected "@ + decimal(expected as nat),
        RuntimeError::Timeout { stage } => "timed out while "@ + stage@,
        RuntimeError::SourceFailed { source_id, scope, retry, reason } => scope_name(scope) + " source `"@
            + source_id@ + "` failed ("@ + retry_name(retry) + "): "@ + reason@,
        RuntimeError::V2IntegrityCheckFailed(m) => "v2 integrity check failed: "@ + m@,
        RuntimeError::Backpressure { stage } => "runtime backpressure while "@ + stage@,
        RuntimeError::Cancelled => "runtime task was cancelled"@,
        RuntimeError::Io => "I/O error"@,
        RuntimeError::Torrent(m) => m@,
        RuntimeError::Tracker => "tracker error"@,
        RuntimeError::PeerWire => "peer wire error"@,
        RuntimeError::Disk(m) => m@,
        RuntimeError::Http => "HTTP error"@,
        RuntimeError::SourceTableFull => "source table is full"@,
        RuntimeError::DuplicateSource => "source is already known"@,
        RuntimeError::Persistence(m) => "persistence failed: "@ + m@,
        RuntimeError::Magnet(m) => "magnet failed: "@ + m@,
        RuntimeError::Metadata(m) => "metadata exchange failed: "@ + m@,
        RuntimeError::DaemonShutdown { reason, .. } => "daemon shutdown failed: "@ + reason_name(reason),
    }
}

impl RuntimeError {
    /// What the failure says to a person.
    pub fn message(&self) -> (text: String)
        ensures
            text@ == error_text(*self),
    {
        let mut text = String::new();
        match self {
            RuntimeError::InvalidConfig(m) => {
                text.append("invalid runtime config: ");
                text.append(m);
            },
            RuntimeError::V2NotSupported => text.append(
                "v2-only torrents require hybrid support or a v2-capable transport",
            ),
            RuntimeError::NoHttpTracker => text.append("torrent does not contain an HTTP tracker announce URL"),
            RuntimeError::InvalidTrackerUrl { url } => {
                text.append("invalid tracker URL `");
                text.append(url.as_str());
                text.append("`");
            },
            RuntimeError::PeerChoked => text.append("peer choked before serving the smoke piece"),
            RuntimeError::UnexpectedPeerMessage { stage } => {
                text.append("peer sent unexpected message while ");
                text.append(stage);
            },
            RuntimeError::PieceHashMismatch { piece } => {
                text.append("piece ");
                text.append(decimal_string(*piece as u64).as_str());
                text.append(" failed hash verification");
            },
            RuntimeError::NoPeers => text.append("tracker announce returned no usable peers"),
            RuntimeError::NoWebSeeds => text.append("torrent does not contain any web seed URLs"),
            RuntimeError::AllPeersFailed { last_error } => {
                text.append("all peer smoke attempts failed: ");
                text.append(last_error.as_str());
            },
            RuntimeError::UnsupportedWebSeedLayout => text.append(
                "web seed smoke path supports single-file torrents only",
            ),
            RuntimeError::InvalidWebSeedLength { piece, expected, actual } => {
                text.append("web seed returned ");
                text.append(decimal_string(*actual as u64).as_str());
                text.append(" bytes for piece ");
                text.append(decimal_string(*piece as u64).as_str());
                text.append(", expected ");
                text.append(decimal_string(*expected as u64).as_str());
            },
            RuntimeError::Timeout { stage } => {
                text.append("timed out while ");
                text.append(stage);
            },
            RuntimeError::SourceFailed { source_id, scope, retry, reason } => {
                text.append(scope_str(*scope));
                text.append(" source `");
                text.append(source_id.as_str());
                text.append("` failed (");
                text.append(retry_str(*retry));
                text.append("): ");
                text.append(reason.as_str());
            },
            RuntimeError::V2IntegrityCheckFailed(m) => {
                text.append("v2 integrity check failed: ");
                text.append(m);
            },
            RuntimeError::Backpressure { stage } => {
                text.append("runtime backpressure while ");
                text.append(stage);
            },
            RuntimeError::Cancelled => text.append("runtime task was cancelled"),
            RuntimeError::Io => text.append("I/O error"),
            RuntimeError::Torrent(m) => text.append(m.as_str()),
            RuntimeError::Tracker => text.append("tracker error"),
            RuntimeError::PeerWire => text.append("peer wire error"),
            RuntimeError::Disk(m) => text.append(m.as_str()),
            RuntimeError::Http => text.append("HTTP error"),
            RuntimeError::SourceTableFull => text.append("source table is full"),
            RuntimeError::DuplicateSource => text.append("source is already known"),
            RuntimeError::Persistence(m) => {
                text.append("persistence failed: ");
                text.append(m);
            },
            RuntimeError::Magnet(m) => {
                text.append("magnet failed: ");
                text.append(m.as_str());
            },
            RuntimeError::Metadata(m) => {
                text.append("metadata exchange failed: ");
                text.append(m.as_str());
            },
            RuntimeError::DaemonShutdown { reason, .. } => {
                text.append("daemon shutdown failed: ");
                text.append(reason_str(*reason));
            },
        }
        text
    }
}

} // verus!
