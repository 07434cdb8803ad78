use vstd::prelude::*;

use crate::error::RuntimeError;
use crate::time::TimeSpan;

verus! {

/// What a smoke run fetches.
#[derive(Clone, Copy, Debug, PartialEq, Eq, Structural)]
pub enum SmokeTarget {
    FirstPiece,
}

impl Default for SmokeTarget {
    fn default() -> (target: SmokeTarget)
        ensures
            target == SmokeTarget::FirstPiece,
    {
        SmokeTarget::FirstPiece
    }
}

/// The stages a smoke run goes through.
#[derive(Clone, Copy, Debug, PartialEq, Eq, Structural)]
pub enum SmokeStage {
    LoadingTorrent,
    Announcing,
    ConnectingPeer,
    Handshaking,
    DownloadingPiece,
    Verifying,
    Verified,
}

/// The name of each stage.
pub open spec fn stage_name(stage: SmokeStage) -> Seq<char> {
    match stage {
        SmokeStage::LoadingTorrent => "loading_torrent"@,
        SmokeStage::Announcing => "announcing"@,
        SmokeStage::ConnectingPeer => "connecting_peer"@,
        SmokeStage::Handshaking => "handshaking"@,
        SmokeStage::DownloadingPiece => "downloading_piece"@,
        SmokeStage::Verifying => "verifying"@,
        SmokeStage::Verified => "verified"@,
    }
}

impl SmokeStage {
    /// The stage's name, in snake case.
    pub fn as_str(self) -> (name: &'static str)
        ensures
            name@ == stage_name(self),
    {
        match self {
            SmokeStage::LoadingTorrent => "loading_torrent",
            SmokeStage::Announcing => "announcing",
            SmokeStage::ConnectingPeer => "connecting_peer",
            SmokeStage::Handshaking => "handshaking",
            SmokeStage::DownloadingPiece => "downloading_piece",
            SmokeStage::Verifying => "verifying",
            SmokeStage::Verified => "verified",
        }
    }
}

/// The limits of a smoke or download run.
#[derive(Clone, Copy, Debug, PartialEq, Eq, Structural)]
pub struct SmokeConfig {
    pub connect_timeout: TimeSpan,
    pub peer_message_timeout: TimeSpan,
    pub max_tracker_response_bytes: usize,
    pub numwant: u32,
    pub target: SmokeTarget,
}

impl Default for SmokeConfig {
    /// Ten seconds to connect, fifteen for a peer message, half a megabyte
    /// of tracker response, thirty peers wanted, the first piece.
    fn default() -> (config: SmokeConfig)
        ensures
            config.connect_timeout@ == 10_000_000_000,
            config.peer_message_timeout@ == 15_000_000_000,
            config.max_tracker_response_bytes == 524288,
            config.numwant == 30,
            config.target == SmokeTarget::FirstPiece,
    {
        SmokeConfig {
            connect_timeout: TimeSpan::from_secs(10),
            peer_message_timeout: TimeSpan::from_secs(15),
            max_tracker_response_bytes: 512 * 1024,
            numwant: 30,
            target: SmokeTarget::default(),
        }
    }
}

impl SmokeConfig {
    /// The first limit that is zero, in the order they are checked.
    pub open spec fn spec_error(self) -> Option<RuntimeError> {
        if self.connect_timeout@ == 0 {
            Some(RuntimeError::InvalidConfig("connect_timeout must be greater than zero"))
        } else if self.peer_message_timeout@ == 0 {
            Some(RuntimeError::InvalidConfig("peer_message_timeout must be greater than zero"))
        } else if self.max_tracker_response_bytes == 0 {
            Some(RuntimeError::InvalidConfig("max_tracker_response_bytes must be greater than zero"))
        } else if self.numwant == 0 {
            Some(RuntimeError::InvalidConfig("numwant must be greater than zero"))
        } else {
            None
        }
    }

    /// Accepts limits that are all nonzero, or reports the first that is zero.
    pub fn validate(&self) -> (res: Result<(), RuntimeError>)
        ensures
            res == (match self.spec_error() {
                Some(e) => Err(e),
                None => Ok(()),
            }),
    {
        if self.connect_timeout.is_zero() {
            return Err(RuntimeError::InvalidConfig("connect_timeout must be greater than zero"));
        }
        if self.peer_message_timeout.is_zero() {
            return Err(RuntimeError::InvalidConfig("peer_message_timeout must be greater than zero"));
        }
        if self.max_tracker_response_bytes == 0 {
            return Err(RuntimeError::InvalidConfig("max_tracker_response_bytes must be greater than zero"));
        }
        if self.numwant == 0 {
            return Err(RuntimeError::InvalidConfig("numwant must be greater than zero"));
        }
        Ok(())
    }
}

/// The first failing check of a run's limits and port.
pub open spec fn run_error(limits: SmokeConfig, listen_port: u16) -> Option<RuntimeError> {
    match limits.spec_error() {
        Some(e) => Some(e),
        None => if listen_port == 0 {
            Some(RuntimeError::InvalidConfig("listen_port must be greater than zero"))
        } else {
            None
        },
    }
}

fn validate_run(limits: &SmokeConfig, listen_port: u16) -> (res: Result<(), RuntimeError>)
    ensures
        res == (match run_error(*limits, listen_port) {
            Some(e) => Err(e),
            None => Ok(()),
        }),
{
    limits.validate()?;
    if listen_port == 0 {
        return Err(RuntimeError::InvalidConfig("listen_port must be greater than zero"));
    }
    Ok(())
}

/// The port runs listen on unless told otherwise.
pub const DEFAULT_LISTEN_PORT: u16 = 6881;

/// A full download of one torrent into a destination.
#[derive(Clone, Debug, PartialEq, Eq)]
pub struct DownloadRunConfig {
    pub torrent_path: String,
    pub destination: String,
    pub listen_port: u16,
    pub limits: SmokeConfig,
}

impl DownloadRunConfig {
    /// A run on the given paths with the default port and limits.
    pub fn default_for_paths(torrent_path: String, destination: String) -> (config: DownloadRunConfig)
        ensures
            config.torrent_path == torrent_path,
            config.destination == destination,
            config.listen_port == DEFAULT_LISTEN_PORT,
            config.limits.connect_timeout@ == 10_000_000_000,
            config.limits.peer_message_timeout@ == 15_000_000_000,
            config.limits.max_tracker_response_bytes == 524288,
            config.limits.numwant == 30,
            config.limits.target == SmokeTarget::FirstPiece,
    {
        DownloadRunConfig { torrent_path, destination, listen_port: DEFAULT_LISTEN_PORT, limits: SmokeConfig::default() }
    }

    /// Checks the limits, then the port.
    pub fn validate(&self) -> (res: Result<(), RuntimeError>)
        ensures
            res == (match run_error(self.limits, self.listen_port) {
                Some(e) => Err(e),
                None => Ok(()),
            }),
    {
        validate_run(&self.limits, self.listen_port)
    }
}

/// Twenty random bytes.
///
/// Trusted: `rand::random` fills the array; nothing is promised of its bytes.
#[verifier::external_body]
fn random_peer_id_bytes() -> (bytes: [u8; 20]) {
    rand::random()
}

/// A run that fetches and checks one piece of a torrent.
#[derive(Clone, Debug, PartialEq, Eq)]
pub struct SmokeRunConfig {
    pub torrent_path: String,
    pub destination: String,
    pub listen_port: u16,
    pub peer_id: [u8; 20],
    pub limits: SmokeConfig,
}

impl SmokeRunConfig {
    /// A run on the given paths with the default port and limits and a
    /// random peer id.
    pub fn default_for_paths(torrent_path: String, destination: String) -> (config: SmokeRunConfig)
        ensures
            config.torrent_path == torrent_path,
            config.destination == destination,
            config.listen_port == DEFAULT_LISTEN_PORT,
            config.limits.connect_timeout@ == 10_000_000_000,
            config.limits.peer_message_timeout@ == 15_000_000_000,
            config.limits.max_tracker_response_bytes == 524288,
            config.limits.numwant == 30,
            config.limits.target == SmokeTarget::FirstPiece,
    {
        SmokeRunConfig {
            torrent_path,
            destination,
            listen_port: DEFAULT_LISTEN_PORT,
            peer_id: random_peer_id_bytes(),
            limits: SmokeConfig::default(),
        }
    }

    /// Checks the limits, then the port.
    pub fn validate(&self) -> (res: Result<(), RuntimeError>)
        ensures
            res == (match run_error(self.limits, self.listen_port) {
                Some(e) => Err(e),
                None => Ok(()),
            }),
    {
        validate_run(&self.limits, self.listen_port)
    }
}

/// How a smoke run ended: the piece it checked and its size.
#[derive(Clone, Copy, Debug, PartialEq, Eq, Structural)]
pub enum SmokeOutcome {
    Verified { piece: u32, bytes: u64 },
}

/// How a download ended: how many pieces and bytes it completed.
#[derive(Clone, Copy, Debug, PartialEq, Eq, Structural)]
pub enum DownloadOutcome {
    Complete { pieces: u32, bytes: u64 },
}

impl DownloadOutcome {
    pub fn pieces(&self) -> (pieces: u32)
        ensures
            pieces == self->pieces,
    {
        match self {
            DownloadOutcome::Complete { pieces, .. } => *pieces,
        }
    }

    pub fn bytes(&self) -> (bytes: u64)
        ensures
            bytes == self->bytes,
    {
        match self {
            DownloadOutcome::Complete { bytes, .. } => *bytes,
        }
    }
}

impl SmokeOutcome {
    pub fn piece(&self) -> (piece: u32)
        ensures
            piece == self->piece,
    {
        match self {
            SmokeOutcome::Verified { piece, .. } => *piece,
        }
    }

    pub fn bytes(&self) -> (bytes: u64)
        ensures
            bytes == self->bytes,
    {
        match self {
            SmokeOutcome::Verified { bytes, .. } => *bytes,
        }
    }
}

/// How a smoke run ends when no peer and no web seed gave the piece: with
/// no attempt made at all there were no peers; otherwise the last attempt's
/// error is reported.
pub fn smoke_failure(last_error: Option<String>) -> (err: RuntimeError)
    ensures
        match last_error {
            None => err == RuntimeError::NoPeers,
            Some(e) => err matches RuntimeError::AllPeersFailed { last_error: t } && t@ == e@,
        },
{
    match last_error {
        None => RuntimeError::NoPeers,
        Some(e) => RuntimeError::AllPeersFailed { last_error: e },
    }
}

/// How trying a torrent's web seeds for the smoke piece ends when none gave
/// it: the last seed's error, or that no attempt was made.
pub fn web_seed_smoke_failure(last_error: Option<String>) -> (err: RuntimeError)
    ensures
        err matches RuntimeError::AllPeersFailed { last_error: t } && t@ == match last_error {
            Some(e) => e@,
            None => "no web seed attempts were made"@,
        },
{
    match last_error {
        Some(e) => RuntimeError::AllPeersFailed { last_error: e },
        None => RuntimeError::AllPeersFailed { last_error: String::from_str("no web seed attempts were made") },
    }
}

/// Adds a downloaded block's length to the running byte count, refusing a
/// count that would not fit in 64 bits.
pub fn count_downloaded(bytes: u64, payload_len: usize) -> (res: Result<u64, RuntimeError>)
    ensures
        bytes + payload_len <= u64::MAX ==> res == Ok::<u64, RuntimeError>((bytes + payload_len) as u64),
        bytes + payload_len > u64::MAX ==> res == Err::<u64, RuntimeError>(
            RuntimeError::InvalidConfig("downloaded byte count overflow"),
        ),
{
    match bytes.checked_add(payload_len as u64) {
        Some(total) => Ok(total),
        None => Err(RuntimeError::InvalidConfig("downloaded byte count overflow")),
    }
}

/// The outcome of checking the smoke piece: its size when its hash matched,
/// the mismatch otherwise.
pub fn smoke_verdict(hash_matched: bool, piece: u32, bytes: u64) -> (res: Result<SmokeOutcome, RuntimeError>)
    ensures
        hash_matched ==> res == Ok::<SmokeOutcome, RuntimeError>(SmokeOutcome::Verified { piece, bytes }),
        !hash_matched ==> res == Err::<SmokeOutcome, RuntimeError>(RuntimeError::PieceHashMismatch { piece }),
{
    if hash_matched {
        Ok(SmokeOutcome::Verified { piece, bytes })
    } else {
        Err(RuntimeError::PieceHashMismatch { piece })
    }
}

} // verus!
