use vstd::prelude::*;

use crate::net::SocketAddress;

verus! {

/// A torrent, named by its 20-byte v1 info hash.
#[derive(Clone, Copy, Debug, PartialEq, Eq, Hash)]
pub struct TorrentId([u8; 20]);

impl View for TorrentId {
    type V = Seq<u8>;

    closed spec fn view(&self) -> Seq<u8> {
        self.0@
    }
}

/// Whether `a` comes before `b` in byte order.
pub open spec fn bytes_less(a: Seq<u8>, b: Seq<u8>) -> bool {
    exists|k: int|
        0 <= k < a.len() && k < b.len() && a[k] < b[k] && forall|j: int| 0 <= j < k ==> a[j] == b[j]
}

/// No sequence comes before itself.
pub proof fn lemma_bytes_less_irreflexive(a: Seq<u8>)
    ensures
        !bytes_less(a, a),
{
}

/// Byte order is transitive.
pub proof fn lemma_bytes_less_transitive(a: Seq<u8>, b: Seq<u8>, c: Seq<u8>)
    requires
        bytes_less(a, b),
        bytes_less(b, c),
    ensures
        bytes_less(a, c),
{
    let k1 = choose|k: int| 0 <= k < a.len() && k < b.len() && a[k] < b[k] && forall|j: int| 0 <= j < k ==> a[j] == b[j];
    let k2 = choose|k: int| 0 <= k < b.len() && k < c.len() && b[k] < c[k] && forall|j: int| 0 <= j < k ==> b[j] == c[j];
    let k = if k1 <= k2 { k1 } else { k2 };
    assert(0 <= k < a.len() && k < c.len() && a[k] < c[k] && forall|j: int| 0 <= j < k ==> a[j] == c[j]);
}

/// Two distinct sequences of one length are ordered one way or the other,
/// and not both.
pub proof fn lemma_bytes_less_total(a: Seq<u8>, b: Seq<u8>)
    requires
        a.len() == b.len(),
    ensures
        a != b ==> (bytes_less(a, b) || bytes_less(b, a)),
        !(bytes_less(a, b) && bytes_less(b, a)),
{
    if a != b {
        if forall|j: int| 0 <= j < a.len() ==> a[j] == b[j] {
            assert(a =~= b);
        }
        let k0 = choose|k: int| 0 <= k < a.len() && a[k] != b[k];
        lemma_first_difference(a, b, k0);
    }
    if bytes_less(a, b) && bytes_less(b, a) {
        lemma_bytes_less_transitive(a, b, a);
        lemma_bytes_less_irreflexive(a);
    }
}

proof fn lemma_first_difference(a: Seq<u8>, b: Seq<u8>, k0: int)
    requires
        a.len() == b.len(),
        0 <= k0 < a.len(),
        a[k0] != b[k0],
    ensures
        bytes_less(a, b) || bytes_less(b, a),
    decreases k0,
{
    if forall|j: int| 0 <= j < k0 ==> a[j] == b[j] {
        if a[k0] < b[k0] {
            assert(bytes_less(a, b));
        } else {
            assert(bytes_less(b, a));
        }
    } else {
        let k1 = choose|j: int| 0 <= j < k0 && a[j] != b[j];
        lemma_first_difference(a, b, k1);
    }
}

impl TorrentId {
    /// Every id is twenty bytes.
    pub proof fn lemma_len(self)
        ensures
            self@.len() == 20,
    {
    }

    pub fn new(info_hash: [u8; 20]) -> (id: TorrentId)
        ensures
            id@ == info_hash@,
    {
        TorrentId(info_hash)
    }

    /// The info hash as an array.
    pub closed spec fn spec_bytes(self) -> [u8; 20] {
        self.0
    }

    /// The info hash.
    pub fn as_bytes(&self) -> (bytes: &[u8; 20])
        ensures
            bytes@ == self@,
            *bytes == self.spec_bytes(),
    {
        &self.0
    }

    /// Whether two ids are the same.
    pub fn same_as(&self, other: &TorrentId) -> (same: bool)
        ensures
            same == (self@ == other@),
    {
        hash_same(&self.0, &other.0)
    }

    /// Whether this id comes before `other` in byte order.
    pub fn precedes(&self, other: &TorrentId) -> (less: bool)
        ensures
            less == bytes_less(self@, other@),
    {
        hash_precedes(&self.0, &other.0)
    }
}

/// Whether two info hashes are the same.
pub fn hash_same(a: &[u8; 20], b: &[u8; 20]) -> (same: bool)
    ensures
        same == (a@ == b@),
{
    let mut i: usize = 0;
    while i < 20
        invariant
            i <= 20,
            a@.len() == 20,
            b@.len() == 20,
            forall|j: int| 0 <= j < i ==> a@[j] == b@[j],
        decreases 20 - i,
    {
        if a[i] != b[i] {
            return false;
        }
        i = i + 1;
    }
    assert(a@ =~= b@);
    true
}

/// Whether info hash `a` comes before `b` in byte order.
pub fn hash_precedes(a: &[u8; 20], b: &[u8; 20]) -> (less: bool)
    ensures
        less == bytes_less(a@, b@),
{
    let mut i: usize = 0;
    while i < 20
        invariant
            i <= 20,
            a@.len() == 20,
            b@.len() == 20,
            forall|j: int| 0 <= j < i ==> a@[j] == b@[j],
        decreases 20 - i,
    {
        if a[i] < b[i] {
            return true;
        }
        if a[i] > b[i] {
            assert(!bytes_less(a@, b@)) by {
                if bytes_less(a@, b@) {
                    let k = choose|k: int|
                        0 <= k < a@.len() && k < b@.len() && a@[k] < b@[k]
                            && forall|j: int| 0 <= j < k ==> a@[j] == b@[j];
                    if k < i {
                    } else if k > i {
                        assert(a@[i as int] == b@[i as int]);
                    }
                }
            }
            return false;
        }
        i = i + 1;
    }
    assert(!bytes_less(a@, b@));
    false
}

/// The lifecycle state of a torrent.
#[derive(Clone, Copy, Debug, PartialEq, Eq, Structural)]
pub enum TorrentStatus {
    Checking,
    Discovering,
    Downloading,
    Paused,
    Complete,
    Seeding,
    Failed,
    Cancelled,
}

/// Something that happened in the runtime.
#[derive(Debug, PartialEq)]
pub enum RuntimeEvent {
    TorrentAdded { torrent: TorrentId },
    TorrentRemoved { torrent: TorrentId },
    StateChanged { torrent: TorrentId, from: TorrentStatus, to: TorrentStatus },
    SourceFailed { torrent: TorrentId, source: String, reason: String },
    SourceQuarantined { torrent: TorrentId, source: String },
    PieceVerified { torrent: TorrentId, piece: u32, bytes: u64 },
    ProgressUpdated { torrent: TorrentId, verified_bytes: u64, total_bytes: u64 },
    TaskCancelled { torrent: TorrentId },
    TaskFailed { torrent: TorrentId, reason: String },
    TaskCompleted { torrent: TorrentId },
    PeerConnected { torrent: TorrentId, addr: SocketAddress },
    PeerDisconnected { torrent: TorrentId, addr: SocketAddress },
    DhtPeersDiscovered { torrent: TorrentId, peers: u32 },
    DhtAnnounced { torrent: TorrentId, nodes: u32 },
    BlockUploaded { torrent: TorrentId, peer: SocketAddress, piece: u32, offset: u32, bytes: u32 },
    IntentDeclared { torrent: Option<TorrentId>, kind: &'static str },
    ValidationStarted,
    ValidationFailed { reason: String },
    ValidationSucceeded,
    ExecutionStarted,
    ExecutionSucceeded,
    ExecutionFailed { reason: String },
    RollbackStarted,
    RollbackSucceeded,
    RollbackFailed { reason: String },
}


impl Clone for RuntimeEvent {
    fn clone(&self) -> (copy: Self)
        ensures
            copy == *self,
    {
        match self {
            RuntimeEvent::TorrentAdded { torrent } => RuntimeEvent::TorrentAdded { torrent: *torrent },
            RuntimeEvent::TorrentRemoved { torrent } => RuntimeEvent::TorrentRemoved { torrent: *torrent },
            RuntimeEvent::StateChanged { torrent, from, to } => RuntimeEvent::StateChanged { torrent: *torrent, from: *from, to: *to },
            RuntimeEvent::SourceFailed { torrent, source, reason } => RuntimeEvent::SourceFailed {
                torrent: *torrent,
                source: source.clone(),
                reason: reason.clone(),
            },
            RuntimeEvent::SourceQuarantined { torrent, source } => RuntimeEvent::SourceQuarantined { torrent: *torrent, source: source.clone() },
            RuntimeEvent::PieceVerified { torrent, piece, bytes } => RuntimeEvent::PieceVerified { torrent: *torrent, piece: *piece, bytes: *bytes },
            RuntimeEvent::ProgressUpdated { torrent, verified_bytes, total_bytes } => RuntimeEvent::ProgressUpdated {
                torrent: *torrent,
                verified_bytes: *verified_bytes,
                total_bytes: *total_bytes,
            },
            RuntimeEvent::TaskCancelled { torrent } => RuntimeEvent::TaskCancelled { torrent: *torrent },
            RuntimeEvent::TaskFailed { torrent, reason } => RuntimeEvent::TaskFailed { torrent: *torrent, reason: reason.clone() },
            RuntimeEvent::TaskCompleted { torrent } => RuntimeEvent::TaskCompleted { torrent: *torrent },
            RuntimeEvent::PeerConnected { torrent, addr } => RuntimeEvent::PeerConnected { torrent: *torrent, addr: *addr },
            RuntimeEvent::PeerDisconnected { torrent, addr } => RuntimeEvent::PeerDisconnected { torrent: *torrent, addr: *addr },
            RuntimeEvent::DhtPeersDiscovered { torrent, peers } => RuntimeEvent::DhtPeersDiscovered { torrent: *torrent, peers: *peers },
            RuntimeEvent::DhtAnnounced { torrent, nodes } => RuntimeEvent::DhtAnnounced { torrent: *torrent, nodes: *nodes },
            RuntimeEvent::BlockUploaded { torrent, peer, piece, offset, bytes } => RuntimeEvent::BlockUploaded {
                torrent: *torrent,
                peer: *peer,
                piece: *piece,
                offset: *offset,
                bytes: *bytes,
            },
            RuntimeEvent::IntentDeclared { torrent, kind } => RuntimeEvent::IntentDeclared { torrent: *torrent, kind: *kind },
            RuntimeEvent::ValidationStarted => RuntimeEvent::ValidationStarted,
            RuntimeEvent::ValidationFailed { reason } => RuntimeEvent::ValidationFailed { reason: reason.clone() },
            RuntimeEvent::ValidationSucceeded => RuntimeEvent::ValidationSucceeded,
            RuntimeEvent::ExecutionStarted => RuntimeEvent::ExecutionStarted,
            RuntimeEvent::ExecutionSucceeded => RuntimeEvent::ExecutionSucceeded,
            RuntimeEvent::ExecutionFailed { reason } => RuntimeEvent::ExecutionFailed { reason: reason.clone() },
            RuntimeEvent::RollbackStarted => RuntimeEvent::RollbackStarted,
            RuntimeEvent::RollbackSucceeded => RuntimeEvent::RollbackSucceeded,
            RuntimeEvent::RollbackFailed { reason } => RuntimeEvent::RollbackFailed { reason: reason.clone() },
        }
    }
}

impl RuntimeEvent {
    /// The stable name of each kind of event.
    pub open spec fn spec_kind(self) -> &'static str {
        match self {
            RuntimeEvent::TorrentAdded { .. } => "torrent_added",
            RuntimeEvent::TorrentRemoved { .. } => "torrent_removed",
            RuntimeEvent::StateChanged { .. } => "state_changed",
            RuntimeEvent::SourceFailed { .. } => "source_failed",
            RuntimeEvent::SourceQuarantined { .. } => "source_quarantined",
            RuntimeEvent::PieceVerified { .. } => "piece_verified",
            RuntimeEvent::ProgressUpdated { .. } => "progress_updated",
            RuntimeEvent::TaskCancelled { .. } => "task_cancelled",
            RuntimeEvent::TaskFailed { .. } => "task_failed",
            RuntimeEvent::TaskCompleted { .. } => "task_completed",
            RuntimeEvent::PeerConnected { .. } => "peer_connected",
            RuntimeEvent::PeerDisconnected { .. } => "peer_disconnected",
            RuntimeEvent::DhtPeersDiscovered { .. } => "dht_peers_discovered",
            RuntimeEvent::DhtAnnounced { .. } => "dht_announced",
            RuntimeEvent::BlockUploaded { .. } => "block_uploaded",
            RuntimeEvent::IntentDeclared { .. } => "intent_declared",
            RuntimeEvent::ValidationStarted => "validation_started",
            RuntimeEvent::ValidationFailed { .. } => "validation_failed",
            RuntimeEvent::ValidationSucceeded => "validation_succeeded",
            RuntimeEvent::ExecutionStarted => "execution_started",
            RuntimeEvent::ExecutionSucceeded => "execution_succeeded",
            RuntimeEvent::ExecutionFailed { .. } => "execution_failed",
            RuntimeEvent::RollbackStarted => "rollback_started",
            RuntimeEvent::RollbackSucceeded => "rollback_succeeded",
            RuntimeEvent::RollbackFailed { .. } => "rollback_failed",
        }
    }

    /// The stable name of this kind of event.
    pub fn kind(&self) -> (kind: &'static str)
        ensures
            kind == self.spec_kind(),
    {
        match self {
            RuntimeEvent::TorrentAdded { .. } => "torrent_added",
            RuntimeEvent::TorrentRemoved { .. } => "torrent_removed",
            RuntimeEvent::StateChanged { .. } => "state_changed",
            RuntimeEvent::SourceFailed { .. } => "source_failed",
            RuntimeEvent::SourceQuarantined { .. } => "source_quarantined",
            RuntimeEvent::PieceVerified { .. } => "piece_verified",
            RuntimeEvent::ProgressUpdated { .. } => "progress_updated",
            RuntimeEvent::TaskCancelled { .. } => "task_cancelled",
            RuntimeEvent::TaskFailed { .. } => "task_failed",
            RuntimeEvent::TaskCompleted { .. } => "task_completed",
            RuntimeEvent::PeerConnected { .. } => "peer_connected",
            RuntimeEvent::PeerDisconnected { .. } => "peer_disconnected",
            RuntimeEvent::DhtPeersDiscovered { .. } => "dht_peers_discovered",
            RuntimeEvent::DhtAnnounced { .. } => "dht_announced",
            RuntimeEvent::BlockUploaded { .. } => "block_uploaded",
            RuntimeEvent::IntentDeclared { .. } => "intent_declared",
            RuntimeEvent::ValidationStarted => "validation_started",
            RuntimeEvent::ValidationFailed { .. } => "validation_failed",
            RuntimeEvent::ValidationSucceeded => "validation_succeeded",
            RuntimeEvent::ExecutionStarted => "execution_started",
            RuntimeEvent::ExecutionSucceeded => "execution_succeeded",
            RuntimeEvent::ExecutionFailed { .. } => "execution_failed",
            RuntimeEvent::RollbackStarted => "rollback_started",
            RuntimeEvent::RollbackSucceeded => "rollback_succeeded",
            RuntimeEvent::RollbackFailed { .. } => "rollback_failed",
        }
    }
}

/// What a peer looks like from the outside.
///
/// Its progress is a fraction computed where floating point is available.
#[derive(Clone, Debug, PartialEq)]
pub struct PeerSnapshot {
    pub torrent: TorrentId,
    pub source: String,
    pub down_rate: u64,
    pub up_rate: u64,
}

/// What one torrent looks like from the outside.
#[derive(Clone, Debug, PartialEq)]
pub struct TorrentSnapshot {
    pub id: TorrentId,
    pub name: String,
    pub status: TorrentStatus,
    pub total_bytes: u64,
    pub verified_bytes: u64,
    pub downloaded_bytes: u64,
    pub uploaded_bytes: u64,
    pub down_rate: u64,
    pub up_rate: u64,
    pub peers: u32,
    pub seeds: u32,
}

/// What the whole runtime looks like from the outside.
#[derive(Clone, Debug, PartialEq)]
pub struct RuntimeSnapshot {
    pub torrents: Vec<TorrentSnapshot>,
    pub peers: Vec<PeerSnapshot>,
    pub events: Vec<RuntimeEvent>,
}

impl RuntimeSnapshot {
    /// The number of torrents.
    pub fn torrent_count(&self) -> (n: usize)
        ensures
            n == self.torrents@.len(),
    {
        self.torrents.len()
    }

    /// The number of peers.
    pub fn peer_count(&self) -> (n: usize)
        ensures
            n == self.peers@.len(),
    {
        self.peers.len()
    }
}

/// The smaller of two byte counts.
pub open spec fn min_u64(a: u64, b: u64) -> u64 {
    if a <= b { a } else { b }
}

impl TorrentSnapshot {
    /// A snapshot of a torrent still being checked, with nothing transferred.
    pub fn new(id: TorrentId, name: String, total_bytes: u64) -> (s: TorrentSnapshot)
        ensures
            s.id == id,
            s.name@ == name@,
            s.status == TorrentStatus::Checking,
            s.total_bytes == total_bytes,
            s.verified_bytes == 0,
            s.downloaded_bytes == 0,
            s.uploaded_bytes == 0,
            s.down_rate == 0,
            s.up_rate == 0,
            s.peers == 0,
            s.seeds == 0,
    {
        TorrentSnapshot {
            id,
            name,
            status: TorrentStatus::Checking,
            total_bytes,
            verified_bytes: 0,
            downloaded_bytes: 0,
            uploaded_bytes: 0,
            down_rate: 0,
            up_rate: 0,
            peers: 0,
            seeds: 0,
        }
    }

    /// The same snapshot with the verified bytes, capped at the total.
    pub fn with_verified_bytes(self, bytes: u64) -> (s: TorrentSnapshot)
        ensures
            s == (TorrentSnapshot { verified_bytes: min_u64(bytes, self.total_bytes), ..self }),
    {
        let total = self.total_bytes;
        TorrentSnapshot { verified_bytes: if bytes <= total { bytes } else { total }, ..self }
    }

    /// The same snapshot with the downloaded bytes, capped at the total.
    pub fn with_downloaded_bytes(self, bytes: u64) -> (s: TorrentSnapshot)
        ensures
            s == (TorrentSnapshot { downloaded_bytes: min_u64(bytes, self.total_bytes), ..self }),
    {
        let total = self.total_bytes;
        TorrentSnapshot { downloaded_bytes: if bytes <= total { bytes } else { total }, ..self }
    }

    /// The same snapshot with the uploaded bytes.
    pub fn with_uploaded_bytes(self, bytes: u64) -> (s: TorrentSnapshot)
        ensures
            s == (TorrentSnapshot { uploaded_bytes: bytes, ..self }),
    {
        TorrentSnapshot { uploaded_bytes: bytes, ..self }
    }
}

} // verus!
