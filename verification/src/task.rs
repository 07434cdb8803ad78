use vstd::prelude::*;

use crate::config::{runtime_config_error, RuntimeConfig};
use crate::discovery::DiscoveryPolicy;
use crate::error::RuntimeError;
use crate::addr_text::{address_string, address_text};
use crate::blame::{ascending_order, sorted_addresses, PieceBlame};
use crate::roster::{drop_keys, PeerRoster};
use crate::net::{is_public_pex_endpoint, SocketAddress};
use crate::snapshot::{RuntimeEvent, TorrentId, TorrentSnapshot, TorrentStatus};
use crate::source::{
    admitted, after_failure, fresh_record, has_endpoint, CandidateView, EndpointView,
    SourceCandidate, SourceEndpoint, SourceFailure, SourceId, SourceKind, SourceRecord,
    SourceState, SourceTable, SourceTableView,
};
use crate::time::TimeSpan;
use crate::torrent::{spec_piece_length, TorrentPlan};

verus! {

/// A command addressed to one torrent.
#[derive(Clone, Copy, Debug, PartialEq, Eq, Structural)]
pub enum TorrentCommand {
    Start,
    Pause,
    Resume,
    Cancel,
    Tick,
}

/// What the peer-wire layer reports of a torrent's live connections.
#[derive(Clone, Copy, Debug, PartialEq, Eq, Structural)]
pub struct PeerActivity {
    pub peers: u32,
    pub seeds: u32,
    pub down_rate: u64,
    pub up_rate: u64,
}

/// The lifecycle, byte accounting and sources of one torrent.
#[derive(Debug)]
pub struct TorrentTask {
    plan: TorrentPlan,
    status: TorrentStatus,
    verified_bytes: u64,
    downloaded_bytes: u64,
    uploaded_bytes: u64,
    sources: SourceTable,
    seed_after_complete: bool,
}

/// The moves the lifecycle allows. A torrent never moves to its own state,
/// and never leaves `Failed` or `Cancelled`.
pub open spec fn spec_is_legal_transition(from: TorrentStatus, to: TorrentStatus) -> bool {
    match (from, to) {
        (TorrentStatus::Checking, TorrentStatus::Discovering) => true,
        (TorrentStatus::Checking, TorrentStatus::Cancelled) => true,
        (TorrentStatus::Discovering, TorrentStatus::Downloading) => true,
        (TorrentStatus::Discovering, TorrentStatus::Paused) => true,
        (TorrentStatus::Discovering, TorrentStatus::Cancelled) => true,
        (TorrentStatus::Downloading, TorrentStatus::Paused) => true,
        (TorrentStatus::Downloading, TorrentStatus::Complete) => true,
        (TorrentStatus::Downloading, TorrentStatus::Cancelled) => true,
        (TorrentStatus::Paused, TorrentStatus::Downloading) => true,
        (TorrentStatus::Paused, TorrentStatus::Seeding) => true,
        (TorrentStatus::Paused, TorrentStatus::Cancelled) => true,
        (TorrentStatus::Complete, TorrentStatus::Seeding) => true,
        (TorrentStatus::Seeding, TorrentStatus::Paused) => true,
        (TorrentStatus::Seeding, TorrentStatus::Cancelled) => true,
        _ => false,
    }
}

/// Whether the lifecycle allows moving from `from` to `to`.
pub fn is_legal_transition(from: TorrentStatus, to: TorrentStatus) -> (legal: bool)
    ensures
        legal == spec_is_legal_transition(from, to),
{
    match (from, to) {
        (TorrentStatus::Checking, TorrentStatus::Discovering)
        | (TorrentStatus::Checking, TorrentStatus::Cancelled)
        | (TorrentStatus::Discovering, TorrentStatus::Downloading)
        | (TorrentStatus::Discovering, TorrentStatus::Paused)
        | (TorrentStatus::Discovering, TorrentStatus::Cancelled)
        | (TorrentStatus::Downloading, TorrentStatus::Paused)
        | (TorrentStatus::Downloading, TorrentStatus::Complete)
        | (TorrentStatus::Downloading, TorrentStatus::Cancelled)
        | (TorrentStatus::Paused, TorrentStatus::Downloading)
        | (TorrentStatus::Paused, TorrentStatus::Seeding)
        | (TorrentStatus::Paused, TorrentStatus::Cancelled)
        | (TorrentStatus::Complete, TorrentStatus::Seeding)
        | (TorrentStatus::Seeding, TorrentStatus::Paused)
        | (TorrentStatus::Seeding, TorrentStatus::Cancelled) => true,
        _ => false,
    }
}

/// The error for a move the lifecycle does not allow.
pub open spec fn illegal_transition() -> RuntimeError {
    RuntimeError::InvalidConfig("illegal torrent state transition")
}

/// The state after an attempted move, and what the move reports: nothing for
/// a move to the current state, the error for a move that is not allowed,
/// and one state change otherwise.
pub open spec fn transition_outcome(id: TorrentId, from: TorrentStatus, to: TorrentStatus) -> (
    TorrentStatus,
    Result<Seq<RuntimeEvent>, RuntimeError>,
) {
    if from == to {
        (from, Ok(Seq::empty()))
    } else if !spec_is_legal_transition(from, to) {
        (from, Err(illegal_transition()))
    } else {
        (to, Ok(seq![RuntimeEvent::StateChanged { torrent: id, from, to }]))
    }
}

/// What a lifecycle tick does: a checking torrent starts discovering, a
/// discovering one starts downloading, a downloading or paused one stays,
/// and any other state is an error.
pub open spec fn tick_outcome(id: TorrentId, status: TorrentStatus) -> (
    TorrentStatus,
    Result<Seq<RuntimeEvent>, RuntimeError>,
) {
    match status {
        TorrentStatus::Discovering => transition_outcome(id, status, TorrentStatus::Downloading),
        TorrentStatus::Checking => transition_outcome(id, status, TorrentStatus::Discovering),
        TorrentStatus::Downloading | TorrentStatus::Paused => (status, Ok(Seq::empty())),
        _ => (status, Err(illegal_transition())),
    }
}

/// What a command does to the lifecycle. Resuming a torrent whose bytes are
/// all verified seeds it; otherwise resuming downloads.
pub open spec fn command_outcome(
    id: TorrentId,
    command: TorrentCommand,
    status: TorrentStatus,
    verified: u64,
    total: u64,
) -> (TorrentStatus, Result<Seq<RuntimeEvent>, RuntimeError>) {
    match command {
        TorrentCommand::Start => transition_outcome(id, status, TorrentStatus::Discovering),
        TorrentCommand::Pause => transition_outcome(id, status, TorrentStatus::Paused),
        TorrentCommand::Resume => if verified == total {
            transition_outcome(id, status, TorrentStatus::Seeding)
        } else {
            transition_outcome(id, status, TorrentStatus::Downloading)
        },
        TorrentCommand::Cancel => transition_outcome(id, status, TorrentStatus::Cancelled),
        TorrentCommand::Tick => tick_outcome(id, status),
    }
}

/// Whether an executable result carries the events or the error of a spec result.
pub open spec fn events_match(res: Result<Vec<RuntimeEvent>, RuntimeError>, expected: Result<Seq<RuntimeEvent>, RuntimeError>) -> bool {
    match (res, expected) {
        (Ok(v), Ok(s)) => v@ == s,
        (Err(a), Err(b)) => a == b,
        _ => false,
    }
}

/// The candidate form of the plan's web seeds.
pub open spec fn web_seed_candidates(urls: Seq<String>) -> Seq<CandidateView> {
    urls.map_values(|u: String| CandidateView { id: 0, kind: SourceKind::WebSeed, endpoint: EndpointView::WebSeed(u@) })
}

/// What offering one endpoint to a table does to it, and whether it was taken.
pub open spec fn offer(t: SourceTableView, endpoint: EndpointView, kind: SourceKind) -> (SourceTableView, bool) {
    if t.entries.len() >= t.max_sources || has_endpoint(t.entries, endpoint) {
        (t, false)
    } else {
        (SourceTableView { entries: t.entries.push(fresh_record(kind, endpoint)), ..t }, true)
    }
}

/// The table and the count of admitted peers after offering the dialable
/// ones among the first `n` DHT peers.
pub open spec fn offer_dht_peers(t: SourceTableView, peers: Seq<SocketAddress>, n: nat) -> (SourceTableView, nat)
    decreases n,
{
    if n == 0 {
        (t, 0)
    } else {
        let (t1, c1) = offer_dht_peers(t, peers, (n - 1) as nat);
        let p = peers[n - 1];
        if p.spec_is_dialable() {
            let (t2, taken) = offer(t1, EndpointView::Peer(p), SourceKind::DhtPeer);
            (t2, if taken { c1 + 1 } else { c1 })
        } else {
            (t1, c1)
        }
    }
}

/// The most contacts of one address family that one peer-exchange message
/// is read for; further contacts of that family are ignored.
pub const MAX_PEX_CONTACTS_PER_FAMILY: usize = 50;

/// The table, the count of admitted peers, and how many IPv4 and IPv6
/// contacts were read, after going through the first `n` peer-exchange
/// contacts: each family is read up to its limit, and of what is read only
/// public endpoints are offered.
pub open spec fn ingest_pex(t: SourceTableView, peers: Seq<SocketAddress>, n: nat) -> (SourceTableView, nat, nat, nat)
    decreases n,
{
    if n == 0 {
        (t, 0, 0, 0)
    } else {
        let (t1, added, v4, v6) = ingest_pex(t, peers, (n - 1) as nat);
        let p = peers[n - 1];
        let read = if p.ip is V4 { v4 } else { v6 };
        if read == MAX_PEX_CONTACTS_PER_FAMILY {
            (t1, added, v4, v6)
        } else {
            let v4b = if p.ip is V4 { v4 + 1 } else { v4 };
            let v6b = if p.ip is V4 { v6 } else { v6 + 1 };
            if p.spec_is_public_pex_endpoint() {
                let (t2, taken) = offer(t1, EndpointView::Peer(p), SourceKind::PexPeer);
                (t2, if taken { added + 1 } else { added }, v4b, v6b)
            } else {
                (t1, added, v4b, v6b)
            }
        }
    }
}

/// The table after the source at the address, where it has one, sent
/// corrupt data.
pub open spec fn quarantined(t: SourceTableView, addr: SocketAddress) -> SourceTableView {
    if has_endpoint(t.entries, EndpointView::Peer(addr)) {
        let k = choose|k: int| 0 <= k < t.entries.len() && #[trigger] t.entries[k].endpoint == EndpointView::Peer(addr);
        SourceTableView {
            entries: t.entries.update(k, after_failure(t.entries[k], SourceFailure::CorruptData, t.retry_limit)),
            ..t
        }
    } else {
        t
    }
}

/// The table after the sources at the first `n` addresses sent corrupt data.
pub open spec fn quarantined_all(t: SourceTableView, addrs: Seq<SocketAddress>, n: nat) -> SourceTableView
    decreases n,
{
    if n == 0 {
        t
    } else {
        quarantined(quarantined_all(t, addrs, (n - 1) as nat), addrs[n - 1])
    }
}

/// The saturating sum of two byte counts.
pub open spec fn saturating_sum(a: u64, b: u64) -> u64 {
    if a + b > u64::MAX { u64::MAX } else { (a + b) as u64 }
}

/// The table and the count of admitted peers after offering the dialable
/// ones among the first `n` peers, as sources of the given kind.
pub open spec fn offer_dialable(t: SourceTableView, peers: Seq<SocketAddress>, n: nat, kind: SourceKind) -> (SourceTableView, nat)
    decreases n,
{
    if n == 0 {
        (t, 0)
    } else {
        let (t1, c1) = offer_dialable(t, peers, (n - 1) as nat, kind);
        let p = peers[n - 1];
        if p.spec_is_dialable() {
            let (t2, taken) = offer(t1, EndpointView::Peer(p), kind);
            (t2, if taken { c1 + 1 } else { c1 })
        } else {
            (t1, c1)
        }
    }
}

/// How an attempt to connect to a peer source ended.
#[derive(Clone, Copy, Debug, PartialEq, Eq, Structural)]
pub enum ConnectOutcome {
    /// The peer is connected.
    Connected,
    /// The peer is connected already; no more candidates are tried this round.
    AlreadyConnected,
    /// The peer could not be reached or refused the handshake, or the
    /// torrent has as many peers as it may have.
    Failed,
}

/// What one tracker answered to an announce.
#[derive(Debug)]
pub enum TrackerOutcome {
    /// The tracker named peers and the seconds to wait before asking again.
    Peers { interval_secs: u32, peers: Vec<SocketAddress> },
    /// The announce failed, for this reason.
    Failed { reason: String },
}

/// The answer of the tracker at one URL.
#[derive(Debug)]
pub struct TrackerReply {
    pub url: String,
    pub outcome: TrackerOutcome,
}

/// What a round of tracker answers, taken in order, does: each answer with
/// peers sets the announce interval to the seconds it names and offers its
/// dialable peers as sources; each failure reports the tracker's URL as a
/// failed source. Gives the sources, the interval in nanoseconds and the
/// events.
pub open spec fn tracker_round(
    sources: SourceTableView,
    interval: nat,
    id: TorrentId,
    replies: Seq<TrackerReply>,
) -> (SourceTableView, nat, Seq<RuntimeEvent>)
    decreases replies.len(),
{
    if replies.len() == 0 {
        (sources, interval, Seq::empty())
    } else {
        let before = tracker_round(sources, interval, id, replies.drop_last());
        let reply = replies.last();
        match reply.outcome {
            TrackerOutcome::Peers { interval_secs, peers } => (
                offer_dialable(before.0, peers@, peers@.len(), SourceKind::Peer).0,
                (interval_secs * 1_000_000_000) as nat,
                before.2,
            ),
            TrackerOutcome::Failed { reason } => (
                before.0,
                before.1,
                before.2.push(RuntimeEvent::SourceFailed { torrent: id, source: reply.url, reason }),
            ),
        }
    }
}

/// Whether the trackers are due to be asked for peers again: a torrent with
/// trackers asks at once, then after half the interval the trackers gave,
/// or after five seconds while it has no connected peer.
pub open spec fn spec_tracker_announce_due(has_trackers: bool, connected: nat, since_last: Option<nat>, interval: nat) -> bool {
    has_trackers && match since_last {
        None => true,
        Some(elapsed) => if connected > 0 {
            elapsed >= interval / 2
        } else {
            elapsed >= 5_000_000_000
        },
    }
}

pub fn tracker_announce_due(has_trackers: bool, connected: usize, since_last: Option<TimeSpan>, interval: TimeSpan) -> (due: bool)
    ensures
        due == spec_tracker_announce_due(
            has_trackers,
            connected as nat,
            match since_last {
                Some(e) => Some(e@),
                None => None,
            },
            interval@,
        ),
{
    if !has_trackers {
        return false;
    }
    match since_last {
        None => true,
        Some(elapsed) => {
            if connected > 0 {
                elapsed.as_nanos() >= interval.as_nanos() / 2
            } else {
                elapsed.as_nanos() >= 5_000_000_000
            }
        },
    }
}

/// A torrent is announced while it is discovering, downloading or seeding.
pub open spec fn is_announcing(status: TorrentStatus) -> bool {
    status == TorrentStatus::Discovering || status == TorrentStatus::Downloading || status == TorrentStatus::Seeding
}

impl TorrentTask {
    pub closed spec fn spec_plan(&self) -> TorrentPlan {
        self.plan
    }

    pub closed spec fn spec_status(&self) -> TorrentStatus {
        self.status
    }

    pub closed spec fn spec_verified_bytes(&self) -> u64 {
        self.verified_bytes
    }

    pub closed spec fn spec_downloaded_bytes(&self) -> u64 {
        self.downloaded_bytes
    }

    pub closed spec fn spec_uploaded_bytes(&self) -> u64 {
        self.uploaded_bytes
    }

    pub closed spec fn spec_sources(&self) -> SourceTableView {
        self.sources@
    }

    pub closed spec fn spec_seed_after_complete(&self) -> bool {
        self.seed_after_complete
    }

    /// The sources table holds together.
    pub closed spec fn wf(&self) -> bool {
        self.sources.wf()
    }

    /// How many pieces the plan has.
    pub(crate) fn piece_count_of_plan(&self) -> (n: u32)
        ensures
            n == self.spec_plan().piece_count,
    {
        self.plan.piece_count
    }

    /// The torrent's id.
    pub open spec fn spec_id(&self) -> TorrentId {
        self.spec_plan().id
    }

    /// A task built from the runtime configuration: the plan's web seeds are
    /// its first sources, and it starts out checking with nothing transferred.
    pub fn new_with_peers(plan: TorrentPlan, config: &RuntimeConfig) -> (res: Result<Self, RuntimeError>)
        ensures
            match runtime_config_error(*config) {
                Some(e) => res == Err::<TorrentTask, RuntimeError>(e),
                None => res matches Ok(t) && t.wf() && t.spec_plan() == plan
                    && t.spec_status() == TorrentStatus::Checking
                    && t.spec_verified_bytes() == 0 && t.spec_downloaded_bytes() == 0 && t.spec_uploaded_bytes() == 0
                    && t.spec_seed_after_complete() == config.seed_policy.seed_after_complete
                    && t.spec_sources().retry_limit == config.limits.source_retry_limit
                    && t.spec_sources().max_sources == config.limits.max_sources_per_torrent
                    && t.spec_sources().entries == admitted(web_seed_candidates(plan.web_seed_urls@),
                        config.limits.max_sources_per_torrent as nat, plan.web_seed_urls@.len()),
            },
    {
        let mut candidates: Vec<SourceCandidate> = Vec::new();
        let mut i: usize = 0;
        while i < plan.web_seed_urls.len()
            invariant
                i <= plan.web_seed_urls@.len(),
                candidates@.map_values(|c: SourceCandidate| c@) == web_seed_candidates(plan.web_seed_urls@).take(i as int),
            decreases plan.web_seed_urls@.len() - i,
        {
            let url = plan.web_seed_urls[i].clone();
            let c = SourceCandidate::web_seed(SourceId::new(0), url);
            assert(c@ == web_seed_candidates(plan.web_seed_urls@)[i as int]);
            let ghost before = candidates@;
            candidates.push(c);
            assert(candidates@.map_values(|c: SourceCandidate| c@) =~= before.map_values(|c: SourceCandidate| c@).push(
                web_seed_candidates(plan.web_seed_urls@)[i as int],
            ));
            assert(candidates@.map_values(|c: SourceCandidate| c@) =~= web_seed_candidates(plan.web_seed_urls@).take(i as int + 1));
            i = i + 1;
        }
        assert(web_seed_candidates(plan.web_seed_urls@).take(i as int) =~= web_seed_candidates(plan.web_seed_urls@));
        let sources = SourceTable::from_candidates(candidates, config)?;
        Ok(TorrentTask {
            plan,
            status: TorrentStatus::Checking,
            verified_bytes: 0,
            downloaded_bytes: 0,
            uploaded_bytes: 0,
            sources,
            seed_after_complete: config.seed_policy.seed_after_complete,
        })
    }

    /// A task with the default configuration and no sources yet.
    pub fn new(plan: TorrentPlan) -> (t: Self)
        ensures
            t.wf(),
            t.spec_plan() == plan,
            t.spec_status() == TorrentStatus::Checking,
            t.spec_verified_bytes() == 0,
            t.spec_downloaded_bytes() == 0,
            t.spec_uploaded_bytes() == 0,
            t.spec_seed_after_complete(),
            t.spec_sources().entries.len() == 0,
    {
        let config = RuntimeConfig::default();
        let sources = match SourceTable::from_candidates(Vec::new(), &config) {
            Ok(s) => s,
            Err(_) => vstd::pervasive::unreached(),
        };
        TorrentTask {
            plan,
            status: TorrentStatus::Checking,
            verified_bytes: 0,
            downloaded_bytes: 0,
            uploaded_bytes: 0,
            sources,
            seed_after_complete: config.seed_policy.seed_after_complete,
        }
    }

    /// The torrent's id.
    pub fn id(&self) -> (id: TorrentId)
        ensures
            id == self.spec_id(),
    {
        self.plan.id
    }

    /// The lifecycle state.
    pub fn status(&self) -> (status: TorrentStatus)
        ensures
            status == self.spec_status(),
    {
        self.status
    }

    /// The torrent's size in bytes.
    pub fn total_bytes(&self) -> (total: u64)
        ensures
            total == self.spec_plan().total_size,
    {
        self.plan.total_size
    }

    /// The bytes verified so far.
    pub fn verified_bytes(&self) -> (bytes: u64)
        ensures
            bytes == self.spec_verified_bytes(),
    {
        self.verified_bytes
    }

    /// The task's sources.
    pub fn sources(&self) -> (sources: &SourceTable)
        ensures
            sources@ == self.spec_sources(),
            self.wf() ==> sources.wf(),
    {
        &self.sources
    }

    /// Gives the plan back.
    pub fn into_plan(self) -> (plan: TorrentPlan)
        ensures
            plan == self.spec_plan(),
    {
        self.plan
    }

    /// Moves the lifecycle to `to` when that is allowed, reporting the change.
    /// A move to the current state changes and reports nothing.
    pub fn transition(&mut self, to: TorrentStatus) -> (res: Result<Vec<RuntimeEvent>, RuntimeError>)
        ensures
            final(self).spec_status() == transition_outcome(old(self).spec_id(), old(self).spec_status(), to).0,
            events_match(res, transition_outcome(old(self).spec_id(), old(self).spec_status(), to).1),
            final(self).spec_plan() == old(self).spec_plan(),
            final(self).spec_verified_bytes() == old(self).spec_verified_bytes(),
            final(self).spec_downloaded_bytes() == old(self).spec_downloaded_bytes(),
            final(self).spec_uploaded_bytes() == old(self).spec_uploaded_bytes(),
            final(self).spec_sources() == old(self).spec_sources(),
            final(self).spec_seed_after_complete() == old(self).spec_seed_after_complete(),
            old(self).wf() ==> final(self).wf(),
    {
        let from = self.status;
        if from == to {
            let events = Vec::new();
            assert(events@ =~= Seq::<RuntimeEvent>::empty());
            return Ok(events);
        }
        if !is_legal_transition(from, to) {
            return Err(RuntimeError::InvalidConfig("illegal torrent state transition"));
        }
        self.status = to;
        let mut events = Vec::new();
        events.push(RuntimeEvent::StateChanged { torrent: self.plan.id, from, to });
        assert(events@ =~= seq![RuntimeEvent::StateChanged { torrent: self.plan.id, from, to }]);
        Ok(events)
    }

    fn tick_state(&mut self) -> (res: Result<Vec<RuntimeEvent>, RuntimeError>)
        ensures
            final(self).spec_status() == tick_outcome(old(self).spec_id(), old(self).spec_status()).0,
            events_match(res, tick_outcome(old(self).spec_id(), old(self).spec_status()).1),
            final(self).spec_plan() == old(self).spec_plan(),
            final(self).spec_verified_bytes() == old(self).spec_verified_bytes(),
            final(self).spec_downloaded_bytes() == old(self).spec_downloaded_bytes(),
            final(self).spec_uploaded_bytes() == old(self).spec_uploaded_bytes(),
            final(self).spec_sources() == old(self).spec_sources(),
            final(self).spec_seed_after_complete() == old(self).spec_seed_after_complete(),
            old(self).wf() ==> final(self).wf(),
    {
        match self.status {
            TorrentStatus::Discovering => self.transition(TorrentStatus::Downloading),
            TorrentStatus::Checking => self.transition(TorrentStatus::Discovering),
            TorrentStatus::Downloading | TorrentStatus::Paused => {
                let events = Vec::new();
                assert(events@ =~= Seq::<RuntimeEvent>::empty());
                Ok(events)
            },
            TorrentStatus::Complete
            | TorrentStatus::Seeding
            | TorrentStatus::Failed
            | TorrentStatus::Cancelled => Err(RuntimeError::InvalidConfig("illegal torrent state transition")),
        }
    }

    /// Applies a lifecycle command. A tick advances checking and discovering
    /// torrents; the traffic of live connections is driven by the peer-wire layer.
    pub fn apply(&mut self, command: TorrentCommand) -> (res: Result<Vec<RuntimeEvent>, RuntimeError>)
        ensures
            final(self).spec_status() == command_outcome(
                old(self).spec_id(), command, old(self).spec_status(),
                old(self).spec_verified_bytes(), old(self).spec_plan().total_size).0,
            events_match(res, command_outcome(
                old(self).spec_id(), command, old(self).spec_status(),
                old(self).spec_verified_bytes(), old(self).spec_plan().total_size).1),
            final(self).spec_plan() == old(self).spec_plan(),
            final(self).spec_verified_bytes() == old(self).spec_verified_bytes(),
            final(self).spec_downloaded_bytes() == old(self).spec_downloaded_bytes(),
            final(self).spec_uploaded_bytes() == old(self).spec_uploaded_bytes(),
            final(self).spec_sources() == old(self).spec_sources(),
            final(self).spec_seed_after_complete() == old(self).spec_seed_after_complete(),
            old(self).wf() ==> final(self).wf(),
    {
        match command {
            TorrentCommand::Start => self.transition(TorrentStatus::Discovering),
            TorrentCommand::Pause => self.transition(TorrentStatus::Paused),
            TorrentCommand::Resume => {
                if self.verified_bytes == self.plan.total_size {
                    self.transition(TorrentStatus::Seeding)
                } else {
                    self.transition(TorrentStatus::Downloading)
                }
            },
            TorrentCommand::Cancel => self.transition(TorrentStatus::Cancelled),
            TorrentCommand::Tick => self.tick_state(),
        }
    }

    /// Marks the torrent failed and reports why.
    pub fn mark_failed(&mut self, reason: String) -> (events: Vec<RuntimeEvent>)
        ensures
            final(self).spec_status() == TorrentStatus::Failed,
            events@ == seq![RuntimeEvent::TaskFailed { torrent: old(self).spec_id(), reason }],
            final(self).spec_plan() == old(self).spec_plan(),
            final(self).spec_verified_bytes() == old(self).spec_verified_bytes(),
            final(self).spec_downloaded_bytes() == old(self).spec_downloaded_bytes(),
            final(self).spec_uploaded_bytes() == old(self).spec_uploaded_bytes(),
            final(self).spec_sources() == old(self).spec_sources(),
            final(self).spec_seed_after_complete() == old(self).spec_seed_after_complete(),
            old(self).wf() ==> final(self).wf(),
    {
        self.status = TorrentStatus::Failed;
        let mut events = Vec::new();
        events.push(RuntimeEvent::TaskFailed { torrent: self.plan.id, reason });
        assert(events@ =~= seq![RuntimeEvent::TaskFailed { torrent: old(self).spec_id(), reason }]);
        events
    }

    /// Sets the verified bytes, capped at the torrent's size.
    pub fn set_verified_bytes(&mut self, bytes: u64)
        ensures
            final(self).spec_verified_bytes() == (if bytes <= old(self).spec_plan().total_size {
                bytes
            } else {
                old(self).spec_plan().total_size
            }),
            final(self).spec_status() == old(self).spec_status(),
            final(self).spec_plan() == old(self).spec_plan(),
            final(self).spec_downloaded_bytes() == old(self).spec_downloaded_bytes(),
            final(self).spec_uploaded_bytes() == old(self).spec_uploaded_bytes(),
            final(self).spec_sources() == old(self).spec_sources(),
            final(self).spec_seed_after_complete() == old(self).spec_seed_after_complete(),
            old(self).wf() ==> final(self).wf(),
    {
        let total = self.plan.total_size;
        self.verified_bytes = if bytes <= total { bytes } else { total };
    }

    /// Checks the v2 piece roots of the plan; v1 plans have none to check.
    pub fn verify_pieces_root(&self) -> (res: Result<(), RuntimeError>)
        ensures
            res is Ok,
    {
        Ok(())
    }

    /// Marks every byte verified and the torrent complete.
    pub fn set_status_complete(&mut self) -> (res: Result<(), RuntimeError>)
        ensures
            res is Ok,
            final(self).spec_status() == TorrentStatus::Complete,
            final(self).spec_verified_bytes() == old(self).spec_plan().total_size,
            final(self).spec_plan() == old(self).spec_plan(),
            final(self).spec_downloaded_bytes() == old(self).spec_downloaded_bytes(),
            final(self).spec_uploaded_bytes() == old(self).spec_uploaded_bytes(),
            final(self).spec_sources() == old(self).spec_sources(),
            final(self).spec_seed_after_complete() == old(self).spec_seed_after_complete(),
            old(self).wf() ==> final(self).wf(),
    {
        self.verify_pieces_root()?;
        self.status = TorrentStatus::Complete;
        self.verified_bytes = self.plan.total_size;
        Ok(())
    }

    /// Starts seeding a complete torrent; a seeding torrent stays as it is,
    /// and any other state is an error.
    pub fn start_seeding(&mut self) -> (res: Result<Vec<RuntimeEvent>, RuntimeError>)
        ensures
            old(self).spec_status() == TorrentStatus::Seeding ==> (res matches Ok(v) && v@.len() == 0),
            old(self).spec_status() == TorrentStatus::Complete ==> (res matches Ok(v) && v@ == seq![
                RuntimeEvent::StateChanged { torrent: old(self).spec_id(), from: TorrentStatus::Complete, to: TorrentStatus::Seeding },
            ]),
            old(self).spec_status() != TorrentStatus::Seeding && old(self).spec_status() != TorrentStatus::Complete
                ==> res == Err::<Vec<RuntimeEvent>, RuntimeError>(
                RuntimeError::InvalidConfig("torrent must be complete before seeding"),
            ),
            final(self).spec_status() == (if old(self).spec_status() == TorrentStatus::Complete {
                TorrentStatus::Seeding
            } else {
                old(self).spec_status()
            }),
            final(self).spec_plan() == old(self).spec_plan(),
            final(self).spec_verified_bytes() == old(self).spec_verified_bytes(),
            final(self).spec_downloaded_bytes() == old(self).spec_downloaded_bytes(),
            final(self).spec_uploaded_bytes() == old(self).spec_uploaded_bytes(),
            final(self).spec_sources() == old(self).spec_sources(),
            final(self).spec_seed_after_complete() == old(self).spec_seed_after_complete(),
            old(self).wf() ==> final(self).wf(),
    {
        if self.status == TorrentStatus::Seeding {
            let events = Vec::new();
            return Ok(events);
        }
        if self.status != TorrentStatus::Complete {
            return Err(RuntimeError::InvalidConfig("torrent must be complete before seeding"));
        }
        self.transition(TorrentStatus::Seeding)
    }

    /// Offers DHT peers as sources. Private torrents take none; peers with a
    /// zero port or an unspecified address are skipped. Returns how many
    /// were admitted.
    pub fn add_dht_peers(&mut self, peers: Vec<SocketAddress>) -> (added: usize)
        requires
            old(self).wf(),
        ensures
            final(self).wf(),
            old(self).spec_plan().private ==> added == 0 && final(self).spec_sources() == old(self).spec_sources(),
            !old(self).spec_plan().private ==> final(self).spec_sources() == offer_dht_peers(old(self).spec_sources(), peers@, peers@.len()).0
                && added == offer_dht_peers(old(self).spec_sources(), peers@, peers@.len()).1,
            final(self).spec_status() == old(self).spec_status(),
            final(self).spec_plan() == old(self).spec_plan(),
            final(self).spec_verified_bytes() == old(self).spec_verified_bytes(),
            final(self).spec_downloaded_bytes() == old(self).spec_downloaded_bytes(),
            final(self).spec_uploaded_bytes() == old(self).spec_uploaded_bytes(),
            final(self).spec_seed_after_complete() == old(self).spec_seed_after_complete(),
    {
        if !DiscoveryPolicy::for_torrent(self.plan.private).dht_allowed() {
            return 0;
        }
        let mut added: usize = 0;
        let mut i: usize = 0;
        while i < peers.len()
            invariant
                self.sources.wf(),
                self.plan == old(self).plan,
                self.status == old(self).status,
                self.verified_bytes == old(self).verified_bytes,
                self.downloaded_bytes == old(self).downloaded_bytes,
                self.uploaded_bytes == old(self).uploaded_bytes,
                self.seed_after_complete == old(self).seed_after_complete,
                i <= peers@.len(),
                (self.sources@, added as nat) == offer_dht_peers(old(self).sources@, peers@, i as nat),
                added <= i,
            decreases peers@.len() - i,
        {
            let peer = peers[i];
            if peer.is_dialable() {
                let res = self.sources.add_dht_peer(peer);
                if res.is_ok() {
                    added = added + 1;
                }
            }
            i = i + 1;
        }
        added
    }

    /// Offers the contacts of a peer-exchange message as sources. Private
    /// torrents take none. At most `MAX_PEX_CONTACTS_PER_FAMILY` contacts of
    /// each address family are read, and only public endpoints among them
    /// are offered. Returns how many were admitted.
    pub fn ingest_pex_peers(&mut self, peers: Vec<SocketAddress>) -> (added: usize)
        requires
            old(self).wf(),
        ensures
            final(self).wf(),
            old(self).spec_plan().private ==> added == 0 && final(self).spec_sources() == old(self).spec_sources(),
            !old(self).spec_plan().private ==> final(self).spec_sources() == ingest_pex(old(self).spec_sources(), peers@, peers@.len()).0
                && added == ingest_pex(old(self).spec_sources(), peers@, peers@.len()).1,
            final(self).spec_status() == old(self).spec_status(),
            final(self).spec_plan() == old(self).spec_plan(),
            final(self).spec_verified_bytes() == old(self).spec_verified_bytes(),
            final(self).spec_downloaded_bytes() == old(self).spec_downloaded_bytes(),
            final(self).spec_uploaded_bytes() == old(self).spec_uploaded_bytes(),
            final(self).spec_seed_after_complete() == old(self).spec_seed_after_complete(),
    {
        if !DiscoveryPolicy::for_torrent(self.plan.private).pex_allowed() {
            return 0;
        }
        let mut added: usize = 0;
        let mut ipv4: usize = 0;
        let mut ipv6: usize = 0;
        let mut i: usize = 0;
        while i < peers.len()
            invariant
                self.sources.wf(),
                self.plan == old(self).plan,
                self.status == old(self).status,
                self.verified_bytes == old(self).verified_bytes,
                self.downloaded_bytes == old(self).downloaded_bytes,
                self.uploaded_bytes == old(self).uploaded_bytes,
                self.seed_after_complete == old(self).seed_after_complete,
                i <= peers@.len(),
                (self.sources@, added as nat, ipv4 as nat, ipv6 as nat) == ingest_pex(old(self).sources@, peers@, i as nat),
                added <= i,
                ipv4 <= MAX_PEX_CONTACTS_PER_FAMILY,
                ipv6 <= MAX_PEX_CONTACTS_PER_FAMILY,
            decreases peers@.len() - i,
        {
            let peer = peers[i];
            let v4 = peer.ip.is_ipv4();
            let read = if v4 { ipv4 } else { ipv6 };
            if read != MAX_PEX_CONTACTS_PER_FAMILY {
                if v4 {
                    ipv4 = ipv4 + 1;
                } else {
                    ipv6 = ipv6 + 1;
                }
                if is_public_pex_endpoint(peer) {
                    let res = self.sources.add_pex_peer(peer);
                    if res.is_ok() {
                        added = added + 1;
                    }
                }
            }
            i = i + 1;
        }
        added
    }

    /// Counts a piece that passed its hash check and reports it, with the
    /// progress it makes.
    pub fn record_piece_verified(&mut self, piece: u32, bytes: u64) -> (events: Vec<RuntimeEvent>)
        ensures
            final(self).spec_verified_bytes() == saturating_sum(old(self).spec_verified_bytes(), bytes),
            events@ == seq![
                RuntimeEvent::PieceVerified { torrent: old(self).spec_id(), piece, bytes },
                RuntimeEvent::ProgressUpdated {
                    torrent: old(self).spec_id(),
                    verified_bytes: final(self).spec_verified_bytes(),
                    total_bytes: old(self).spec_plan().total_size,
                },
            ],
            final(self).spec_status() == old(self).spec_status(),
            final(self).spec_plan() == old(self).spec_plan(),
            final(self).spec_downloaded_bytes() == old(self).spec_downloaded_bytes(),
            final(self).spec_uploaded_bytes() == old(self).spec_uploaded_bytes(),
            final(self).spec_sources() == old(self).spec_sources(),
            final(self).spec_seed_after_complete() == old(self).spec_seed_after_complete(),
            old(self).wf() ==> final(self).wf(),
    {
        self.verified_bytes = self.verified_bytes.saturating_add(bytes);
        let mut events = Vec::new();
        events.push(RuntimeEvent::PieceVerified { torrent: self.plan.id, piece, bytes });
        events.push(RuntimeEvent::ProgressUpdated {
            torrent: self.plan.id,
            verified_bytes: self.verified_bytes,
            total_bytes: self.plan.total_size,
        });
        events
    }

    /// Quarantines the sources at the addresses of peers blamed for a piece
    /// that failed its hash check: in ascending address order, each address
    /// once, its source (where the table has one) is marked as having sent
    /// corrupt data, and a quarantine is reported under the address as text.
    pub fn quarantine_sources(&mut self, addrs: Vec<SocketAddress>) -> (events: Vec<RuntimeEvent>)
        requires
            old(self).wf(),
        ensures
            final(self).wf(),
            final(self).spec_sources() == quarantined_all(
                old(self).spec_sources(),
                ascending_order(addrs@),
                ascending_order(addrs@).len(),
            ),
            events@.len() == ascending_order(addrs@).len(),
            forall|i: int| 0 <= i < events@.len() ==> (#[trigger] events@[i] matches RuntimeEvent::SourceQuarantined {
                torrent,
                source,
            } && torrent == old(self).spec_id() && source@ == address_text(ascending_order(addrs@)[i])),
            final(self).spec_status() == old(self).spec_status(),
            final(self).spec_plan() == old(self).spec_plan(),
            final(self).spec_verified_bytes() == old(self).spec_verified_bytes(),
            final(self).spec_downloaded_bytes() == old(self).spec_downloaded_bytes(),
            final(self).spec_uploaded_bytes() == old(self).spec_uploaded_bytes(),
            final(self).spec_seed_after_complete() == old(self).spec_seed_after_complete(),
    {
        let order = sorted_addresses(&addrs);
        let mut events: Vec<RuntimeEvent> = Vec::new();
        let mut i: usize = 0;
        while i < order.len()
            invariant
                self.sources.wf(),
                self.plan == old(self).plan,
                self.status == old(self).status,
                self.verified_bytes == old(self).verified_bytes,
                self.downloaded_bytes == old(self).downloaded_bytes,
                self.uploaded_bytes == old(self).uploaded_bytes,
                self.seed_after_complete == old(self).seed_after_complete,
                i <= order@.len(),
                self.sources@ == quarantined_all(old(self).sources@, order@, i as nat),
                events@.len() == i,
                forall|j: int| 0 <= j < i ==> (#[trigger] events@[j] matches RuntimeEvent::SourceQuarantined {
                    torrent,
                    source,
                } && torrent == self.plan.id && source@ == address_text(order@[j])),
            decreases order@.len() - i,
        {
            let addr = order[i];
            let ghost before = self.sources@;
            proof {
                self.sources.lemma_distinct();
            }
            let found = self.sources.id_for_endpoint(&SourceEndpoint::Peer(addr));
            if let Some(id) = found {
                let _ = self.sources.record_failure(id, SourceFailure::CorruptData);
                proof {
                    let e = EndpointView::Peer(addr);
                    let k = choose|k: int| 0 <= k < before.entries.len() && #[trigger] before.entries[k].endpoint == e;
                    assert(before.entries[id@ - 1].endpoint == e);
                    assert(k == id@ - 1) by {
                        if k != id@ - 1 {
                            assert(has_endpoint(before.entries, e));
                        }
                    }
                }
            }
            events.push(RuntimeEvent::SourceQuarantined { torrent: self.plan.id, source: address_string(&addr) });
            i = i + 1;
        }
        events
    }

    /// Completes a download once every piece is verified: a downloading
    /// torrent whose verified pieces number the plan's pieces moves to
    /// complete, reports its completion, and starts seeding when its policy
    /// says so. Any other torrent is left as it is.
    pub fn complete_if_done(&mut self, verified_pieces: u32) -> (events: Vec<RuntimeEvent>)
        ensures
            !(old(self).spec_status() == TorrentStatus::Downloading && verified_pieces == old(self).spec_plan().piece_count)
                ==> events@.len() == 0 && final(self).spec_status() == old(self).spec_status(),
            old(self).spec_status() == TorrentStatus::Downloading && verified_pieces == old(self).spec_plan().piece_count
                ==> final(self).spec_status() == (if old(self).spec_seed_after_complete() {
                    TorrentStatus::Seeding
                } else {
                    TorrentStatus::Complete
                }) && events@ == seq![
                    RuntimeEvent::StateChanged {
                        torrent: old(self).spec_id(),
                        from: TorrentStatus::Downloading,
                        to: TorrentStatus::Complete,
                    },
                    RuntimeEvent::TaskCompleted { torrent: old(self).spec_id() },
                ] + (if old(self).spec_seed_after_complete() {
                    seq![RuntimeEvent::StateChanged {
                        torrent: old(self).spec_id(),
                        from: TorrentStatus::Complete,
                        to: TorrentStatus::Seeding,
                    }]
                } else {
                    Seq::empty()
                }),
            final(self).spec_plan() == old(self).spec_plan(),
            final(self).spec_verified_bytes() == old(self).spec_verified_bytes(),
            final(self).spec_downloaded_bytes() == old(self).spec_downloaded_bytes(),
            final(self).spec_uploaded_bytes() == old(self).spec_uploaded_bytes(),
            final(self).spec_sources() == old(self).spec_sources(),
            final(self).spec_seed_after_complete() == old(self).spec_seed_after_complete(),
            old(self).wf() ==> final(self).wf(),
    {
        if self.status != TorrentStatus::Downloading || verified_pieces != self.plan.piece_count {
            let events = Vec::new();
            assert(events@ =~= Seq::<RuntimeEvent>::empty());
            return events;
        }
        let mut events = match self.transition(TorrentStatus::Complete) {
            Ok(events) => events,
            Err(_) => vstd::pervasive::unreached(),
        };
        events.push(RuntimeEvent::TaskCompleted { torrent: self.plan.id });
        let ghost done = events@;
        if self.seed_after_complete {
            let mut started = match self.start_seeding() {
                Ok(started) => started,
                Err(_) => vstd::pervasive::unreached(),
            };
            events.append(&mut started);
        }
        proof {
            if self.seed_after_complete {
                assert(events@ =~= done + seq![RuntimeEvent::StateChanged {
                    torrent: old(self).spec_id(),
                    from: TorrentStatus::Complete,
                    to: TorrentStatus::Seeding,
                }]);
            } else {
                assert(events@ =~= done + Seq::<RuntimeEvent>::empty());
            }
        }
        events
    }

    /// Offers the peers a tracker returned as sources; peers with a zero
    /// port or an unspecified address are skipped. Returns how many were
    /// admitted.
    pub fn add_tracker_peers(&mut self, peers: Vec<SocketAddress>) -> (added: usize)
        requires
            old(self).wf(),
        ensures
            final(self).wf(),
            final(self).spec_sources() == offer_dialable(old(self).spec_sources(), peers@, peers@.len(), SourceKind::Peer).0,
            added == offer_dialable(old(self).spec_sources(), peers@, peers@.len(), SourceKind::Peer).1,
            final(self).spec_status() == old(self).spec_status(),
            final(self).spec_plan() == old(self).spec_plan(),
            final(self).spec_verified_bytes() == old(self).spec_verified_bytes(),
            final(self).spec_downloaded_bytes() == old(self).spec_downloaded_bytes(),
            final(self).spec_uploaded_bytes() == old(self).spec_uploaded_bytes(),
            final(self).spec_seed_after_complete() == old(self).spec_seed_after_complete(),
    {
        let mut added: usize = 0;
        let mut i: usize = 0;
        while i < peers.len()
            invariant
                self.sources.wf(),
                self.plan == old(self).plan,
                self.status == old(self).status,
                self.verified_bytes == old(self).verified_bytes,
                self.downloaded_bytes == old(self).downloaded_bytes,
                self.uploaded_bytes == old(self).uploaded_bytes,
                self.seed_after_complete == old(self).seed_after_complete,
                i <= peers@.len(),
                (self.sources@, added as nat) == offer_dialable(old(self).sources@, peers@, i as nat, SourceKind::Peer),
                added <= i,
            decreases peers@.len() - i,
        {
            let peer = peers[i];
            if peer.is_dialable() {
                let res = self.sources.add_candidate(SourceEndpoint::Peer(peer), SourceKind::Peer);
                if res.is_ok() {
                    added = added + 1;
                }
            }
            i = i + 1;
        }
        added
    }

    /// Takes the answers of the trackers to an announce, in the order of
    /// their URLs: an answer with peers sets the announce interval and adds
    /// its dialable peers as sources; a failed announce is reported as a
    /// failed source under the tracker's URL. Returns the announce interval
    /// after the round (`interval` if no tracker named one) and the events.
    pub fn take_tracker_replies(&mut self, replies: Vec<TrackerReply>, interval: TimeSpan) -> (res: (TimeSpan, Vec<RuntimeEvent>))
        requires
            old(self).wf(),
        ensures
            final(self).wf(),
            final(self).spec_sources() == tracker_round(old(self).spec_sources(), interval@, old(self).spec_id(), replies@).0,
            res.0@ == tracker_round(old(self).spec_sources(), interval@, old(self).spec_id(), replies@).1,
            res.1@ == tracker_round(old(self).spec_sources(), interval@, old(self).spec_id(), replies@).2,
            final(self).spec_status() == old(self).spec_status(),
            final(self).spec_plan() == old(self).spec_plan(),
            final(self).spec_verified_bytes() == old(self).spec_verified_bytes(),
            final(self).spec_downloaded_bytes() == old(self).spec_downloaded_bytes(),
            final(self).spec_uploaded_bytes() == old(self).spec_uploaded_bytes(),
            final(self).spec_seed_after_complete() == old(self).spec_seed_after_complete(),
    {
        let ghost all = replies@;
        let ghost start = interval;
        let mut rest = replies;
        let mut interval = interval;
        let mut events: Vec<RuntimeEvent> = Vec::new();
        let id = self.plan.id;
        let ghost mut i: int = 0;
        while rest.len() > 0
            invariant
                self.wf(),
                0 <= i <= all.len(),
                rest@ == all.subrange(i, all.len() as int),
                id == old(self).spec_id(),
                self.spec_sources() == tracker_round(old(self).spec_sources(), start@, id, all.take(i)).0,
                interval@ == tracker_round(old(self).spec_sources(), start@, id, all.take(i)).1,
                events@ == tracker_round(old(self).spec_sources(), start@, id, all.take(i)).2,
                self.spec_status() == old(self).spec_status(),
                self.spec_plan() == old(self).spec_plan(),
                self.spec_verified_bytes() == old(self).spec_verified_bytes(),
                self.spec_downloaded_bytes() == old(self).spec_downloaded_bytes(),
                self.spec_uploaded_bytes() == old(self).spec_uploaded_bytes(),
                self.spec_seed_after_complete() == old(self).spec_seed_after_complete(),
            decreases rest@.len(),
        {
            let reply = rest.remove(0);
            proof {
                assert(all.take(i + 1).drop_last() =~= all.take(i));
                assert(all.take(i + 1).last() == reply);
                i = i + 1;
                assert(rest@ =~= all.subrange(i, all.len() as int));
            }
            match reply.outcome {
                TrackerOutcome::Peers { interval_secs, peers } => {
                    interval = TimeSpan::from_secs(interval_secs as u64);
                    let _ = self.add_tracker_peers(peers);
                },
                TrackerOutcome::Failed { reason } => {
                    events.push(RuntimeEvent::SourceFailed { torrent: id, source: reply.url, reason });
                },
            }
        }
        proof {
            assert(all.take(i) =~= all);
        }
        (interval, events)
    }

    /// Records how an attempt to connect to a peer source ended: a
    /// connected source is marked active and the connection reported; a
    /// failed one is counted as refused. Returns the report, if any, and
    /// whether further candidates should be tried, which they are not once
    /// a candidate turns out to be connected already.
    pub fn record_connect_outcome(&mut self, source: SourceId, addr: SocketAddress, outcome: ConnectOutcome) -> (res: (Option<RuntimeEvent>, bool))
        requires
            old(self).wf(),
        ensures
            final(self).wf(),
            outcome == ConnectOutcome::Connected ==> res == (Some(RuntimeEvent::PeerConnected { torrent: old(self).spec_id(), addr }), true)
                && (1 <= source@ <= old(self).spec_sources().entries.len() ==> final(self).spec_sources().entries
                    == old(self).spec_sources().entries.update(
                    source@ - 1,
                    SourceRecord { state: SourceState::Active, failures: 0, ..old(self).spec_sources().entries[source@ - 1] },
                )),
            outcome == ConnectOutcome::AlreadyConnected ==> res == (None::<RuntimeEvent>, false)
                && final(self).spec_sources() == old(self).spec_sources(),
            outcome == ConnectOutcome::Failed ==> res == (None::<RuntimeEvent>, true)
                && (1 <= source@ <= old(self).spec_sources().entries.len() ==> final(self).spec_sources().entries
                    == old(self).spec_sources().entries.update(
                    source@ - 1,
                    after_failure(old(self).spec_sources().entries[source@ - 1], SourceFailure::Refused, old(self).spec_sources().retry_limit),
                )),
            !(1 <= source@ <= old(self).spec_sources().entries.len()) ==> final(self).spec_sources().entries == old(self).spec_sources().entries,
            final(self).spec_sources().retry_limit == old(self).spec_sources().retry_limit,
            final(self).spec_sources().max_sources == old(self).spec_sources().max_sources,
            final(self).spec_status() == old(self).spec_status(),
            final(self).spec_plan() == old(self).spec_plan(),
            final(self).spec_verified_bytes() == old(self).spec_verified_bytes(),
            final(self).spec_downloaded_bytes() == old(self).spec_downloaded_bytes(),
            final(self).spec_uploaded_bytes() == old(self).spec_uploaded_bytes(),
            final(self).spec_seed_after_complete() == old(self).spec_seed_after_complete(),
    {
        match outcome {
            ConnectOutcome::Connected => {
                let _ = self.sources.record_success(source);
                (Some(RuntimeEvent::PeerConnected { torrent: self.plan.id, addr }), true)
            },
            ConnectOutcome::AlreadyConnected => (None, false),
            ConnectOutcome::Failed => {
                let _ = self.sources.record_failure(source, SourceFailure::Refused);
                (None, true)
            },
        }
    }

    /// Counts a block served to a peer and reports it: the uploaded total
    /// grows by the block's length, held at the largest count a `u64` holds.
    pub fn record_upload(&mut self, peer: SocketAddress, piece: u32, offset: u32, bytes: u32) -> (event: RuntimeEvent)
        ensures
            final(self).spec_uploaded_bytes() == saturating_sum(old(self).spec_uploaded_bytes(), bytes as u64),
            event == (RuntimeEvent::BlockUploaded { torrent: old(self).spec_id(), peer, piece, offset, bytes }),
            final(self).spec_status() == old(self).spec_status(),
            final(self).spec_plan() == old(self).spec_plan(),
            final(self).spec_verified_bytes() == old(self).spec_verified_bytes(),
            final(self).spec_downloaded_bytes() == old(self).spec_downloaded_bytes(),
            final(self).spec_sources() == old(self).spec_sources(),
            final(self).spec_seed_after_complete() == old(self).spec_seed_after_complete(),
            old(self).wf() ==> final(self).wf(),
    {
        self.uploaded_bytes = self.uploaded_bytes.saturating_add(bytes as u64);
        RuntimeEvent::BlockUploaded { torrent: self.plan.id, peer, piece, offset, bytes }
    }

    /// Readies the torrent to take the bytes of all its pieces at once: the
    /// buffers must number the plan's pieces; a checking torrent moves on to
    /// discovering and then downloading, a discovering one to downloading.
    /// Returns the moves' reports and the status to restore should the
    /// bytes be refused.
    pub fn begin_piece_bytes(&mut self, buffers: usize) -> (res: Result<(Vec<RuntimeEvent>, TorrentStatus), RuntimeError>)
        ensures
            buffers != old(self).spec_plan().piece_count ==> res == Err::<(Vec<RuntimeEvent>, TorrentStatus), RuntimeError>(
                RuntimeError::InvalidConfig("piece byte count mismatch"),
            ) && final(self).spec_status() == old(self).spec_status(),
            buffers == old(self).spec_plan().piece_count ==> (res matches Ok((events, saved)) && saved == old(self).spec_status()
                && (old(self).spec_status() == TorrentStatus::Checking ==> final(self).spec_status() == TorrentStatus::Downloading
                && events@ == seq![
                    RuntimeEvent::StateChanged { torrent: old(self).spec_id(), from: TorrentStatus::Checking, to: TorrentStatus::Discovering },
                    RuntimeEvent::StateChanged { torrent: old(self).spec_id(), from: TorrentStatus::Discovering, to: TorrentStatus::Downloading },
                ])
                && (old(self).spec_status() == TorrentStatus::Discovering ==> final(self).spec_status() == TorrentStatus::Downloading
                && events@ == seq![
                    RuntimeEvent::StateChanged { torrent: old(self).spec_id(), from: TorrentStatus::Discovering, to: TorrentStatus::Downloading },
                ])
                && (old(self).spec_status() != TorrentStatus::Checking && old(self).spec_status() != TorrentStatus::Discovering
                ==> final(self).spec_status() == old(self).spec_status() && events@.len() == 0)),
            final(self).spec_plan() == old(self).spec_plan(),
            final(self).spec_verified_bytes() == old(self).spec_verified_bytes(),
            final(self).spec_downloaded_bytes() == old(self).spec_downloaded_bytes(),
            final(self).spec_uploaded_bytes() == old(self).spec_uploaded_bytes(),
            final(self).spec_sources() == old(self).spec_sources(),
            final(self).spec_seed_after_complete() == old(self).spec_seed_after_complete(),
            old(self).wf() ==> final(self).wf(),
    {
        if buffers != self.plan.piece_count as usize {
            return Err(RuntimeError::InvalidConfig("piece byte count mismatch"));
        }
        let saved = self.status;
        let mut events: Vec<RuntimeEvent> = Vec::new();
        if self.status == TorrentStatus::Checking {
            let mut moved = match self.transition(TorrentStatus::Discovering) {
                Ok(moved) => moved,
                Err(_) => vstd::pervasive::unreached(),
            };
            events.append(&mut moved);
        }
        let ghost first = events@;
        if self.status == TorrentStatus::Discovering {
            let mut moved = match self.transition(TorrentStatus::Downloading) {
                Ok(moved) => moved,
                Err(_) => vstd::pervasive::unreached(),
            };
            events.append(&mut moved);
        }
        proof {
            if saved == TorrentStatus::Checking {
                assert(events@ =~= seq![
                    RuntimeEvent::StateChanged { torrent: old(self).spec_id(), from: TorrentStatus::Checking, to: TorrentStatus::Discovering },
                    RuntimeEvent::StateChanged { torrent: old(self).spec_id(), from: TorrentStatus::Discovering, to: TorrentStatus::Downloading },
                ]);
            } else if saved == TorrentStatus::Discovering {
                assert(events@ =~= seq![
                    RuntimeEvent::StateChanged { torrent: old(self).spec_id(), from: TorrentStatus::Discovering, to: TorrentStatus::Downloading },
                ]);
            }
        }
        Ok((events, saved))
    }

    /// Puts back the status the torrent had before it was readied for bytes
    /// that were then refused.
    pub fn restore_status(&mut self, saved: TorrentStatus)
        ensures
            final(self).spec_status() == saved,
            final(self).spec_plan() == old(self).spec_plan(),
            final(self).spec_verified_bytes() == old(self).spec_verified_bytes(),
            final(self).spec_downloaded_bytes() == old(self).spec_downloaded_bytes(),
            final(self).spec_uploaded_bytes() == old(self).spec_uploaded_bytes(),
            final(self).spec_sources() == old(self).spec_sources(),
            final(self).spec_seed_after_complete() == old(self).spec_seed_after_complete(),
            old(self).wf() ==> final(self).wf(),
    {
        self.status = saved;
    }

    /// Completes the torrent once the bytes of every piece are verified: it
    /// moves to complete, reports its completion, and starts seeding when
    /// its policy says so. A move the lifecycle does not allow is an error.
    /// Fewer verified pieces leave the torrent as it is.
    pub fn finish_piece_bytes(&mut self, verified_pieces: u32) -> (res: Result<Vec<RuntimeEvent>, RuntimeError>)
        ensures
            verified_pieces != old(self).spec_plan().piece_count ==> (res matches Ok(events) && events@.len() == 0)
                && final(self).spec_status() == old(self).spec_status(),
            verified_pieces == old(self).spec_plan().piece_count ==> match transition_outcome(
                old(self).spec_id(),
                old(self).spec_status(),
                TorrentStatus::Complete,
            ).1 {
                Err(e) => res == Err::<Vec<RuntimeEvent>, RuntimeError>(e) && final(self).spec_status() == old(self).spec_status(),
                Ok(moved) => (res matches Ok(events) && events@ == moved + seq![RuntimeEvent::TaskCompleted { torrent: old(self).spec_id() }]
                    + (if old(self).spec_seed_after_complete() {
                        seq![RuntimeEvent::StateChanged { torrent: old(self).spec_id(), from: TorrentStatus::Complete, to: TorrentStatus::Seeding }]
                    } else {
                        Seq::empty()
                    })) && final(self).spec_status() == (if old(self).spec_seed_after_complete() {
                        TorrentStatus::Seeding
                    } else {
                        TorrentStatus::Complete
                    }),
            },
            final(self).spec_plan() == old(self).spec_plan(),
            final(self).spec_verified_bytes() == old(self).spec_verified_bytes(),
            final(self).spec_downloaded_bytes() == old(self).spec_downloaded_bytes(),
            final(self).spec_uploaded_bytes() == old(self).spec_uploaded_bytes(),
            final(self).spec_sources() == old(self).spec_sources(),
            final(self).spec_seed_after_complete() == old(self).spec_seed_after_complete(),
            old(self).wf() ==> final(self).wf(),
    {
        if verified_pieces != self.plan.piece_count {
            let events = Vec::new();
            assert(events@ =~= Seq::<RuntimeEvent>::empty());
            return Ok(events);
        }
        let mut events = self.transition(TorrentStatus::Complete)?;
        events.push(RuntimeEvent::TaskCompleted { torrent: self.plan.id });
        let ghost done = events@;
        if self.seed_after_complete {
            let mut started = match self.start_seeding() {
                Ok(started) => started,
                Err(_) => vstd::pervasive::unreached(),
            };
            events.append(&mut started);
        }
        proof {
            if self.seed_after_complete {
                assert(events@ =~= done + seq![RuntimeEvent::StateChanged {
                    torrent: old(self).spec_id(),
                    from: TorrentStatus::Complete,
                    to: TorrentStatus::Seeding,
                }]);
            } else {
                assert(events@ =~= done + Seq::<RuntimeEvent>::empty());
            }
        }
        Ok(events)
    }

    /// Offers a peer found by local service discovery. Returns whether it was
    /// admitted: never for a private torrent or an undialable address.
    pub fn add_lsd_peer(&mut self, peer: SocketAddress) -> (added: bool)
        requires
            old(self).wf(),
        ensures
            final(self).wf(),
            (old(self).spec_plan().private || !peer.spec_is_dialable()) ==> !added
                && final(self).spec_sources() == old(self).spec_sources(),
            !(old(self).spec_plan().private || !peer.spec_is_dialable())
                ==> (final(self).spec_sources(), added) == offer(old(self).spec_sources(), EndpointView::Peer(peer), SourceKind::LsdPeer),
            final(self).spec_status() == old(self).spec_status(),
            final(self).spec_plan() == old(self).spec_plan(),
            final(self).spec_verified_bytes() == old(self).spec_verified_bytes(),
            final(self).spec_downloaded_bytes() == old(self).spec_downloaded_bytes(),
            final(self).spec_uploaded_bytes() == old(self).spec_uploaded_bytes(),
            final(self).spec_seed_after_complete() == old(self).spec_seed_after_complete(),
    {
        if !DiscoveryPolicy::for_torrent(self.plan.private).lsd_allowed() || !peer.is_dialable() {
            return false;
        }
        self.sources.add_lsd_peer(peer).is_ok()
    }

    /// The info hash to announce on the DHT: only while the torrent is
    /// discovering, downloading or seeding, and never for a private torrent.
    pub fn dht_announce_target(&self) -> (target: Option<TorrentId>)
        ensures
            target == (if is_announcing(self.spec_status()) && !self.spec_plan().private {
                Some(self.spec_id())
            } else {
                None
            }),
    {
        let active = self.status == TorrentStatus::Discovering || self.status == TorrentStatus::Downloading
            || self.status == TorrentStatus::Seeding;
        if active && DiscoveryPolicy::for_torrent(self.plan.private).dht_allowed() {
            Some(self.plan.id)
        } else {
            None
        }
    }

    /// The info hash to announce by local service discovery, under the same
    /// conditions as the DHT.
    pub fn lsd_announce_target(&self) -> (target: Option<TorrentId>)
        ensures
            target == (if is_announcing(self.spec_status()) && !self.spec_plan().private {
                Some(self.spec_id())
            } else {
                None
            }),
    {
        let active = self.status == TorrentStatus::Discovering || self.status == TorrentStatus::Downloading
            || self.status == TorrentStatus::Seeding;
        if active && DiscoveryPolicy::for_torrent(self.plan.private).lsd_allowed() {
            Some(self.plan.id)
        } else {
            None
        }
    }

    /// What the torrent looks like, with the live connection figures the
    /// peer-wire layer reports.
    pub fn snapshot(&self, activity: PeerActivity) -> (s: TorrentSnapshot)
        ensures
            s.id == self.spec_id(),
            s.name@ == self.spec_plan().name@,
            s.status == self.spec_status(),
            s.total_bytes == self.spec_plan().total_size,
            s.verified_bytes == crate::snapshot::min_u64(self.spec_verified_bytes(), self.spec_plan().total_size),
            s.downloaded_bytes == crate::snapshot::min_u64(self.spec_downloaded_bytes(), self.spec_plan().total_size),
            s.uploaded_bytes == self.spec_uploaded_bytes(),
            s.down_rate == activity.down_rate,
            s.up_rate == activity.up_rate,
            s.peers == activity.peers,
            s.seeds == activity.seeds,
    {
        let mut snapshot = TorrentSnapshot::new(self.plan.id, self.plan.name.clone(), self.plan.total_size)
            .with_verified_bytes(self.verified_bytes)
            .with_downloaded_bytes(self.downloaded_bytes)
            .with_uploaded_bytes(self.uploaded_bytes);
        snapshot.status = self.status;
        snapshot.down_rate = activity.down_rate;
        snapshot.up_rate = activity.up_rate;
        snapshot.peers = activity.peers;
        snapshot.seeds = activity.seeds;
        snapshot
    }
}

/// The bytes a verified piece adds: its length, or nothing for a piece the
/// plan does not have.
pub open spec fn verified_piece_bytes(plan: TorrentPlan, piece: u32) -> u64 {
    match spec_piece_length(plan, piece) {
        Some(len) => len as u64,
        None => 0,
    }
}

/// Settles the check of one complete piece against its hash, given its
/// outcome. Either way the piece's record of who sent its blocks is taken.
/// A verified piece adds its bytes to the verified count, which is
/// reported with the piece. A piece that failed its hash check disconnects
/// every peer that sent one of its blocks and is still connected, reporting
/// each, then quarantines the sources at the addresses recorded for the
/// piece and those of the peers just dropped, each address once and in
/// address order.
pub fn settle_piece_check(
    task: &mut TorrentTask,
    blame: &mut PieceBlame,
    roster: &mut PeerRoster,
    piece: u32,
    verified: bool,
) -> (events: Vec<RuntimeEvent>)
    requires
        old(task).wf(),
        old(roster).wf(),
    ensures
        final(task).wf(),
        final(roster).wf(),
        final(roster).spec_next_key() == old(roster).spec_next_key(),
        final(roster).spec_max() == old(roster).spec_max(),
        final(blame).spec_pending() == old(blame).spec_pending(),
        forall|q: u32| #[trigger] final(blame).spec_senders(q) == if q == piece {
            Seq::<u64>::empty()
        } else {
            old(blame).spec_senders(q)
        },
        forall|q: u32| #[trigger] final(blame).spec_sender_addrs(q) == if q == piece {
            Seq::<SocketAddress>::empty()
        } else {
            old(blame).spec_sender_addrs(q)
        },
        final(task).spec_status() == old(task).spec_status(),
        final(task).spec_plan() == old(task).spec_plan(),
        final(task).spec_downloaded_bytes() == old(task).spec_downloaded_bytes(),
        final(task).spec_uploaded_bytes() == old(task).spec_uploaded_bytes(),
        final(task).spec_seed_after_complete() == old(task).spec_seed_after_complete(),
        verified ==> {
            let bytes = verified_piece_bytes(old(task).spec_plan(), piece);
            &&& final(roster).spec_peers() == old(roster).spec_peers()
            &&& final(task).spec_sources() == old(task).spec_sources()
            &&& final(task).spec_verified_bytes() == saturating_sum(old(task).spec_verified_bytes(), bytes)
            &&& events@ == seq![
                RuntimeEvent::PieceVerified { torrent: old(task).spec_id(), piece, bytes },
                RuntimeEvent::ProgressUpdated {
                    torrent: old(task).spec_id(),
                    verified_bytes: final(task).spec_verified_bytes(),
                    total_bytes: old(task).spec_plan().total_size,
                },
            ]
        },
        !verified ==> {
            let dropped = drop_keys(old(roster).spec_peers(), old(blame).spec_senders(piece));
            let order = ascending_order(old(blame).spec_sender_addrs(piece) + dropped.1);
            &&& final(roster).spec_peers() == dropped.0
            &&& final(task).spec_verified_bytes() == old(task).spec_verified_bytes()
            &&& final(task).spec_sources() == quarantined_all(old(task).spec_sources(), order, order.len())
            &&& events@.len() == dropped.1.len() + order.len()
            &&& forall|i: int| 0 <= i < dropped.1.len() ==> #[trigger] events@[i] == (RuntimeEvent::PeerDisconnected {
                torrent: old(task).spec_id(),
                addr: dropped.1[i],
            })
            &&& forall|i: int| 0 <= i < order.len() ==> (#[trigger] events@[dropped.1.len() + i] matches RuntimeEvent::SourceQuarantined {
                torrent,
                source,
            } && torrent == old(task).spec_id() && source@ == address_text(order[i]))
        },
{
    let (keys, mut addrs) = blame.take_blame(piece);
    let id = task.id();
    if verified {
        let bytes: u64 = match task.plan.piece_length(piece) {
            Ok(len) => len as u64,
            Err(_) => 0,
        };
        return task.record_piece_verified(piece, bytes);
    }
    let ghost recorded = addrs@;
    let dropped = roster.disconnect_all(&keys);
    let mut events: Vec<RuntimeEvent> = Vec::new();
    let mut i: usize = 0;
    while i < dropped.len()
        invariant
            i <= dropped@.len(),
            addrs@ == recorded + dropped@.take(i as int),
            events@.len() == i,
            id == old(task).spec_id(),
            forall|j: int| 0 <= j < i ==> #[trigger] events@[j] == (RuntimeEvent::PeerDisconnected { torrent: id, addr: dropped@[j] }),
        decreases dropped@.len() - i,
    {
        let addr = dropped[i];
        addrs.push(addr);
        events.push(RuntimeEvent::PeerDisconnected { torrent: id, addr });
        proof {
            assert(dropped@.take(i as int + 1) =~= dropped@.take(i as int).push(addr));
        }
        i = i + 1;
    }
    proof {
        assert(dropped@.take(i as int) =~= dropped@);
    }
    let ghost n = events@.len();
    let mut quarantined = task.quarantine_sources(addrs);
    let ghost q = quarantined@;
    events.append(&mut quarantined);
    proof {
        assert forall|k: int| 0 <= k < q.len() implies #[trigger] events@[n + k] == q[k] by {}
    }
    events
}

} // verus!
