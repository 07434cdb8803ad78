use vstd::prelude::*;

use crate::config::{runtime_config_error, RuntimeConfig};
use crate::error::{FailureScope, RetryClass, RuntimeError};
use crate::format::{decimal, source_label};
use crate::net::SocketAddress;

verus! {

/// The number a source table gives each source it admits.
#[derive(Clone, Copy, Debug, PartialEq, Eq, Structural)]
pub struct SourceId(u64);

impl View for SourceId {
    type V = u64;

    closed spec fn view(&self) -> u64 {
        self.0
    }
}

impl SourceId {
    pub fn new(value: u64) -> (id: SourceId)
        ensures
            id@ == value,
    {
        SourceId(value)
    }

    pub fn get(self) -> (value: u64)
        ensures
            value == self@,
    {
        self.0
    }
}

/// How a source was found.
#[derive(Clone, Copy, Debug, PartialEq, Eq, Structural)]
pub enum SourceKind {
    Peer,
    DhtPeer,
    PexPeer,
    LsdPeer,
    WebSeed,
}

/// Where a source is reached: a peer address, or a web seed URL.
#[derive(Debug, PartialEq, Eq)]
pub enum SourceEndpoint {
    Peer(SocketAddress),
    WebSeed(String),
}

/// The value of an endpoint.
pub enum EndpointView {
    Peer(SocketAddress),
    WebSeed(Seq<char>),
}

impl View for SourceEndpoint {
    type V = EndpointView;

    open spec fn view(&self) -> EndpointView {
        match self {
            SourceEndpoint::Peer(a) => EndpointView::Peer(*a),
            SourceEndpoint::WebSeed(u) => EndpointView::WebSeed(u@),
        }
    }
}

impl Clone for SourceEndpoint {
    fn clone(&self) -> (copy: Self)
        ensures
            copy@ == self@,
    {
        match self {
            SourceEndpoint::Peer(a) => SourceEndpoint::Peer(*a),
            SourceEndpoint::WebSeed(u) => SourceEndpoint::WebSeed(u.clone()),
        }
    }
}

impl SourceEndpoint {
    /// Whether two endpoints name the same place.
    pub fn same_as(&self, other: &SourceEndpoint) -> (same: bool)
        ensures
            same == (self@ == other@),
    {
        match self {
            SourceEndpoint::Peer(a) => match other {
                SourceEndpoint::Peer(b) => *a == *b,
                SourceEndpoint::WebSeed(_) => false,
            },
            SourceEndpoint::WebSeed(a) => match other {
                SourceEndpoint::Peer(_) => false,
                SourceEndpoint::WebSeed(b) => {
                    let same = a.eq(b);
                    proof {
                        if same {
                            assert(self@ == other@);
                        } else {
                            assert(self@ != other@) by {
                                if self@ == other@ {
                                    assert(a@ == b@);
                                }
                            }
                        }
                    }
                    same
                },
            },
        }
    }
}

/// A source as handed to and out of a table.
#[derive(Debug, PartialEq, Eq)]
pub struct SourceCandidate {
    pub id: SourceId,
    pub kind: SourceKind,
    pub endpoint: SourceEndpoint,
}

/// The value of a candidate.
pub struct CandidateView {
    pub id: u64,
    pub kind: SourceKind,
    pub endpoint: EndpointView,
}

impl View for SourceCandidate {
    type V = CandidateView;

    open spec fn view(&self) -> CandidateView {
        CandidateView { id: self.id@, kind: self.kind, endpoint: self.endpoint@ }
    }
}

impl Clone for SourceCandidate {
    fn clone(&self) -> (copy: Self)
        ensures
            copy@ == self@,
    {
        SourceCandidate { id: self.id, kind: self.kind, endpoint: self.endpoint.clone() }
    }
}

impl SourceCandidate {
    /// A tracker peer.
    pub fn peer(id: SourceId, address: SocketAddress) -> (c: SourceCandidate)
        ensures
            c@ == (CandidateView { id: id@, kind: SourceKind::Peer, endpoint: EndpointView::Peer(address) }),
    {
        SourceCandidate { id, kind: SourceKind::Peer, endpoint: SourceEndpoint::Peer(address) }
    }

    /// A web seed.
    pub fn web_seed(id: SourceId, url: String) -> (c: SourceCandidate)
        ensures
            c@ == (CandidateView { id: id@, kind: SourceKind::WebSeed, endpoint: EndpointView::WebSeed(url@) }),
    {
        SourceCandidate { id, kind: SourceKind::WebSeed, endpoint: SourceEndpoint::WebSeed(url) }
    }

    /// A peer found through the DHT.
    pub fn dht_peer(id: SourceId, address: SocketAddress) -> (c: SourceCandidate)
        ensures
            c@ == (CandidateView { id: id@, kind: SourceKind::DhtPeer, endpoint: EndpointView::Peer(address) }),
    {
        SourceCandidate { id, kind: SourceKind::DhtPeer, endpoint: SourceEndpoint::Peer(address) }
    }
}

/// Where a source stands.
#[derive(Clone, Copy, Debug, PartialEq, Eq, Structural)]
pub enum SourceState {
    Fresh,
    Active,
    CoolingDown,
    Quarantined,
    Exhausted,
}

/// Why an attempt on a source failed.
#[derive(Clone, Copy, Debug, PartialEq, Eq, Structural)]
pub enum SourceFailure {
    Timeout,
    Refused,
    HttpStatus(u16),
    ProtocolViolation,
    CorruptData,
}

#[derive(Debug)]
struct SourceEntry {
    candidate: SourceCandidate,
    state: SourceState,
    failures: usize,
}

/// What the table records of one source. Its id is its position plus one.
pub struct SourceRecord {
    pub kind: SourceKind,
    pub endpoint: EndpointView,
    pub state: SourceState,
    pub failures: nat,
}

/// The value of a source table.
pub struct SourceTableView {
    pub retry_limit: nat,
    pub max_sources: nat,
    pub entries: Seq<SourceRecord>,
}

/// The sources of one torrent, in the order they were admitted.
///
/// Each endpoint appears once; the table never holds more than its limit;
/// the source admitted `n`-th has id `n`.
#[derive(Debug)]
pub struct SourceTable {
    retry_limit: usize,
    max_sources: usize,
    entries: Vec<SourceEntry>,
}

/// Whether some record has the endpoint.
pub open spec fn has_endpoint(entries: Seq<SourceRecord>, endpoint: EndpointView) -> bool {
    exists|i: int| 0 <= i < entries.len() && #[trigger] entries[i].endpoint == endpoint
}

/// A new record for a source just admitted.
pub open spec fn fresh_record(kind: SourceKind, endpoint: EndpointView) -> SourceRecord {
    SourceRecord { kind, endpoint, state: SourceState::Fresh, failures: 0 }
}

/// The records admitted from the first `n` candidates: a candidate is taken
/// unless its endpoint is already present or the table is full.
pub open spec fn admitted(candidates: Seq<CandidateView>, max: nat, n: nat) -> Seq<SourceRecord>
    decreases n,
{
    if n == 0 {
        Seq::empty()
    } else {
        let acc = admitted(candidates, max, (n - 1) as nat);
        let c = candidates[n - 1];
        if has_endpoint(acc, c.endpoint) || acc.len() >= max {
            acc
        } else {
            acc.push(fresh_record(c.kind, c.endpoint))
        }
    }
}

/// The candidate form of the record at position `i`.
pub open spec fn record_candidate(entries: Seq<SourceRecord>, i: int) -> CandidateView {
    CandidateView { id: (i + 1) as u64, kind: entries[i].kind, endpoint: entries[i].endpoint }
}

/// Whether a record may be tried again.
pub open spec fn is_retry_candidate(r: SourceRecord) -> bool {
    r.state == SourceState::Fresh || r.state == SourceState::CoolingDown
}

/// The retry candidates among the first `n` records, in table order.
pub open spec fn retry_candidates(entries: Seq<SourceRecord>, n: nat) -> Seq<CandidateView>
    decreases n,
{
    if n == 0 {
        Seq::empty()
    } else {
        let acc = retry_candidates(entries, (n - 1) as nat);
        if is_retry_candidate(entries[n - 1]) {
            acc.push(record_candidate(entries, n - 1))
        } else {
            acc
        }
    }
}

/// The records of the given kind among the first `n`, in table order.
pub open spec fn candidates_of_kind(entries: Seq<SourceRecord>, kind: SourceKind, n: nat) -> Seq<CandidateView>
    decreases n,
{
    if n == 0 {
        Seq::empty()
    } else {
        let acc = candidates_of_kind(entries, kind, (n - 1) as nat);
        if entries[n - 1].kind == kind {
            acc.push(record_candidate(entries, n - 1))
        } else {
            acc
        }
    }
}

/// Whether `err` is the error for an id the table does not hold.
pub open spec fn is_unknown_source_error(err: RuntimeError, id: u64) -> bool {
    match err {
        RuntimeError::SourceFailed { source_id, scope, retry, reason } => {
            &&& source_id@ == "source:"@ + decimal(id as nat)
            &&& scope == FailureScope::TorrentGlobal
            &&& retry == RetryClass::Terminal
            &&& reason@ == "unknown source"@
        },
        _ => false,
    }
}

/// The state after a failure of the given kind.
pub open spec fn after_failure(r: SourceRecord, failure: SourceFailure, retry_limit: nat) -> SourceRecord {
    match failure {
        SourceFailure::CorruptData | SourceFailure::ProtocolViolation => SourceRecord {
            state: SourceState::Quarantined,
            ..r
        },
        _ => SourceRecord {
            failures: counted_failures(r.failures),
            state: if counted_failures(r.failures) >= retry_limit {
                SourceState::Exhausted
            } else {
                SourceState::CoolingDown
            },
            ..r
        },
    }
}

/// One more failure, held at the largest count a `usize` can hold.
pub open spec fn counted_failures(f: nat) -> nat {
    if f < usize::MAX { f + 1 } else { f }
}

proof fn lemma_admitted_len(candidates: Seq<CandidateView>, max: nat, n: nat)
    ensures
        admitted(candidates, max, n).len() <= max,
        admitted(candidates, max, n).len() <= n,
    decreases n,
{
    if n > 0 {
        lemma_admitted_len(candidates, max, (n - 1) as nat);
    }
}

proof fn lemma_admitted_full(candidates: Seq<CandidateView>, max: nat, n: nat, m: nat)
    requires
        n <= m,
        admitted(candidates, max, n).len() >= max,
    ensures
        admitted(candidates, max, m) == admitted(candidates, max, n),
    decreases m,
{
    if m > n {
        lemma_admitted_full(candidates, max, n, (m - 1) as nat);
    }
}

proof fn lemma_admitted_distinct(candidates: Seq<CandidateView>, max: nat, n: nat)
    ensures
        forall|i: int, j: int|
            0 <= i < j < admitted(candidates, max, n).len() ==> admitted(candidates, max, n)[i].endpoint
                != admitted(candidates, max, n)[j].endpoint,
        forall|i: int|
            0 <= i < admitted(candidates, max, n).len() ==> (#[trigger] admitted(candidates, max, n)[i]).state
                == SourceState::Fresh && admitted(candidates, max, n)[i].failures == 0,
    decreases n,
{
    if n > 0 {
        lemma_admitted_distinct(candidates, max, (n - 1) as nat);
    }
}

/// The first position whose endpoint is `endpoint`.
fn find_endpoint(entries: &Vec<SourceEntry>, endpoint: &SourceEndpoint) -> (pos: Option<usize>)
    ensures
        match pos {
            Some(k) => k < entries@.len() && entries@[k as int].candidate.endpoint@ == endpoint@
                && forall|j: int| 0 <= j < k ==> (#[trigger] entries@[j]).candidate.endpoint@ != endpoint@,
            None => forall|j: int| 0 <= j < entries@.len() ==> (#[trigger] entries@[j]).candidate.endpoint@ != endpoint@,
        },
{
    let mut k: usize = 0;
    while k < entries.len()
        invariant
            k <= entries@.len(),
            forall|j: int| 0 <= j < k ==> (#[trigger] entries@[j]).candidate.endpoint@ != endpoint@,
        decreases entries@.len() - k,
    {
        if entries[k].candidate.endpoint.same_as(endpoint) {
            return Some(k);
        }
        k = k + 1;
    }
    None
}

impl SourceEntry {
    spec fn record(self) -> SourceRecord {
        SourceRecord {
            kind: self.candidate.kind,
            endpoint: self.candidate.endpoint@,
            state: self.state,
            failures: self.failures as nat,
        }
    }
}

impl View for SourceTable {
    type V = SourceTableView;

    closed spec fn view(&self) -> SourceTableView {
        SourceTableView {
            retry_limit: self.retry_limit as nat,
            max_sources: self.max_sources as nat,
            entries: self.entries@.map_values(|e: SourceEntry| e.record()),
        }
    }
}

impl SourceTable {
    /// The error for an id the table does not hold.
    fn unknown_source(source: SourceId) -> (err: RuntimeError)
        ensures
            is_unknown_source_error(err, source@),
    {
        RuntimeError::SourceFailed {
            source_id: source_label(source.get()),
            scope: FailureScope::TorrentGlobal,
            retry: RetryClass::Terminal,
            reason: "unknown source".to_owned(),
        }
    }

    /// The position of the source with this id, if the table holds it.
    fn position(&self, source: SourceId) -> (pos: Option<usize>)
        requires
            self.wf(),
        ensures
            match pos {
                Some(k) => k < self.entries@.len() && k + 1 == source@,
                None => !(1 <= source@ <= self@.entries.len()),
            },
    {
        let id = source.get();
        if id >= 1 && id - 1 < self.entries.len() as u64 {
            Some((id - 1) as usize)
        } else {
            None
        }
    }

    /// The number of sources.
    pub fn len(&self) -> (n: usize)
        ensures
            n == self@.entries.len(),
    {
        self.entries.len()
    }

    /// Whether the table holds no source.
    pub fn is_empty(&self) -> (empty: bool)
        ensures
            empty == (self@.entries.len() == 0),
    {
        self.entries.len() == 0
    }

    /// The sources of one kind, in table order.
    pub fn by_kind(&self, kind: SourceKind) -> (found: Vec<SourceCandidate>)
        requires
            self.wf(),
        ensures
            found@.map_values(|c: SourceCandidate| c@) == candidates_of_kind(self@.entries, kind, self@.entries.len()),
    {
        let ghost entries = self@.entries;
        let mut found: Vec<SourceCandidate> = Vec::new();
        let mut i: usize = 0;
        while i < self.entries.len()
            invariant
                self.wf(),
                entries == self@.entries,
                i <= entries.len(),
                found@.map_values(|c: SourceCandidate| c@) == candidates_of_kind(entries, kind, i as nat),
            decreases entries.len() - i,
        {
            let e = &self.entries[i];
            assert(entries[i as int] == e.record());
            if e.candidate.kind == kind {
                let c = e.candidate.clone();
                found.push(c);
                assert(found@.map_values(|c: SourceCandidate| c@) =~= candidates_of_kind(entries, kind, i as nat).push(
                    record_candidate(entries, i as int),
                ));
            }
            i = i + 1;
        }
        found
    }

    /// Up to `limit` sources that may be tried: fresh or cooling down, in table order.
    pub fn next_candidates(&self, limit: usize) -> (found: Vec<SourceCandidate>)
        requires
            self.wf(),
        ensures
            found@.map_values(|c: SourceCandidate| c@) == retry_candidates(self@.entries, self@.entries.len()).take(
                min_nat(limit as nat, retry_candidates(self@.entries, self@.entries.len()).len()) as int,
            ),
    {
        let ghost entries = self@.entries;
        let mut found: Vec<SourceCandidate> = Vec::new();
        let mut i: usize = 0;
        while i < self.entries.len() && found.len() < limit
            invariant
                self.wf(),
                entries == self@.entries,
                i <= entries.len(),
                found@.len() <= limit,
                found@.map_values(|c: SourceCandidate| c@) == retry_candidates(entries, i as nat),
            decreases entries.len() - i,
        {
            let e = &self.entries[i];
            assert(entries[i as int] == e.record());
            if e.state == SourceState::Fresh || e.state == SourceState::CoolingDown {
                let c = e.candidate.clone();
                found.push(c);
                assert(found@.map_values(|c: SourceCandidate| c@) =~= retry_candidates(entries, i as nat).push(
                    record_candidate(entries, i as int),
                ));
            }
            i = i + 1;
        }
        proof {
            lemma_retry_prefix(entries, i as nat, entries.len());
            let all = retry_candidates(entries, entries.len());
            let part = retry_candidates(entries, i as nat);
            if i < entries.len() {
                assert(found@.len() == limit);
            }
            assert(part =~= all.take(part.len() as int));
            assert(found@.map_values(|c: SourceCandidate| c@) =~= all.take(min_nat(limit as nat, all.len()) as int));
        }
        found
    }

    /// Marks the source as active and clears its failure count.
    pub fn record_success(&mut self, source: SourceId) -> (res: Result<(), RuntimeError>)
        requires
            old(self).wf(),
        ensures
            final(self).wf(),
            keeps_endpoints(old(self)@.entries, final(self)@.entries),
            final(self)@.retry_limit == old(self)@.retry_limit,
            final(self)@.max_sources == old(self)@.max_sources,
            1 <= source@ <= old(self)@.entries.len() ==> res is Ok && final(self)@.entries == old(self)@.entries.update(
                source@ - 1,
                SourceRecord { state: SourceState::Active, failures: 0, ..old(self)@.entries[source@ - 1] },
            ),
            !(1 <= source@ <= old(self)@.entries.len()) ==> (res matches Err(e) && is_unknown_source_error(e, source@)
                && final(self)@.entries == old(self)@.entries),
    {
        match self.position(source) {
            None => Err(Self::unknown_source(source)),
            Some(k) => {
                let ghost before = self.entries@;
                self.entries[k].state = SourceState::Active;
                self.entries[k].failures = 0;
                proof {
                    assert(self@.entries =~= old(self)@.entries.update(
                        source@ - 1,
                        SourceRecord { state: SourceState::Active, failures: 0, ..old(self)@.entries[source@ - 1] },
                    ));
                    assert forall|i: int| 0 <= i < self.entries@.len() implies (#[trigger] self.entries@[i]).candidate.id@ == i + 1 by {
                        assert(self.entries@[i].candidate == before[i].candidate);
                    }
                }
                Ok(())
            },
        }
    }

    /// Records a failed attempt. Corrupt data and protocol violations quarantine
    /// the source; other failures count against the retry limit, exhausting the
    /// source once the count reaches it, and cooling it down before.
    pub fn record_failure(&mut self, source: SourceId, failure: SourceFailure) -> (res: Result<(), RuntimeError>)
        requires
            old(self).wf(),
        ensures
            final(self).wf(),
            keeps_endpoints(old(self)@.entries, final(self)@.entries),
            final(self)@.retry_limit == old(self)@.retry_limit,
            final(self)@.max_sources == old(self)@.max_sources,
            1 <= source@ <= old(self)@.entries.len() ==> res is Ok && final(self)@.entries == old(self)@.entries.update(
                source@ - 1,
                after_failure(old(self)@.entries[source@ - 1], failure, old(self)@.retry_limit),
            ),
            !(1 <= source@ <= old(self)@.entries.len()) ==> (res matches Err(e) && is_unknown_source_error(e, source@)
                && final(self)@.entries == old(self)@.entries),
    {
        let retry_limit = self.retry_limit;
        match self.position(source) {
            None => Err(Self::unknown_source(source)),
            Some(k) => {
                let ghost before = self.entries@;
                match failure {
                    SourceFailure::CorruptData | SourceFailure::ProtocolViolation => {
                        self.entries[k].state = SourceState::Quarantined;
                    },
                    SourceFailure::Timeout | SourceFailure::Refused | SourceFailure::HttpStatus(_) => {
                        let failures = self.entries[k].failures;
                        let counted = if failures < usize::MAX { failures + 1 } else { failures };
                        self.entries[k].failures = counted;
                        self.entries[k].state = if counted >= retry_limit {
                            SourceState::Exhausted
                        } else {
                            SourceState::CoolingDown
                        };
                    },
                }
                proof {
                    assert(self@.entries =~= old(self)@.entries.update(
                        source@ - 1,
                        after_failure(old(self)@.entries[source@ - 1], failure, old(self)@.retry_limit),
                    ));
                    assert forall|i: int| 0 <= i < self.entries@.len() implies (#[trigger] self.entries@[i]).candidate.id@ == i + 1 by {
                        assert(self.entries@[i].candidate == before[i].candidate);
                    }
                }
                Ok(())
            },
        }
    }


    /// Admits a new source: refused when the table is full, then when the
    /// endpoint is already present. The new source gets the next id.
    pub fn add_candidate(&mut self, endpoint: SourceEndpoint, kind: SourceKind) -> (res: Result<SourceId, RuntimeError>)
        requires
            old(self).wf(),
        ensures
            final(self).wf(),
            keeps_endpoints(old(self)@.entries, final(self)@.entries),
            final(self)@.retry_limit == old(self)@.retry_limit,
            final(self)@.max_sources == old(self)@.max_sources,
            old(self)@.entries.len() >= old(self)@.max_sources ==> res == Err::<SourceId, RuntimeError>(RuntimeError::SourceTableFull)
                && final(self)@.entries == old(self)@.entries,
            old(self)@.entries.len() < old(self)@.max_sources && has_endpoint(old(self)@.entries, endpoint@)
                ==> res == Err::<SourceId, RuntimeError>(RuntimeError::DuplicateSource) && final(self)@.entries == old(self)@.entries,
            old(self)@.entries.len() < old(self)@.max_sources && !has_endpoint(old(self)@.entries, endpoint@)
                ==> (res matches Ok(id) && id@ == old(self)@.entries.len() + 1
                && final(self)@.entries == old(self)@.entries.push(fresh_record(kind, endpoint@))),
    {
        if self.entries.len() >= self.max_sources {
            return Err(RuntimeError::SourceTableFull);
        }
        let found = find_endpoint(&self.entries, &endpoint);
        proof {
            if found is Some {
                let k = found->0 as int;
                assert(self@.entries[k] == self.entries@[k].record());
            } else {
                assert forall|j: int| 0 <= j < self@.entries.len() implies self@.entries[j].endpoint != endpoint@ by {
                    assert(self@.entries[j] == self.entries@[j].record());
                }
            }
        }
        if found.is_some() {
            return Err(RuntimeError::DuplicateSource);
        }
        let id = SourceId::new(self.entries.len() as u64 + 1);
        let ghost before = self.entries@;
        self.entries.push(SourceEntry {
            candidate: SourceCandidate { id, kind, endpoint },
            state: SourceState::Fresh,
            failures: 0,
        });
        proof {
            assert(self@.entries =~= old(self)@.entries.push(fresh_record(kind, endpoint@)));
            assert forall|i: int| 0 <= i < self.entries@.len() implies (#[trigger] self.entries@[i]).candidate.id@ == i + 1 by {
                if i < before.len() {
                    assert(self.entries@[i] == before[i]);
                }
            }
            assert forall|i: int, j: int| 0 <= i < j < self@.entries.len() implies self@.entries[i].endpoint != self@.entries[j].endpoint by {
                if j < before.len() {
                    assert(self@.entries[i] == old(self)@.entries[i]);
                    assert(self@.entries[j] == old(self)@.entries[j]);
                } else {
                    assert(self@.entries[i] == old(self)@.entries[i]);
                }
            }
        }
        Ok(id)
    }

    /// Admits a peer found through the DHT.
    pub fn add_dht_peer(&mut self, address: SocketAddress) -> (res: Result<SourceId, RuntimeError>)
        requires
            old(self).wf(),
        ensures
            final(self).wf(),
            keeps_endpoints(old(self)@.entries, final(self)@.entries),
            add_outcome(old(self)@, final(self)@, res, EndpointView::Peer(address), SourceKind::DhtPeer),
    {
        self.add_candidate(SourceEndpoint::Peer(address), SourceKind::DhtPeer)
    }

    /// Admits a peer learned through peer exchange.
    pub fn add_pex_peer(&mut self, address: SocketAddress) -> (res: Result<SourceId, RuntimeError>)
        requires
            old(self).wf(),
        ensures
            final(self).wf(),
            keeps_endpoints(old(self)@.entries, final(self)@.entries),
            add_outcome(old(self)@, final(self)@, res, EndpointView::Peer(address), SourceKind::PexPeer),
    {
        self.add_candidate(SourceEndpoint::Peer(address), SourceKind::PexPeer)
    }

    /// Admits a peer found by local service discovery.
    pub fn add_lsd_peer(&mut self, address: SocketAddress) -> (res: Result<SourceId, RuntimeError>)
        requires
            old(self).wf(),
        ensures
            final(self).wf(),
            keeps_endpoints(old(self)@.entries, final(self)@.entries),
            add_outcome(old(self)@, final(self)@, res, EndpointView::Peer(address), SourceKind::LsdPeer),
    {
        self.add_candidate(SourceEndpoint::Peer(address), SourceKind::LsdPeer)
    }

    /// The state of a source.
    pub fn state(&self, source: SourceId) -> (res: Result<SourceState, RuntimeError>)
        requires
            self.wf(),
        ensures
            1 <= source@ <= self@.entries.len() ==> res == Ok::<SourceState, RuntimeError>(self@.entries[source@ - 1].state),
            !(1 <= source@ <= self@.entries.len()) ==> (res matches Err(e) && is_unknown_source_error(e, source@)),
    {
        match self.position(source) {
            None => Err(Self::unknown_source(source)),
            Some(k) => {
                assert(self@.entries[k as int] == self.entries@[k as int].record());
                Ok(self.entries[k].state)
            },
        }
    }

    /// The id of the source at this endpoint, if the table holds one.
    pub fn id_for_endpoint(&self, endpoint: &SourceEndpoint) -> (id: Option<SourceId>)
        requires
            self.wf(),
        ensures
            match id {
                Some(id) => 1 <= id@ <= self@.entries.len() && self@.entries[id@ - 1].endpoint == endpoint@,
                None => !has_endpoint(self@.entries, endpoint@),
            },
    {
        match find_endpoint(&self.entries, endpoint) {
            Some(k) => {
                assert(self@.entries[k as int] == self.entries@[k as int].record());
                Some(SourceId::new(k as u64 + 1))
            },
            None => {
                assert forall|j: int| 0 <= j < self@.entries.len() implies self@.entries[j].endpoint != endpoint@ by {
                    assert(self@.entries[j] == self.entries@[j].record());
                }
                None
            },
        }
    }

    /// The table's bookkeeping holds together: ids follow positions, endpoints
    /// are distinct, and the table stays within its limit.
    pub closed spec fn wf(&self) -> bool {
        &&& self.entries@.len() <= self.max_sources
        &&& forall|i: int| 0 <= i < self.entries@.len() ==> (#[trigger] self.entries@[i]).candidate.id@ == i + 1
        &&& distinct_endpoints(self@.entries)
    }

    /// No two sources of a table share an endpoint.
    pub proof fn lemma_distinct(&self)
        requires
            self.wf(),
        ensures
            distinct_endpoints(self@.entries),
    {
    }

    /// Builds a table from the candidates, in order: a candidate whose endpoint
    /// was already taken is skipped, and admission stops at the configured limit.
    /// Admitted sources are numbered from one.
    pub fn from_candidates(candidates: Vec<SourceCandidate>, config: &RuntimeConfig) -> (res: Result<Self, RuntimeError>)
        ensures
            match runtime_config_error(*config) {
                Some(e) => res == Err::<SourceTable, RuntimeError>(e),
                None => res matches Ok(t) && t.wf() && t@.retry_limit == config.limits.source_retry_limit
                    && t@.max_sources == config.limits.max_sources_per_torrent
                    && t@.entries == admitted(candidates@.map_values(|c: SourceCandidate| c@),
                        config.limits.max_sources_per_torrent as nat, candidates@.len()),
            },
    {
        config.check()?;
        let max = config.limits.max_sources_per_torrent;
        let ghost cands = candidates@.map_values(|c: SourceCandidate| c@);
        let mut entries: Vec<SourceEntry> = Vec::new();
        let mut i: usize = 0;
        let n = candidates.len();
        while i < n
            invariant_except_break
                i <= n,
            invariant
                n == candidates@.len(),
                cands == candidates@.map_values(|c: SourceCandidate| c@),
                entries@.len() <= max,
                forall|k: int| 0 <= k < entries@.len() ==> (#[trigger] entries@[k]).candidate.id@ == k + 1,
                entries@.map_values(|e: SourceEntry| e.record()) == admitted(cands, max as nat, i as nat),
            ensures
                entries@.map_values(|e: SourceEntry| e.record()) == admitted(cands, max as nat, n as nat),
            decreases n - i,
        {
            let ghost acc = admitted(cands, max as nat, i as nat);
            let c = &candidates[i];
            let dup = find_endpoint(&entries, &c.endpoint).is_some();
            proof {
                assert(cands[i as int] == candidates@[i as int]@);
                if dup {
                    let w = choose|j: int| 0 <= j < entries@.len() && entries@[j].candidate.endpoint@ == c.endpoint@;
                    assert(acc[w] == entries@[w].record());
                    assert(acc[w].endpoint == cands[i as int].endpoint);
                } else {
                    assert forall|j: int| 0 <= j < acc.len() implies acc[j].endpoint != c.endpoint@ by {
                        assert(acc[j] == entries@[j].record());
                    }
                }
            }
            assert(dup == has_endpoint(acc, cands[i as int].endpoint));
            if dup {
                i = i + 1;
                continue;
            }
            if entries.len() == max {
                proof {
                    lemma_admitted_full(cands, max as nat, i as nat, n as nat);
                }
                break;
            }
            proof {
                lemma_admitted_len(cands, max as nat, i as nat);
            }
            let id = SourceId::new(entries.len() as u64 + 1);
            let candidate = SourceCandidate { id, kind: c.kind, endpoint: c.endpoint.clone() };
            entries.push(SourceEntry { candidate, state: SourceState::Fresh, failures: 0 });
            proof {
                assert(entries@.map_values(|e: SourceEntry| e.record()) =~= acc.push(
                    fresh_record(cands[i as int].kind, cands[i as int].endpoint),
                ));
            }
            i = i + 1;
        }
        proof {
            lemma_admitted_distinct(cands, max as nat, n as nat);
        }
        let table = SourceTable {
            retry_limit: config.limits.source_retry_limit,
            max_sources: max,
            entries,
        };
        Ok(table)
    }
}

/// What adding a source does: refused when full, then when the endpoint is
/// present; otherwise the source is appended with the next id.
pub open spec fn add_outcome(
    before: SourceTableView,
    after: SourceTableView,
    res: Result<SourceId, RuntimeError>,
    endpoint: EndpointView,
    kind: SourceKind,
) -> bool {
    &&& after.retry_limit == before.retry_limit
    &&& after.max_sources == before.max_sources
    &&& before.entries.len() >= before.max_sources ==> res == Err::<SourceId, RuntimeError>(RuntimeError::SourceTableFull)
        && after.entries == before.entries
    &&& before.entries.len() < before.max_sources && has_endpoint(before.entries, endpoint)
        ==> res == Err::<SourceId, RuntimeError>(RuntimeError::DuplicateSource) && after.entries == before.entries
    &&& before.entries.len() < before.max_sources && !has_endpoint(before.entries, endpoint)
        ==> (res matches Ok(id) && id@ == before.entries.len() + 1 && after.entries == before.entries.push(fresh_record(kind, endpoint)))
}

/// The smaller of two naturals.
pub open spec fn min_nat(a: nat, b: nat) -> nat {
    if a <= b { a } else { b }
}

proof fn lemma_retry_prefix(entries: Seq<SourceRecord>, n: nat, m: nat)
    requires
        n <= m <= entries.len(),
    ensures
        retry_candidates(entries, n).len() <= retry_candidates(entries, m).len(),
        forall|j: int| 0 <= j < retry_candidates(entries, n).len() ==> retry_candidates(entries, n)[j]
            == #[trigger] retry_candidates(entries, m)[j],
    decreases m,
{
    if m > n {
        lemma_retry_prefix(entries, n, (m - 1) as nat);
    }
}

/// What a later call leaves of the records: each earlier record keeps its
/// endpoint in its place, and any new records come after them.
pub open spec fn keeps_endpoints(before: Seq<SourceRecord>, after: Seq<SourceRecord>) -> bool {
    &&& before.len() <= after.len()
    &&& forall|i: int| 0 <= i < before.len() ==> #[trigger] after[i].endpoint == before[i].endpoint
}

/// Law: a source id keeps naming its source. Once the records hold
/// `endpoint` at the place of id `id` (as `add_candidate` leaves them when
/// it answers `Ok(id)`), every later run of the table's calls, each of
/// which keeps earlier endpoints in place, leaves the endpoint at that
/// place and nowhere else, so `id_for_endpoint` keeps answering `Some(id)`.
pub proof fn law_source_id_is_stable(history: Seq<Seq<SourceRecord>>, id: nat, endpoint: EndpointView)
    requires
        history.len() > 0,
        forall|k: int| 0 <= k < history.len() - 1 ==> keeps_endpoints(#[trigger] history[k], history[k + 1]),
        1 <= id <= history[0].len(),
        history[0][id - 1].endpoint == endpoint,
        distinct_endpoints(history.last()),
    ensures
        id <= history.last().len(),
        history.last()[id - 1].endpoint == endpoint,
        forall|j: int| 0 <= j < history.last().len() && #[trigger] history.last()[j].endpoint == endpoint ==> j == id - 1,
    decreases history.len(),
{
    if history.len() > 1 {
        let earlier = history.drop_last();
        assert forall|k: int| 0 <= k < earlier.len() - 1 implies keeps_endpoints(#[trigger] earlier[k], earlier[k + 1]) by {
            assert(earlier[k] == history[k] && earlier[k + 1] == history[k + 1]);
        }
        lemma_endpoint_kept(earlier, id, endpoint);
        assert(keeps_endpoints(history[history.len() - 2], history[history.len() - 1]));
        assert(earlier.last() == history[history.len() - 2]);
    }
    let last = history.last();
    assert forall|j: int| 0 <= j < last.len() && #[trigger] last[j].endpoint == endpoint implies j == id - 1 by {
        if j < id - 1 {
            assert(last[j].endpoint != last[id - 1].endpoint);
        } else if j > id - 1 {
            assert(last[id - 1].endpoint != last[j].endpoint);
        }
    }
}

proof fn lemma_endpoint_kept(history: Seq<Seq<SourceRecord>>, id: nat, endpoint: EndpointView)
    requires
        history.len() > 0,
        forall|k: int| 0 <= k < history.len() - 1 ==> keeps_endpoints(#[trigger] history[k], history[k + 1]),
        1 <= id <= history[0].len(),
        history[0][id - 1].endpoint == endpoint,
    ensures
        id <= history.last().len(),
        history.last()[id - 1].endpoint == endpoint,
    decreases history.len(),
{
    if history.len() > 1 {
        let earlier = history.drop_last();
        assert forall|k: int| 0 <= k < earlier.len() - 1 implies keeps_endpoints(#[trigger] earlier[k], earlier[k + 1]) by {
            assert(earlier[k] == history[k] && earlier[k + 1] == history[k + 1]);
        }
        lemma_endpoint_kept(earlier, id, endpoint);
        assert(keeps_endpoints(history[history.len() - 2], history[history.len() - 1]));
        assert(earlier.last() == history[history.len() - 2]);
    }
}

/// No two records share an endpoint.
pub open spec fn distinct_endpoints(entries: Seq<SourceRecord>) -> bool {
    forall|i: int, j: int| 0 <= i < j < entries.len() ==> entries[i].endpoint != entries[j].endpoint
}

} // verus!
