use vstd::prelude::*;

use crate::dht::DhtRuntimeEvent;
use crate::format::{decimal, decimal_string};
use crate::net::SocketAddress;
use crate::snapshot::{hash_same, TorrentId};

verus! {

/// What the DHT node reports to its worker, as far as the worker reads it.
#[derive(Debug, PartialEq, Eq)]
pub enum DhtNotice {
    /// A ping was answered: the node has a live contact.
    PingAnswered,
    /// Peers were found for an info hash.
    PeersDiscovered { info_hash: [u8; 20], peers: Vec<SocketAddress> },
    /// A peer lookup ran out of nodes to ask.
    LookupExhausted { info_hash: [u8; 20] },
    /// A peer query for an info hash went unanswered.
    GetPeersExpired { info_hash: [u8; 20] },
    /// A remote node answered with a KRPC error.
    ErrorReceived { code: i64 },
    /// Anything else: other answers, queries served, other expiries,
    /// observed external addresses.
    Other,
}

/// Whether the lookups are keyed by distinct info hashes.
pub open spec fn distinct_hashes(e: Seq<([u8; 20], TorrentId)>) -> bool {
    forall|i: int, j: int| 0 <= i < j < e.len() ==> e[i].0@ != e[j].0@
}

/// Whether some lookup is for this info hash.
pub open spec fn has_hash(e: Seq<([u8; 20], TorrentId)>, h: Seq<u8>) -> bool {
    exists|i: int| 0 <= i < e.len() && #[trigger] e[i].0@ == h
}

/// The position of the lookup for this info hash.
pub open spec fn hash_position(e: Seq<([u8; 20], TorrentId)>, h: Seq<u8>) -> int {
    choose|i: int| 0 <= i < e.len() && #[trigger] e[i].0@ == h
}

/// The torrents by the info hash their lookup runs under.
pub open spec fn lookup_map(e: Seq<([u8; 20], TorrentId)>) -> Map<Seq<u8>, TorrentId> {
    Map::new(|h: Seq<u8>| has_hash(e, h), |h: Seq<u8>| e[hash_position(e, h)].1)
}

/// The peer lookups a DHT worker is running, each under the info hash it
/// asks for and on behalf of one torrent.
#[derive(Debug)]
pub struct DhtLookups {
    entries: Vec<([u8; 20], TorrentId)>,
}

impl View for DhtLookups {
    type V = Map<Seq<u8>, TorrentId>;

    open spec fn view(&self) -> Map<Seq<u8>, TorrentId> {
        lookup_map(self.spec_entries())
    }
}

proof fn lemma_lookup_at(e: Seq<([u8; 20], TorrentId)>, i: int)
    requires
        distinct_hashes(e),
        0 <= i < e.len(),
    ensures
        lookup_map(e).dom().contains(e[i].0@),
        lookup_map(e)[e[i].0@] == e[i].1,
{
    assert(has_hash(e, e[i].0@));
    let p = hash_position(e, e[i].0@);
    if p != i {
        if p < i {
            assert(e[p].0@ != e[i].0@);
        } else {
            assert(e[i].0@ != e[p].0@);
        }
    }
}

impl DhtLookups {
    pub closed spec fn spec_entries(&self) -> Seq<([u8; 20], TorrentId)> {
        self.entries@
    }

    pub open spec fn wf(&self) -> bool {
        distinct_hashes(self.spec_entries())
    }

    /// No lookups.
    pub fn new() -> (lookups: DhtLookups)
        ensures
            lookups.wf(),
            lookups@ == Map::<Seq<u8>, TorrentId>::empty(),
    {
        let lookups = DhtLookups { entries: Vec::new() };
        assert(lookups@ =~= Map::<Seq<u8>, TorrentId>::empty());
        lookups
    }

    fn find(&self, info_hash: &[u8; 20]) -> (pos: Option<usize>)
        requires
            self.wf(),
        ensures
            match pos {
                Some(i) => i < self.spec_entries().len() && self.spec_entries()[i as int].0@ == info_hash@,
                None => !has_hash(self.spec_entries(), info_hash@),
            },
    {
        let mut i: usize = 0;
        while i < self.entries.len()
            invariant
                i <= self.entries@.len(),
                forall|j: int| 0 <= j < i ==> #[trigger] self.entries@[j].0@ != info_hash@,
            decreases self.entries@.len() - i,
        {
            if hash_same(&self.entries[i].0, info_hash) {
                return Some(i);
            }
            i = i + 1;
        }
        None
    }

    /// Notes a lookup for `info_hash` on behalf of `torrent`, replacing any
    /// earlier one under that hash.
    pub fn start(&mut self, info_hash: [u8; 20], torrent: TorrentId)
        requires
            old(self).wf(),
        ensures
            final(self).wf(),
            final(self)@ == old(self)@.insert(info_hash@, torrent),
    {
        let ghost before = self.entries@;
        match self.find(&info_hash) {
            Some(i) => {
                self.entries.set(i, (info_hash, torrent));
                proof {
                    let after = self.entries@;
                    assert(after == before.update(i as int, (info_hash, torrent)));
                    assert forall|a: int, b: int| 0 <= a < b < after.len() implies after[a].0@ != after[b].0@ by {
                        assert(after[a].0@ == before[a].0@);
                        assert(after[b].0@ == before[b].0@);
                    }
                    lemma_lookup_at(after, i as int);
                    assert forall|h: Seq<u8>| #[trigger] lookup_map(after).dom().contains(h) <==> lookup_map(before).insert(info_hash@, torrent).dom().contains(h) by {
                        if has_hash(after, h) {
                            let p = hash_position(after, h);
                            assert(before[p].0@ == h);
                        }
                        if has_hash(before, h) {
                            let p = hash_position(before, h);
                            assert(after[p].0@ == h);
                        }
                    }
                    assert forall|h: Seq<u8>| #[trigger] lookup_map(after).dom().contains(h) && h != info_hash@ implies lookup_map(after)[h] == lookup_map(before)[h] by {
                        let p = hash_position(after, h);
                        lemma_lookup_at(after, p);
                        assert(p != i);
                        assert(after[p] == before[p]);
                        lemma_lookup_at(before, p);
                    }
                    assert(lookup_map(after) =~= lookup_map(before).insert(info_hash@, torrent));
                }
            },
            None => {
                self.entries.push((info_hash, torrent));
                proof {
                    let after = self.entries@;
                    let n = before.len() as int;
                    assert(after == before.push((info_hash, torrent)));
                    assert forall|a: int, b: int| 0 <= a < b < after.len() implies after[a].0@ != after[b].0@ by {
                        if b == n {
                            assert(after[a] == before[a]);
                        }
                    }
                    lemma_lookup_at(after, n);
                    assert forall|h: Seq<u8>| #[trigger] lookup_map(after).dom().contains(h) <==> lookup_map(before).insert(info_hash@, torrent).dom().contains(h) by {
                        if has_hash(after, h) && h != info_hash@ {
                            let p = hash_position(after, h);
                            assert(before[p].0@ == h);
                        }
                        if has_hash(before, h) {
                            let p = hash_position(before, h);
                            assert(after[p].0@ == h);
                        }
                    }
                    assert forall|h: Seq<u8>| #[trigger] lookup_map(after).dom().contains(h) && h != info_hash@ implies lookup_map(after)[h] == lookup_map(before)[h] by {
                        let p = hash_position(after, h);
                        lemma_lookup_at(after, p);
                        assert(p != n);
                        assert(after[p] == before[p]);
                        lemma_lookup_at(before, p);
                    }
                    assert(lookup_map(after) =~= lookup_map(before).insert(info_hash@, torrent));
                }
            },
        }
    }

    /// Ends the lookup for `info_hash`, handing back the torrent it ran for,
    /// if any.
    pub fn finish(&mut self, info_hash: &[u8; 20]) -> (torrent: Option<TorrentId>)
        requires
            old(self).wf(),
        ensures
            final(self).wf(),
            final(self)@ == old(self)@.remove(info_hash@),
            torrent == (if old(self)@.dom().contains(info_hash@) {
                Some(old(self)@[info_hash@])
            } else {
                None::<TorrentId>
            }),
    {
        let ghost before = self.entries@;
        match self.find(info_hash) {
            None => {
                assert(lookup_map(before) =~= lookup_map(before).remove(info_hash@));
                None
            },
            Some(i) => {
                proof {
                    lemma_lookup_at(before, i as int);
                }
                let (_, torrent) = self.entries.remove(i);
                proof {
                    let after = self.entries@;
                    assert(after == before.remove(i as int));
                    assert forall|a: int, b: int| 0 <= a < b < after.len() implies after[a].0@ != after[b].0@ by {
                        let a0 = if a < i { a } else { a + 1 };
                        let b0 = if b < i { b } else { b + 1 };
                        assert(after[a] == before[a0]);
                        assert(after[b] == before[b0]);
                    }
                    assert forall|h: Seq<u8>| #[trigger] lookup_map(after).dom().contains(h) <==> lookup_map(before).remove(info_hash@).dom().contains(h) by {
                        if has_hash(after, h) {
                            let p = hash_position(after, h);
                            let q = if p < i { p } else { p + 1 };
                            assert(after[p] == before[q]);
                            assert(q != i);
                            if h == info_hash@ {
                                if q < i {
                                    assert(before[q].0@ != before[i as int].0@);
                                } else {
                                    assert(before[i as int].0@ != before[q].0@);
                                }
                            }
                        }
                        if has_hash(before, h) && h != info_hash@ {
                            let p = hash_position(before, h);
                            assert(p != i);
                            if p < i {
                                assert(after[p].0@ == h);
                            } else {
                                assert(after[p - 1].0@ == h);
                            }
                        }
                    }
                    assert forall|h: Seq<u8>| #[trigger] lookup_map(after).dom().contains(h) implies lookup_map(after)[h] == lookup_map(before)[h] by {
                        let p = hash_position(after, h);
                        lemma_lookup_at(after, p);
                        let q = if p < i { p } else { p + 1 };
                        assert(after[p] == before[q]);
                        lemma_lookup_at(before, q);
                    }
                    assert(lookup_map(after) =~= lookup_map(before).remove(info_hash@));
                }
                Some(torrent)
            },
        }
    }
}

/// A number in decimal, with a leading minus when it is negative.
pub open spec fn signed_decimal(n: int) -> Seq<char> {
    if n < 0 {
        seq!['-'] + decimal((-n) as nat)
    } else {
        decimal(n as nat)
    }
}

/// The text of a KRPC error reported by a remote node.
pub open spec fn dht_error_text(code: i64) -> Seq<char> {
    "DHT error response "@ + signed_decimal(code as int)
}

fn dht_error_reason(code: i64) -> (reason: String)
    ensures
        reason@ == dht_error_text(code),
{
    let mut reason = String::from_str("DHT error response ");
    proof {
        reveal_strlit("DHT error response ");
        reveal_strlit("-");
    }
    if code < 0 {
        let magnitude: u64 = ((-(code + 1)) as u64) + 1;
        reason.append("-");
        reason.append(decimal_string(magnitude).as_str());
        assert(reason@ =~= dht_error_text(code));
    } else {
        reason.append(decimal_string(code as u64).as_str());
    }
    reason
}

/// What a DHT report tells the runtime: an answered ping means the node is
/// bootstrapped; found peers and ended lookups go to the torrent the lookup
/// ran for, and end that lookup, unless no lookup runs under that hash; a
/// remote error is reported as a failure; anything else tells it nothing.
pub fn dht_event_for(lookups: &mut DhtLookups, notice: DhtNotice) -> (event: Option<DhtRuntimeEvent>)
    requires
        old(lookups).wf(),
    ensures
        final(lookups).wf(),
        match notice {
            DhtNotice::PingAnswered => event == Some(DhtRuntimeEvent::Bootstrapped { nodes: 1 })
                && final(lookups)@ == old(lookups)@,
            DhtNotice::PeersDiscovered { info_hash, peers } => final(lookups)@ == old(lookups)@.remove(info_hash@)
                && event == (if old(lookups)@.dom().contains(info_hash@) {
                    Some(DhtRuntimeEvent::PeersDiscovered { torrent: old(lookups)@[info_hash@], peers })
                } else {
                    None::<DhtRuntimeEvent>
                }),
            DhtNotice::LookupExhausted { info_hash } | DhtNotice::GetPeersExpired { info_hash } => final(lookups)@
                == old(lookups)@.remove(info_hash@) && event == (if old(lookups)@.dom().contains(info_hash@) {
                Some(DhtRuntimeEvent::LookupExhausted { torrent: old(lookups)@[info_hash@] })
            } else {
                None::<DhtRuntimeEvent>
            }),
            DhtNotice::ErrorReceived { code } => final(lookups)@ == old(lookups)@ && (event matches Some(
                DhtRuntimeEvent::Failed { reason },
            ) && reason@ == dht_error_text(code)),
            DhtNotice::Other => event is None && final(lookups)@ == old(lookups)@,
        },
{
    match notice {
        DhtNotice::PingAnswered => Some(DhtRuntimeEvent::Bootstrapped { nodes: 1 }),
        DhtNotice::PeersDiscovered { info_hash, peers } => match lookups.finish(&info_hash) {
            Some(torrent) => Some(DhtRuntimeEvent::PeersDiscovered { torrent, peers }),
            None => None,
        },
        DhtNotice::LookupExhausted { info_hash } => match lookups.finish(&info_hash) {
            Some(torrent) => Some(DhtRuntimeEvent::LookupExhausted { torrent }),
            None => None,
        },
        DhtNotice::GetPeersExpired { info_hash } => match lookups.finish(&info_hash) {
            Some(torrent) => Some(DhtRuntimeEvent::LookupExhausted { torrent }),
            None => None,
        },
        DhtNotice::ErrorReceived { code } => Some(DhtRuntimeEvent::Failed { reason: dht_error_reason(code) }),
        DhtNotice::Other => None,
    }
}

/// The report of an announcement that went out to `sent` nodes; the count
/// is held at the largest a `u32` can hold.
pub fn announced_event(torrent: TorrentId, sent: usize) -> (event: DhtRuntimeEvent)
    ensures
        event == (DhtRuntimeEvent::Announced {
            torrent,
            nodes: if sent > u32::MAX { u32::MAX } else { sent as u32 },
        }),
{
    let nodes: u32 = if sent > 4294967295usize { 4294967295u32 } else { sent as u32 };
    DhtRuntimeEvent::Announced { torrent, nodes }
}

/// A lookup answers once: after its peers or its end were reported, no
/// lookup runs under that hash any more, so later reports for the hash are
/// dropped until a new lookup starts; and starting one makes the next
/// report go to its torrent.
pub proof fn law_lookup_answers_once(lookups: Map<Seq<u8>, TorrentId>, info_hash: Seq<u8>, torrent: TorrentId)
    ensures
        !lookups.remove(info_hash).dom().contains(info_hash),
        lookups.remove(info_hash).insert(info_hash, torrent).dom().contains(info_hash),
        lookups.remove(info_hash).insert(info_hash, torrent)[info_hash] == torrent,
{
}

} // verus!
