use vstd::prelude::*;

verus! {

/// The extension message id under which this client takes peer-exchange
/// messages (`ut_pex`).
pub const LOCAL_PEX_MESSAGE_ID: u8 = 1;

/// What a peer-wire message is to the peer-exchange layer.
#[derive(Clone, Copy, Debug, PartialEq, Eq, Structural)]
pub enum PexRoute {
    /// Not for peer exchange: the message goes on to the peer manager.
    PassOn,
    /// An extension message of a torrent that takes no peer exchange: it is
    /// dropped.
    Swallow,
    /// The extension handshake: read which id the peer gives `ut_pex`.
    ReadHandshake,
    /// A peer-exchange message from a peer that announced it: read its contacts.
    ReadContacts,
}

/// Where a message goes. `extension` is the extension id of an extension
/// message and `None` for any other message; `peer_announced_pex` is
/// whether the peer's handshake named `ut_pex`.
pub open spec fn spec_pex_route(pex_allowed: bool, extension: Option<u8>, peer_announced_pex: bool) -> PexRoute {
    if !pex_allowed {
        if extension is Some { PexRoute::Swallow } else { PexRoute::PassOn }
    } else {
        match extension {
            None => PexRoute::PassOn,
            Some(id) => if id == 0 {
                PexRoute::ReadHandshake
            } else if id == LOCAL_PEX_MESSAGE_ID && peer_announced_pex {
                PexRoute::ReadContacts
            } else {
                PexRoute::PassOn
            },
        }
    }
}

pub fn pex_route(pex_allowed: bool, extension: Option<u8>, peer_announced_pex: bool) -> (route: PexRoute)
    ensures
        route == spec_pex_route(pex_allowed, extension, peer_announced_pex),
{
    if !pex_allowed {
        return if extension.is_some() { PexRoute::Swallow } else { PexRoute::PassOn };
    }
    match extension {
        None => PexRoute::PassOn,
        Some(id) => {
            if id == 0 {
                PexRoute::ReadHandshake
            } else if id == LOCAL_PEX_MESSAGE_ID && peer_announced_pex {
                PexRoute::ReadContacts
            } else {
                PexRoute::PassOn
            }
        },
    }
}

/// Whether a newly connected peer is told that this client takes peer
/// exchange: only where the torrent allows it and the peer speaks the
/// extension protocol.
pub fn should_advertise_pex(pex_allowed: bool, supports_extended: bool) -> (advertise: bool)
    ensures
        advertise == (pex_allowed && supports_extended),
{
    pex_allowed && supports_extended
}

/// Whether the keys are distinct.
pub open spec fn distinct_keys(e: Seq<(u64, u8)>) -> bool {
    forall|i: int, j: int| 0 <= i < j < e.len() ==> e[i].0 != e[j].0
}

/// Whether some entry has the key.
pub open spec fn has_peer(e: Seq<(u64, u8)>, peer: u64) -> bool {
    exists|i: int| 0 <= i < e.len() && #[trigger] e[i].0 == peer
}

/// The ids by peer key.
pub open spec fn pex_id_map(e: Seq<(u64, u8)>) -> Map<u64, u8> {
    Map::new(
        |k: u64| has_peer(e, k),
        |k: u64| e[choose|i: int| 0 <= i < e.len() && #[trigger] e[i].0 == k].1,
    )
}

proof fn lemma_pex_at(e: Seq<(u64, u8)>, i: int)
    requires
        distinct_keys(e),
        0 <= i < e.len(),
    ensures
        pex_id_map(e).dom().contains(e[i].0),
        pex_id_map(e)[e[i].0] == e[i].1,
{
    assert(has_peer(e, e[i].0));
    let p = choose|p: int| 0 <= p < e.len() && #[trigger] e[p].0 == e[i].0;
    if p < i {
        assert(e[p].0 != e[i].0);
    } else if p > i {
        assert(e[i].0 != e[p].0);
    }
}

/// The peers whose extension handshake named `ut_pex`, with the message id
/// each gave it.
#[derive(Debug)]
pub struct PexPeers {
    entries: Vec<(u64, u8)>,
}

impl View for PexPeers {
    type V = Map<u64, u8>;

    open spec fn view(&self) -> Map<u64, u8> {
        pex_id_map(self.spec_entries())
    }
}

impl PexPeers {
    pub closed spec fn spec_entries(&self) -> Seq<(u64, u8)> {
        self.entries@
    }

    pub open spec fn wf(&self) -> bool {
        distinct_keys(self.spec_entries())
    }

    /// No peer has announced peer exchange.
    pub fn new() -> (peers: PexPeers)
        ensures
            peers.wf(),
            peers@ == Map::<u64, u8>::empty(),
    {
        let peers = PexPeers { entries: Vec::new() };
        assert(peers@ =~= Map::<u64, u8>::empty());
        peers
    }

    fn find(&self, peer: u64) -> (pos: Option<usize>)
        ensures
            match pos {
                Some(i) => i < self.spec_entries().len() && self.spec_entries()[i as int].0 == peer,
                None => !has_peer(self.spec_entries(), peer),
            },
    {
        let mut i: usize = 0;
        while i < self.entries.len()
            invariant
                i <= self.entries@.len(),
                forall|j: int| 0 <= j < i ==> #[trigger] self.entries@[j].0 != peer,
            decreases self.entries@.len() - i,
        {
            if self.entries[i].0 == peer {
                return Some(i);
            }
            i = i + 1;
        }
        None
    }

    /// The id a peer gave `ut_pex`, if it announced it.
    pub fn message_id(&self, peer: u64) -> (id: Option<u8>)
        requires
            self.wf(),
        ensures
            id == (if self@.dom().contains(peer) { Some(self@[peer]) } else { None::<u8> }),
    {
        match self.find(peer) {
            Some(i) => {
                proof {
                    lemma_pex_at(self.entries@, i as int);
                }
                Some(self.entries[i].1)
            },
            None => None,
        }
    }

    /// Records a peer's extension handshake: the id it gives `ut_pex`, or
    /// `None` when it names no such extension, which forgets the peer.
    pub fn record_handshake(&mut self, peer: u64, ut_pex: Option<u8>)
        requires
            old(self).wf(),
        ensures
            final(self).wf(),
            final(self)@ == match ut_pex {
                Some(id) => old(self)@.insert(peer, id),
                None => old(self)@.remove(peer),
            },
    {
        let ghost before = self.entries@;
        let found = self.find(peer);
        if let Some(i) = found {
            self.entries.remove(i);
            proof {
                let mid = self.entries@;
                assert(mid == before.remove(i as int));
                assert forall|a: int, b: int| 0 <= a < b < mid.len() implies mid[a].0 != mid[b].0 by {
                    let a0 = if a < i { a } else { a + 1 };
                    let b0 = if b < i { b } else { b + 1 };
                    assert(mid[a] == before[a0]);
                    assert(mid[b] == before[b0]);
                }
                assert forall|k: u64| #[trigger] pex_id_map(mid).dom().contains(k) <==> pex_id_map(before).remove(peer).dom().contains(k) by {
                    if has_peer(mid, k) {
                        let p = choose|p: int| 0 <= p < mid.len() && #[trigger] mid[p].0 == k;
                        let q = if p < i { p } else { p + 1 };
                        assert(mid[p] == before[q]);
                        if k == peer {
                            if q < i {
                                assert(before[q].0 != before[i as int].0);
                            } else {
                                assert(before[i as int].0 != before[q].0);
                            }
                        }
                    }
                    if has_peer(before, k) && k != peer {
                        let p = choose|p: int| 0 <= p < before.len() && #[trigger] before[p].0 == k;
                        if p < i {
                            assert(mid[p].0 == k);
                        } else {
                            assert(p != i);
                            assert(mid[p - 1].0 == k);
                        }
                    }
                }
                assert forall|k: u64| #[trigger] pex_id_map(mid).dom().contains(k) implies pex_id_map(mid)[k] == pex_id_map(before)[k] by {
                    let p = choose|p: int| 0 <= p < mid.len() && #[trigger] mid[p].0 == k;
                    lemma_pex_at(mid, p);
                    let q = if p < i { p } else { p + 1 };
                    assert(mid[p] == before[q]);
                    lemma_pex_at(before, q);
                }
                assert(pex_id_map(mid) =~= pex_id_map(before).remove(peer));
            }
        } else {
            assert(pex_id_map(before) =~= pex_id_map(before).remove(peer));
        }
        let ghost mid = self.entries@;
        if let Some(id) = ut_pex {
            self.entries.push((peer, id));
            proof {
                let after = self.entries@;
                let n = mid.len() as int;
                assert(!has_peer(mid, peer)) by {
                    if has_peer(mid, peer) {
                        assert(pex_id_map(mid).dom().contains(peer));
                    }
                }
                assert(after == mid.push((peer, id)));
                assert forall|a: int, b: int| 0 <= a < b < after.len() implies after[a].0 != after[b].0 by {
                    if b == n {
                        assert(after[a] == mid[a]);
                    }
                }
                lemma_pex_at(after, n);
                assert forall|k: u64| #[trigger] pex_id_map(after).dom().contains(k) <==> pex_id_map(mid).insert(peer, id).dom().contains(k) by {
                    if has_peer(after, k) && k != peer {
                        let p = choose|p: int| 0 <= p < after.len() && #[trigger] after[p].0 == k;
                        assert(mid[p].0 == k);
                    }
                    if has_peer(mid, k) {
                        let p = choose|p: int| 0 <= p < mid.len() && #[trigger] mid[p].0 == k;
                        assert(after[p].0 == k);
                    }
                }
                assert forall|k: u64| #[trigger] pex_id_map(after).dom().contains(k) && k != peer implies pex_id_map(after)[k] == pex_id_map(mid)[k] by {
                    let p = choose|p: int| 0 <= p < after.len() && #[trigger] after[p].0 == k;
                    lemma_pex_at(after, p);
                    assert(p != n);
                    assert(after[p] == mid[p]);
                    lemma_pex_at(mid, p);
                }
                assert(pex_id_map(after) =~= pex_id_map(mid).insert(peer, id));
                assert(pex_id_map(before).remove(peer).insert(peer, id) =~= pex_id_map(before).insert(peer, id));
            }
        }
    }
}

} // verus!
