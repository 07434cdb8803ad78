use vstd::prelude::*;

use crate::net::SocketAddress;
use crate::torrent::TorrentPlan;

verus! {

/// The event an announce reports to the tracker.
#[derive(Clone, Copy, Debug, PartialEq, Eq, Structural)]
pub enum AnnounceEvent {
    Started,
    Completed,
    Stopped,
}

/// An announce to a tracker.
#[derive(Clone, Copy, Debug, PartialEq, Eq)]
pub struct AnnounceRequest {
    pub info_hash: [u8; 20],
    pub peer_id: [u8; 20],
    pub port: u16,
    pub uploaded: u64,
    pub downloaded: u64,
    pub left: u64,
    pub event: Option<AnnounceEvent>,
    pub compact: bool,
    pub numwant: Option<u32>,
    pub key: Option<u32>,
}

/// The first announce of a run: started, nothing moved yet, compact peers.
pub fn build_started_announce(info_hash: [u8; 20], left: u64, peer_id: [u8; 20], port: u16, numwant: u32) -> (request: AnnounceRequest)
    ensures
        request == (AnnounceRequest {
            info_hash,
            peer_id,
            port,
            uploaded: 0,
            downloaded: 0,
            left,
            event: Some(AnnounceEvent::Started),
            compact: true,
            numwant: Some(numwant),
            key: None,
        }),
{
    AnnounceRequest {
        info_hash,
        peer_id,
        port,
        uploaded: 0,
        downloaded: 0,
        left,
        event: Some(AnnounceEvent::Started),
        compact: true,
        numwant: Some(numwant),
        key: None,
    }
}

/// A periodic announce of a running torrent: no event, compact peers.
pub fn build_announce_request(
    info_hash: [u8; 20],
    peer_id: [u8; 20],
    port: u16,
    uploaded: u64,
    downloaded: u64,
    left: u64,
    numwant: u32,
) -> (request: AnnounceRequest)
    ensures
        request == (AnnounceRequest {
            info_hash,
            peer_id,
            port,
            uploaded,
            downloaded,
            left,
            event: None,
            compact: true,
            numwant: Some(numwant),
            key: None,
        }),
{
    AnnounceRequest {
        info_hash,
        peer_id,
        port,
        uploaded,
        downloaded,
        left,
        event: None,
        compact: true,
        numwant: Some(numwant),
        key: None,
    }
}

/// The port a plan's announces name.
pub const PLAN_ANNOUNCE_PORT: u16 = 6881;

/// The periodic announce of a plan: port 6881, nothing counted as moved,
/// and what is not yet verified left (never below zero).
pub fn build_plan_announce_request(plan: &TorrentPlan, peer_id: [u8; 20], verified_bytes: u64, numwant: u32) -> (request: AnnounceRequest)
    ensures
        request.info_hash@ == plan.id@,
        request.peer_id == peer_id,
        request.port == PLAN_ANNOUNCE_PORT,
        request.uploaded == 0,
        request.downloaded == 0,
        request.left == (if plan.total_size >= verified_bytes {
            plan.total_size - verified_bytes
        } else {
            0
        }),
        request.event is None,
        request.compact,
        request.numwant == Some(numwant),
        request.key is None,
{
    let left = plan.total_size.saturating_sub(verified_bytes);
    build_announce_request(*plan.id.as_bytes(), peer_id, PLAN_ANNOUNCE_PORT, 0, 0, left, numwant)
}

/// The peers a tracker response offers, taken in order: dialable, each
/// once, and no more than `limit`.
pub open spec fn selected_peers(peers: Seq<SocketAddress>, limit: nat) -> Seq<SocketAddress>
    decreases peers.len(),
{
    if peers.len() == 0 {
        Seq::empty()
    } else {
        let before = selected_peers(peers.drop_last(), limit);
        let p = peers.last();
        if before.len() >= limit || !p.spec_is_dialable() || before.contains(p) {
            before
        } else {
            before.push(p)
        }
    }
}

/// A selection never grows past its limit.
proof fn lemma_selected_len(peers: Seq<SocketAddress>, limit: nat)
    ensures
        selected_peers(peers, limit).len() <= limit,
    decreases peers.len(),
{
    if peers.len() > 0 {
        lemma_selected_len(peers.drop_last(), limit);
    }
}

/// A selection that is full stays as it is.
proof fn lemma_selected_full(peers: Seq<SocketAddress>, limit: nat, n: int)
    requires
        0 <= n <= peers.len(),
        selected_peers(peers.take(n), limit).len() >= limit,
    ensures
        selected_peers(peers, limit) == selected_peers(peers.take(n), limit),
    decreases peers.len() - n,
{
    if n < peers.len() {
        assert(peers.take(n + 1).drop_last() =~= peers.take(n));
        lemma_selected_full(peers, limit, n + 1);
    } else {
        assert(peers.take(n) =~= peers);
    }
}

/// A peer selected earlier occurs in the response before every occurrence
/// of a peer selected later.
proof fn lemma_selection_keeps_order(peers: Seq<SocketAddress>, limit: nat)
    ensures
        forall|i: int, j: int, b: int|
            #![trigger peers[b], selected_peers(peers, limit)[j], selected_peers(peers, limit)[i]]
            0 <= i < j < selected_peers(peers, limit).len() && 0 <= b < peers.len() && peers[b]
                == selected_peers(peers, limit)[j] && selected_peers(peers, limit)[i] != selected_peers(peers, limit)[j]
                ==> exists|a: int| 0 <= a < b && peers[a] == selected_peers(peers, limit)[i],
    decreases peers.len(), 0int,
{
    if peers.len() > 0 {
        let rest = peers.drop_last();
        lemma_selection_keeps_order(rest, limit);
        law_selection_is_distinct_dialable_and_complete(rest, limit);
        lemma_selected_len(rest, limit);
        let before = selected_peers(rest, limit);
        let sel = selected_peers(peers, limit);
        let p = peers.last();
        assert forall|i: int, j: int, b: int|
            #![trigger peers[b], selected_peers(peers, limit)[j], selected_peers(peers, limit)[i]]
            0 <= i < j < selected_peers(peers, limit).len() && 0 <= b < peers.len() && peers[b] == selected_peers(peers, limit)[j]
                && selected_peers(peers, limit)[i] != selected_peers(peers, limit)[j]
                implies exists|a: int| 0 <= a < b && peers[a] == selected_peers(peers, limit)[i] by {
            assert(sel[i] == before[i]);
            assert(rest.contains(before[i]));
            let a0 = choose|a: int| 0 <= a < rest.len() && rest[a] == before[i];
            assert(peers[a0] == rest[a0]);
            if b < rest.len() {
                assert(rest[b] == peers[b]);
                if j < before.len() {
                    assert(sel[j] == before[j]);
                    assert(rest[b] == before[j]);
                    let a = choose|a: int| 0 <= a < b && rest[a] == before[i];
                    assert(peers[a] == rest[a]);
                } else {
                    assert(sel[j] == p);
                    assert(!before.contains(p));
                    assert(before.len() < limit);
                    assert(rest[b].spec_is_dialable());
                    assert(before.contains(rest[b]));
                    assert(false);
                }
            }
        }
    }
}

/// Law: what a selection of peers is. It holds no more than `limit`
/// peers, no peer twice, and only dialable peers of the response; and while
/// it is not full, it holds every dialable peer of the response. The
/// selection keeps the response's order: a peer selected earlier occurs in
/// the response before every occurrence of a peer selected later.
pub proof fn law_selection_is_distinct_dialable_and_complete(peers: Seq<SocketAddress>, limit: nat)
    ensures
        selected_peers(peers, limit).len() <= limit,
        forall|i: int, j: int| 0 <= i < j < selected_peers(peers, limit).len()
            ==> selected_peers(peers, limit)[i] != selected_peers(peers, limit)[j],
        forall|i: int| 0 <= i < selected_peers(peers, limit).len()
            ==> (#[trigger] selected_peers(peers, limit)[i]).spec_is_dialable() && peers.contains(selected_peers(peers, limit)[i]),
        selected_peers(peers, limit).len() < limit ==> forall|i: int| 0 <= i < peers.len() && (#[trigger] peers[i]).spec_is_dialable()
            ==> selected_peers(peers, limit).contains(peers[i]),
        forall|i: int, j: int, b: int|
            #![trigger peers[b], selected_peers(peers, limit)[j], selected_peers(peers, limit)[i]]
            0 <= i < j < selected_peers(peers, limit).len() && 0 <= b < peers.len() && peers[b]
                == selected_peers(peers, limit)[j] && selected_peers(peers, limit)[i] != selected_peers(peers, limit)[j]
                ==> exists|a: int| 0 <= a < b && peers[a] == selected_peers(peers, limit)[i],
    decreases peers.len(), 1int,
{
    lemma_selected_len(peers, limit);
    lemma_selection_keeps_order(peers, limit);
    if peers.len() > 0 {
        let rest = peers.drop_last();
        law_selection_is_distinct_dialable_and_complete(rest, limit);
        let before = selected_peers(rest, limit);
        let sel = selected_peers(peers, limit);
        let p = peers.last();
        assert forall|i: int| 0 <= i < sel.len() implies (#[trigger] sel[i]).spec_is_dialable() && peers.contains(sel[i]) by {
            if i < before.len() {
                assert(sel[i] == before[i]);
                let k = choose|k: int| 0 <= k < rest.len() && rest[k] == before[i];
                assert(peers[k] == rest[k]);
            } else {
                assert(sel[i] == p);
                assert(peers[peers.len() - 1] == p);
            }
        }
        assert forall|i: int, j: int| 0 <= i < j < sel.len() implies sel[i] != sel[j] by {
            if j >= before.len() {
                assert(sel[j] == p);
                assert(sel[i] == before[i]);
                assert(!before.contains(p));
            }
        }
        if sel.len() < limit {
            assert(before.len() < limit) by {
                lemma_selected_len(rest, limit);
            }
            assert forall|i: int| 0 <= i < peers.len() && (#[trigger] peers[i]).spec_is_dialable() implies sel.contains(peers[i]) by {
                if i < rest.len() {
                    assert(rest[i] == peers[i]);
                    let k = choose|k: int| 0 <= k < before.len() && before[k] == peers[i];
                    assert(sel[k] == before[k]);
                } else {
                    if before.contains(p) {
                        let k = choose|k: int| 0 <= k < before.len() && before[k] == p;
                        assert(sel[k] == before[k]);
                    } else {
                        assert(sel[before.len() as int] == p);
                    }
                }
            }
        }
    }
}

/// Picks dialable, distinct peers from a tracker response, up to `limit`.
pub fn select_peer_candidates(peers: &Vec<SocketAddress>, limit: usize) -> (selected: Vec<SocketAddress>)
    ensures
        selected@ == selected_peers(peers@, limit as nat),
{
    let mut selected: Vec<SocketAddress> = Vec::new();
    let mut i: usize = 0;
    assert(peers@.take(0) =~= Seq::<SocketAddress>::empty());
    while i < peers.len()
        invariant
            i <= peers@.len(),
            selected@ == selected_peers(peers@.take(i as int), limit as nat),
        decreases peers@.len() - i,
    {
        proof {
            lemma_selected_len(peers@.take(i as int), limit as nat);
        }
        if selected.len() >= limit {
            proof {
                lemma_selected_full(peers@, limit as nat, i as int);
            }
            return selected;
        }
        assert(peers@.take(i as int + 1).drop_last() =~= peers@.take(i as int));
        let peer = peers[i];
        if peer.is_dialable() {
            let mut known = false;
            let mut j: usize = 0;
            while j < selected.len()
                invariant
                    j <= selected@.len(),
                    known == (exists|k: int| 0 <= k < j && selected@[k] == peer),
                decreases selected@.len() - j,
            {
                if selected[j] == peer {
                    known = true;
                }
                j = j + 1;
            }
            if !known {
                selected.push(peer);
            }
        }
        i = i + 1;
    }
    assert(peers@.take(i as int) =~= peers@);
    selected
}

} // verus!
