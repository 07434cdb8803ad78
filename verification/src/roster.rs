use vstd::prelude::*;

use crate::net::SocketAddress;
use crate::snapshot::{RuntimeEvent, TorrentId};

verus! {

/// Why a connection to a peer is not opened.
#[derive(Clone, Copy, Debug, PartialEq, Eq, Structural)]
pub enum PeerRefusal {
    AlreadyConnected,
    Full,
}

/// The connected peers of a torrent: each under a key of its own, handed out
/// in increasing order and never reused, and each address at most once.
#[derive(Debug)]
pub struct PeerRoster {
    peers: Vec<(u64, SocketAddress)>,
    next_key: u64,
    max_connections: usize,
}

/// Whether some connected peer has the address.
pub open spec fn has_addr(peers: Seq<(u64, SocketAddress)>, addr: SocketAddress) -> bool {
    exists|i: int| 0 <= i < peers.len() && #[trigger] peers[i].1 == addr
}

/// Whether some connected peer has the key.
pub open spec fn has_key(peers: Seq<(u64, SocketAddress)>, key: u64) -> bool {
    exists|i: int| 0 <= i < peers.len() && #[trigger] peers[i].0 == key
}

/// The peers in increasing key order, each key below the next to hand out,
/// each address once.
pub open spec fn roster_ok(peers: Seq<(u64, SocketAddress)>, next_key: u64) -> bool {
    &&& next_key >= 1
    &&& forall|i: int, j: int| 0 <= i < j < peers.len() ==> peers[i].0 < peers[j].0
    &&& forall|i: int| 0 <= i < peers.len() ==> #[trigger] peers[i].0 < next_key
    &&& forall|i: int, j: int| 0 <= i < j < peers.len() ==> peers[i].1 != peers[j].1
}

/// The place of the peer with this key.
pub open spec fn key_index(peers: Seq<(u64, SocketAddress)>, key: u64) -> int {
    choose|i: int| 0 <= i < peers.len() && #[trigger] peers[i].0 == key
}

/// The peers left after disconnecting each key in turn, and the addresses
/// of those that were connected, in the order of the keys.
pub open spec fn drop_keys(peers: Seq<(u64, SocketAddress)>, keys: Seq<u64>) -> (Seq<(u64, SocketAddress)>, Seq<SocketAddress>)
    decreases keys.len(),
{
    if keys.len() == 0 {
        (peers, Seq::empty())
    } else {
        let before = drop_keys(peers, keys.drop_last());
        let key = keys.last();
        if has_key(before.0, key) {
            let i = key_index(before.0, key);
            (before.0.remove(i), before.1.push(before.0[i].1))
        } else {
            before
        }
    }
}

impl PeerRoster {
    pub closed spec fn spec_peers(&self) -> Seq<(u64, SocketAddress)> {
        self.peers@
    }

    pub closed spec fn spec_next_key(&self) -> u64 {
        self.next_key
    }

    pub closed spec fn spec_max(&self) -> usize {
        self.max_connections
    }

    pub closed spec fn wf(&self) -> bool {
        roster_ok(self.peers@, self.next_key)
    }

    /// No peers; the first key is 1.
    pub fn new(max_connections: usize) -> (roster: PeerRoster)
        ensures
            roster.wf(),
            roster.spec_peers().len() == 0,
            roster.spec_next_key() == 1,
            roster.spec_max() == max_connections,
    {
        PeerRoster { peers: Vec::new(), next_key: 1, max_connections }
    }

    /// Whether a connection to `addr` may be opened: not when the address
    /// is connected already, nor when the roster is full.
    pub fn check_admission(&self, addr: SocketAddress) -> (res: Result<(), PeerRefusal>)
        ensures
            res == (if has_addr(self.spec_peers(), addr) {
                Err(PeerRefusal::AlreadyConnected)
            } else if self.spec_peers().len() >= self.spec_max() {
                Err(PeerRefusal::Full)
            } else {
                Ok(())
            }),
    {
        if let Some(k) = self.peer_key(addr) {
            proof {
                let i = choose|i: int| 0 <= i < self.spec_peers().len() && #[trigger] self.spec_peers()[i] == (k, addr);
                assert(self.spec_peers()[i].1 == addr);
            }
            return Err(PeerRefusal::AlreadyConnected);
        }
        if self.peers.len() >= self.max_connections {
            return Err(PeerRefusal::Full);
        }
        Ok(())
    }

    /// Records a newly opened connection under the next key.
    pub fn register(&mut self, addr: SocketAddress) -> (key: u64)
        requires
            old(self).wf(),
            !has_addr(old(self).spec_peers(), addr),
            old(self).spec_next_key() < u64::MAX,
        ensures
            final(self).wf(),
            key == old(self).spec_next_key(),
            final(self).spec_peers() == old(self).spec_peers().push((key, addr)),
            final(self).spec_next_key() == old(self).spec_next_key() + 1,
            final(self).spec_max() == old(self).spec_max(),
    {
        let key = self.next_key;
        proof {
            law_roster_keys_are_never_reused(self.peers@, key, addr);
        }
        self.peers.push((key, addr));
        self.next_key = key + 1;
        key
    }

    /// Forgets the peer with the key, if there is one.
    pub fn remove_peer(&mut self, key: u64)
        requires
            old(self).wf(),
        ensures
            final(self).wf(),
            final(self).spec_next_key() == old(self).spec_next_key(),
            final(self).spec_max() == old(self).spec_max(),
            !has_key(old(self).spec_peers(), key) ==> final(self).spec_peers() == old(self).spec_peers(),
            has_key(old(self).spec_peers(), key) ==> exists|i: int|
                0 <= i < old(self).spec_peers().len() && old(self).spec_peers()[i].0 == key
                    && final(self).spec_peers() == #[trigger] old(self).spec_peers().remove(i),
    {
        let mut i: usize = 0;
        while i < self.peers.len()
            invariant
                i <= self.peers@.len(),
                self.peers@ == old(self).peers@,
                self.next_key == old(self).next_key,
                self.max_connections == old(self).max_connections,
                roster_ok(self.peers@, self.next_key),
                forall|j: int| 0 <= j < i ==> self.peers@[j].0 != key,
            decreases self.peers@.len() - i,
        {
            if self.peers[i].0 == key {
                let ghost before = self.peers@;
                self.peers.remove(i);
                proof {
                    let after = self.peers@;
                    assert(before[i as int].0 == key);
                    assert(after == before.remove(i as int));
                    assert forall|a: int, b: int| 0 <= a < b < after.len() implies after[a].0 < after[b].0 by {
                        let a0 = if a < i { a } else { a + 1 };
                        let b0 = if b < i { b } else { b + 1 };
                        assert(after[a] == before[a0]);
                        assert(after[b] == before[b0]);
                    }
                    assert forall|a: int, b: int| 0 <= a < b < after.len() implies after[a].1 != after[b].1 by {
                        let a0 = if a < i { a } else { a + 1 };
                        let b0 = if b < i { b } else { b + 1 };
                        assert(after[a] == before[a0]);
                        assert(after[b] == before[b0]);
                    }
                    assert forall|a: int| 0 <= a < after.len() implies #[trigger] after[a].0 < self.next_key by {
                        let a0 = if a < i { a } else { a + 1 };
                        assert(after[a] == before[a0]);
                    }
                }
                return;
            }
            i = i + 1;
        }
        assert(!has_key(self.peers@, key));
    }

    /// Drops the peer with the key, where it is connected, and hands back
    /// its address.
    pub fn disconnect(&mut self, key: u64) -> (addr: Option<SocketAddress>)
        requires
            old(self).wf(),
        ensures
            final(self).wf(),
            final(self).spec_next_key() == old(self).spec_next_key(),
            final(self).spec_max() == old(self).spec_max(),
            match addr {
                Some(a) => exists|i: int|
                    0 <= i < old(self).spec_peers().len() && old(self).spec_peers()[i] == (key, a)
                        && final(self).spec_peers() == #[trigger] old(self).spec_peers().remove(i),
                None => !has_key(old(self).spec_peers(), key) && final(self).spec_peers() == old(self).spec_peers(),
            },
    {
        let found = self.peer_addr(key);
        match found {
            None => None,
            Some(a) => {
                let ghost before = self.peers@;
                let ghost j = choose|j: int| 0 <= j < before.len() && #[trigger] before[j] == (key, a);
                self.remove_peer(key);
                proof {
                    assert(has_key(before, key)) by {
                        assert(before[j].0 == key);
                    }
                    let i = choose|i: int|
                        0 <= i < before.len() && before[i].0 == key && self.peers@ == #[trigger] before.remove(i);
                    if i < j {
                        assert(before[i].0 < before[j].0);
                    } else if j < i {
                        assert(before[j].0 < before[i].0);
                    }
                    assert(i == j);
                }
                Some(a)
            },
        }
    }

    /// Disconnects each key in turn, where it is connected, and hands back
    /// the addresses of the peers dropped, in the order of the keys.
    pub fn disconnect_all(&mut self, keys: &Vec<u64>) -> (addrs: Vec<SocketAddress>)
        requires
            old(self).wf(),
        ensures
            final(self).wf(),
            final(self).spec_next_key() == old(self).spec_next_key(),
            final(self).spec_max() == old(self).spec_max(),
            (final(self).spec_peers(), addrs@) == drop_keys(old(self).spec_peers(), keys@),
    {
        let mut addrs: Vec<SocketAddress> = Vec::new();
        let mut i: usize = 0;
        while i < keys.len()
            invariant
                i <= keys@.len(),
                self.wf(),
                self.spec_next_key() == old(self).spec_next_key(),
                self.spec_max() == old(self).spec_max(),
                (self.spec_peers(), addrs@) == drop_keys(old(self).spec_peers(), keys@.take(i as int)),
            decreases keys@.len() - i,
        {
            let key = keys[i];
            let ghost before = self.peers@;
            proof {
                assert(keys@.take(i as int + 1).drop_last() =~= keys@.take(i as int));
                assert(keys@.take(i as int + 1).last() == key);
            }
            match self.disconnect(key) {
                Some(a) => {
                    proof {
                        let j = choose|j: int| 0 <= j < before.len() && before[j] == (key, a)
                            && self.peers@ == #[trigger] before.remove(j);
                        assert(before[j].0 == key);
                        assert(has_key(before, key));
                        let k = key_index(before, key);
                        if k < j {
                            assert(before[k].0 < before[j].0);
                        } else if j < k {
                            assert(before[j].0 < before[k].0);
                        }
                        assert(k == j);
                    }
                    addrs.push(a);
                },
                None => {},
            }
            i = i + 1;
        }
        proof {
            assert(keys@.take(i as int) =~= keys@);
        }
        addrs
    }

    /// The address of the peer with the key.
    pub fn peer_addr(&self, key: u64) -> (addr: Option<SocketAddress>)
        ensures
            match addr {
                Some(a) => exists|i: int| 0 <= i < self.spec_peers().len() && #[trigger] self.spec_peers()[i] == (key, a),
                None => !has_key(self.spec_peers(), key),
            },
    {
        let mut i: usize = 0;
        while i < self.peers.len()
            invariant
                i <= self.peers@.len(),
                forall|j: int| 0 <= j < i ==> self.peers@[j].0 != key,
            decreases self.peers@.len() - i,
        {
            if self.peers[i].0 == key {
                assert(self.spec_peers()[i as int] == (key, self.peers@[i as int].1));
                return Some(self.peers[i].1);
            }
            i = i + 1;
        }
        None
    }

    /// The key of the peer with the address.
    pub fn peer_key(&self, addr: SocketAddress) -> (key: Option<u64>)
        ensures
            match key {
                Some(k) => exists|i: int| 0 <= i < self.spec_peers().len() && #[trigger] self.spec_peers()[i] == (k, addr),
                None => !has_addr(self.spec_peers(), addr),
            },
    {
        let mut i: usize = 0;
        while i < self.peers.len()
            invariant
                i <= self.peers@.len(),
                forall|j: int| 0 <= j < i ==> self.peers@[j].1 != addr,
            decreases self.peers@.len() - i,
        {
            if self.peers[i].1 == addr {
                assert(self.spec_peers()[i as int] == (self.peers@[i as int].0, addr));
                return Some(self.peers[i].0);
            }
            i = i + 1;
        }
        None
    }

    /// The connected peers, in key order.
    pub fn connected_peers(&self) -> (peers: Vec<(u64, SocketAddress)>)
        ensures
            peers@ == self.spec_peers(),
    {
        let mut peers: Vec<(u64, SocketAddress)> = Vec::new();
        let mut i: usize = 0;
        while i < self.peers.len()
            invariant
                i <= self.peers@.len(),
                peers@ == self.peers@.take(i as int),
            decreases self.peers@.len() - i,
        {
            peers.push(self.peers[i]);
            assert(peers@ =~= self.peers@.take(i as int + 1));
            i = i + 1;
        }
        assert(self.peers@.take(i as int) =~= self.peers@);
        peers
    }

    pub fn connected_count(&self) -> (n: usize)
        ensures
            n == self.spec_peers().len(),
    {
        self.peers.len()
    }

    pub fn max_connections(&self) -> (max: usize)
        ensures
            max == self.spec_max(),
    {
        self.max_connections
    }
}

/// A registered peer's key is fresh, and each address stays connected once:
/// registering keeps the roster in key order with distinct addresses, and
/// no key handed out is ever handed out again.
pub proof fn law_roster_keys_are_never_reused(peers: Seq<(u64, SocketAddress)>, next_key: u64, addr: SocketAddress)
    requires
        roster_ok(peers, next_key),
        !has_addr(peers, addr),
        next_key < u64::MAX,
    ensures
        roster_ok(peers.push((next_key, addr)), (next_key + 1) as u64),
        !has_key(peers, next_key),
{
    let after = peers.push((next_key, addr));
    assert forall|i: int, j: int| 0 <= i < j < after.len() implies after[i].1 != after[j].1 by {
        if j == peers.len() {
            assert(after[i] == peers[i]);
        }
    }
}

/// Drops a peer of a torrent, where it is connected, and reports it.
pub fn drop_peer(roster: &mut PeerRoster, torrent: TorrentId, key: u64) -> (event: Option<RuntimeEvent>)
    requires
        old(roster).wf(),
    ensures
        final(roster).wf(),
        final(roster).spec_next_key() == old(roster).spec_next_key(),
        final(roster).spec_max() == old(roster).spec_max(),
        match event {
            Some(e) => exists|i: int|
                0 <= i < old(roster).spec_peers().len() && old(roster).spec_peers()[i].0 == key
                    && e == (RuntimeEvent::PeerDisconnected { torrent, addr: old(roster).spec_peers()[i].1 })
                    && final(roster).spec_peers() == #[trigger] old(roster).spec_peers().remove(i),
            None => !has_key(old(roster).spec_peers(), key) && final(roster).spec_peers() == old(roster).spec_peers(),
        },
{
    match roster.disconnect(key) {
        Some(addr) => Some(RuntimeEvent::PeerDisconnected { torrent, addr }),
        None => None,
    }
}

} // verus!
