use vstd::prelude::*;

use crate::net::SocketAddress;

verus! {

#[derive(Debug)]
struct BadBlock {
    piece: u32,
    block: u32,
    peers: Vec<SocketAddress>,
}

/// The peers that sent bad data for one block, in the order they did.
pub struct BadBlockView {
    pub piece: u32,
    pub block: u32,
    pub peers: Seq<SocketAddress>,
}

/// The value of a corruption tracker: the blocks with bad data, each once,
/// in the order they first went bad; the quarantined peers; the threshold.
pub struct CorruptionView {
    pub blocks: Seq<BadBlockView>,
    pub quarantined: Set<SocketAddress>,
    pub max_failures: nat,
}

/// Tracks, per block, which peers sent corrupt data, and quarantines a peer
/// once the number of blocks it corrupted reaches the threshold.
#[derive(Debug)]
pub struct BlockCorruptionTracker {
    bad_blocks: Vec<BadBlock>,
    quarantined: Vec<SocketAddress>,
    max_failures: usize,
}

/// Whether the record is for this block.
pub open spec fn is_block(b: BadBlockView, piece: u32, block: u32) -> bool {
    b.piece == piece && b.block == block
}

/// Whether some record is for this block.
pub open spec fn has_block(blocks: Seq<BadBlockView>, piece: u32, block: u32) -> bool {
    exists|i: int| 0 <= i < blocks.len() && is_block(#[trigger] blocks[i], piece, block)
}

/// The peers recorded for this block, none if it has no record.
pub open spec fn peers_for(blocks: Seq<BadBlockView>, piece: u32, block: u32) -> Seq<SocketAddress> {
    if has_block(blocks, piece, block) {
        let i = choose|i: int| 0 <= i < blocks.len() && is_block(#[trigger] blocks[i], piece, block);
        blocks[i].peers
    } else {
        Seq::empty()
    }
}

/// The blocks after `peer` sent bad data for one of them.
pub open spec fn with_failure(blocks: Seq<BadBlockView>, piece: u32, block: u32, peer: SocketAddress) -> Seq<BadBlockView> {
    if has_block(blocks, piece, block) {
        let i = choose|i: int| 0 <= i < blocks.len() && is_block(#[trigger] blocks[i], piece, block);
        blocks.update(i, BadBlockView { peers: blocks[i].peers.push(peer), ..blocks[i] })
    } else {
        blocks.push(BadBlockView { piece, block, peers: seq![peer] })
    }
}

/// The number of records among the first `n` in which `peer` appears.
pub open spec fn blocks_blaming(blocks: Seq<BadBlockView>, peer: SocketAddress, n: nat) -> nat
    decreases n,
{
    if n == 0 {
        0
    } else {
        blocks_blaming(blocks, peer, (n - 1) as nat) + if blocks[n - 1].peers.contains(peer) { 1nat } else { 0nat }
    }
}

/// The number of blocks for which `peer` sent bad data.
pub open spec fn failure_count(blocks: Seq<BadBlockView>, peer: SocketAddress) -> nat {
    blocks_blaming(blocks, peer, blocks.len())
}

/// No block has two records.
pub open spec fn distinct_blocks(blocks: Seq<BadBlockView>) -> bool {
    forall|i: int, j: int|
        0 <= i < j < blocks.len() ==> !(blocks[i].piece == blocks[j].piece && blocks[i].block == blocks[j].block)
}

/// The blocks after a run of failures, recorded in order on a tracker
/// that had none: each call names a piece, a block and the peer blamed.
pub open spec fn replay_failures(calls: Seq<(u32, u32, SocketAddress)>) -> Seq<BadBlockView>
    decreases calls.len(),
{
    if calls.len() == 0 {
        Seq::empty()
    } else {
        let c = calls.last();
        with_failure(replay_failures(calls.drop_last()), c.0, c.1, c.2)
    }
}

/// The peers of the calls that name this block, in call order, repeats kept.
pub open spec fn blamed_in(calls: Seq<(u32, u32, SocketAddress)>, piece: u32, block: u32) -> Seq<SocketAddress>
    decreases calls.len(),
{
    if calls.len() == 0 {
        Seq::empty()
    } else {
        let c = calls.last();
        let rest = blamed_in(calls.drop_last(), piece, block);
        if c.0 == piece && c.1 == block {
            rest.push(c.2)
        } else {
            rest
        }
    }
}

/// One more failure keeps each block's record single, appends the peer to
/// the record of the block it names, and leaves every other record alone.
proof fn lemma_with_failure_peers(blocks: Seq<BadBlockView>, p: u32, b: u32, peer: SocketAddress, piece: u32, block: u32)
    requires
        distinct_blocks(blocks),
    ensures
        distinct_blocks(with_failure(blocks, p, b, peer)),
        peers_for(with_failure(blocks, p, b, peer), piece, block) == if p == piece && b == block {
            peers_for(blocks, piece, block).push(peer)
        } else {
            peers_for(blocks, piece, block)
        },
{
    let after = with_failure(blocks, p, b, peer);
    if has_block(blocks, p, b) {
        let i = choose|i: int| 0 <= i < blocks.len() && is_block(#[trigger] blocks[i], p, b);
        assert(after.len() == blocks.len());
        assert forall|x: int, y: int| 0 <= x < y < after.len() implies !(after[x].piece == after[y].piece
            && after[x].block == after[y].block) by {
            assert(after[x].piece == blocks[x].piece && after[x].block == blocks[x].block);
            assert(after[y].piece == blocks[y].piece && after[y].block == blocks[y].block);
        }
        if has_block(blocks, piece, block) {
            let k = choose|k: int| 0 <= k < blocks.len() && is_block(#[trigger] blocks[k], piece, block);
            assert(is_block(after[k], piece, block));
            assert(has_block(after, piece, block));
            let j = choose|j: int| 0 <= j < after.len() && is_block(#[trigger] after[j], piece, block);
            assert(is_block(blocks[j], piece, block));
            assert(j == k);
        } else {
            assert(!has_block(after, piece, block)) by {
                if has_block(after, piece, block) {
                    let j = choose|j: int| 0 <= j < after.len() && is_block(#[trigger] after[j], piece, block);
                    assert(is_block(blocks[j], piece, block));
                }
            }
        }
    } else {
        assert(after == blocks.push(BadBlockView { piece: p, block: b, peers: seq![peer] }));
        assert forall|x: int, y: int| 0 <= x < y < after.len() implies !(after[x].piece == after[y].piece
            && after[x].block == after[y].block) by {
            if y == blocks.len() {
                assert(!is_block(blocks[x], p, b));
            }
        }
        if p == piece && b == block {
            assert(is_block(after[blocks.len() as int], piece, block));
            assert(has_block(after, piece, block));
            let j = choose|j: int| 0 <= j < after.len() && is_block(#[trigger] after[j], piece, block);
            assert(j == blocks.len());
            assert(peers_for(blocks, piece, block) == Seq::<SocketAddress>::empty());
            assert(seq![peer] =~= Seq::<SocketAddress>::empty().push(peer));
        } else if has_block(blocks, piece, block) {
            let k = choose|k: int| 0 <= k < blocks.len() && is_block(#[trigger] blocks[k], piece, block);
            assert(is_block(after[k], piece, block));
            assert(has_block(after, piece, block));
            let j = choose|j: int| 0 <= j < after.len() && is_block(#[trigger] after[j], piece, block);
            assert(j < blocks.len());
            assert(is_block(blocks[j], piece, block));
            assert(j == k);
        } else {
            assert(!has_block(after, piece, block)) by {
                if has_block(after, piece, block) {
                    let j = choose|j: int| 0 <= j < after.len() && is_block(#[trigger] after[j], piece, block);
                    assert(j < blocks.len());
                    assert(is_block(blocks[j], piece, block));
                }
            }
        }
    }
}

/// Law: on a tracker that starts with no records, the peers listed for a
/// block after any run of `record_failure` calls are the peers of the calls
/// that named that block, in call order with repeats kept, and none for a
/// block no call named; each block keeps a single record throughout.
pub proof fn law_block_peers_follow_calls(calls: Seq<(u32, u32, SocketAddress)>, piece: u32, block: u32)
    ensures
        distinct_blocks(replay_failures(calls)),
        peers_for(replay_failures(calls), piece, block) == blamed_in(calls, piece, block),
    decreases calls.len(),
{
    if calls.len() == 0 {
        assert(!has_block(Seq::<BadBlockView>::empty(), piece, block));
    } else {
        let c = calls.last();
        law_block_peers_follow_calls(calls.drop_last(), piece, block);
        lemma_with_failure_peers(replay_failures(calls.drop_last()), c.0, c.1, c.2, piece, block);
    }
}

proof fn lemma_blaming_bound(blocks: Seq<BadBlockView>, peer: SocketAddress, n: nat)
    requires
        n <= blocks.len(),
    ensures
        blocks_blaming(blocks, peer, n) <= n,
    decreases n,
{
    if n > 0 {
        lemma_blaming_bound(blocks, peer, (n - 1) as nat);
    }
}

impl BadBlock {
    spec fn view_of(self) -> BadBlockView {
        BadBlockView { piece: self.piece, block: self.block, peers: self.peers@ }
    }
}

impl View for BlockCorruptionTracker {
    type V = CorruptionView;

    closed spec fn view(&self) -> CorruptionView {
        CorruptionView {
            blocks: self.bad_blocks@.map_values(|b: BadBlock| b.view_of()),
            quarantined: self.quarantined@.to_set(),
            max_failures: self.max_failures as nat,
        }
    }
}

fn contains_peer(peers: &Vec<SocketAddress>, peer: SocketAddress) -> (found: bool)
    ensures
        found == peers@.contains(peer),
{
    let mut i: usize = 0;
    while i < peers.len()
        invariant
            i <= peers@.len(),
            forall|j: int| 0 <= j < i ==> peers@[j] != peer,
        decreases peers@.len() - i,
    {
        if peers[i] == peer {
            assert(peers@[i as int] == peer);
            return true;
        }
        i = i + 1;
    }
    false
}

impl BlockCorruptionTracker {
    /// Each block has one record, and each quarantined peer is held once.
    pub closed spec fn wf(&self) -> bool {
        &&& distinct_blocks(self@.blocks)
        &&& self.quarantined@.no_duplicates()
    }

    /// A tracker that quarantines a peer once it corrupted `max_failures` blocks.
    pub fn new(max_failures: usize) -> (tracker: Self)
        ensures
            tracker.wf(),
            tracker@.blocks.len() == 0,
            tracker@.quarantined.is_empty(),
            tracker@.max_failures == max_failures,
    {
        let tracker = BlockCorruptionTracker { bad_blocks: Vec::new(), quarantined: Vec::new(), max_failures };
        assert(tracker@.quarantined =~= Set::empty());
        tracker
    }

    fn find_block(&self, piece: u32, block: u32) -> (pos: Option<usize>)
        ensures
            match pos {
                Some(i) => i < self@.blocks.len() && is_block(self@.blocks[i as int], piece, block),
                None => !has_block(self@.blocks, piece, block),
            },
    {
        let mut i: usize = 0;
        while i < self.bad_blocks.len()
            invariant
                i <= self@.blocks.len(),
                forall|j: int| 0 <= j < i ==> !is_block(#[trigger] self@.blocks[j], piece, block),
            decreases self@.blocks.len() - i,
        {
            assert(self@.blocks[i as int] == self.bad_blocks@[i as int].view_of());
            if self.bad_blocks[i].piece == piece && self.bad_blocks[i].block == block {
                return Some(i);
            }
            i = i + 1;
        }
        None
    }

    /// Records that `peer` sent corrupt data for the block. Returns whether
    /// the peer now blames at least the threshold of blocks, in which case it
    /// is quarantined.
    pub fn record_failure(&mut self, piece: u32, block: u32, peer: SocketAddress) -> (quarantine: bool)
        requires
            old(self).wf(),
        ensures
            final(self).wf(),
            final(self)@.max_failures == old(self)@.max_failures,
            final(self)@.blocks == with_failure(old(self)@.blocks, piece, block, peer),
            quarantine == (failure_count(final(self)@.blocks, peer) >= old(self)@.max_failures),
            final(self)@.quarantined == (if quarantine {
                old(self)@.quarantined.insert(peer)
            } else {
                old(self)@.quarantined
            }),
    {
        let ghost before = self@.blocks;
        match self.find_block(piece, block) {
            Some(i) => {
                proof {
                    assert(has_block(before, piece, block));
                    let c = choose|c: int| 0 <= c < before.len() && is_block(#[trigger] before[c], piece, block);
                    assert(c == i);
                }
                self.bad_blocks[i].peers.push(peer);
                proof {
                    let c = choose|c: int| 0 <= c < before.len() && is_block(#[trigger] before[c], piece, block);
                    assert(self@.blocks =~= before.update(c, BadBlockView { peers: before[c].peers.push(peer), ..before[c] }));
                }
            },
            None => {
                let mut peers = Vec::new();
                peers.push(peer);
                self.bad_blocks.push(BadBlock { piece, block, peers });
                proof {
                    assert(self@.blocks =~= before.push(BadBlockView { piece, block, peers: seq![peer] }));
                }
            },
        }
        let total = self.count_blocks_blaming(peer);
        if total >= self.max_failures {
            if !contains_peer(&self.quarantined, peer) {
                let ghost q = self.quarantined@;
                self.quarantined.push(peer);
                proof {
                    q.lemma_push_to_set_commute(peer);
                    assert forall|a: int, b: int| 0 <= a < self.quarantined@.len() && 0 <= b < self.quarantined@.len() && a != b
                        implies self.quarantined@[a] != self.quarantined@[b] by {
                        if a == q.len() as int {
                            assert(!q.contains(peer));
                            assert(self.quarantined@[b] == q[b]);
                        } else if b == q.len() as int {
                            assert(!q.contains(peer));
                            assert(self.quarantined@[a] == q[a]);
                        }
                    }
                    assert(self@.quarantined =~= old(self)@.quarantined.insert(peer));
                }
            } else {
                proof {
                    assert(self@.quarantined =~= old(self)@.quarantined.insert(peer));
                }
            }
            return true;
        }
        false
    }

    fn count_blocks_blaming(&self, peer: SocketAddress) -> (total: usize)
        ensures
            total == failure_count(self@.blocks, peer),
    {
        let mut total: usize = 0;
        let mut i: usize = 0;
        while i < self.bad_blocks.len()
            invariant
                i <= self@.blocks.len(),
                total == blocks_blaming(self@.blocks, peer, i as nat),
            decreases self@.blocks.len() - i,
        {
            proof {
                lemma_blaming_bound(self@.blocks, peer, i as nat);
            }
            assert(self@.blocks[i as int] == self.bad_blocks@[i as int].view_of());
            if contains_peer(&self.bad_blocks[i].peers, peer) {
                total = total + 1;
            }
            i = i + 1;
        }
        total
    }

    /// Whether the peer has been quarantined.
    pub fn is_quarantined(&self, peer: &SocketAddress) -> (q: bool)
        ensures
            q == self@.quarantined.contains(*peer),
    {
        contains_peer(&self.quarantined, *peer)
    }

    /// The peers that sent bad data for the block, in order.
    pub fn bad_peers_for_block(&self, piece: u32, block: u32) -> (peers: &[SocketAddress])
        requires
            self.wf(),
        ensures
            peers@ == peers_for(self@.blocks, piece, block),
    {
        match self.find_block(piece, block) {
            Some(i) => {
                proof {
                    let c = choose|c: int| 0 <= c < self@.blocks.len() && is_block(#[trigger] self@.blocks[c], piece, block);
                    assert(c == i);
                }
                self.bad_blocks[i].peers.as_slice()
            },
            None => &[],
        }
    }

    /// A copy of the peers that sent bad data for the block.
    pub fn untrusted_peers_for_block(&self, piece: u32, block: u32) -> (peers: Vec<SocketAddress>)
        requires
            self.wf(),
        ensures
            peers@ == peers_for(self@.blocks, piece, block),
    {
        let found = self.bad_peers_for_block(piece, block);
        let mut peers = Vec::new();
        let mut i: usize = 0;
        while i < found.len()
            invariant
                i <= found@.len(),
                peers@ == found@.take(i as int),
            decreases found@.len() - i,
        {
            peers.push(found[i]);
            assert(found@.take(i as int + 1) =~= found@.take(i as int).push(found@[i as int]));
            i = i + 1;
        }
        assert(found@.take(found@.len() as int) =~= found@);
        peers
    }
}

} // verus!
