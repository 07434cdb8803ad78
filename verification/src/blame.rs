use vstd::prelude::*;

use crate::net::{IpAddress, SocketAddress};
use crate::roster::{has_key, PeerRoster};
use crate::snapshot::{bytes_less, lemma_bytes_less_total, lemma_bytes_less_transitive};

verus! {

/// The high byte of a 16-bit value.
pub open spec fn high_byte(v: u16) -> u8 {
    (v / 256) as u8
}

/// The low byte of a 16-bit value.
pub open spec fn low_byte(v: u16) -> u8 {
    (v % 256) as u8
}

/// The four bytes of a 32-bit value, most significant first.
pub open spec fn word_bytes(v: u32) -> Seq<u8> {
    seq![
        ((v / 16777216) % 256) as u8,
        ((v / 65536) % 256) as u8,
        ((v / 256) % 256) as u8,
        (v % 256) as u8,
    ]
}

/// The bytes by which addresses are ordered, as std orders socket
/// addresses: IPv4 before IPv6, then by address, then by port, then by
/// flow label and scope id. An IPv4 address is padded to the width of an
/// IPv6 one.
pub open spec fn addr_key(a: SocketAddress) -> Seq<u8> {
    addr_key_head(a) + word_bytes(a.flowinfo) + word_bytes(a.scope_id)
}

/// The address and port part of an ordering key.
pub open spec fn addr_key_head(a: SocketAddress) -> Seq<u8> {
    match a.ip {
        IpAddress::V4(x0, x1, x2, x3) => seq![
            0u8, x0, x1, x2, x3,
            0u8, 0u8, 0u8, 0u8, 0u8, 0u8, 0u8, 0u8, 0u8, 0u8, 0u8, 0u8,
            high_byte(a.port), low_byte(a.port),
        ],
        IpAddress::V6(s0, s1, s2, s3, s4, s5, s6, s7) => seq![
            1u8,
            high_byte(s0), low_byte(s0), high_byte(s1), low_byte(s1),
            high_byte(s2), low_byte(s2), high_byte(s3), low_byte(s3),
            high_byte(s4), low_byte(s4), high_byte(s5), low_byte(s5),
            high_byte(s6), low_byte(s6), high_byte(s7), low_byte(s7),
            high_byte(a.port), low_byte(a.port),
        ],
    }
}

/// Whether address `a` comes before `b`.
pub open spec fn addr_less(a: SocketAddress, b: SocketAddress) -> bool {
    bytes_less(addr_key(a), addr_key(b))
}

proof fn lemma_word_bytes(v: u32, w: u32)
    requires
        word_bytes(v) == word_bytes(w),
    ensures
        v == w,
{
    let (bv, bw) = (word_bytes(v), word_bytes(w));
    assert(bv[0] == bw[0] && bv[1] == bw[1] && bv[2] == bw[2] && bv[3] == bw[3]);
    let (v0, v1, v2, v3) = ((v / 16777216) % 256, (v / 65536) % 256, (v / 256) % 256, v % 256);
    let (w0, w1, w2, w3) = ((w / 16777216) % 256, (w / 65536) % 256, (w / 256) % 256, w % 256);
    assert(v0 == w0 && v1 == w1 && v2 == w2 && v3 == w3);
    assert(v == w) by (bit_vector)
        requires
            (v / 16777216) % 256 == (w / 16777216) % 256,
            (v / 65536) % 256 == (w / 65536) % 256,
            (v / 256) % 256 == (w / 256) % 256,
            v % 256 == w % 256,
    ;
}

proof fn lemma_bytes_of(v: u16, w: u16)
    requires
        high_byte(v) == high_byte(w),
        low_byte(v) == low_byte(w),
    ensures
        v == w,
{
    assert(v == (v / 256) * 256 + v % 256);
    assert(w == (w / 256) * 256 + w % 256);
}

/// Every key is twenty-seven bytes, and different addresses have
/// different keys.
pub proof fn lemma_addr_key(a: SocketAddress, b: SocketAddress)
    ensures
        addr_key(a).len() == 27,
        addr_key(a) == addr_key(b) ==> a == b,
{
    let ka = addr_key_head(a);
    let kb = addr_key_head(b);
    if addr_key(a) == addr_key(b) {
        assert(ka =~= addr_key(a).subrange(0, 19));
        assert(kb =~= addr_key(b).subrange(0, 19));
        assert(word_bytes(a.flowinfo) =~= addr_key(a).subrange(19, 23));
        assert(word_bytes(b.flowinfo) =~= addr_key(b).subrange(19, 23));
        assert(word_bytes(a.scope_id) =~= addr_key(a).subrange(23, 27));
        assert(word_bytes(b.scope_id) =~= addr_key(b).subrange(23, 27));
        lemma_word_bytes(a.flowinfo, b.flowinfo);
        lemma_word_bytes(a.scope_id, b.scope_id);
        assert(ka[0] == kb[0]);
        assert(ka[17] == kb[17] && ka[18] == kb[18]);
        lemma_bytes_of(a.port, b.port);
        match (a.ip, b.ip) {
            (IpAddress::V4(..), IpAddress::V4(..)) => {
                assert(ka[1] == kb[1] && ka[2] == kb[2] && ka[3] == kb[3] && ka[4] == kb[4]);
            },
            (IpAddress::V6(a0, a1, a2, a3, a4, a5, a6, a7), IpAddress::V6(b0, b1, b2, b3, b4, b5, b6, b7)) => {
                assert(ka[1] == kb[1] && ka[2] == kb[2]);
                lemma_bytes_of(a0, b0);
                assert(ka[3] == kb[3] && ka[4] == kb[4]);
                lemma_bytes_of(a1, b1);
                assert(ka[5] == kb[5] && ka[6] == kb[6]);
                lemma_bytes_of(a2, b2);
                assert(ka[7] == kb[7] && ka[8] == kb[8]);
                lemma_bytes_of(a3, b3);
                assert(ka[9] == kb[9] && ka[10] == kb[10]);
                lemma_bytes_of(a4, b4);
                assert(ka[11] == kb[11] && ka[12] == kb[12]);
                lemma_bytes_of(a5, b5);
                assert(ka[13] == kb[13] && ka[14] == kb[14]);
                lemma_bytes_of(a6, b6);
                assert(ka[15] == kb[15] && ka[16] == kb[16]);
                lemma_bytes_of(a7, b7);
            },
            _ => {},
        }
    }
}

/// The ordering key of an address.
fn addr_key_bytes(a: &SocketAddress) -> (key: Vec<u8>)
    ensures
        key@ == addr_key(*a),
{
    let mut key: Vec<u8> = Vec::new();
    match a.ip {
        IpAddress::V4(x0, x1, x2, x3) => {
            key.push(0);
            key.push(x0);
            key.push(x1);
            key.push(x2);
            key.push(x3);
            let mut i: usize = 0;
            while i < 12
                invariant
                    i <= 12,
                    key@ == seq![0u8, x0, x1, x2, x3] + Seq::new(i as nat, |j: int| 0u8),
                decreases 12 - i,
            {
                key.push(0);
                assert(key@ =~= seq![0u8, x0, x1, x2, x3] + Seq::new(i as nat + 1, |j: int| 0u8));
                i = i + 1;
            }
        },
        IpAddress::V6(s0, s1, s2, s3, s4, s5, s6, s7) => {
            key.push(1);
            let segments = [s0, s1, s2, s3, s4, s5, s6, s7];
            let mut i: usize = 0;
            while i < 8
                invariant
                    i <= 8,
                    segments@ == seq![s0, s1, s2, s3, s4, s5, s6, s7],
                    key@.len() == 1 + 2 * i,
                    key@[0] == 1u8,
                    forall|j: int| 0 <= j < i ==> key@[1 + 2 * j] == high_byte(#[trigger] segments@[j])
                        && key@[2 + 2 * j] == low_byte(segments@[j]),
                decreases 8 - i,
            {
                let s = segments[i];
                key.push((s / 256) as u8);
                key.push((s % 256) as u8);
                i = i + 1;
            }
        },
    }
    key.push((a.port / 256) as u8);
    key.push((a.port % 256) as u8);
    assert(key@ =~= addr_key_head(*a));
    push_word(&mut key, a.flowinfo);
    push_word(&mut key, a.scope_id);
    assert(key@ =~= addr_key(*a));
    key
}

/// Appends the four bytes of a 32-bit value, most significant first.
fn push_word(key: &mut Vec<u8>, v: u32)
    ensures
        final(key)@ == old(key)@ + word_bytes(v),
{
    key.push(((v / 16777216) % 256) as u8);
    key.push(((v / 65536) % 256) as u8);
    key.push(((v / 256) % 256) as u8);
    key.push((v % 256) as u8);
    assert(final(key)@ =~= old(key)@ + word_bytes(v));
}

/// Whether key `a` comes before key `b`, both of one length.
fn key_precedes(a: &Vec<u8>, b: &Vec<u8>) -> (less: bool)
    requires
        a@.len() == b@.len(),
    ensures
        less == bytes_less(a@, b@),
{
    let mut i: usize = 0;
    while i < a.len()
        invariant
            i <= a@.len(),
            a@.len() == b@.len(),
            forall|j: int| 0 <= j < i ==> a@[j] == b@[j],
        decreases a@.len() - i,
    {
        if a[i] < b[i] {
            return true;
        }
        if a[i] > b[i] {
            assert(!bytes_less(a@, b@)) by {
                if bytes_less(a@, b@) {
                    let k = choose|k: int|
                        0 <= k < a@.len() && k < b@.len() && a@[k] < b@[k]
                            && forall|j: int| 0 <= j < k ==> a@[j] == b@[j];
                    if k > i {
                        assert(a@[i as int] == b@[i as int]);
                    }
                }
            }
            return false;
        }
        i = i + 1;
    }
    false
}

/// Whether address `a` comes before `b`.
pub fn addr_precedes(a: &SocketAddress, b: &SocketAddress) -> (less: bool)
    ensures
        less == addr_less(*a, *b),
{
    proof {
        lemma_addr_key(*a, *b);
        lemma_addr_key(*b, *a);
    }
    key_precedes(&addr_key_bytes(a), &addr_key_bytes(b))
}

/// Each address comes before the next.
pub open spec fn addrs_ascend(v: Seq<SocketAddress>) -> bool {
    forall|i: int, j: int| 0 <= i < j < v.len() ==> addr_less(v[i], v[j])
}

/// The addresses in ascending order, each once.
pub open spec fn ascending_order(addrs: Seq<SocketAddress>) -> Seq<SocketAddress> {
    choose|o: Seq<SocketAddress>| addrs_ascend(o) && forall|x: SocketAddress| o.contains(x) <==> addrs.contains(x)
}

/// Two ascending lists of the same addresses are the same list.
pub proof fn lemma_ascending_unique(a: Seq<SocketAddress>, b: Seq<SocketAddress>)
    requires
        addrs_ascend(a),
        addrs_ascend(b),
        forall|x: SocketAddress| a.contains(x) <==> b.contains(x),
    ensures
        a == b,
    decreases a.len(),
{
    if a.len() == 0 {
        if b.len() > 0 {
            assert(b.contains(b[0]));
        }
        assert(a =~= b);
    } else {
        assert(a.contains(a[0]));
        let j = choose|j: int| 0 <= j < b.len() && b[j] == a[0];
        assert(b.contains(b[0]));
        let k = choose|k: int| 0 <= k < a.len() && a[k] == b[0];
        if j > 0 {
            assert(addr_less(b[0], b[j]));
            assert(k > 0);
            assert(addr_less(a[0], a[k]));
            lemma_bytes_less_transitive(addr_key(a[0]), addr_key(b[0]), addr_key(a[0]));
            crate::snapshot::lemma_bytes_less_irreflexive(addr_key(a[0]));
        }
        assert(b[0] == a[0]);
        let a1 = a.drop_first();
        let b1 = b.drop_first();
        assert forall|x: SocketAddress| a1.contains(x) <==> b1.contains(x) by {
            if a1.contains(x) {
                let p = choose|p: int| 0 <= p < a1.len() && a1[p] == x;
                assert(a[p + 1] == x);
                assert(addr_less(a[0], a[p + 1]));
                crate::snapshot::lemma_bytes_less_irreflexive(addr_key(a[0]));
                assert(b.contains(x));
                let q = choose|q: int| 0 <= q < b.len() && b[q] == x;
                assert(q != 0);
                assert(b1[q - 1] == x);
            }
            if b1.contains(x) {
                let p = choose|p: int| 0 <= p < b1.len() && b1[p] == x;
                assert(b[p + 1] == x);
                assert(addr_less(b[0], b[p + 1]));
                crate::snapshot::lemma_bytes_less_irreflexive(addr_key(b[0]));
                assert(a.contains(x));
                let q = choose|q: int| 0 <= q < a.len() && a[q] == x;
                assert(q != 0);
                assert(a1[q - 1] == x);
            }
        }
        lemma_ascending_unique(a1, b1);
        assert(a =~= b) by {
            assert forall|i: int| 0 <= i < a.len() implies a[i] == b[i] by {
                if i > 0 {
                    assert(a1[i - 1] == b1[i - 1]);
                }
            }
        }
    }
}

/// Adds an address to an ascending list, unless it is there.
fn insert_addr(out: &mut Vec<SocketAddress>, a: SocketAddress)
    requires
        addrs_ascend(old(out)@),
    ensures
        addrs_ascend(final(out)@),
        forall|x: SocketAddress| final(out)@.contains(x) <==> (old(out)@.contains(x) || x == a),
{
    let ghost before = out@;
    let mut i: usize = 0;
    while i < out.len() && addr_precedes(&out[i], &a)
        invariant
            i <= out@.len(),
            before == out@,
            addrs_ascend(before),
            forall|j: int| 0 <= j < i ==> addr_less(#[trigger] before[j], a),
        decreases out@.len() - i,
    {
        i = i + 1;
    }
    if i < out.len() && out[i] == a {
        assert(before[i as int] == a);
        return;
    }
    proof {
        if i < out@.len() {
            lemma_addr_key(before[i as int], a);
            lemma_addr_key(a, before[i as int]);
            lemma_bytes_less_total(addr_key(before[i as int]), addr_key(a));
            assert(addr_less(a, before[i as int]));
        }
    }
    out.insert(i, a);
    let ghost after = out@;
    assert(after == before.insert(i as int, a));
    assert forall|x: int, y: int| 0 <= x < y < after.len() implies addr_less(after[x], after[y]) by {
        if y < i {
        } else if y == i {
        } else if x < i {
            if y - 1 > i {
                assert(addr_less(before[i as int], before[y - 1]));
                lemma_bytes_less_transitive(addr_key(a), addr_key(before[i as int]), addr_key(before[y - 1]));
            }
            lemma_bytes_less_transitive(addr_key(before[x]), addr_key(a), addr_key(before[y - 1]));
        } else if x == i {
            if y - 1 > i {
                assert(addr_less(before[i as int], before[y - 1]));
                lemma_bytes_less_transitive(addr_key(a), addr_key(before[i as int]), addr_key(before[y - 1]));
            }
        } else {
            assert(addr_less(before[x - 1], before[y - 1]));
        }
    }
    assert forall|z: SocketAddress| after.contains(z) <==> (before.contains(z) || z == a) by {
        if after.contains(z) {
            let k = choose|k: int| 0 <= k < after.len() && after[k] == z;
            if k < i {
                assert(before[k] == z);
            } else if k > i {
                assert(before[k - 1] == z);
            }
        }
        if before.contains(z) {
            let k = choose|k: int| 0 <= k < before.len() && before[k] == z;
            if k < i {
                assert(after[k] == z);
            } else {
                assert(after[k + 1] == z);
            }
        }
        if z == a {
            assert(after[i as int] == z);
        }
    }
}

/// The addresses in ascending order, each once.
pub fn sorted_addresses(addrs: &Vec<SocketAddress>) -> (out: Vec<SocketAddress>)
    ensures
        out@ == ascending_order(addrs@),
        addrs_ascend(out@),
        forall|x: SocketAddress| out@.contains(x) <==> addrs@.contains(x),
{
    let mut out: Vec<SocketAddress> = Vec::new();
    let mut k: usize = 0;
    while k < addrs.len()
        invariant
            k <= addrs@.len(),
            addrs_ascend(out@),
            forall|x: SocketAddress| out@.contains(x) <==> addrs@.take(k as int).contains(x),
        decreases addrs@.len() - k,
    {
        let ghost prev = addrs@.take(k as int);
        insert_addr(&mut out, addrs[k]);
        proof {
            let next = addrs@.take(k as int + 1);
            assert(next =~= prev.push(addrs@[k as int]));
            assert forall|x: SocketAddress| next.contains(x) <==> (prev.contains(x) || x == addrs@[k as int]) by {
                if next.contains(x) {
                    let j = choose|j: int| 0 <= j < next.len() && next[j] == x;
                    if j < prev.len() {
                        assert(prev[j] == x);
                    }
                }
                if prev.contains(x) {
                    let j = choose|j: int| 0 <= j < prev.len() && prev[j] == x;
                    assert(next[j] == x);
                }
                if x == addrs@[k as int] {
                    assert(next[k as int] == x);
                }
            }
        }
        k = k + 1;
    }
    assert(addrs@.take(k as int) =~= addrs@);
    proof {
        let o = ascending_order(addrs@);
        assert(addrs_ascend(o) && forall|x: SocketAddress| o.contains(x) <==> addrs@.contains(x));
        lemma_ascending_unique(out@, o);
    }
    out
}

/// The items recorded for a piece, in the order they were recorded.
pub open spec fn for_piece<T>(s: Seq<(u32, T)>, piece: u32) -> Seq<T>
    decreases s.len(),
{
    if s.len() == 0 {
        Seq::empty()
    } else {
        let rest = for_piece(s.drop_last(), piece);
        if s.last().0 == piece {
            rest.push(s.last().1)
        } else {
            rest
        }
    }
}

/// The records of every other piece, in order.
pub open spec fn without_piece<T>(s: Seq<(u32, T)>, piece: u32) -> Seq<(u32, T)>
    decreases s.len(),
{
    if s.len() == 0 {
        s
    } else {
        let rest = without_piece(s.drop_last(), piece);
        if s.last().0 == piece {
            rest
        } else {
            rest.push(s.last())
        }
    }
}

proof fn lemma_for_piece_push<T>(s: Seq<(u32, T)>, e: (u32, T), q: u32)
    ensures
        for_piece(s.push(e), q) == if e.0 == q { for_piece(s, q).push(e.1) } else { for_piece(s, q) },
        without_piece(s.push(e), q) == if e.0 == q { without_piece(s, q) } else { without_piece(s, q).push(e) },
{
    assert(s.push(e).drop_last() =~= s);
}

/// Dropping a piece's records leaves nothing for it and the rest as it was.
proof fn lemma_without_piece<T>(s: Seq<(u32, T)>, p: u32, q: u32)
    ensures
        for_piece(without_piece(s, p), q) == if q == p { Seq::<T>::empty() } else { for_piece(s, q) },
    decreases s.len(),
{
    if s.len() > 0 {
        let init = s.drop_last();
        lemma_without_piece(init, p, q);
        assert(init.push(s.last()) =~= s);
        lemma_for_piece_push(init, s.last(), q);
        lemma_for_piece_push(init, s.last(), p);
        if s.last().0 != p {
            lemma_for_piece_push(without_piece(init, p), s.last(), q);
        }
    }
}

/// Takes a piece's records out of a list, handing them back in order.
fn take_piece<T: Copy>(list: &mut Vec<(u32, T)>, piece: u32) -> (taken: Vec<T>)
    ensures
        taken@ == for_piece(old(list)@, piece),
        final(list)@ == without_piece(old(list)@, piece),
{
    let ghost s = list@;
    let mut kept: Vec<(u32, T)> = Vec::new();
    let mut taken: Vec<T> = Vec::new();
    let mut i: usize = 0;
    while i < list.len()
        invariant
            list@ == s,
            i <= s.len(),
            kept@ == without_piece(s.take(i as int), piece),
            taken@ == for_piece(s.take(i as int), piece),
        decreases s.len() - i,
    {
        let e = list[i];
        proof {
            assert(s.take(i as int + 1) =~= s.take(i as int).push(e));
            lemma_for_piece_push(s.take(i as int), e, piece);
        }
        if e.0 == piece {
            taken.push(e.1);
        } else {
            kept.push(e);
        }
        i = i + 1;
    }
    assert(s.take(i as int) =~= s);
    *list = kept;
    taken
}

/// Adds a piece to an ascending list of distinct pieces, unless it is there.
fn insert_piece(out: &mut Vec<u32>, piece: u32)
    requires
        forall|i: int, j: int| 0 <= i < j < old(out)@.len() ==> old(out)@[i] < old(out)@[j],
    ensures
        forall|i: int, j: int| 0 <= i < j < final(out)@.len() ==> final(out)@[i] < final(out)@[j],
        forall|x: u32| final(out)@.contains(x) <==> (old(out)@.contains(x) || x == piece),
{
    let ghost before = out@;
    let mut i: usize = 0;
    while i < out.len() && out[i] < piece
        invariant
            i <= out@.len(),
            before == out@,
            forall|j: int| 0 <= j < i ==> #[trigger] before[j] < piece,
        decreases out@.len() - i,
    {
        i = i + 1;
    }
    if i < out.len() && out[i] == piece {
        assert(before[i as int] == piece);
        return;
    }
    out.insert(i, piece);
    let ghost after = out@;
    assert(after == before.insert(i as int, piece));
    assert forall|z: u32| after.contains(z) <==> (before.contains(z) || z == piece) by {
        if after.contains(z) {
            let k = choose|k: int| 0 <= k < after.len() && after[k] == z;
            if k < i {
                assert(before[k] == z);
            } else if k > i {
                assert(before[k - 1] == z);
            }
        }
        if before.contains(z) {
            let k = choose|k: int| 0 <= k < before.len() && before[k] == z;
            if k < i {
                assert(after[k] == z);
            } else {
                assert(after[k + 1] == z);
            }
        }
        if z == piece {
            assert(after[i as int] == z);
        }
    }
}

/// What is known of pieces that have arrived but are not verified yet: the
/// pieces whose blocks are all in, and which peers sent blocks of each
/// piece, by key and, where the peer was still connected, by address. A
/// piece that fails its hash check is blamed on those peers.
#[derive(Debug)]
pub struct PieceBlame {
    pending: Vec<u32>,
    senders: Vec<(u32, u64)>,
    sender_addrs: Vec<(u32, SocketAddress)>,
}

impl PieceBlame {
    /// The complete pieces awaiting verification, in the order they completed.
    pub closed spec fn spec_pending(&self) -> Seq<u32> {
        self.pending@
    }

    /// The keys of the peers that sent blocks of a piece, in arrival order.
    pub closed spec fn spec_senders(&self, piece: u32) -> Seq<u64> {
        for_piece(self.senders@, piece)
    }

    /// The addresses of the peers that sent blocks of a piece, in arrival order.
    pub closed spec fn spec_sender_addrs(&self, piece: u32) -> Seq<SocketAddress> {
        for_piece(self.sender_addrs@, piece)
    }

    /// Nothing recorded.
    pub fn new() -> (blame: PieceBlame)
        ensures
            blame.spec_pending().len() == 0,
            forall|p: u32| #[trigger] blame.spec_senders(p).len() == 0 && blame.spec_sender_addrs(p).len() == 0,
    {
        PieceBlame { pending: Vec::new(), senders: Vec::new(), sender_addrs: Vec::new() }
    }

    /// Records an accepted block of `piece` from peer `peer`, whose address
    /// is given where it is still known; a block that completed its piece
    /// queues the piece for verification.
    pub fn record_block(&mut self, piece: u32, peer: u64, addr: Option<SocketAddress>, completes_piece: bool)
        ensures
            final(self).spec_pending() == if completes_piece {
                old(self).spec_pending().push(piece)
            } else {
                old(self).spec_pending()
            },
            forall|q: u32| #[trigger] final(self).spec_senders(q) == if q == piece {
                old(self).spec_senders(q).push(peer)
            } else {
                old(self).spec_senders(q)
            },
            forall|q: u32| #[trigger] final(self).spec_sender_addrs(q) == match addr {
                Some(a) => if q == piece { old(self).spec_sender_addrs(q).push(a) } else { old(self).spec_sender_addrs(q) },
                None => old(self).spec_sender_addrs(q),
            },
    {
        let ghost senders0 = self.senders@;
        let ghost addrs0 = self.sender_addrs@;
        self.senders.push((piece, peer));
        if let Some(a) = addr {
            self.sender_addrs.push((piece, a));
        }
        if completes_piece {
            self.pending.push(piece);
        }
        proof {
            assert forall|q: u32| #[trigger] for_piece(self.senders@, q) == if q == piece {
                for_piece(senders0, q).push(peer)
            } else {
                for_piece(senders0, q)
            } by {
                lemma_for_piece_push(senders0, (piece, peer), q);
            }
            assert forall|q: u32| #[trigger] for_piece(self.sender_addrs@, q) == match addr {
                Some(a) => if q == piece { for_piece(addrs0, q).push(a) } else { for_piece(addrs0, q) },
                None => for_piece(addrs0, q),
            } by {
                if let Some(a) = addr {
                    lemma_for_piece_push(addrs0, (piece, a), q);
                }
            }
        }
    }

    /// Takes the pieces awaiting verification, in ascending order, each once.
    pub fn take_pending(&mut self) -> (pieces: Vec<u32>)
        ensures
            forall|i: int, j: int| 0 <= i < j < pieces@.len() ==> pieces@[i] < pieces@[j],
            forall|x: u32| pieces@.contains(x) <==> old(self).spec_pending().contains(x),
            final(self).spec_pending().len() == 0,
            forall|q: u32| #[trigger] final(self).spec_senders(q) == old(self).spec_senders(q),
            forall|q: u32| #[trigger] final(self).spec_sender_addrs(q) == old(self).spec_sender_addrs(q),
    {
        let mut out: Vec<u32> = Vec::new();
        let mut k: usize = 0;
        while k < self.pending.len()
            invariant
                k <= self.pending@.len(),
                self.pending@ == old(self).pending@,
                forall|i: int, j: int| 0 <= i < j < out@.len() ==> out@[i] < out@[j],
                forall|x: u32| out@.contains(x) <==> self.pending@.take(k as int).contains(x),
            decreases self.pending@.len() - k,
        {
            let ghost prev = self.pending@.take(k as int);
            let p = self.pending[k];
            insert_piece(&mut out, p);
            proof {
                let next = self.pending@.take(k as int + 1);
                assert(next =~= prev.push(p));
                assert forall|x: u32| next.contains(x) <==> (prev.contains(x) || x == p) by {
                    if next.contains(x) {
                        let j = choose|j: int| 0 <= j < next.len() && next[j] == x;
                        if j < prev.len() {
                            assert(prev[j] == x);
                        }
                    }
                    if prev.contains(x) {
                        let j = choose|j: int| 0 <= j < prev.len() && prev[j] == x;
                        assert(next[j] == x);
                    }
                    if x == p {
                        assert(next[k as int] == x);
                    }
                }
            }
            k = k + 1;
        }
        assert(self.pending@.take(k as int) =~= self.pending@);
        self.pending = Vec::new();
        out
    }

    /// Takes what is recorded of who sent a piece: the keys, then the
    /// addresses, each in arrival order. Nothing is left recorded for it.
    pub fn take_blame(&mut self, piece: u32) -> (blame: (Vec<u64>, Vec<SocketAddress>))
        ensures
            blame.0@ == old(self).spec_senders(piece),
            blame.1@ == old(self).spec_sender_addrs(piece),
            final(self).spec_pending() == old(self).spec_pending(),
            forall|q: u32| #[trigger] final(self).spec_senders(q) == if q == piece {
                Seq::<u64>::empty()
            } else {
                old(self).spec_senders(q)
            },
            forall|q: u32| #[trigger] final(self).spec_sender_addrs(q) == if q == piece {
                Seq::<SocketAddress>::empty()
            } else {
                old(self).spec_sender_addrs(q)
            },
    {
        let ghost senders0 = self.senders@;
        let ghost addrs0 = self.sender_addrs@;
        let keys = take_piece(&mut self.senders, piece);
        let addrs = take_piece(&mut self.sender_addrs, piece);
        proof {
            assert forall|q: u32| #[trigger] for_piece(self.senders@, q) == if q == piece {
                Seq::<u64>::empty()
            } else {
                for_piece(senders0, q)
            } by {
                lemma_without_piece(senders0, piece, q);
            }
            assert forall|q: u32| #[trigger] for_piece(self.sender_addrs@, q) == if q == piece {
                Seq::<SocketAddress>::empty()
            } else {
                for_piece(addrs0, q)
            } by {
                lemma_without_piece(addrs0, piece, q);
            }
        }
        (keys, addrs)
    }
}

/// Records a block accepted from a connected peer: who sent it, by key and,
/// where the roster knows the peer, by address.
pub fn record_accepted_block(blame: &mut PieceBlame, roster: &PeerRoster, piece: u32, peer: u64, completes_piece: bool)
    ensures
        final(blame).spec_pending() == if completes_piece {
            old(blame).spec_pending().push(piece)
        } else {
            old(blame).spec_pending()
        },
        forall|q: u32| #[trigger] final(blame).spec_senders(q) == if q == piece {
            old(blame).spec_senders(q).push(peer)
        } else {
            old(blame).spec_senders(q)
        },
        !has_key(roster.spec_peers(), peer) ==> forall|q: u32| #[trigger] final(blame).spec_sender_addrs(q)
            == old(blame).spec_sender_addrs(q),
        has_key(roster.spec_peers(), peer) ==> exists|i: int|
            0 <= i < roster.spec_peers().len() && #[trigger] roster.spec_peers()[i].0 == peer
                && forall|q: u32| #[trigger] final(blame).spec_sender_addrs(q) == if q == piece {
                old(blame).spec_sender_addrs(q).push(roster.spec_peers()[i].1)
            } else {
                old(blame).spec_sender_addrs(q)
            },
{
    let addr = roster.peer_addr(peer);
    blame.record_block(piece, peer, addr, completes_piece);
    proof {
        if let Some(a) = addr {
            let i = choose|i: int| 0 <= i < roster.spec_peers().len() && #[trigger] roster.spec_peers()[i] == (peer, a);
            assert(roster.spec_peers()[i].0 == peer && roster.spec_peers()[i].1 == a);
        }
    }
}

} // verus!
