use vstd::prelude::*;
use vstd::utf8::{decode_utf8, encode_utf8, valid_utf8};

use crate::format::{append_hex, decimal, decimal_string, hex_text};
use crate::net::SocketAddress;
use crate::snapshot::TorrentId;
use crate::time::TimeSpan;
use crate::snapshot::{
    bytes_less, hash_precedes, hash_same, lemma_bytes_less_total, lemma_bytes_less_transitive,
};
use crate::text::{
    chars_of, eq_ignore_ascii_case, find_char, find_line_end, lemma_line_end, line_end, char_index,
    parse_u16, parse_u16_range, range_eq, range_eq_ignore_ascii_case, trim, trim_range, utf8_chars,
};

verus! {

/// The IPv4 group and port of local service discovery.
pub const LSD_IPV4_MULTICAST: &'static str = "239.192.152.143:6771";

/// The IPv6 group and port of local service discovery.
pub const LSD_IPV6_MULTICAST: &'static str = "[ff15::efc0:988f]:6771";

/// The largest packet sent or accepted.
pub const MAX_LSD_PACKET_BYTES: usize = 1400;

/// An announcement of the torrents this client serves.
#[derive(Clone, Debug, PartialEq, Eq)]
pub struct LsdAnnounce {
    pub info_hashes: Vec<[u8; 20]>,
    pub port: u16,
    pub cookie: String,
}

/// What a received announcement says: the torrents a peer serves and where.
#[derive(Clone, Debug, PartialEq, Eq)]
pub struct LsdDiscovery {
    pub info_hashes: Vec<[u8; 20]>,
    pub peer: SocketAddress,
}

/// Why a packet could not be built or read.
#[derive(Clone, Copy, Debug, PartialEq, Eq, Structural)]
pub enum LsdError {
    PacketTooLarge,
    InvalidUtf8,
    InvalidRequestLine,
    InvalidPort,
    InvalidInfoHash,
    MissingInfoHash,
    InvalidCookie,
    WorkerClosed,
    CommandBackpressure,
    ShutdownTimeout,
}

/// What the discovery worker is asked to do: announce these torrents.
#[derive(Clone, Debug, PartialEq, Eq)]
pub enum LsdCommand {
    Update { torrents: Vec<(TorrentId, [u8; 20])> },
}

/// What the discovery worker reports: a peer that serves a torrent.
#[derive(Clone, Copy, Debug, PartialEq, Eq)]
pub enum LsdRuntimeEvent {
    PeerDiscovered { torrent: TorrentId, peer: SocketAddress },
}

/// An ASCII control byte.
pub open spec fn is_control_byte(b: u8) -> bool {
    b < 32 || b == 127
}

/// The `Infohash` lines for the hashes, in order.
pub open spec fn hash_lines(hashes: Seq<[u8; 20]>) -> Seq<char>
    decreases hashes.len(),
{
    if hashes.len() == 0 {
        Seq::empty()
    } else {
        hash_lines(hashes.drop_last()) + "Infohash: "@ + hex_text(hashes.last()@) + "\r\n"@
    }
}

/// The text of an announcement: request line, host, port, cookie, one line
/// per info hash, and a blank line.
pub open spec fn announce_text(port: u16, cookie: Seq<char>, hashes: Seq<[u8; 20]>) -> Seq<char> {
    "BT-SEARCH * HTTP/1.1\r\nHost: 239.192.152.143:6771\r\nPort: "@ + decimal(port as nat) + "\r\nCookie: "@
        + cookie + "\r\n"@ + hash_lines(hashes) + "\r\n"@
}

/// What encoding an announcement of these parts gives: an error for a zero
/// port, no info hash, or an empty cookie or one with control bytes; an
/// error for a packet over the size limit; otherwise the packet's bytes.
pub open spec fn encode_parts(port: u16, cookie: Seq<char>, hashes: Seq<[u8; 20]>) -> Result<Seq<u8>, LsdError> {
    if port == 0 {
        Err(LsdError::InvalidPort)
    } else if hashes.len() == 0 {
        Err(LsdError::MissingInfoHash)
    } else if cookie.len() == 0 || exists|i: int| 0 <= i < encode_utf8(cookie).len() && is_control_byte(#[trigger] encode_utf8(cookie)[i]) {
        Err(LsdError::InvalidCookie)
    } else if encode_utf8(announce_text(port, cookie, hashes)).len() > MAX_LSD_PACKET_BYTES {
        Err(LsdError::PacketTooLarge)
    } else {
        Ok(encode_utf8(announce_text(port, cookie, hashes)))
    }
}

/// What encoding an announcement gives.
pub open spec fn spec_encode(a: LsdAnnounce) -> Result<Seq<u8>, LsdError> {
    encode_parts(a.port, a.cookie@, a.info_hashes@)
}

/// The value of an ASCII hex digit byte, of either case.
pub open spec fn nibble_of(byte: u8) -> Option<u8> {
    if 48 <= byte <= 57 {
        Some((byte - 48) as u8)
    } else if 97 <= byte <= 102 {
        Some((byte - 87) as u8)
    } else if 65 <= byte <= 70 {
        Some((byte - 55) as u8)
    } else {
        None
    }
}

/// The value of a hex digit byte: `0`-`9` (48-57), `a`-`f` (97-102) or
/// `A`-`F` (65-70).
pub fn hex_nibble(byte: u8) -> (nibble: Option<u8>)
    ensures
        nibble == nibble_of(byte),
        nibble matches Some(n) ==> n < 16,
{
    if 48 <= byte && byte <= 57 {
        Some(byte - 48)
    } else if 97 <= byte && byte <= 102 {
        Some(byte - 87)
    } else if 65 <= byte && byte <= 70 {
        Some(byte - 55)
    } else {
        None
    }
}

/// The value of a hex digit character; characters beyond ASCII have none.
pub open spec fn hex_digit(c: char) -> Option<u8> {
    if (c as u32) < 128 {
        nibble_of((c as u32) as u8)
    } else {
        None
    }
}

fn char_nibble(c: char) -> (nibble: Option<u8>)
    ensures
        nibble == hex_digit(c),
        nibble matches Some(n) ==> n < 16,
{
    let code = c as u32;
    if code < 128 {
        hex_nibble(code as u8)
    } else {
        None
    }
}

/// The info hash that forty hex digits spell, two digits a byte, high
/// digit first; anything else spells none.
pub open spec fn info_hash_value(v: Seq<char>) -> Option<Seq<u8>> {
    if v.len() == 40 && forall|i: int| 0 <= i < 40 ==> (#[trigger] hex_digit(v[i])) is Some {
        Some(Seq::new(20, |k: int| (hex_digit(v[2 * k])->0 * 16 + hex_digit(v[2 * k + 1])->0) as u8))
    } else {
        None
    }
}

/// Reads the info hash written from `start` to `end`.
fn parse_info_hash(chars: &Vec<char>, start: usize, end: usize) -> (res: Result<[u8; 20], LsdError>)
    requires
        start <= end <= chars@.len(),
    ensures
        match info_hash_value(chars@.subrange(start as int, end as int)) {
            Some(h) => res matches Ok(bytes) && bytes@ == h,
            None => res == Err::<[u8; 20], LsdError>(LsdError::InvalidInfoHash),
        },
{
    let ghost v = chars@.subrange(start as int, end as int);
    if end - start != 40 {
        return Err(LsdError::InvalidInfoHash);
    }
    let mut bytes = [0u8; 20];
    let mut k: usize = 0;
    while k < 20
        invariant
            k <= 20,
            end - start == 40,
            start <= end <= chars@.len(),
            v == chars@.subrange(start as int, end as int),
            bytes@.len() == 20,
            forall|i: int| 0 <= i < 2 * k ==> (#[trigger] hex_digit(v[i])) is Some,
            forall|j: int| 0 <= j < k ==> bytes@[j] == (hex_digit(v[2 * j])->0 * 16 + hex_digit(v[2 * j + 1])->0) as u8,
        decreases 20 - k,
    {
        assert(v[2 * k as int] == chars@[start + 2 * k]);
        assert(v[2 * k + 1] == chars@[start + 2 * k + 1]);
        let high = match char_nibble(chars[start + 2 * k]) {
            Some(n) => n,
            None => {
                assert(hex_digit(v[2 * k as int]) is None);
                return Err(LsdError::InvalidInfoHash);
            },
        };
        let low = match char_nibble(chars[start + 2 * k + 1]) {
            Some(n) => n,
            None => {
                assert(hex_digit(v[2 * k + 1]) is None);
                return Err(LsdError::InvalidInfoHash);
            },
        };
        bytes[k] = high * 16 + low;
        k = k + 1;
    }
    assert(bytes@ =~= Seq::new(20, |j: int| (hex_digit(v[2 * j])->0 * 16 + hex_digit(v[2 * j + 1])->0) as u8));
    Ok(bytes)
}

/// What the header lines read so far say: the last valid port, the last
/// cookie, and the info hashes in the order they came.
pub type HeaderState = (Option<u16>, Option<Seq<char>>, Seq<Seq<u8>>);

/// The port a header value gives: a nonzero 16-bit number, else none.
pub open spec fn port_value(value: Seq<char>) -> Option<u16> {
    match parse_u16(value) {
        Some(p) => if p != 0 { Some(p) } else { None },
        None => None,
    }
}

/// Reads one header line. A line without `:` says nothing. The name before
/// the first `:` is matched ignoring ASCII case; the value after it is
/// trimmed. A `Port` line sets or clears the port, a `Cookie` line sets the
/// cookie, an `Infohash` line adds a hash or fails the packet; other names
/// say nothing.
pub open spec fn header_step(line: Seq<char>, st: HeaderState) -> Result<HeaderState, LsdError> {
    let c = char_index(line, ':', 0);
    if c >= line.len() {
        Ok(st)
    } else {
        let name = line.subrange(0, c);
        let value = trim(line.subrange(c + 1, line.len() as int));
        if eq_ignore_ascii_case(name, "port"@) {
            Ok((port_value(value), st.1, st.2))
        } else if eq_ignore_ascii_case(name, "cookie"@) {
            Ok((st.0, Some(value), st.2))
        } else if eq_ignore_ascii_case(name, "infohash"@) {
            match info_hash_value(value) {
                Some(h) => Ok((st.0, st.1, st.2.push(h))),
                None => Err(LsdError::InvalidInfoHash),
            }
        } else {
            Ok(st)
        }
    }
}

/// Reads the header lines that follow the line ending at `e`, up to the
/// first empty line or the end of the text.
pub open spec fn scan_headers(s: Seq<char>, e: int, st: HeaderState) -> Result<HeaderState, LsdError>
    decreases s.len() - e,
{
    if e < 0 || e + 2 > s.len() {
        Ok(st)
    } else {
        let start = e + 2;
        let next = line_end(s, start);
        proof {
            lemma_line_end(s, start);
        }
        if next == start {
            Ok(st)
        } else {
            match header_step(s.subrange(start, next), st) {
                Err(err) => Err(err),
                Ok(st2) => scan_headers(s, next, st2),
            }
        }
    }
}

/// Reads the header lines that follow the request line.
pub open spec fn read_headers(s: Seq<char>) -> Result<HeaderState, LsdError> {
    scan_headers(s, line_end(s, 0), (None, None, Seq::empty()))
}

/// The request line every announcement starts with.
pub open spec fn request_line() -> Seq<char> {
    "BT-SEARCH * HTTP/1.1"@
}

/// What a packet says, before its hashes are sorted: its port, its info
/// hashes in the order they came, and whether it carries `own_cookie`; or
/// why it is refused.
pub open spec fn spec_decode(packet: Seq<u8>, own_cookie: Seq<char>) -> Result<(u16, Seq<Seq<u8>>, bool), LsdError> {
    if packet.len() > MAX_LSD_PACKET_BYTES {
        Err(LsdError::PacketTooLarge)
    } else if !valid_utf8(packet) {
        Err(LsdError::InvalidUtf8)
    } else {
        let s = decode_utf8(packet);
        let first = line_end(s, 0);
        if s.subrange(0, first) != request_line() {
            Err(LsdError::InvalidRequestLine)
        } else {
            match read_headers(s) {
                Err(err) => Err(err),
                Ok(st) => match st.0 {
                    None => Err(LsdError::InvalidPort),
                    Some(port) => if st.2.len() == 0 {
                        Err(LsdError::MissingInfoHash)
                    } else {
                        Ok((port, st.2, st.1 == Some(own_cookie)))
                    },
                },
            }
        }
    }
}

/// The views of a list of info hashes.
pub open spec fn hash_views(hashes: Seq<[u8; 20]>) -> Seq<Seq<u8>> {
    hashes.map_values(|h: [u8; 20]| h@)
}

/// Whether `out` holds the hashes of `ins`, each once, in ascending byte order.
pub open spec fn sorted_distinct_of(out: Seq<Seq<u8>>, ins: Seq<Seq<u8>>) -> bool {
    &&& forall|i: int, j: int| 0 <= i < j < out.len() ==> bytes_less(out[i], out[j])
    &&& forall|x: Seq<u8>| out.contains(x) <==> ins.contains(x)
}

/// Whether each hash comes before the next in byte order.
pub open spec fn strictly_sorted(v: Seq<Seq<u8>>) -> bool {
    forall|i: int, j: int| 0 <= i < j < v.len() ==> bytes_less(v[i], v[j])
}

/// Adds a hash to an ascending list of distinct hashes, unless it is there.
fn insert_sorted(out: &mut Vec<[u8; 20]>, h: [u8; 20])
    requires
        strictly_sorted(hash_views(old(out)@)),
    ensures
        strictly_sorted(hash_views(final(out)@)),
        forall|x: Seq<u8>| hash_views(final(out)@).contains(x) <==> (hash_views(old(out)@).contains(x) || x == h@),
{
    let ghost before = hash_views(out@);
    let mut i: usize = 0;
    while i < out.len() && hash_precedes(&out[i], &h)
        invariant
            i <= out@.len(),
            before == hash_views(out@),
            strictly_sorted(before),
            forall|j: int| 0 <= j < i ==> bytes_less(#[trigger] before[j], h@),
        decreases out@.len() - i,
    {
        i = i + 1;
    }
    if i < out.len() && hash_same(&out[i], &h) {
        assert(before[i as int] == h@);
        return;
    }
    proof {
        if i < out@.len() {
            assert(before[i as int] == out@[i as int]@);
            assert(before[i as int].len() == 20 && h@.len() == 20);
            lemma_bytes_less_total(before[i as int], h@);
            assert(bytes_less(h@, before[i as int]));
        }
    }
    out.insert(i, h);
    let ghost after = hash_views(out@);
    assert(after =~= before.insert(i as int, h@));
    assert forall|a: int, b: int| 0 <= a < b < after.len() implies bytes_less(after[a], after[b]) by {
        if b < i {
        } else if b == i {
            assert(bytes_less(before[a], h@));
        } else if a < i {
            assert(bytes_less(before[a], h@));
            if b - 1 > i {
                assert(bytes_less(before[i as int], before[b - 1]));
                lemma_bytes_less_transitive(h@, before[i as int], before[b - 1]);
            }
            lemma_bytes_less_transitive(before[a], h@, before[b - 1]);
        } else if a == i {
            if b - 1 > i {
                assert(bytes_less(before[i as int], before[b - 1]));
                lemma_bytes_less_transitive(h@, before[i as int], before[b - 1]);
            }
        } else {
            assert(bytes_less(before[a - 1], before[b - 1]));
        }
    }
    assert forall|x: Seq<u8>| after.contains(x) <==> (before.contains(x) || x == h@) by {
        if after.contains(x) {
            let k = choose|k: int| 0 <= k < after.len() && after[k] == x;
            if k < i {
                assert(before[k] == x);
            } else if k > i {
                assert(before[k - 1] == x);
            }
        }
        if before.contains(x) {
            let k = choose|k: int| 0 <= k < before.len() && before[k] == x;
            if k < i {
                assert(after[k] == x);
            } else {
                assert(after[k + 1] == x);
            }
        }
        if x == h@ {
            assert(after[i as int] == x);
        }
    }
}

/// The hashes in ascending byte order, each once.
fn sorted_distinct(hashes: &Vec<[u8; 20]>) -> (out: Vec<[u8; 20]>)
    ensures
        sorted_distinct_of(hash_views(out@), hash_views(hashes@)),
{
    let mut out: Vec<[u8; 20]> = Vec::new();
    let mut k: usize = 0;
    while k < hashes.len()
        invariant
            k <= hashes@.len(),
            strictly_sorted(hash_views(out@)),
            forall|x: Seq<u8>| hash_views(out@).contains(x) <==> hash_views(hashes@.take(k as int)).contains(x),
        decreases hashes@.len() - k,
    {
        let ghost prev = hash_views(hashes@.take(k as int));
        insert_sorted(&mut out, hashes[k]);
        proof {
            let next = hash_views(hashes@.take(k as int + 1));
            assert(next =~= prev.push(hashes@[k as int]@));
            assert forall|x: Seq<u8>| next.contains(x) <==> (prev.contains(x) || x == hashes@[k as int]@) by {
                if next.contains(x) {
                    let j = choose|j: int| 0 <= j < next.len() && next[j] == x;
                    if j < prev.len() {
                        assert(prev[j] == x);
                    }
                }
                if prev.contains(x) {
                    let j = choose|j: int| 0 <= j < prev.len() && prev[j] == x;
                    assert(next[j] == x);
                }
                if x == hashes@[k as int]@ {
                    assert(next[k as int] == x);
                }
            }
        }
        k = k + 1;
    }
    assert(hashes@.take(k as int) =~= hashes@);
    out
}

/// The header fields read so far; the cookie is kept as a range of the text.
struct HeaderFields {
    port: Option<u16>,
    cookie: Option<(usize, usize)>,
    hashes: Vec<[u8; 20]>,
}

impl HeaderFields {
    spec fn fits(&self, len: nat) -> bool {
        self.cookie matches Some(r) ==> r.0 <= r.1 <= len
    }

    spec fn state_in(&self, s: Seq<char>) -> HeaderState {
        (
            self.port,
            match self.cookie {
                Some(r) => Some(s.subrange(r.0 as int, r.1 as int)),
                None => None,
            },
            hash_views(self.hashes@),
        )
    }
}

/// Reads the header line from `start` to `end` into the fields.
fn read_header(chars: &Vec<char>, start: usize, end: usize, fields: &mut HeaderFields) -> (res: Result<(), LsdError>)
    requires
        start <= end <= chars@.len(),
        old(fields).fits(chars@.len()),
    ensures
        final(fields).fits(chars@.len()),
        match header_step(chars@.subrange(start as int, end as int), old(fields).state_in(chars@)) {
            Ok(st) => res is Ok && final(fields).state_in(chars@) == st,
            Err(e) => res == Err::<(), LsdError>(e),
        },
{
    let ghost line = chars@.subrange(start as int, end as int);
    let off = find_char(chars, start, end, ':');
    if off >= end - start {
        return Ok(());
    }
    let colon = start + off;
    let (va, vb) = trim_range(chars, colon + 1, end);
    assert(chars@.subrange(start as int, colon as int) =~= line.subrange(0, off as int));
    assert(chars@.subrange(colon + 1, end as int) =~= line.subrange(off + 1, line.len() as int));
    let port_word = chars_of("port");
    let cookie_word = chars_of("cookie");
    let hash_word = chars_of("infohash");
    proof {
        reveal_strlit("port");
        reveal_strlit("cookie");
        reveal_strlit("infohash");
    }
    if range_eq_ignore_ascii_case(chars, start, colon, &port_word) {
        let port = match parse_u16_range(chars, va, vb) {
            Some(p) => if p != 0 { Some(p) } else { None },
            None => None,
        };
        fields.port = port;
        Ok(())
    } else if range_eq_ignore_ascii_case(chars, start, colon, &cookie_word) {
        fields.cookie = Some((va, vb));
        Ok(())
    } else if range_eq_ignore_ascii_case(chars, start, colon, &hash_word) {
        let hash = parse_info_hash(chars, va, vb)?;
        fields.hashes.push(hash);
        assert(hash_views(fields.hashes@) =~= hash_views(old(fields).hashes@).push(hash@));
        Ok(())
    } else {
        Ok(())
    }
}

/// Reads a received announcement. It is refused when it is too large, not
/// UTF-8, does not start with the request line, has a malformed info hash,
/// no valid port, or no info hash. Otherwise the peer is the sender's
/// address with the announced port, and the hashes come sorted and without
/// repeats; an announcement that carries our own cookie names no hash.
pub fn decode_lsd_announce(packet: &[u8], source: SocketAddress, own_cookie: &str) -> (res: Result<LsdDiscovery, LsdError>)
    ensures
        match spec_decode(packet@, own_cookie@) {
            Err(e) => res == Err::<LsdDiscovery, LsdError>(e),
            Ok((port, hashes, own)) => res matches Ok(d) && d.peer == (SocketAddress { ip: source.ip, port: port, flowinfo: 0, scope_id: 0 })
                && if own {
                    d.info_hashes@.len() == 0
                } else {
                    sorted_distinct_of(hash_views(d.info_hashes@), hashes)
                },
        },
{
    if packet.len() > MAX_LSD_PACKET_BYTES {
        return Err(LsdError::PacketTooLarge);
    }
    let chars = match utf8_chars(packet) {
        Some(c) => c,
        None => return Err(LsdError::InvalidUtf8),
    };
    let ghost s = chars@;
    let first = find_line_end(&chars, 0);
    let request = chars_of("BT-SEARCH * HTTP/1.1");
    if !range_eq(&chars, 0, first, &request) {
        return Err(LsdError::InvalidRequestLine);
    }
    proof {
        lemma_line_end(s, 0);
    }
    let mut fields = HeaderFields { port: None, cookie: None, hashes: Vec::new() };
    assert(fields.state_in(s) =~= (None, None, Seq::empty()));
    let mut e = first;
    loop
        invariant
            s == chars@,
            packet@.len() <= MAX_LSD_PACKET_BYTES,
            valid_utf8(packet@),
            s == decode_utf8(packet@),
            first == line_end(s, 0),
            s.subrange(0, first as int) == request_line(),
            e <= s.len(),
            e == s.len() || e + 2 <= s.len(),
            fields.fits(s.len()),
            scan_headers(s, e as int, fields.state_in(s)) == read_headers(s),
        ensures
            fields.fits(s.len()),
            read_headers(s) == Ok::<HeaderState, LsdError>(fields.state_in(s)),
        decreases s.len() - e,
    {
        if e >= chars.len() || chars.len() - e < 2 {
            break;
        }
        let start = e + 2;
        let next = find_line_end(&chars, start);
        proof {
            lemma_line_end(s, start as int);
        }
        if next == start {
            break;
        }
        let ghost before = fields.state_in(s);
        match read_header(&chars, start, next, &mut fields) {
            Ok(()) => {},
            Err(err) => {
                assert(scan_headers(s, e as int, before) == Err::<HeaderState, LsdError>(err));
                return Err(err);
            },
        }
        e = next;
    }
    let port = match fields.port {
        Some(p) => p,
        None => return Err(LsdError::InvalidPort),
    };
    if fields.hashes.len() == 0 {
        return Err(LsdError::MissingInfoHash);
    }
    let mut info_hashes = sorted_distinct(&fields.hashes);
    let own = chars_of(own_cookie);
    let own_match = match fields.cookie {
        Some((a, b)) => range_eq(&chars, a, b, &own),
        None => false,
    };
    if own_match {
        info_hashes.clear();
    }
    Ok(LsdDiscovery { info_hashes, peer: SocketAddress { ip: source.ip, port, flowinfo: 0, scope_id: 0 } })
}

/// Batches laid end to end.
pub open spec fn joined_batches(batches: Seq<Seq<[u8; 20]>>) -> Seq<[u8; 20]>
    decreases batches.len(),
{
    if batches.len() == 0 {
        Seq::empty()
    } else {
        joined_batches(batches.drop_last()) + batches.last()
    }
}

/// Whether `packets` announce `hashes` in the batches given: the batches lay
/// the hashes end to end, none is empty, each ends where the next hash would
/// make its packet too large, each but perhaps the last became its packet,
/// and a last batch left out could not be encoded.
pub open spec fn packs(
    port: u16,
    cookie: Seq<char>,
    hashes: Seq<[u8; 20]>,
    batches: Seq<Seq<[u8; 20]>>,
    packets: Seq<Seq<u8>>,
) -> bool {
    &&& joined_batches(batches) == hashes
    &&& forall|j: int| 0 <= j < batches.len() ==> (#[trigger] batches[j]).len() > 0
    &&& forall|j: int|
        0 <= j < batches.len() - 1 ==> encode_parts(port, cookie, #[trigger] batches[j].push(batches[j + 1][0]))
            == Err::<Seq<u8>, LsdError>(LsdError::PacketTooLarge)
    &&& batches.len() - 1 <= packets.len() <= batches.len()
    &&& forall|j: int| 0 <= j < packets.len() ==> encode_parts(port, cookie, batches[j]) == Ok::<Seq<u8>, LsdError>(#[trigger] packets[j])
    &&& packets.len() < batches.len() ==> encode_parts(port, cookie, batches.last()) is Err
}

/// The bytes of each packet.
pub open spec fn packet_views(packets: Seq<Vec<u8>>) -> Seq<Seq<u8>> {
    packets.map_values(|p: Vec<u8>| p@)
}

/// The info hashes of a list, copied.
fn copy_hashes(v: &Vec<[u8; 20]>) -> (copy: Vec<[u8; 20]>)
    ensures
        copy@ == v@,
{
    let mut copy: Vec<[u8; 20]> = Vec::new();
    let mut i: usize = 0;
    while i < v.len()
        invariant
            i <= v@.len(),
            copy@ == v@.take(i as int),
        decreases v@.len() - i,
    {
        copy.push(v[i]);
        assert(copy@ =~= v@.take(i as int + 1));
        i = i + 1;
    }
    assert(v@.take(i as int) =~= v@);
    copy
}

/// Packs the hashes into as few announcements as fit, in order: each packet
/// takes hashes until the next would make it too large. A last batch that
/// cannot be encoded is dropped.
pub fn encode_lsd_packets(info_hashes: &Vec<[u8; 20]>, port: u16, cookie: &str) -> (packets: Vec<Vec<u8>>)
    requires
        info_hashes@.len() >= 2 ==> forall|i: int|
            0 <= i < info_hashes@.len() ==> encode_parts(port, cookie@, seq![#[trigger] info_hashes@[i]])
                != Err::<Seq<u8>, LsdError>(LsdError::PacketTooLarge),
    ensures
        exists|batches: Seq<Seq<[u8; 20]>>|
            #[trigger] packs(port, cookie@, info_hashes@, batches, packet_views(packets@)),
{
    let ghost hashes = info_hashes@;
    let ghost mut batches: Seq<Seq<[u8; 20]>> = Seq::empty();
    let mut packets: Vec<Vec<u8>> = Vec::new();
    let mut batch: Vec<[u8; 20]> = Vec::new();
    let mut i: usize = 0;
    while i < info_hashes.len()
        invariant
            i <= hashes.len(),
            hashes == info_hashes@,
            info_hashes@.len() >= 2 ==> forall|k: int|
                0 <= k < info_hashes@.len() ==> encode_parts(port, cookie@, seq![#[trigger] info_hashes@[k]])
                    != Err::<Seq<u8>, LsdError>(LsdError::PacketTooLarge),
            joined_batches(batches) + batch@ == hashes.take(i as int),
            forall|j: int| 0 <= j < batches.len() ==> (#[trigger] batches[j]).len() > 0,
            forall|j: int|
                0 <= j < batches.len() - 1 ==> encode_parts(port, cookie@, #[trigger] batches[j].push(batches[j + 1][0]))
                    == Err::<Seq<u8>, LsdError>(LsdError::PacketTooLarge),
            packets@.len() == batches.len(),
            forall|j: int|
                0 <= j < packets@.len() ==> encode_parts(port, cookie@, batches[j]) == Ok::<Seq<u8>, LsdError>(
                    (#[trigger] packets@[j])@,
                ),
            batches.len() > 0 ==> batch@.len() > 0 && encode_parts(port, cookie@, batches.last().push(batch@[0]))
                == Err::<Seq<u8>, LsdError>(LsdError::PacketTooLarge),
            batch@.len() > 0 && info_hashes@.len() >= 2 ==> encode_parts(port, cookie@, batch@) != Err::<Seq<u8>, LsdError>(
                LsdError::PacketTooLarge,
            ),
            batch@.len() <= i,
        decreases hashes.len() - i,
    {
        let h = info_hashes[i];
        assert(hashes.take(i as int + 1) =~= hashes.take(i as int).push(h));
        let ghost before = batch@;
        batch.push(h);
        let trial = LsdAnnounce { info_hashes: copy_hashes(&batch), port, cookie: cookie.to_owned() };
        let too_large = match encode_lsd_announce(&trial) {
            Err(LsdError::PacketTooLarge) => true,
            _ => false,
        };
        if too_large {
            batch.pop();
            assert(batch@ =~= before);
            if batch.len() > 0 {
                let mut full: Vec<[u8; 20]> = Vec::new();
                std::mem::swap(&mut full, &mut batch);
                let ghost done = full@;
                let packet = encode_lsd_announce(&LsdAnnounce { info_hashes: full, port, cookie: cookie.to_owned() });
                match packet {
                    Ok(p) => {
                        proof {
                            let old_batches = batches;
                            batches = batches.push(done);
                            assert(batches.drop_last() =~= old_batches);
                            assert forall|j: int| 0 <= j < batches.len() - 1 implies encode_parts(
                                port,
                                cookie@,
                                #[trigger] batches[j].push(batches[j + 1][0]),
                            ) == Err::<Seq<u8>, LsdError>(LsdError::PacketTooLarge) by {
                                if j == batches.len() - 2 {
                                    assert(batches[j + 1] == done);
                                    assert(batches[j] == old_batches.last());
                                } else {
                                    assert(batches[j] == old_batches[j]);
                                    assert(batches[j + 1] == old_batches[j + 1]);
                                }
                            }
                        }
                        packets.push(p);
                    },
                    Err(_) => {
                        proof {
                            assert(done.push(h) =~= done + seq![h]);
                        }
                        vstd::pervasive::unreached::<()>();
                    },
                }
                assert(batch@ =~= Seq::<[u8; 20]>::empty());
            }
            batch.push(h);
            proof {
                assert(batch@ =~= seq![info_hashes@[i as int]]);
            }
        }
        i = i + 1;
    }
    let ghost final_batch = batch@;
    if batch.len() > 0 {
        let ghost old_batches = batches;
        proof {
            batches = batches.push(final_batch);
            assert(batches.drop_last() =~= old_batches);
            assert forall|j: int| 0 <= j < batches.len() - 1 implies encode_parts(
                port,
                cookie@,
                #[trigger] batches[j].push(batches[j + 1][0]),
            ) == Err::<Seq<u8>, LsdError>(LsdError::PacketTooLarge) by {
                if j == batches.len() - 2 {
                    assert(batches[j + 1] == final_batch);
                    assert(batches[j] == old_batches.last());
                } else {
                    assert(batches[j] == old_batches[j]);
                    assert(batches[j + 1] == old_batches[j + 1]);
                }
            }
        }
        let last = LsdAnnounce { info_hashes: batch, port, cookie: cookie.to_owned() };
        match encode_lsd_announce(&last) {
            Ok(p) => {
                packets.push(p);
                proof {
                    assert forall|j: int| 0 <= j < packets@.len() implies encode_parts(port, cookie@, batches[j]) == Ok::<
                        Seq<u8>,
                        LsdError,
                    >((#[trigger] packets@[j])@) by {
                        if j < old_batches.len() {
                            assert(batches[j] == old_batches[j]);
                        }
                    }
                }
            },
            Err(_) => {
                proof {
                    assert forall|j: int| 0 <= j < packets@.len() implies encode_parts(port, cookie@, batches[j]) == Ok::<
                        Seq<u8>,
                        LsdError,
                    >((#[trigger] packets@[j])@) by {
                        assert(batches[j] == old_batches[j]);
                    }
                }
            },
        }
    }
    proof {
        assert(hashes.take(i as int) =~= hashes);
        assert(packs(port, cookie@, info_hashes@, batches, packet_views(packets@)));
    }
    packets
}

/// The events one discovered hash gives: one for each announced torrent with
/// that hash, in the order of `torrents`.
pub open spec fn hash_matches(torrents: Seq<(TorrentId, [u8; 20])>, hash: [u8; 20], peer: SocketAddress, n: nat) -> Seq<
    LsdRuntimeEvent,
>
    decreases n,
{
    if n == 0 || n > torrents.len() {
        Seq::empty()
    } else {
        let before = hash_matches(torrents, hash, peer, (n - 1) as nat);
        if torrents[n - 1].1@ == hash@ {
            before.push(LsdRuntimeEvent::PeerDiscovered { torrent: torrents[n - 1].0, peer })
        } else {
            before
        }
    }
}

/// The events a discovery gives: for each discovered hash in turn, one for
/// each announced torrent with that hash.
pub open spec fn discovery_matches(torrents: Seq<(TorrentId, [u8; 20])>, hashes: Seq<[u8; 20]>, peer: SocketAddress) -> Seq<
    LsdRuntimeEvent,
>
    decreases hashes.len(),
{
    if hashes.len() == 0 {
        Seq::empty()
    } else {
        discovery_matches(torrents, hashes.drop_last(), peer) + hash_matches(
            torrents,
            hashes.last(),
            peer,
            torrents.len(),
        )
    }
}

/// The peer a discovery names, once for each announced torrent whose hash
/// it carries.
pub fn discovered_peers(torrents: &Vec<(TorrentId, [u8; 20])>, discovery: &LsdDiscovery) -> (events: Vec<LsdRuntimeEvent>)
    ensures
        events@ == discovery_matches(torrents@, discovery.info_hashes@, discovery.peer),
{
    let mut events: Vec<LsdRuntimeEvent> = Vec::new();
    let mut i: usize = 0;
    while i < discovery.info_hashes.len()
        invariant
            i <= discovery.info_hashes@.len(),
            events@ == discovery_matches(torrents@, discovery.info_hashes@.take(i as int), discovery.peer),
        decreases discovery.info_hashes@.len() - i,
    {
        let hash = &discovery.info_hashes[i];
        let ghost before = events@;
        let mut k: usize = 0;
        while k < torrents.len()
            invariant
                k <= torrents@.len(),
                i < discovery.info_hashes@.len(),
                *hash == discovery.info_hashes@[i as int],
                events@ == before + hash_matches(torrents@, *hash, discovery.peer, k as nat),
            decreases torrents@.len() - k,
        {
            let (torrent, active) = &torrents[k];
            if hash_same(active, hash) {
                events.push(LsdRuntimeEvent::PeerDiscovered { torrent: *torrent, peer: discovery.peer });
            }
            assert(events@ =~= before + hash_matches(torrents@, *hash, discovery.peer, k as nat + 1));
            k = k + 1;
        }
        assert(discovery.info_hashes@.take(i as int + 1).drop_last() =~= discovery.info_hashes@.take(i as int));
        i = i + 1;
    }
    assert(discovery.info_hashes@.take(i as int) =~= discovery.info_hashes@);
    events
}

/// Whether the torrents are due to be announced again: there are some, and
/// none were announced in the last minute.
pub fn lsd_announce_due(torrent_count: usize, since_last: Option<TimeSpan>) -> (due: bool)
    ensures
        due == (torrent_count > 0 && match since_last {
            None => true,
            Some(elapsed) => elapsed@ >= 60_000_000_000,
        }),
{
    torrent_count > 0 && match since_last {
        None => true,
        Some(elapsed) => elapsed.as_nanos() >= 60_000_000_000,
    }
}

/// Builds the packet announcing the torrents.
pub fn encode_lsd_announce(announce: &LsdAnnounce) -> (res: Result<Vec<u8>, LsdError>)
    ensures
        match spec_encode(*announce) {
            Ok(bytes) => res matches Ok(packet) && packet@ == bytes,
            Err(e) => res == Err::<Vec<u8>, LsdError>(e),
        },
{
    if announce.port == 0 {
        return Err(LsdError::InvalidPort);
    }
    if announce.info_hashes.len() == 0 {
        return Err(LsdError::MissingInfoHash);
    }
    let cookie_bytes = announce.cookie.as_str().as_bytes();
    if announce.cookie.as_str().is_empty() {
        return Err(LsdError::InvalidCookie);
    }
    let mut i: usize = 0;
    while i < cookie_bytes.len()
        invariant
            i <= cookie_bytes@.len(),
            cookie_bytes@ == encode_utf8(announce.cookie@),
            announce.port != 0,
            announce.info_hashes@.len() != 0,
            announce.cookie@.len() != 0,
            forall|j: int| 0 <= j < i ==> !is_control_byte(#[trigger] cookie_bytes@[j]),
        decreases cookie_bytes@.len() - i,
    {
        let b = cookie_bytes[i];
        if b < 32 || b == 127 {
            assert(is_control_byte(encode_utf8(announce.cookie@)[i as int]));

            return Err(LsdError::InvalidCookie);
        }
        i = i + 1;
    }
    let mut text = String::from_str("BT-SEARCH * HTTP/1.1\r\nHost: 239.192.152.143:6771\r\nPort: ");
    text.append(decimal_string(announce.port as u64).as_str());
    text.append("\r\nCookie: ");
    text.append(announce.cookie.as_str());
    text.append("\r\n");
    let ghost head = text@;
    let mut k: usize = 0;
    while k < announce.info_hashes.len()
        invariant
            k <= announce.info_hashes@.len(),
            text@ == head + hash_lines(announce.info_hashes@.take(k as int)),
        decreases announce.info_hashes@.len() - k,
    {
        let hash = &announce.info_hashes[k];
        text.append("Infohash: ");
        append_hex(&mut text, hash.as_slice());
        text.append("\r\n");
        proof {
            let t = announce.info_hashes@.take(k as int + 1);
            assert(t.drop_last() =~= announce.info_hashes@.take(k as int));
        }
        assert(text@ =~= head + hash_lines(announce.info_hashes@.take(k as int + 1)));
        k = k + 1;
    }
    text.append("\r\n");
    assert(announce.info_hashes@.take(k as int) =~= announce.info_hashes@);
    assert(text@ =~= announce_text(announce.port, announce.cookie@, announce.info_hashes@));
    let bytes = text.as_str().as_bytes();
    if bytes.len() > MAX_LSD_PACKET_BYTES {
        return Err(LsdError::PacketTooLarge);
    }
    let mut packet: Vec<u8> = Vec::new();
    let mut j: usize = 0;
    while j < bytes.len()
        invariant
            j <= bytes@.len(),
            packet@ == bytes@.take(j as int),
        decreases bytes@.len() - j,
    {
        packet.push(bytes[j]);
        assert(bytes@.take(j as int + 1) =~= bytes@.take(j as int).push(bytes@[j as int]));
        j = j + 1;
    }
    assert(bytes@.take(j as int) =~= bytes@);
    Ok(packet)
}

} // verus!
