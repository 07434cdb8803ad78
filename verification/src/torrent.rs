use vstd::prelude::*;

use crate::error::RuntimeError;
use crate::snapshot::TorrentId;
use crate::text::utf8_text;
use vstd::utf8::{decode_utf8, valid_utf8};

verus! {

/// What the runtime needs to know of a torrent: its identity, size and piece
/// layout, whether it is private, and where it can be fetched from.
#[derive(Debug)]
pub struct TorrentPlan {
    pub id: TorrentId,
    pub name: String,
    pub total_size: u64,
    pub piece_length: u64,
    pub piece_count: u32,
    pub private: bool,
    pub announce_urls: Vec<String>,
    pub web_seed_urls: Vec<String>,
}

/// The length of a piece: the standard length, except for the last piece,
/// which holds what is left of the total. `None` for a piece the plan does
/// not have or a length that does not fit in 32 bits.
pub open spec fn spec_piece_length(plan: TorrentPlan, piece: u32) -> Option<u32> {
    if piece >= plan.piece_count {
        None
    } else {
        let len: int = if piece + 1 == plan.piece_count {
            plan.total_size - plan.piece_length * (plan.piece_count - 1)
        } else {
            plan.piece_length as int
        };
        if 0 <= len <= u32::MAX { Some(len as u32) } else { None }
    }
}

/// A copy of a list of strings.
pub fn copy_strings(v: &Vec<String>) -> (copy: Vec<String>)
    ensures
        copy@.len() == v@.len(),
        forall|i: int| 0 <= i < v@.len() ==> (#[trigger] copy@[i])@ == v@[i]@,
{
    let mut copy: Vec<String> = Vec::new();
    let mut i: usize = 0;
    while i < v.len()
        invariant
            i <= v@.len(),
            copy@.len() == i,
            forall|j: int| 0 <= j < i ==> (#[trigger] copy@[j])@ == v@[j]@,
        decreases v@.len() - i,
    {
        copy.push(v[i].clone());
        i = i + 1;
    }
    copy
}

impl TorrentPlan {
    /// The plan's value: everything but the identity of its strings.
    pub open spec fn same_plan(self, other: TorrentPlan) -> bool {
        &&& self.id == other.id
        &&& self.name@ == other.name@
        &&& self.total_size == other.total_size
        &&& self.piece_length == other.piece_length
        &&& self.piece_count == other.piece_count
        &&& self.private == other.private
        &&& self.announce_urls@.len() == other.announce_urls@.len()
        &&& forall|i: int| 0 <= i < self.announce_urls@.len() ==> (#[trigger] self.announce_urls@[i])@ == other.announce_urls@[i]@
        &&& self.web_seed_urls@.len() == other.web_seed_urls@.len()
        &&& forall|i: int| 0 <= i < self.web_seed_urls@.len() ==> (#[trigger] self.web_seed_urls@[i])@ == other.web_seed_urls@[i]@
    }

    /// A copy of the plan.
    pub fn duplicate(&self) -> (copy: TorrentPlan)
        ensures
            copy.same_plan(*self),
    {
        TorrentPlan {
            id: self.id,
            name: self.name.clone(),
            total_size: self.total_size,
            piece_length: self.piece_length,
            piece_count: self.piece_count,
            private: self.private,
            announce_urls: copy_strings(&self.announce_urls),
            web_seed_urls: copy_strings(&self.web_seed_urls),
        }
    }

    /// The number of pieces.
    pub fn piece_count(&self) -> (n: u32)
        ensures
            n == self.piece_count,
    {
        self.piece_count
    }

    /// The length of a piece, or an error for a piece the plan does not have.
    pub fn piece_length(&self, piece: u32) -> (res: Result<u32, RuntimeError>)
        ensures
            match spec_piece_length(*self, piece) {
                Some(len) => res == Ok::<u32, RuntimeError>(len),
                None => res matches Err(RuntimeError::Disk(_)),
            },
    {
        if piece >= self.piece_count {
            return Err(RuntimeError::Disk("piece index is out of range".to_owned()));
        }
        if piece + 1 == self.piece_count {
            let before = (self.piece_count - 1) as u64;
            match self.piece_length.checked_mul(before) {
                None => {
                    assert(self.piece_length * (self.piece_count - 1) > u64::MAX);
                    Err(RuntimeError::Disk("piece index is out of range".to_owned()))
                },
                Some(used) => {
                    if used > self.total_size || self.total_size - used > u32::MAX as u64 {
                        Err(RuntimeError::Disk("piece index is out of range".to_owned()))
                    } else {
                        Ok((self.total_size - used) as u32)
                    }
                },
            }
        } else if self.piece_length > u32::MAX as u64 {
            Err(RuntimeError::Disk("piece index is out of range".to_owned()))
        } else {
            Ok(self.piece_length as u32)
        }
    }
}

/// The inclusive byte range of a piece within the torrent's data.
pub fn piece_byte_range(plan: &TorrentPlan, piece: u32) -> (res: Result<(u64, u64), RuntimeError>)
    requires
        spec_piece_length(*plan, piece) matches Some(len) ==> 1 <= piece * plan.piece_length + len <= u64::MAX,
    ensures
        match spec_piece_length(*plan, piece) {
            Some(len) => res matches Ok((start, end)) && start == piece * plan.piece_length
                && end == start + len - 1,
            None => res matches Err(RuntimeError::Disk(_)),
        },
{
    let length = plan.piece_length(piece)? as u64;
    let ghost product: int = piece * plan.piece_length;
    assert(product + length <= u64::MAX);
    assert(0 <= piece * plan.piece_length) by (nonlinear_arith);
    let start = piece as u64 * plan.piece_length;
    let end = start + length - 1;
    Ok((start, end))
}

/// The inclusive byte range and the length of the piece a smoke run
/// fetches: an error for a piece the plan does not have, and the range
/// error when the range does not fit in 64 bits.
pub fn target_piece_range(plan: &TorrentPlan, piece: u32) -> (res: Result<(u64, u64, usize), RuntimeError>)
    ensures
        match spec_piece_length(*plan, piece) {
            None => res matches Err(RuntimeError::Disk(_)),
            Some(len) => if 1 <= piece * plan.piece_length + len <= u64::MAX {
                res == Ok::<(u64, u64, usize), RuntimeError>((
                    (piece * plan.piece_length) as u64,
                    (piece * plan.piece_length + len - 1) as u64,
                    len as usize,
                ))
            } else {
                res == Err::<(u64, u64, usize), RuntimeError>(RuntimeError::InvalidConfig("piece byte range overflow"))
            },
        },
{
    let length = plan.piece_length(piece)?;
    assert(0 <= piece * plan.piece_length) by (nonlinear_arith);
    let start = match (piece as u64).checked_mul(plan.piece_length) {
        Some(start) => start,
        None => return Err(RuntimeError::InvalidConfig("piece byte range overflow")),
    };
    let end = match start.checked_add(length as u64) {
        Some(sum) => match sum.checked_sub(1) {
            Some(end) => end,
            None => return Err(RuntimeError::InvalidConfig("piece byte range overflow")),
        },
        None => return Err(RuntimeError::InvalidConfig("piece byte range overflow")),
    };
    Ok((start, end, length as usize))
}

/// The sum of the lengths.
pub open spec fn sum_lengths(s: Seq<u64>) -> int
    decreases s.len(),
{
    if s.len() == 0 {
        0
    } else {
        sum_lengths(s.drop_last()) + s.last()
    }
}

proof fn lemma_sum_prefix(s: Seq<u64>, i: int)
    requires
        0 <= i <= s.len(),
    ensures
        0 <= sum_lengths(s.take(i)) <= sum_lengths(s),
    decreases s.len() - i,
{
    if i < s.len() {
        lemma_sum_prefix(s, i + 1);
        assert(s.take(i + 1).drop_last() =~= s.take(i));
        lemma_sum_nonnegative(s.take(i));
    } else {
        assert(s.take(i) =~= s);
        lemma_sum_nonnegative(s);
    }
}

proof fn lemma_sum_nonnegative(s: Seq<u64>)
    ensures
        sum_lengths(s) >= 0,
    decreases s.len(),
{
    if s.len() > 0 {
        lemma_sum_nonnegative(s.drop_last());
    }
}

/// The size of a torrent's content: the sum of its files' lengths (a
/// single-file torrent has one).
pub fn torrent_size(file_lengths: &Vec<u64>) -> (size: u64)
    requires
        sum_lengths(file_lengths@) <= u64::MAX,
    ensures
        size == sum_lengths(file_lengths@),
{
    let mut size: u64 = 0;
    let mut i: usize = 0;
    while i < file_lengths.len()
        invariant
            i <= file_lengths@.len(),
            size == sum_lengths(file_lengths@.take(i as int)),
            sum_lengths(file_lengths@) <= u64::MAX,
        decreases file_lengths@.len() - i,
    {
        proof {
            lemma_sum_prefix(file_lengths@, i + 1);
            assert(file_lengths@.take(i + 1).drop_last() =~= file_lengths@.take(i as int));
        }
        size = size + file_lengths[i];
        i = i + 1;
    }
    assert(file_lengths@.take(i as int) =~= file_lengths@);
    size
}

/// Accepts the bytes a web seed returned for a piece when there are exactly
/// as many as the piece holds.
pub fn validate_web_seed_piece_bytes(piece: u32, expected: u32, bytes: Vec<u8>) -> (res: Result<Vec<u8>, RuntimeError>)
    ensures
        bytes@.len() == expected ==> res == Ok::<Vec<u8>, RuntimeError>(bytes),
        bytes@.len() != expected ==> res == Err::<Vec<u8>, RuntimeError>(
            RuntimeError::InvalidWebSeedLength { piece, expected: expected as usize, actual: bytes@.len() as usize },
        ),
{
    if bytes.len() != expected as usize {
        return Err(RuntimeError::InvalidWebSeedLength { piece, expected: expected as usize, actual: bytes.len() });
    }
    Ok(bytes)
}

/// What `url::Url::parse` gives for a text: the URL's serialization and its
/// scheme, or nothing for a text it refuses.
pub uninterp spec fn parsed_url(text: Seq<char>) -> Option<(Seq<char>, Seq<char>)>;

/// Parses an absolute URL.
///
/// Trusted: calls `url::Url::parse` and, on success, hands back
/// `Url::as_str` (the serialization, which is what two URLs are compared
/// by) and `Url::scheme`. The contract only names the outcome.
#[verifier::external_body]
fn parse_url(text: &str) -> (parsed: Option<(String, String)>)
    ensures
        match parsed {
            Some((serialization, scheme)) => parsed_url(text@) == Some((serialization@, scheme@)),
            None => parsed_url(text@) is None,
        },
{
    match url::Url::parse(text) {
        Ok(url) => Some((url.as_str().to_owned(), url.scheme().to_owned())),
        Err(_) => None,
    }
}

/// The texts of a list of strings.
pub open spec fn texts(v: Seq<String>) -> Seq<Seq<char>> {
    v.map_values(|s: String| s@)
}

/// The schemes the runtime fetches over.
pub open spec fn is_http_scheme(scheme: Seq<char>) -> bool {
    scheme == "http"@ || scheme == "https"@
}

/// A parsed URL joins the list when its scheme is HTTP(S) and it is not
/// there yet; a text that does not parse is refused, as itself.
pub open spec fn admit_step(
    urls: Seq<Seq<char>>,
    text: Seq<char>,
    parsed: Option<(Seq<char>, Seq<char>)>,
) -> Result<Seq<Seq<char>>, Seq<char>> {
    match parsed {
        None => Err(text),
        Some((serialization, scheme)) => Ok(
            if is_http_scheme(scheme) && !urls.contains(serialization) {
                urls.push(serialization)
            } else {
                urls
            },
        ),
    }
}

/// What one URL field does to the list: text that is not UTF-8 is skipped.
pub open spec fn url_field_step(urls: Seq<Seq<char>>, bytes: Seq<u8>) -> Result<Seq<Seq<char>>, Seq<char>> {
    if !valid_utf8(bytes) {
        Ok(urls)
    } else {
        admit_step(urls, decode_utf8(bytes), parsed_url(decode_utf8(bytes)))
    }
}

/// The HTTP(S) URLs of a run of URL fields, in order and each once; the
/// text of the first field that does not parse is the error.
pub open spec fn collected_urls(fields: Seq<Seq<u8>>) -> Result<Seq<Seq<char>>, Seq<char>>
    decreases fields.len(),
{
    if fields.len() == 0 {
        Ok(Seq::empty())
    } else {
        match collected_urls(fields.drop_last()) {
            Err(text) => Err(text),
            Ok(urls) => url_field_step(urls, fields.last()),
        }
    }
}

/// Adds a parsed URL to the list when its scheme is HTTP(S) and it is not
/// there yet; a text that did not parse is refused.
pub fn admit_url(urls: &mut Vec<String>, text: &str, parsed: Option<(String, String)>) -> (res: Result<(), RuntimeError>)
    ensures
        match admit_step(texts(old(urls)@), text@, match parsed {
            Some((a, b)) => Some((a@, b@)),
            None => None,
        }) {
            Ok(next) => res is Ok && texts(final(urls)@) == next,
            Err(t) => (res matches Err(RuntimeError::InvalidTrackerUrl { url }) && url@ == t) && final(urls)@ == old(urls)@,
        },
{
    match parsed {
        None => Err(RuntimeError::InvalidTrackerUrl { url: text.to_owned() }),
        Some((serialization, scheme)) => {
            let http = crate::text::str_eq(scheme.as_str(), "http") || crate::text::str_eq(scheme.as_str(), "https");
            if http {
                let mut known = false;
                let mut i: usize = 0;
                while i < urls.len()
                    invariant
                        i <= urls@.len(),
                        known == (exists|j: int| 0 <= j < i && urls@[j]@ == serialization@),
                    decreases urls@.len() - i,
                {
                    if urls[i].eq(&serialization) {
                        known = true;
                    }
                    i = i + 1;
                }
                proof {
                    let v = texts(urls@);
                    if known {
                        let j = choose|j: int| 0 <= j < urls@.len() && urls@[j]@ == serialization@;
                        assert(v[j] == serialization@);
                    } else {
                        assert forall|j: int| 0 <= j < v.len() implies v[j] != serialization@ by {
                            assert(v[j] == urls@[j]@);
                        }
                    }
                }
                if !known {
                    let ghost before = urls@;
                    urls.push(serialization);
                    assert(texts(urls@) =~= texts(before).push(serialization@));
                }
            }
            Ok(())
        },
    }
}

/// Adds the URL a metainfo field names when it is HTTP(S) and new; a field
/// that is not UTF-8 is skipped, one that does not parse is refused.
pub fn push_http_url(urls: &mut Vec<String>, bytes: &[u8]) -> (res: Result<(), RuntimeError>)
    ensures
        match url_field_step(texts(old(urls)@), bytes@) {
            Ok(next) => res is Ok && texts(final(urls)@) == next,
            Err(t) => (res matches Err(RuntimeError::InvalidTrackerUrl { url }) && url@ == t) && final(urls)@ == old(urls)@,
        },
{
    let text = match utf8_text(bytes) {
        Some(text) => text,
        None => return Ok(()),
    };
    let parsed = parse_url(text);
    admit_url(urls, text, parsed)
}

/// The HTTP(S) URLs that a run of metainfo fields names, in order and each once.
pub fn collect_http_urls(fields: &Vec<Vec<u8>>) -> (res: Result<Vec<String>, RuntimeError>)
    ensures
        match collected_urls(fields@.map_values(|f: Vec<u8>| f@)) {
            Ok(urls) => res matches Ok(v) && texts(v@) == urls,
            Err(t) => res matches Err(RuntimeError::InvalidTrackerUrl { url }) && url@ == t,
        },
{
    let ghost all = fields@.map_values(|f: Vec<u8>| f@);
    let mut urls: Vec<String> = Vec::new();
    let mut i: usize = 0;
    assert(all.take(0) =~= Seq::<Seq<u8>>::empty());
    assert(texts(urls@) =~= Seq::<Seq<char>>::empty());
    while i < fields.len()
        invariant
            i <= fields@.len(),
            all == fields@.map_values(|f: Vec<u8>| f@),
            collected_urls(all.take(i as int)) == Ok::<Seq<Seq<char>>, Seq<char>>(texts(urls@)),
        decreases fields@.len() - i,
    {
        assert(all.take(i as int + 1).drop_last() =~= all.take(i as int));
        match push_http_url(&mut urls, fields[i].as_slice()) {
            Ok(()) => {},
            Err(e) => {
                proof {
                    lemma_collected_stays_failed(all, i as int + 1);
                }
                return Err(e);
            },
        }
        i = i + 1;
    }
    assert(all.take(i as int) =~= all);
    Ok(urls)
}

/// Once a field fails, every longer run fails with the same text.
proof fn lemma_collected_stays_failed(fields: Seq<Seq<u8>>, n: int)
    requires
        0 <= n <= fields.len(),
        collected_urls(fields.take(n)) is Err,
    ensures
        collected_urls(fields) == collected_urls(fields.take(n)),
    decreases fields.len() - n,
{
    if n < fields.len() {
        assert(fields.take(n + 1).drop_last() =~= fields.take(n));
        lemma_collected_stays_failed(fields, n + 1);
    } else {
        assert(fields.take(n) =~= fields);
    }
}

/// Why a torrent cannot be planned: no source to fetch it from, or v2
/// data without v1 pieces.
pub fn check_plan_sources(announce_urls: usize, web_seed_urls: usize, v2_without_v1_pieces: bool) -> (res: Result<(), RuntimeError>)
    ensures
        announce_urls == 0 && web_seed_urls == 0 ==> res == Err::<(), RuntimeError>(RuntimeError::NoHttpTracker),
        !(announce_urls == 0 && web_seed_urls == 0) && v2_without_v1_pieces ==> res == Err::<(), RuntimeError>(
            RuntimeError::V2NotSupported,
        ),
        !(announce_urls == 0 && web_seed_urls == 0) && !v2_without_v1_pieces ==> res is Ok,
{
    if announce_urls == 0 && web_seed_urls == 0 {
        return Err(RuntimeError::NoHttpTracker);
    }
    if v2_without_v1_pieces {
        return Err(RuntimeError::V2NotSupported);
    }
    Ok(())
}

} // verus!
