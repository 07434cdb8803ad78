use vstd::prelude::*;

use vstd::utf8::{decode_utf8, valid_utf8};

use crate::error::RuntimeError;
use crate::format::{decimal, decimal_string};
use crate::text::{chars_of, utf8_text};

verus! {

/// The `Range` header that asks for the bytes `start` to `end`, both included.
pub open spec fn range_text(start: u64, end: u64) -> Seq<char> {
    "bytes="@ + decimal(start as nat) + "-"@ + decimal(end as nat)
}

pub fn range_header(start: u64, end: u64) -> (header: String)
    ensures
        header@ == range_text(start, end),
{
    let mut header = String::from_str("bytes=");
    proof {
        reveal_strlit("bytes=");
        reveal_strlit("-");
    }
    header.append(decimal_string(start).as_str());
    header.append("-");
    header.append(decimal_string(end).as_str());
    header
}

/// A length as a `usize`, held at the largest a `usize` can hold.
pub open spec fn clamped(len: u64) -> usize {
    if len > usize::MAX { usize::MAX } else { len as usize }
}

/// Refuses a web seed response that announces more bytes than the piece
/// holds, before any of it is read.
pub fn check_content_length(piece: u32, expected: u32, content_length: Option<u64>) -> (res: Result<(), RuntimeError>)
    ensures
        match content_length {
            Some(len) => if len > expected {
                res == Err::<(), RuntimeError>(RuntimeError::InvalidWebSeedLength {
                    piece,
                    expected: expected as usize,
                    actual: clamped(len),
                })
            } else {
                res is Ok
            },
            None => res is Ok,
        },
{
    if let Some(len) = content_length {
        if len > expected as u64 {
            let actual: usize = if len > usize::MAX as u64 { usize::MAX } else { len as usize };
            return Err(RuntimeError::InvalidWebSeedLength { piece, expected: expected as usize, actual });
        }
    }
    Ok(())
}

/// The number of bytes the body would hold with the chunk, held at the
/// largest a `usize` can hold.
pub open spec fn combined_len(body: nat, chunk: nat) -> usize {
    if body + chunk > usize::MAX { usize::MAX } else { (body + chunk) as usize }
}

/// Adds a chunk of a web seed response to the body read so far, unless the
/// body would then hold more bytes than the piece.
pub fn append_bounded(body: &mut Vec<u8>, chunk: &Vec<u8>, piece: u32, expected: u32) -> (res: Result<(), RuntimeError>)
    ensures
        combined_len(old(body)@.len(), chunk@.len()) > expected ==> res == Err::<(), RuntimeError>(
            RuntimeError::InvalidWebSeedLength {
                piece,
                expected: expected as usize,
                actual: combined_len(old(body)@.len(), chunk@.len()),
            },
        ) && final(body)@ == old(body)@,
        combined_len(old(body)@.len(), chunk@.len()) <= expected ==> res is Ok && final(body)@ == old(body)@ + chunk@,
{
    let actual = body.len().saturating_add(chunk.len());
    if actual > expected as usize {
        return Err(RuntimeError::InvalidWebSeedLength { piece, expected: expected as usize, actual });
    }
    let mut i: usize = 0;
    let ghost start = body@;
    while i < chunk.len()
        invariant
            i <= chunk@.len(),
            body@ == start + chunk@.take(i as int),
        decreases chunk@.len() - i,
    {
        body.push(chunk[i]);
        assert(chunk@.take(i as int + 1) =~= chunk@.take(i as int).push(chunk@[i as int]));
        assert(body@ =~= start + chunk@.take(i as int + 1));
        i = i + 1;
    }
    assert(chunk@.take(i as int) =~= chunk@);
    Ok(())
}

/// The error when no source gave the torrent: the last source's error, or
/// that all sources failed when none was tried.
pub fn all_sources_failed(last_error: Option<String>) -> (err: RuntimeError)
    ensures
        err matches RuntimeError::AllPeersFailed { last_error: text } && text@ == match last_error {
            Some(e) => e@,
            None => "all sources failed"@,
        },
{
    match last_error {
        Some(e) => RuntimeError::AllPeersFailed { last_error: e },
        None => RuntimeError::AllPeersFailed { last_error: String::from_str("all sources failed") },
    }
}

/// What `url::Url::path` gives for the URL a text parses to, or nothing for
/// a text that `url::Url::parse` refuses.
pub uninterp spec fn url_path_of(text: Seq<char>) -> Option<Seq<char>>;

/// The path of a URL.
///
/// Trusted: parses the text with `url::Url::parse` and hands back
/// `Url::path`, the percent-encoded path. The contract only names the outcome.
#[verifier::external_body]
fn url_path(text: &str) -> (path: Option<String>)
    ensures
        match path {
            Some(p) => url_path_of(text@) == Some(p@),
            None => url_path_of(text@) is None,
        },
{
    match url::Url::parse(text) {
        Ok(url) => Some(url.path().to_owned()),
        Err(_) => None,
    }
}

/// What `url::Url::join` gives, as its serialization, for the URL a base
/// text parses to and a reference; nothing when the base does not parse or
/// the reference cannot be joined to it.
pub uninterp spec fn joined_url(base: Seq<char>, reference: Seq<char>) -> Option<Seq<char>>;

/// A reference resolved against a base URL.
///
/// Trusted: parses the base with `url::Url::parse`, joins the reference
/// with `Url::join`, and hands back `Url::as_str` of the result. The
/// contract only names the outcome.
#[verifier::external_body]
fn join_url(base: &str, reference: &str) -> (joined: Option<String>)
    ensures
        match joined {
            Some(j) => joined_url(base@, reference@) == Some(j@),
            None => joined_url(base@, reference@) is None,
        },
{
    match url::Url::parse(base) {
        Ok(url) => match url.join(reference) {
            Ok(joined) => Some(joined.as_str().to_owned()),
            Err(_) => None,
        },
        Err(_) => None,
    }
}

/// Whether a path names a directory, ending in a slash.
pub open spec fn names_directory(path: Seq<char>) -> bool {
    path.len() > 0 && path.last() == '/'
}

/// What fetching a single-file torrent from a web seed asks for: a seed
/// URL that names a directory gets the torrent's name joined to it; any
/// other seed URL is the file itself. Multi-file torrents are not fetched
/// from web seeds.
pub open spec fn spec_web_seed_file_url(single_file: bool, seed: Seq<char>, name: Seq<u8>) -> Result<Seq<char>, RuntimeError> {
    if !single_file {
        Err(RuntimeError::UnsupportedWebSeedLayout)
    } else {
        match url_path_of(seed) {
            None => Err(RuntimeError::InvalidConfig("failed to build web seed URL")),
            Some(path) => if !names_directory(path) {
                Ok(seed)
            } else if !valid_utf8(name) {
                Err(RuntimeError::InvalidConfig("single-file torrent name must be utf-8 for web seed URL"))
            } else {
                match joined_url(seed, decode_utf8(name)) {
                    Some(url) => Ok(url),
                    None => Err(RuntimeError::InvalidConfig("failed to build web seed URL")),
                }
            },
        }
    }
}

/// The URL of the file a single-file torrent is fetched from at a web seed.
pub fn web_seed_file_url(single_file: bool, seed: &str, name: &[u8]) -> (res: Result<String, RuntimeError>)
    ensures
        match spec_web_seed_file_url(single_file, seed@, name@) {
            Ok(url) => res matches Ok(u) && u@ == url,
            Err(e) => res == Err::<String, RuntimeError>(e),
        },
{
    if !single_file {
        return Err(RuntimeError::UnsupportedWebSeedLayout);
    }
    let path = match url_path(seed) {
        Some(path) => path,
        None => {
            return Err(RuntimeError::InvalidConfig("failed to build web seed URL"));
        },
    };
    let chars = chars_of(path.as_str());
    let directory = chars.len() > 0 && chars[chars.len() - 1] == '/';
    if !directory {
        return Ok(String::from_str(seed));
    }
    let text = match utf8_text(name) {
        Some(text) => text,
        None => {
            return Err(RuntimeError::InvalidConfig("single-file torrent name must be utf-8 for web seed URL"));
        },
    };
    match join_url(seed, text) {
        Some(url) => Ok(url),
        None => Err(RuntimeError::InvalidConfig("failed to build web seed URL")),
    }
}

} // verus!
