use vstd::prelude::*;

use crate::error::RuntimeError;
use crate::format::{decimal, decimal_string};
use crate::time::TimeSpan;

verus! {

/// The size of every metadata piece but the last (BEP 9).
pub const METADATA_BLOCK_LEN: u64 = 16384;

/// The limits of a metadata fetch from one peer.
#[derive(Clone, Copy, Debug, PartialEq, Eq, Structural)]
pub struct MetadataFetchConfig {
    pub max_metadata_size: u64,
    pub request_limit: u32,
    pub timeout: TimeSpan,
    pub max_frame_len: u32,
}

impl Default for MetadataFetchConfig {
    /// Eight megabytes of metadata, 512 requests, fifteen seconds, 64 KiB frames.
    fn default() -> (config: MetadataFetchConfig)
        ensures
            config.max_metadata_size == 8388608,
            config.request_limit == 512,
            config.timeout@ == 15_000_000_000,
            config.max_frame_len == 65536,
    {
        MetadataFetchConfig {
            max_metadata_size: 8 * 1024 * 1024,
            request_limit: 512,
            timeout: TimeSpan::from_secs(15),
            max_frame_len: 64 * 1024,
        }
    }
}

impl MetadataFetchConfig {
    /// The first limit that is zero, in the order they are checked.
    pub open spec fn spec_error(self) -> Option<RuntimeError> {
        if self.max_metadata_size == 0 {
            Some(RuntimeError::InvalidConfig("metadata max_metadata_size must be greater than zero"))
        } else if self.request_limit == 0 {
            Some(RuntimeError::InvalidConfig("metadata request_limit must be greater than zero"))
        } else if self.timeout@ == 0 {
            Some(RuntimeError::InvalidConfig("metadata timeout must be greater than zero"))
        } else if self.max_frame_len == 0 {
            Some(RuntimeError::InvalidConfig("metadata max_frame_len must be greater than zero"))
        } else {
            None
        }
    }

    /// Gives the limits back when all are nonzero, else the first that is zero.
    pub fn validate(self) -> (res: Result<MetadataFetchConfig, RuntimeError>)
        ensures
            res == (match self.spec_error() {
                Some(e) => Err(e),
                None => Ok(self),
            }),
    {
        if self.max_metadata_size == 0 {
            return Err(RuntimeError::InvalidConfig("metadata max_metadata_size must be greater than zero"));
        }
        if self.request_limit == 0 {
            return Err(RuntimeError::InvalidConfig("metadata request_limit must be greater than zero"));
        }
        if self.timeout.is_zero() {
            return Err(RuntimeError::InvalidConfig("metadata timeout must be greater than zero"));
        }
        if self.max_frame_len == 0 {
            return Err(RuntimeError::InvalidConfig("metadata max_frame_len must be greater than zero"));
        }
        Ok(self)
    }
}

/// The message for a metadata size over the limit.
pub open spec fn oversize_message(size: u64, max: u64) -> Seq<char> {
    "peer metadata_size "@ + decimal(size as nat) + " exceeds configured maximum "@ + decimal(max as nat)
}

/// Accepts an advertised metadata size that is nonzero and within the limit.
pub fn validate_metadata_size(size: u64, config: MetadataFetchConfig) -> (res: Result<(), RuntimeError>)
    ensures
        size == 0 ==> (res matches Err(RuntimeError::Metadata(m)) && m@ == "peer advertised empty metadata"@),
        size != 0 && size > config.max_metadata_size ==> (res matches Err(RuntimeError::Metadata(m)) && m@
            == oversize_message(size, config.max_metadata_size)),
        size != 0 && size <= config.max_metadata_size ==> res is Ok,
{
    if size == 0 {
        return Err(RuntimeError::Metadata(String::from_str("peer advertised empty metadata")));
    }
    if size > config.max_metadata_size {
        let mut message = String::from_str("peer metadata_size ");
        message.append(decimal_string(size).as_str());
        message.append(" exceeds configured maximum ");
        message.append(decimal_string(config.max_metadata_size).as_str());
        return Err(RuntimeError::Metadata(message));
    }
    Ok(())
}

/// The size metadata piece `piece` must have: a full block, but for the
/// last piece, which holds what is left; none for a piece past the end.
pub open spec fn expected_piece_len(piece: u32, total_size: u64) -> Option<nat> {
    if (piece + 1) * METADATA_BLOCK_LEN >= total_size {
        if piece * METADATA_BLOCK_LEN <= total_size {
            Some((total_size - piece * METADATA_BLOCK_LEN) as nat)
        } else {
            None
        }
    } else {
        Some(METADATA_BLOCK_LEN as nat)
    }
}

/// The message for a piece of the wrong size.
pub open spec fn piece_size_message(piece: u32, len: usize, expected: nat) -> Seq<char> {
    "metadata piece "@ + decimal(piece as nat) + " had "@ + decimal(len as nat) + " bytes, expected "@ + decimal(expected)
}

/// Accepts a metadata piece whose payload has the size its index calls for.
pub fn validate_piece_payload(piece: u32, total_size: u64, len: usize) -> (res: Result<(), RuntimeError>)
    ensures
        match expected_piece_len(piece, total_size) {
            None => res matches Err(RuntimeError::Metadata(m)) && m@ == "metadata piece index out of range"@,
            Some(expected) => if len == expected {
                res is Ok
            } else {
                res matches Err(RuntimeError::Metadata(m)) && m@ == piece_size_message(piece, len, expected)
            },
        },
{
    let piece_wide = piece as u64;
    let expected: u64 = if (piece_wide + 1) * METADATA_BLOCK_LEN >= total_size {
        let start = piece_wide * METADATA_BLOCK_LEN;
        match total_size.checked_sub(start) {
            Some(rest) => rest,
            None => {
                return Err(RuntimeError::Metadata(String::from_str("metadata piece index out of range")));
            },
        }
    } else {
        METADATA_BLOCK_LEN
    };
    assert(expected <= METADATA_BLOCK_LEN);
    if (len as u64) != expected {
        let mut message = String::from_str("metadata piece ");
        message.append(decimal_string(piece_wide).as_str());
        message.append(" had ");
        message.append(decimal_string(len as u64).as_str());
        message.append(" bytes, expected ");
        message.append(decimal_string(expected).as_str());
        return Err(RuntimeError::Metadata(message));
    }
    Ok(())
}

/// A message read while waiting for a metadata piece, as far as the reader
/// looks at it.
#[derive(Debug)]
pub enum MetadataReply {
    /// A keep-alive.
    KeepAlive,
    /// A metadata data message: its piece, the total size it states, and its payload.
    Data { piece: u32, total_size: u64, payload: Vec<u8> },
    /// A metadata reject message.
    Reject { piece: u32 },
    /// A metadata message of another type.
    OtherMetadata,
    /// A message under the metadata extension id that did not decode, with
    /// the decoder's reason.
    Undecodable { reason: String },
    /// Any other message.
    Other,
}

/// The message for a refused metadata piece.
pub open spec fn rejected_message(piece: u32) -> Seq<char> {
    "peer rejected metadata piece "@ + decimal(piece as nat)
}

/// What the reader does with a message while it waits for metadata piece
/// `expected_piece` of a `total_size`-byte whole: a keep-alive is skipped
/// (`None`); the data of that piece, stating that size, is taken when its
/// payload has the size the piece calls for; a reject of that piece, an
/// undecodable message and anything else end the fetch with an error.
pub fn read_metadata_reply(expected_piece: u32, total_size: u64, reply: MetadataReply) -> (res: Result<Option<Vec<u8>>, RuntimeError>)
    ensures
        match reply {
            MetadataReply::KeepAlive => res == Ok::<Option<Vec<u8>>, RuntimeError>(None),
            MetadataReply::Data { piece, total_size: stated, payload } => if piece == expected_piece && stated == total_size {
                match expected_piece_len(piece, total_size) {
                    None => (res matches Err(RuntimeError::Metadata(m)) && m@ == "metadata piece index out of range"@),
                    Some(expected) => if payload@.len() == expected {
                        res == Ok::<Option<Vec<u8>>, RuntimeError>(Some(payload))
                    } else {
                        res matches Err(RuntimeError::Metadata(m)) && m@ == piece_size_message(piece, payload@.len() as usize, expected)
                    },
                }
            } else {
                res == Err::<Option<Vec<u8>>, RuntimeError>(RuntimeError::UnexpectedPeerMessage { stage: "reading metadata piece" })
            },
            MetadataReply::Reject { piece } => if piece == expected_piece {
                res matches Err(RuntimeError::Metadata(m)) && m@ == rejected_message(piece)
            } else {
                res == Err::<Option<Vec<u8>>, RuntimeError>(RuntimeError::UnexpectedPeerMessage { stage: "reading metadata piece" })
            },
            MetadataReply::Undecodable { reason } => res matches Err(RuntimeError::Metadata(m)) && m@ == reason@,
            MetadataReply::OtherMetadata | MetadataReply::Other => res == Err::<Option<Vec<u8>>, RuntimeError>(
                RuntimeError::UnexpectedPeerMessage { stage: "reading metadata piece" },
            ),
        },
{
    match reply {
        MetadataReply::KeepAlive => Ok(None),
        MetadataReply::Data { piece, total_size: stated, payload } => {
            if piece == expected_piece && stated == total_size {
                validate_piece_payload(expected_piece, total_size, payload.len())?;
                Ok(Some(payload))
            } else {
                Err(RuntimeError::UnexpectedPeerMessage { stage: "reading metadata piece" })
            }
        },
        MetadataReply::Reject { piece } => {
            if piece == expected_piece {
                let mut message = String::from_str("peer rejected metadata piece ");
                proof {
                    reveal_strlit("peer rejected metadata piece ");
                }
                message.append(decimal_string(piece as u64).as_str());
                Err(RuntimeError::Metadata(message))
            } else {
                Err(RuntimeError::UnexpectedPeerMessage { stage: "reading metadata piece" })
            }
        },
        MetadataReply::Undecodable { reason } => Err(RuntimeError::Metadata(reason)),
        MetadataReply::OtherMetadata | MetadataReply::Other => Err(
            RuntimeError::UnexpectedPeerMessage { stage: "reading metadata piece" },
        ),
    }
}

/// The kind of a peer-wire message, as far as the metadata exchange looks
/// at it.
#[derive(Clone, Copy, Debug, PartialEq, Eq, Structural)]
pub enum WireKind {
    /// An extension message under the given extension id.
    Extended(u8),
    KeepAlive,
    Have,
    Bitfield,
    Port,
    /// Any other message.
    Other,
}

/// What the metadata exchange does with a message while it waits for the
/// peer's extension handshake: the handshake (extension id 0) is read
/// (`true`); keep-alives, haves, bitfields and port messages are skipped
/// (`false`); anything else ends the exchange.
pub fn awaiting_extension_handshake(kind: WireKind) -> (res: Result<bool, RuntimeError>)
    ensures
        match kind {
            WireKind::Extended(id) => if id == 0 {
                res == Ok::<bool, RuntimeError>(true)
            } else {
                res == Err::<bool, RuntimeError>(RuntimeError::UnexpectedPeerMessage { stage: "reading extension handshake" })
            },
            WireKind::KeepAlive | WireKind::Have | WireKind::Bitfield | WireKind::Port => res == Ok::<bool, RuntimeError>(false),
            WireKind::Other => res == Err::<bool, RuntimeError>(RuntimeError::UnexpectedPeerMessage { stage: "reading extension handshake" }),
        },
{
    match kind {
        WireKind::Extended(0) => Ok(true),
        WireKind::KeepAlive | WireKind::Have | WireKind::Bitfield | WireKind::Port => Ok(false),
        _ => Err(RuntimeError::UnexpectedPeerMessage { stage: "reading extension handshake" }),
    }
}

/// Checks what a peer offers for a metadata exchange: support for the
/// extension protocol, an id for `ut_metadata`, and a metadata size within
/// the limits. Returns the peer's id for `ut_metadata` and the size.
pub fn check_metadata_offer(
    supports_extended: bool,
    ut_metadata: Option<u8>,
    metadata_size: Option<u64>,
    config: MetadataFetchConfig,
) -> (res: Result<(u8, u64), RuntimeError>)
    ensures
        !supports_extended ==> (res matches Err(RuntimeError::Metadata(m))
            && m@ == "peer does not advertise extension protocol support"@),
        supports_extended && ut_metadata is None ==> (res matches Err(RuntimeError::Metadata(m))
            && m@ == "peer did not advertise ut_metadata"@),
        supports_extended && ut_metadata is Some && metadata_size is None ==> (res matches Err(RuntimeError::Metadata(m))
            && m@ == "peer omitted metadata_size"@),
        supports_extended && ut_metadata is Some && metadata_size is Some ==> {
            let size = metadata_size->0;
            if size == 0 {
                res matches Err(RuntimeError::Metadata(m)) && m@ == "peer advertised empty metadata"@
            } else if size > config.max_metadata_size {
                res matches Err(RuntimeError::Metadata(m)) && m@ == oversize_message(size, config.max_metadata_size)
            } else {
                res == Ok::<(u8, u64), RuntimeError>((ut_metadata->0, size))
            }
        },
{
    if !supports_extended {
        return Err(RuntimeError::Metadata(String::from_str("peer does not advertise extension protocol support")));
    }
    let id = match ut_metadata {
        Some(id) => id,
        None => {
            return Err(RuntimeError::Metadata(String::from_str("peer did not advertise ut_metadata")));
        },
    };
    let size = match metadata_size {
        Some(size) => size,
        None => {
            return Err(RuntimeError::Metadata(String::from_str("peer omitted metadata_size")));
        },
    };
    validate_metadata_size(size, config)?;
    Ok((id, size))
}

/// Refuses a metadata exchange that would take more requests than the
/// limit allows.
pub fn check_metadata_requests(piece_count: u32, config: MetadataFetchConfig) -> (res: Result<(), RuntimeError>)
    ensures
        piece_count <= config.request_limit ==> res is Ok,
        piece_count > config.request_limit ==> (res matches Err(RuntimeError::Metadata(m))
            && m@ == "metadata request count exceeds configured limit"@),
{
    if piece_count > config.request_limit {
        return Err(RuntimeError::Metadata(String::from_str("metadata request count exceeds configured limit")));
    }
    Ok(())
}

/// Accepts assembled metadata only when it has the size the peer stated.
pub fn check_assembled_metadata(len: usize, total_size: u64) -> (res: Result<(), RuntimeError>)
    ensures
        len == total_size ==> res is Ok,
        len != total_size ==> (res matches Err(RuntimeError::Metadata(m))
            && m@ == "assembled metadata length does not match advertised size"@),
{
    if len as u64 != total_size {
        return Err(RuntimeError::Metadata(String::from_str("assembled metadata length does not match advertised size")));
    }
    Ok(())
}

} // verus!
