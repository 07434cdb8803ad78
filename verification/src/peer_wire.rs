use vstd::prelude::*;

use crate::error::RuntimeError;

verus! {

/// A message a peer sends while a piece is fetched from it, as far as the
/// fetch looks at it.
#[derive(Debug, PartialEq, Eq)]
pub enum PeerReply {
    KeepAlive,
    Choke,
    Unchoke,
    Have,
    Bitfield,
    /// A block of data: its piece, its offset in the piece, and its bytes.
    Piece { index: u32, begin: u32, block: Vec<u8> },
    /// Any other message.
    Other,
}

/// What the fetch does with a message while it waits to be unchoked: an
/// unchoke ends the wait (`true`); keep-alives, haves and bitfields are
/// skipped (`false`); a choke ends the fetch, and so does anything else.
pub fn awaiting_unchoke(reply: &PeerReply) -> (res: Result<bool, RuntimeError>)
    ensures
        match *reply {
            PeerReply::Unchoke => res == Ok::<bool, RuntimeError>(true),
            PeerReply::KeepAlive | PeerReply::Have | PeerReply::Bitfield => res == Ok::<bool, RuntimeError>(false),
            PeerReply::Choke => res == Err::<bool, RuntimeError>(RuntimeError::PeerChoked),
            _ => res == Err::<bool, RuntimeError>(RuntimeError::UnexpectedPeerMessage { stage: "waiting_for_unchoke" }),
        },
{
    match reply {
        PeerReply::Unchoke => Ok(true),
        PeerReply::KeepAlive | PeerReply::Have | PeerReply::Bitfield => Ok(false),
        PeerReply::Choke => Err(RuntimeError::PeerChoked),
        _ => Err(RuntimeError::UnexpectedPeerMessage { stage: "waiting_for_unchoke" }),
    }
}

/// What the fetch does with a message while it waits for the block of
/// `piece` at `offset`, `length` bytes long: that block is taken; keep-alives,
/// haves and bitfields are skipped (`None`); a choke ends the fetch, and so
/// does anything else, a block that does not match included.
pub fn awaiting_block(reply: PeerReply, piece: u32, offset: u32, length: u32) -> (res: Result<Option<Vec<u8>>, RuntimeError>)
    ensures
        match reply {
            PeerReply::Piece { index, begin, block } => if index == piece && begin == offset && block@.len() == length {
                res == Ok::<Option<Vec<u8>>, RuntimeError>(Some(block))
            } else {
                res == Err::<Option<Vec<u8>>, RuntimeError>(
                    RuntimeError::UnexpectedPeerMessage { stage: "waiting_for_piece_block" },
                )
            },
            PeerReply::KeepAlive | PeerReply::Have | PeerReply::Bitfield => res == Ok::<Option<Vec<u8>>, RuntimeError>(None),
            PeerReply::Choke => res == Err::<Option<Vec<u8>>, RuntimeError>(RuntimeError::PeerChoked),
            _ => res == Err::<Option<Vec<u8>>, RuntimeError>(
                RuntimeError::UnexpectedPeerMessage { stage: "waiting_for_piece_block" },
            ),
        },
{
    match reply {
        PeerReply::Piece { index, begin, block } => {
            if index == piece && begin == offset && block.len() == length as usize {
                Ok(Some(block))
            } else {
                Err(RuntimeError::UnexpectedPeerMessage { stage: "waiting_for_piece_block" })
            }
        },
        PeerReply::KeepAlive | PeerReply::Have | PeerReply::Bitfield => Ok(None),
        PeerReply::Choke => Err(RuntimeError::PeerChoked),
        _ => Err(RuntimeError::UnexpectedPeerMessage { stage: "waiting_for_piece_block" }),
    }
}

} // verus!
