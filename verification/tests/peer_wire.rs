use styx_runtime::{awaiting_block, awaiting_unchoke, PeerReply, RuntimeError};

#[test]
fn unchoke_wait_skips_chatter_and_stops_on_choke() {
    assert_eq!(awaiting_unchoke(&PeerReply::Unchoke), Ok(true));
    assert_eq!(awaiting_unchoke(&PeerReply::KeepAlive), Ok(false));
    assert_eq!(awaiting_unchoke(&PeerReply::Have), Ok(false));
    assert_eq!(awaiting_unchoke(&PeerReply::Bitfield), Ok(false));
    assert_eq!(awaiting_unchoke(&PeerReply::Choke), Err(RuntimeError::PeerChoked));
    assert_eq!(
        awaiting_unchoke(&PeerReply::Other),
        Err(RuntimeError::UnexpectedPeerMessage { stage: "waiting_for_unchoke" })
    );
}

#[test]
fn block_wait_takes_only_the_requested_block() {
    let unexpected = RuntimeError::UnexpectedPeerMessage { stage: "waiting_for_piece_block" };
    assert_eq!(
        awaiting_block(PeerReply::Piece { index: 0, begin: 16384, block: vec![1, 2, 3] }, 0, 16384, 3),
        Ok(Some(vec![1, 2, 3]))
    );
    assert_eq!(
        awaiting_block(PeerReply::Piece { index: 0, begin: 0, block: vec![1, 2, 3] }, 0, 16384, 3),
        Err(unexpected.clone())
    );
    assert_eq!(
        awaiting_block(PeerReply::Piece { index: 0, begin: 16384, block: vec![1, 2] }, 0, 16384, 3),
        Err(unexpected.clone())
    );
    assert_eq!(awaiting_block(PeerReply::KeepAlive, 0, 0, 3), Ok(None));
    assert_eq!(awaiting_block(PeerReply::Choke, 0, 0, 3), Err(RuntimeError::PeerChoked));
    assert_eq!(awaiting_block(PeerReply::Unchoke, 0, 0, 3), Err(unexpected));
}
