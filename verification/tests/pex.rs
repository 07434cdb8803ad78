use styx_runtime::{pex_route, should_advertise_pex, PexPeers, PexRoute, LOCAL_PEX_MESSAGE_ID};

#[test]
fn pex_messages_are_routed_by_extension_id() {
    assert_eq!(pex_route(true, None, false), PexRoute::PassOn);
    assert_eq!(pex_route(true, Some(0), false), PexRoute::ReadHandshake);
    assert_eq!(pex_route(true, Some(LOCAL_PEX_MESSAGE_ID), true), PexRoute::ReadContacts);
    assert_eq!(pex_route(true, Some(LOCAL_PEX_MESSAGE_ID), false), PexRoute::PassOn);
    assert_eq!(pex_route(true, Some(7), true), PexRoute::PassOn);
}

#[test]
fn torrents_without_pex_drop_extension_messages() {
    assert_eq!(pex_route(false, Some(0), false), PexRoute::Swallow);
    assert_eq!(pex_route(false, Some(1), true), PexRoute::Swallow);
    assert_eq!(pex_route(false, None, true), PexRoute::PassOn);
}

#[test]
fn pex_is_advertised_only_where_allowed_and_understood() {
    assert!(should_advertise_pex(true, true));
    assert!(!should_advertise_pex(false, true));
    assert!(!should_advertise_pex(true, false));
}

#[test]
fn handshakes_record_and_forget_pex_ids() {
    let mut peers = PexPeers::new();
    assert_eq!(peers.message_id(4), None);
    peers.record_handshake(4, Some(3));
    peers.record_handshake(5, Some(9));
    assert_eq!(peers.message_id(4), Some(3));
    peers.record_handshake(4, Some(2));
    assert_eq!(peers.message_id(4), Some(2));
    peers.record_handshake(4, None);
    assert_eq!(peers.message_id(4), None);
    assert_eq!(peers.message_id(5), Some(9));
}
