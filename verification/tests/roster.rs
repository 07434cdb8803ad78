use styx_runtime::{IpAddress, PeerRefusal, PeerRoster, SocketAddress};

fn peer(last: u8, port: u16) -> SocketAddress {
    SocketAddress::new(IpAddress::V4(10, 0, 0, last), port)
}

#[test]
fn roster_admits_until_full() {
    let mut roster = PeerRoster::new(2);
    assert_eq!(roster.check_admission(peer(1, 6881)), Ok(()));
    assert_eq!(roster.register(peer(1, 6881)), 1);
    assert_eq!(roster.check_admission(peer(2, 6881)), Ok(()));
    assert_eq!(roster.register(peer(2, 6881)), 2);
    assert_eq!(roster.check_admission(peer(3, 6881)), Err(PeerRefusal::Full));
    assert_eq!(roster.connected_count(), 2);
    assert_eq!(roster.max_connections(), 2);
}

#[test]
fn roster_refuses_an_address_that_is_connected() {
    let mut roster = PeerRoster::new(8);
    roster.register(peer(1, 6881));
    assert_eq!(
        roster.check_admission(peer(1, 6881)),
        Err(PeerRefusal::AlreadyConnected)
    );
    // The same host on another port is another peer.
    assert_eq!(roster.check_admission(peer(1, 6882)), Ok(()));
}

#[test]
fn roster_duplicate_is_reported_before_full() {
    let mut roster = PeerRoster::new(1);
    roster.register(peer(1, 6881));
    assert_eq!(
        roster.check_admission(peer(1, 6881)),
        Err(PeerRefusal::AlreadyConnected)
    );
}

#[test]
fn roster_keys_are_not_reused_after_removal() {
    let mut roster = PeerRoster::new(4);
    let a = roster.register(peer(1, 1));
    let b = roster.register(peer(2, 2));
    roster.remove_peer(a);
    assert_eq!(roster.peer_addr(a), None);
    assert_eq!(roster.peer_addr(b), Some(peer(2, 2)));
    let c = roster.register(peer(1, 1));
    assert_eq!(c, 3);
    assert_eq!(roster.peer_key(peer(1, 1)), Some(3));
    assert_eq!(roster.connected_peers(), vec![(2, peer(2, 2)), (3, peer(1, 1))]);
}

#[test]
fn roster_removing_an_unknown_key_changes_nothing() {
    let mut roster = PeerRoster::new(4);
    roster.register(peer(1, 1));
    roster.remove_peer(99);
    assert_eq!(roster.connected_peers(), vec![(1, peer(1, 1))]);
    assert_eq!(roster.peer_key(peer(9, 9)), None);
}

#[test]
fn roster_disconnect_hands_back_the_address() {
    let mut roster = PeerRoster::new(4);
    let a = roster.register(peer(1, 1));
    roster.register(peer(2, 2));
    assert_eq!(roster.disconnect(a), Some(peer(1, 1)));
    assert_eq!(roster.disconnect(a), None);
    assert_eq!(roster.connected_count(), 1);
}
