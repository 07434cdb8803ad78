use styx_runtime::{
    announced_event, dht_event_for, DhtLookups, DhtNotice, DhtRuntimeEvent, IpAddress,
    SocketAddress, TorrentId,
};

#[test]
fn found_peers_go_to_the_torrent_of_the_lookup() {
    let mut lookups = DhtLookups::new();
    let torrent = TorrentId::new([5; 20]);
    lookups.start([9; 20], torrent);
    let peer = SocketAddress::new(IpAddress::V4(1, 2, 3, 4), 6881);
    let event = dht_event_for(
        &mut lookups,
        DhtNotice::PeersDiscovered { info_hash: [9; 20], peers: vec![peer] },
    );
    assert_eq!(
        event,
        Some(DhtRuntimeEvent::PeersDiscovered { torrent, peers: vec![peer] })
    );
    // The lookup is over: later results for the hash are dropped.
    let event = dht_event_for(&mut lookups, DhtNotice::LookupExhausted { info_hash: [9; 20] });
    assert_eq!(event, None);
}

#[test]
fn ended_lookups_are_reported_once() {
    let mut lookups = DhtLookups::new();
    let torrent = TorrentId::new([5; 20]);
    lookups.start([9; 20], TorrentId::new([4; 20]));
    lookups.start([9; 20], torrent);
    assert_eq!(
        dht_event_for(&mut lookups, DhtNotice::GetPeersExpired { info_hash: [9; 20] }),
        Some(DhtRuntimeEvent::LookupExhausted { torrent })
    );
    assert_eq!(lookups.finish(&[9; 20]), None);
}

#[test]
fn other_dht_reports() {
    let mut lookups = DhtLookups::new();
    assert_eq!(
        dht_event_for(&mut lookups, DhtNotice::PingAnswered),
        Some(DhtRuntimeEvent::Bootstrapped { nodes: 1 })
    );
    assert_eq!(
        dht_event_for(&mut lookups, DhtNotice::ErrorReceived { code: 203 }),
        Some(DhtRuntimeEvent::Failed { reason: "DHT error response 203".to_string() })
    );
    assert_eq!(
        dht_event_for(&mut lookups, DhtNotice::ErrorReceived { code: -5 }),
        Some(DhtRuntimeEvent::Failed { reason: "DHT error response -5".to_string() })
    );
    assert_eq!(
        dht_event_for(&mut lookups, DhtNotice::ErrorReceived { code: i64::MIN }),
        Some(DhtRuntimeEvent::Failed {
            reason: "DHT error response -9223372036854775808".to_string()
        })
    );
    assert_eq!(dht_event_for(&mut lookups, DhtNotice::Other), None);
}

#[test]
fn announcements_count_the_nodes_reached() {
    let torrent = TorrentId::new([5; 20]);
    assert_eq!(
        announced_event(torrent, 8),
        DhtRuntimeEvent::Announced { torrent, nodes: 8 }
    );
    assert_eq!(
        announced_event(torrent, usize::MAX),
        DhtRuntimeEvent::Announced { torrent, nodes: u32::MAX }
    );
}
