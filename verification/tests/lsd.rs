use styx_runtime::{
    decode_lsd_announce, discovered_peers, encode_lsd_announce, encode_lsd_packets, hex_nibble,
    lsd_announce_due, IpAddress, LsdAnnounce, LsdDiscovery, LsdError, LsdRuntimeEvent,
    SocketAddress, TimeSpan, TorrentId, MAX_LSD_PACKET_BYTES,
};

fn sender() -> SocketAddress {
    SocketAddress::new(IpAddress::V4(192, 168, 1, 20), 40000)
}

#[test]
fn encoded_announcement_has_the_documented_layout() {
    let announce = LsdAnnounce {
        info_hashes: vec![[0xAB; 20]],
        port: 6881,
        cookie: "abc".to_string(),
    };
    let packet = encode_lsd_announce(&announce).unwrap();
    let text = String::from_utf8(packet).unwrap();
    assert_eq!(
        text,
        "BT-SEARCH * HTTP/1.1\r\nHost: 239.192.152.143:6771\r\nPort: 6881\r\nCookie: abc\r\nInfohash: ABABABABABABABABABABABABABABABABABABABAB\r\n\r\n"
    );
}

#[test]
fn encoding_refuses_bad_announcements() {
    let mut announce = LsdAnnounce {
        info_hashes: vec![[1; 20]],
        port: 0,
        cookie: "c".to_string(),
    };
    assert_eq!(encode_lsd_announce(&announce), Err(LsdError::InvalidPort));
    announce.port = 1;
    announce.info_hashes.clear();
    assert_eq!(encode_lsd_announce(&announce), Err(LsdError::MissingInfoHash));
    announce.info_hashes.push([1; 20]);
    announce.cookie = String::new();
    assert_eq!(encode_lsd_announce(&announce), Err(LsdError::InvalidCookie));
    announce.cookie = "a\nb".to_string();
    assert_eq!(encode_lsd_announce(&announce), Err(LsdError::InvalidCookie));
    announce.cookie = "x".repeat(MAX_LSD_PACKET_BYTES);
    assert_eq!(encode_lsd_announce(&announce), Err(LsdError::PacketTooLarge));
}

#[test]
fn decoding_reads_port_and_sorted_distinct_hashes() {
    let packet = b"BT-SEARCH * HTTP/1.1\r\nHost: 239.192.152.143:6771\r\nport:  7000 \r\nINFOHASH: 0202020202020202020202020202020202020202\r\nInfohash: 0101010101010101010101010101010101010101\r\ninfohash: 0202020202020202020202020202020202020202\r\ncookie: theirs\r\n\r\n";
    let discovery = decode_lsd_announce(packet, sender(), "mine").unwrap();
    assert_eq!(discovery.peer, SocketAddress::new(IpAddress::V4(192, 168, 1, 20), 7000));
    assert_eq!(discovery.info_hashes, vec![[1; 20], [2; 20]]);
}

#[test]
fn decoding_our_own_cookie_names_no_hash() {
    let announce = LsdAnnounce {
        info_hashes: vec![[9; 20], [3; 20]],
        port: 6881,
        cookie: "mine".to_string(),
    };
    let packet = encode_lsd_announce(&announce).unwrap();
    let own = decode_lsd_announce(&packet, sender(), "mine").unwrap();
    assert!(own.info_hashes.is_empty());
    let other = decode_lsd_announce(&packet, sender(), "other").unwrap();
    assert_eq!(other.info_hashes, vec![[3; 20], [9; 20]]);
    assert_eq!(other.peer.port, 6881);
}

#[test]
fn decoding_refuses_bad_packets() {
    let too_large = vec![b'a'; MAX_LSD_PACKET_BYTES + 1];
    assert_eq!(decode_lsd_announce(&too_large, sender(), "c"), Err(LsdError::PacketTooLarge));
    assert_eq!(decode_lsd_announce(&[0xff, 0xfe], sender(), "c"), Err(LsdError::InvalidUtf8));
    assert_eq!(
        decode_lsd_announce(b"GET / HTTP/1.1\r\n\r\n", sender(), "c"),
        Err(LsdError::InvalidRequestLine)
    );
    assert_eq!(
        decode_lsd_announce(b"BT-SEARCH * HTTP/1.1\r\nInfohash: zz\r\nPort: 1\r\n\r\n", sender(), "c"),
        Err(LsdError::InvalidInfoHash)
    );
    assert_eq!(
        decode_lsd_announce(
            b"BT-SEARCH * HTTP/1.1\r\nPort: 0\r\nInfohash: 0101010101010101010101010101010101010101\r\n\r\n",
            sender(),
            "c"
        ),
        Err(LsdError::InvalidPort)
    );
    assert_eq!(
        decode_lsd_announce(b"BT-SEARCH * HTTP/1.1\r\nPort: 6881\r\n\r\n", sender(), "c"),
        Err(LsdError::MissingInfoHash)
    );
}

#[test]
fn headers_after_the_blank_line_are_ignored() {
    let packet = b"BT-SEARCH * HTTP/1.1\r\nPort: 6881\r\n\r\nInfohash: 0101010101010101010101010101010101010101\r\n";
    assert_eq!(decode_lsd_announce(packet, sender(), "c"), Err(LsdError::MissingInfoHash));
}

#[test]
fn hex_nibbles_of_either_case() {
    assert_eq!(hex_nibble(b'0'), Some(0));
    assert_eq!(hex_nibble(b'9'), Some(9));
    assert_eq!(hex_nibble(b'a'), Some(10));
    assert_eq!(hex_nibble(b'F'), Some(15));
    assert_eq!(hex_nibble(b'g'), None);
    assert_eq!(hex_nibble(b' '), None);
}

#[test]
fn many_hashes_are_split_into_full_packets() {
    let hashes: Vec<[u8; 20]> = (0..40u8).map(|i| [i; 20]).collect();
    let packets = encode_lsd_packets(&hashes, 6881, "c");
    assert_eq!(packets.len(), 2);
    let first = decode_lsd_announce(&packets[0], sender(), "other").unwrap();
    let second = decode_lsd_announce(&packets[1], sender(), "other").unwrap();
    assert_eq!(first.info_hashes, hashes[..25].to_vec());
    assert_eq!(second.info_hashes, hashes[25..].to_vec());
    assert!(packets.iter().all(|p| p.len() <= MAX_LSD_PACKET_BYTES));
}

#[test]
fn packets_are_not_built_for_a_bad_announcement() {
    assert!(encode_lsd_packets(&vec![[1; 20]], 0, "c").is_empty());
    assert!(encode_lsd_packets(&vec![], 6881, "c").is_empty());
    assert!(encode_lsd_packets(&vec![[1; 20], [2; 20]], 6881, "").is_empty());
}

#[test]
fn discoveries_name_the_matching_torrents() {
    let a = TorrentId::new([1; 20]);
    let b = TorrentId::new([2; 20]);
    let peer = SocketAddress::new(IpAddress::V4(10, 1, 1, 1), 7000);
    let torrents = vec![(a, [1; 20]), (b, [2; 20])];
    let discovery = LsdDiscovery { info_hashes: vec![[2; 20], [3; 20]], peer };
    assert_eq!(
        discovered_peers(&torrents, &discovery),
        vec![LsdRuntimeEvent::PeerDiscovered { torrent: b, peer }]
    );
    assert!(lsd_announce_due(1, None));
    assert!(!lsd_announce_due(0, None));
    assert!(!lsd_announce_due(2, Some(TimeSpan::from_secs(59))));
    assert!(lsd_announce_due(2, Some(TimeSpan::from_secs(60))));
}
