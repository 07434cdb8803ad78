use styx_runtime::{
    awaiting_extension_handshake, check_assembled_metadata, check_metadata_offer,
    check_metadata_requests, MetadataFetchConfig, WireKind,
    check_magnet_resolution, magnet_metadata_config, magnet_resolution_failure,
    read_metadata_reply, resolution_peers, resolution_timed_out, target_piece_range, torrent_size,
    validate_magnet_info_hash, BgEvent, IpAddress, MetadataReply, RuntimeConfig, RuntimeError,
    SocketAddress, TimeSpan, TorrentId, TorrentPlan,
};

fn magnet_text(err: RuntimeError) -> String {
    match err {
        RuntimeError::Magnet(text) => text,
        other => panic!("not a magnet error: {other:?}"),
    }
}

#[test]
fn magnet_resolution_needs_a_hash_and_a_peer() {
    assert!(check_magnet_resolution(true, 2).is_ok());
    assert_eq!(magnet_text(check_magnet_resolution(false, 2).unwrap_err()),
        "v1 info hash is required for metadata fetch"
    );
    assert_eq!(
        magnet_text(check_magnet_resolution(true, 0).unwrap_err()),
        "magnet metadata resolution requires at least one peer"
    );
}

#[test]
fn resolved_metadata_must_match_the_magnet_hash() {
    let a = TorrentId::new([1; 20]);
    let b = TorrentId::new([2; 20]);
    assert!(validate_magnet_info_hash(&a, &a).is_ok());
    assert_eq!(
        magnet_text(validate_magnet_info_hash(&a, &b).unwrap_err()),
        "resolved metadata info hash did not match magnet xt"
    );
}

#[test]
fn failed_resolution_names_the_last_error() {
    assert_eq!(
        magnet_text(magnet_resolution_failure(Some("connection refused".to_string()))),
        "all exact peers failed metadata resolution: connection refused"
    );
    assert_eq!(
        magnet_text(magnet_resolution_failure(None)),
        "all exact peers failed metadata resolution: no peers attempted"
    );
}

fn plan(total_size: u64, piece_length: u64, piece_count: u32) -> TorrentPlan {
    TorrentPlan {
        id: TorrentId::new([3; 20]),
        name: "smoke".to_string(),
        total_size,
        piece_length,
        piece_count,
        private: false,
        announce_urls: Vec::new(),
        web_seed_urls: Vec::new(),
    }
}

#[test]
fn smoke_piece_ranges() {
    assert_eq!(target_piece_range(&plan(40000, 16384, 3), 0), Ok((0, 16383, 16384)));
    assert_eq!(target_piece_range(&plan(40000, 16384, 3), 2), Ok((32768, 39999, 7232)));
    assert!(matches!(
        target_piece_range(&plan(40000, 16384, 3), 3),
        Err(RuntimeError::Disk(_))
    ));
    assert!(matches!(
        target_piece_range(&plan(u64::MAX, 1 << 40, 1 << 24), 1 << 23),
        Err(RuntimeError::Disk(_))
    ));
    assert_eq!(
        target_piece_range(&plan(0, 16384, 1), 0),
        Err(RuntimeError::InvalidConfig("piece byte range overflow"))
    );
}

#[test]
fn metadata_replies_are_read_for_the_expected_piece() {
    let stage = RuntimeError::UnexpectedPeerMessage { stage: "reading metadata piece" };
    assert_eq!(read_metadata_reply(0, 20000, MetadataReply::KeepAlive), Ok(None));
    let full = vec![7u8; 16384];
    assert_eq!(
        read_metadata_reply(0, 20000, MetadataReply::Data { piece: 0, total_size: 20000, payload: full.clone() }),
        Ok(Some(full.clone()))
    );
    assert_eq!(
        read_metadata_reply(1, 20000, MetadataReply::Data { piece: 1, total_size: 20000, payload: vec![1; 3616] }),
        Ok(Some(vec![1; 3616]))
    );
    assert!(matches!(
        read_metadata_reply(1, 20000, MetadataReply::Data { piece: 1, total_size: 20000, payload: vec![1; 10] }), Err(RuntimeError::Metadata(t)) if t == "metadata piece 1 had 10 bytes, expected 3616"));
    assert_eq!(read_metadata_reply(0, 20000, MetadataReply::Data { piece: 1, total_size: 20000, payload: full.clone() }),
        Err(stage.clone())
    );
    assert_eq!(
        read_metadata_reply(0, 20000, MetadataReply::Data { piece: 0, total_size: 30000, payload: full }),
        Err(stage.clone())
    );
    assert!(matches!(
        read_metadata_reply(3, 20000, MetadataReply::Reject { piece: 3 }), Err(RuntimeError::Metadata(t)) if t == "peer rejected metadata piece 3"));
    assert_eq!(read_metadata_reply(3, 20000, MetadataReply::Reject { piece: 2 }), Err(stage.clone()));
    assert!(matches!(
        read_metadata_reply(0, 20000, MetadataReply::Undecodable { reason: "bad bencode".to_string() }), Err(RuntimeError::Metadata(t)) if t == "bad bencode"));
    assert_eq!(read_metadata_reply(0, 20000, MetadataReply::OtherMetadata), Err(stage.clone()));
    assert_eq!(read_metadata_reply(0, 20000, MetadataReply::Other), Err(stage));
}

#[test]
fn magnet_fetches_use_the_dht_limits() {
    let mut config = RuntimeConfig::default();
    config.dht.metadata_size_limit = 1234;
    config.dht.metadata_request_limit = 7;
    config.source_timeout = TimeSpan::from_secs(9);
    let fetch = magnet_metadata_config(&config);
    assert_eq!(fetch.max_metadata_size, 1234);
    assert_eq!(fetch.request_limit, 7);
    assert_eq!(fetch.timeout, TimeSpan::from_secs(9));
    assert_eq!(fetch.max_frame_len, 65536);
}

#[test]
fn magnet_peers_come_from_the_dht_first() {
    let a = SocketAddress::new(IpAddress::V4(1, 1, 1, 1), 1);
    let b = SocketAddress::new(IpAddress::V4(2, 2, 2, 2), 2);
    assert_eq!(resolution_peers(vec![a], vec![b]), vec![a]);
    assert_eq!(resolution_peers(Vec::new(), vec![b]), vec![b]);
    match resolution_timed_out(TorrentId::new([1; 20])) {
        BgEvent::Failed { reason, .. } => assert_eq!(reason, "magnet metadata resolution timed out"),
        other => panic!("unexpected {other:?}"),
    }
}

#[test]
fn torrent_size_adds_file_lengths() {
    assert_eq!(torrent_size(&vec![40000]), 40000);
    assert_eq!(torrent_size(&vec![1, 2, 3]), 6);
    assert_eq!(torrent_size(&Vec::new()), 0);
    assert_eq!(torrent_size(&vec![u64::MAX - 1, 1]), u64::MAX);
}

fn metadata_text(err: RuntimeError) -> String {
    match err {
        RuntimeError::Metadata(text) => text,
        other => panic!("not a metadata error: {other:?}"),
    }
}

#[test]
fn metadata_offers_are_checked_in_order() {
    let config = MetadataFetchConfig::default();
    assert_eq!(
        metadata_text(check_metadata_offer(false, Some(3), Some(10), config).unwrap_err()),
        "peer does not advertise extension protocol support"
    );
    assert_eq!(
        metadata_text(check_metadata_offer(true, None, Some(10), config).unwrap_err()),
        "peer did not advertise ut_metadata"
    );
    assert_eq!(
        metadata_text(check_metadata_offer(true, Some(3), None, config).unwrap_err()),
        "peer omitted metadata_size"
    );
    assert_eq!(
        metadata_text(check_metadata_offer(true, Some(3), Some(0), config).unwrap_err()),
        "peer advertised empty metadata"
    );
    assert_eq!(
        metadata_text(check_metadata_offer(true, Some(3), Some(8388609), config).unwrap_err()),
        "peer metadata_size 8388609 exceeds configured maximum 8388608"
    );
    assert_eq!(check_metadata_offer(true, Some(3), Some(20000), config), Ok((3, 20000)));
}

#[test]
fn metadata_requests_and_length_are_bounded() {
    let config = MetadataFetchConfig::default();
    assert!(check_metadata_requests(512, config).is_ok());
    assert_eq!(
        metadata_text(check_metadata_requests(513, config).unwrap_err()),
        "metadata request count exceeds configured limit"
    );
    assert!(check_assembled_metadata(20000, 20000).is_ok());
    assert_eq!(
        metadata_text(check_assembled_metadata(19999, 20000).unwrap_err()),
        "assembled metadata length does not match advertised size"
    );
}

#[test]
fn extension_handshake_wait_skips_chatter() {
    let unexpected = RuntimeError::UnexpectedPeerMessage { stage: "reading extension handshake" };
    assert_eq!(awaiting_extension_handshake(WireKind::Extended(0)), Ok(true));
    assert_eq!(awaiting_extension_handshake(WireKind::KeepAlive), Ok(false));
    assert_eq!(awaiting_extension_handshake(WireKind::Have), Ok(false));
    assert_eq!(awaiting_extension_handshake(WireKind::Bitfield), Ok(false));
    assert_eq!(awaiting_extension_handshake(WireKind::Port), Ok(false));
    assert_eq!(awaiting_extension_handshake(WireKind::Extended(2)), Err(unexpected.clone()));
    assert_eq!(awaiting_extension_handshake(WireKind::Other), Err(unexpected));
}
