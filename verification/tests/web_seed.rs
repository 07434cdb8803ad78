use styx_runtime::{
    all_sources_failed, append_bounded, check_content_length, range_header, web_seed_file_url,
    RuntimeError,
};

#[test]
fn range_headers_name_both_ends() {
    assert_eq!(range_header(0, 16383), "bytes=0-16383");
    assert_eq!(range_header(32768, 39999), "bytes=32768-39999");
}

#[test]
fn oversized_web_seed_responses_are_refused_up_front() {
    assert_eq!(
        check_content_length(0, 4, Some(1_048_576)),
        Err(RuntimeError::InvalidWebSeedLength { piece: 0, expected: 4, actual: 1_048_576 })
    );
    assert!(check_content_length(0, 4, Some(4)).is_ok());
    assert!(check_content_length(0, 4, None).is_ok());
}

#[test]
fn web_seed_bodies_stay_within_the_piece() {
    let mut body = Vec::new();
    assert!(append_bounded(&mut body, &vec![1, 2], 7, 4).is_ok());
    assert!(append_bounded(&mut body, &vec![3, 4], 7, 4).is_ok());
    assert_eq!(body, vec![1, 2, 3, 4]);
    assert_eq!(
        append_bounded(&mut body, &vec![5], 7, 4),
        Err(RuntimeError::InvalidWebSeedLength { piece: 7, expected: 4, actual: 5 })
    );
    assert_eq!(body, vec![1, 2, 3, 4]);
}

#[test]
fn exhausted_sources_name_the_last_error() {
    assert_eq!(
        all_sources_failed(Some("timed out".to_string())),
        RuntimeError::AllPeersFailed { last_error: "timed out".to_string() }
    );
    assert_eq!(
        all_sources_failed(None),
        RuntimeError::AllPeersFailed { last_error: "all sources failed".to_string() }
    );
}

#[test]
fn web_seed_urls_for_single_files() {
    assert_eq!(
        web_seed_file_url(true, "http://seed.example/files/", b"movie.mkv"),
        Ok("http://seed.example/files/movie.mkv".to_string())
    );
    assert_eq!(
        web_seed_file_url(true, "http://seed.example/files/movie.mkv", b"other"),
        Ok("http://seed.example/files/movie.mkv".to_string())
    );
    assert_eq!(
        web_seed_file_url(true, "http://seed.example/", b"a b"),
        Ok("http://seed.example/a%20b".to_string())
    );
    assert_eq!(
        web_seed_file_url(false, "http://seed.example/", b"x"),
        Err(RuntimeError::UnsupportedWebSeedLayout)
    );
    assert_eq!(
        web_seed_file_url(true, "http://seed.example/", &[0xff, 0xfe]),
        Err(RuntimeError::InvalidConfig("single-file torrent name must be utf-8 for web seed URL"))
    );
    assert_eq!(
        web_seed_file_url(true, "not a url", b"x"),
        Err(RuntimeError::InvalidConfig("failed to build web seed URL"))
    );
}

#[test]
fn smoke_runs_report_how_they_failed() {
    assert_eq!(styx_runtime::smoke_failure(None), RuntimeError::NoPeers);
    assert_eq!(
        styx_runtime::smoke_failure(Some("refused".to_string())),
        RuntimeError::AllPeersFailed { last_error: "refused".to_string() }
    );
    assert_eq!(
        styx_runtime::web_seed_smoke_failure(None),
        RuntimeError::AllPeersFailed { last_error: "no web seed attempts were made".to_string() }
    );
    assert_eq!(styx_runtime::count_downloaded(10, 5), Ok(15));
    assert_eq!(
        styx_runtime::count_downloaded(u64::MAX, 1),
        Err(RuntimeError::InvalidConfig("downloaded byte count overflow"))
    );
    assert_eq!(
        styx_runtime::smoke_verdict(true, 0, 16384),
        Ok(styx_runtime::SmokeOutcome::Verified { piece: 0, bytes: 16384 })
    );
    assert_eq!(
        styx_runtime::smoke_verdict(false, 2, 16384),
        Err(RuntimeError::PieceHashMismatch { piece: 2 })
    );
}
