//! Verified core of the Styx torrent runtime: configuration checks, source
//! bookkeeping, lifecycle state machines, discovery packet codecs and
//! supervision reports, together with the decisions the runtime's workers
//! take between their network and disk operations: which peers to dial and
//! gossip, whom to blame for a corrupt piece, when to announce, how a
//! download falls back to web seeds, and what is saved between runs.

mod error;

pub use error::{FailureScope, RetryClass, RuntimeError};
mod time;
pub use time::{TimeSpan, NANOS_PER_SEC};
mod net;
pub use net::{is_public_pex_endpoint, IpAddress, SocketAddress};
mod config;
mod dht;
pub use config::{
    invalid_nonzero, peer_config_message, validate_duration, validate_nonzero, ConfigField,
    PeerConfigField, RuntimeConfig, RuntimeLimits, SeedPolicy, SessionRuntimeConfig,
};
pub use dht::{
    dht_announce_due, DhtCommand, DhtRuntimeConfig, DhtRuntimeEvent, DHT_ANNOUNCE_INTERVAL_SECS,
};
mod format;

mod source;
pub use source::{
    law_source_id_is_stable,
    CandidateView, EndpointView, SourceCandidate, SourceEndpoint, SourceFailure, SourceId,
    SourceKind, SourceRecord, SourceState, SourceTable, SourceTableView,
};
mod corruption;
pub use corruption::{law_block_peers_follow_calls, BadBlockView, BlockCorruptionTracker, CorruptionView};
mod rate;
pub use rate::{law_rate_never_grows_without_record, law_rate_reading_after_record, law_rate_reading_is_repeatable, RateCounter, RateCounterView, RateSample};
mod snapshot;
pub use snapshot::{
    PeerSnapshot, RuntimeEvent, RuntimeSnapshot, TorrentId, TorrentSnapshot, TorrentStatus,
};
mod discovery;
pub use discovery::DiscoveryPolicy;
mod torrent;
pub use torrent::{
    admit_url, check_plan_sources, collect_http_urls, piece_byte_range, push_http_url,
    target_piece_range, torrent_size,
    validate_web_seed_piece_bytes, TorrentPlan,
};
mod task;
pub use task::{
    is_legal_transition, settle_piece_check, tracker_announce_due, ConnectOutcome, PeerActivity, TorrentCommand,
    TorrentTask, TrackerOutcome, TrackerReply, MAX_PEX_CONTACTS_PER_FAMILY,
};
mod engine;
pub use engine::{
    IntentState, MagnetAdd, RollbackRecord, RuntimeCommand, RuntimeEngine, SettingsPatch,
    StageIntent,
};
mod lsd;
mod text;
pub use lsd::{
    decode_lsd_announce, discovered_peers, encode_lsd_announce, encode_lsd_packets, hex_nibble,
    lsd_announce_due, LsdAnnounce, LsdCommand, LsdDiscovery,
    LsdError, LsdRuntimeEvent, LSD_IPV4_MULTICAST, LSD_IPV6_MULTICAST, MAX_LSD_PACKET_BYTES,
};
mod supervision;
pub use supervision::{
    aborted_daemon_report, classify_join, command_failure_reason, command_worker,
    delivery_failure_reason, map_lsd_error, merge_exits, normalize_dht_event, push_exit,
    push_unique, shared_worker, shutdown_budget, timeout_report, ExitsByKind, FailureReasonCode, FailuresByWorker,
    JoinOutcome, PersistenceOutcome, SessionCommand, SessionEvent, SessionNotice,
    SharedWorkerKind, ShutdownMode, ShutdownReport, SupervisorLedger, TaskExit, TaskKind,
};
mod persist;
pub use persist::{
    is_legacy_schema, join_path, PersistentState, PersistentStateV1, PersistentStore,
    PersistentTorrent, PersistentTorrentSource, PersistentTorrentState, PersistentTorrentV1,
    PERSISTENT_STATE_SCHEMA_VERSION, STATE_FILE_NAME, STATE_TEMP_FILE_NAME,
};
mod types;
pub use types::{
    count_downloaded, smoke_failure, smoke_verdict, web_seed_smoke_failure, DownloadOutcome,
    DownloadRunConfig, SmokeConfig, SmokeOutcome, SmokeRunConfig, SmokeStage,
    SmokeTarget, DEFAULT_LISTEN_PORT,
};
mod metadata;
pub use metadata::{
    awaiting_extension_handshake, check_assembled_metadata, check_metadata_offer,
    check_metadata_requests, WireKind, read_metadata_reply, validate_metadata_size, validate_piece_payload, MetadataFetchConfig,
    MetadataReply, METADATA_BLOCK_LEN,
};
mod daemon;
pub use daemon::{
    daemon_status, finish_daemon, DaemonConfig, DaemonRuntime, DaemonShutdownOutcome, DaemonStatus,
};
mod tracker;
pub use tracker::{
    build_announce_request, build_plan_announce_request, build_started_announce,
    law_selection_is_distinct_dialable_and_complete, select_peer_candidates, AnnounceEvent, AnnounceRequest, PLAN_ANNOUNCE_PORT,
};
mod driver;
pub use driver::{
    after_peer_attempt, peer_round_outcome, stalled_reason, web_seed_failure, web_seeds_exhausted,
    DownloadStep, PeerAttempt, PeerRound,
    emit_peer_events, law_reports_mirror_the_events, failure_report, peer_events_show_activity, resume_complete, seed_after_resume,
    seed_reports,
    seed_tick_interval, BgEvent, ResumeSummary,
};
mod laws;
pub use laws::{
    law_blame_only_grows, law_failure_equality_is_an_equivalence, law_info_hash_hex_round_trip,
    law_lifecycle_has_no_self_moves_and_ends_for_good, law_merging_exits_keeps_every_exit,
    law_quarantine_is_idempotent, law_succeeded_source_is_not_a_candidate,
    law_unique_push_is_idempotent, law_commands_move_the_lifecycle, law_failures_quarantine_or_count,
    law_announce_targets_are_the_active_public_torrents,
};
mod addr_text;
pub use addr_text::address_string;
mod activity;
pub use activity::{
    law_speed_samples_follow_ticks, map_to_log_line, progress_changed, ActivityLog, LogLevel, LogLine, SpeedSample,
    DEFAULT_SPEED_SAMPLES, MAX_LOG_LINES,
};
mod roster;
pub use roster::{drop_peer, law_roster_keys_are_never_reused, PeerRefusal, PeerRoster};
mod lsd_laws;
pub use lsd_laws::law_lsd_round_trip;
mod book;
pub use book::{law_book_reads_back_writes, restore_step, ResumeRefusal, RestoreStep, TorrentBook};
mod blame;
pub use blame::{addr_precedes, record_accepted_block, sorted_addresses, PieceBlame};
mod dht_lookup;
mod tick;
pub use tick::{announce_round, law_held_plan_reads_back, lookup_after_add, lookup_request, lsd_update, on_bg_report, on_dht_event, restore_add, restore_checked, TickAction, TickState};
pub use dht_lookup::{announced_event, dht_event_for, law_lookup_answers_once, DhtLookups, DhtNotice};
mod pex;
pub use pex::{pex_route, should_advertise_pex, PexPeers, PexRoute, LOCAL_PEX_MESSAGE_ID};
mod magnet;
pub use magnet::{
    check_magnet_resolution, magnet_metadata_config, magnet_resolution_failure, resolution_peers,
    resolution_timed_out, validate_magnet_info_hash,
};
mod app_view;
pub use app_view::{
    app_notice_for, app_refusal, app_status, downloads_to_start, record_file_add, record_magnet_add,
    session_totals,
    settle_pause, settle_remove, AppNotice,
    AppRefusal, AppStatus,
    SessionTotals,
};
mod web_seed;
pub use web_seed::{
    all_sources_failed, append_bounded, check_content_length, range_header, web_seed_file_url,
};
mod peer_wire;
pub use peer_wire::{awaiting_block, awaiting_unchoke, PeerReply};
