use vstd::prelude::*;

use crate::dht::DhtRuntimeConfig;
use crate::error::RuntimeError;
use crate::net::{IpAddress, SocketAddress};
use crate::time::TimeSpan;

verus! {

/// Runtime settings for torrents, their sources and the shared workers.
///
/// The peer-manager settings of the wire layer are checked by that layer and
/// are not held here.
#[derive(Debug)]
pub struct RuntimeConfig {
    pub connect_timeout: TimeSpan,
    pub source_timeout: TimeSpan,
    pub piece_timeout: TimeSpan,
    pub snapshot_interval: TimeSpan,
    pub listen_port: u16,
    pub limits: RuntimeLimits,
    pub seed_policy: SeedPolicy,
    pub dht: DhtRuntimeConfig,
    pub session: SessionRuntimeConfig,
}

/// Channel capacities and shutdown budgets of the session supervisor.
#[derive(Clone, Copy, Debug, PartialEq, Eq, Structural)]
pub struct SessionRuntimeConfig {
    pub command_capacity: usize,
    pub event_capacity: usize,
    pub shutdown_timeout: TimeSpan,
    pub forced_shutdown_timeout: TimeSpan,
}

/// Upper bounds on the work the runtime takes on.
#[derive(Clone, Copy, Debug, PartialEq, Eq, Structural)]
pub struct RuntimeLimits {
    pub max_active_torrents: usize,
    pub max_peers_per_torrent: usize,
    pub max_sources_per_torrent: usize,
    pub max_web_seed_concurrency: usize,
    pub max_event_queue: usize,
    pub source_retry_limit: usize,
}

/// Whether a completed torrent goes on to seed.
#[derive(Clone, Copy, Debug, PartialEq, Eq, Structural)]
pub struct SeedPolicy {
    pub seed_after_complete: bool,
}

/// A setting that must be greater than zero.
#[derive(Clone, Copy, Debug, PartialEq, Eq, Structural)]
pub enum ConfigField {
    ConnectTimeout,
    SourceTimeout,
    PieceTimeout,
    SnapshotInterval,
    ListenPort,
    MaxActiveTorrents,
    MaxPeersPerTorrent,
    MaxSourcesPerTorrent,
    MaxWebSeedConcurrency,
    MaxEventQueue,
    SourceRetryLimit,
    SessionCommandCapacity,
    SessionEventCapacity,
    SessionShutdownTimeout,
    SessionForcedShutdownTimeout,
}

/// A setting of the peer manager that the wire layer reported as invalid.
#[derive(Clone, Copy, Debug, PartialEq, Eq, Structural)]
pub enum PeerConfigField {
    UploadSlots,
    RequestPipelineDepth,
    ChokeInterval,
    OptimisticUnchokeInterval,
    RateWindow,
    RequestTimeout,
    Other,
}

impl ConfigField {
    /// The message reported when the setting is zero.
    pub open spec fn spec_message(self) -> &'static str {
        match self {
            ConfigField::ConnectTimeout => "connect_timeout must be greater than zero",
            ConfigField::SourceTimeout => "source_timeout must be greater than zero",
            ConfigField::PieceTimeout => "piece_timeout must be greater than zero",
            ConfigField::SnapshotInterval => "snapshot_interval must be greater than zero",
            ConfigField::ListenPort => "listen_port must be greater than zero",
            ConfigField::MaxActiveTorrents => "max_active_torrents must be greater than zero",
            ConfigField::MaxPeersPerTorrent => "max_peers_per_torrent must be greater than zero",
            ConfigField::MaxSourcesPerTorrent => "max_sources_per_torrent must be greater than zero",
            ConfigField::MaxWebSeedConcurrency => "max_web_seed_concurrency must be greater than zero",
            ConfigField::MaxEventQueue => "max_event_queue must be greater than zero",
            ConfigField::SourceRetryLimit => "source_retry_limit must be greater than zero",
            ConfigField::SessionCommandCapacity => "session command capacity must be greater than zero",
            ConfigField::SessionEventCapacity => "session event capacity must be greater than zero",
            ConfigField::SessionShutdownTimeout => "session shutdown timeout must be greater than zero",
            ConfigField::SessionForcedShutdownTimeout => "session forced shutdown timeout must be greater than zero",
        }
    }
}

impl PeerConfigField {
    /// The message reported for the invalid setting.
    pub open spec fn spec_message(self) -> &'static str {
        match self {
            PeerConfigField::UploadSlots => "upload_slots must be greater than zero",
            PeerConfigField::RequestPipelineDepth => "request_pipeline_depth must be greater than zero",
            PeerConfigField::ChokeInterval => "choke_interval must be greater than zero",
            PeerConfigField::OptimisticUnchokeInterval => "optimistic_unchoke_interval must be greater than zero",
            PeerConfigField::RateWindow => "rate_window must be greater than zero",
            PeerConfigField::RequestTimeout => "request_timeout must be greater than zero",
            PeerConfigField::Other => "peer manager config is invalid",
        }
    }
}

/// The error for a setting that is zero.
pub fn invalid_nonzero(field: ConfigField) -> (err: RuntimeError)
    ensures
        err == RuntimeError::InvalidConfig(field.spec_message()),
{
    RuntimeError::InvalidConfig(
        match field {
            ConfigField::ConnectTimeout => "connect_timeout must be greater than zero",
            ConfigField::SourceTimeout => "source_timeout must be greater than zero",
            ConfigField::PieceTimeout => "piece_timeout must be greater than zero",
            ConfigField::SnapshotInterval => "snapshot_interval must be greater than zero",
            ConfigField::ListenPort => "listen_port must be greater than zero",
            ConfigField::MaxActiveTorrents => "max_active_torrents must be greater than zero",
            ConfigField::MaxPeersPerTorrent => "max_peers_per_torrent must be greater than zero",
            ConfigField::MaxSourcesPerTorrent => "max_sources_per_torrent must be greater than zero",
            ConfigField::MaxWebSeedConcurrency => "max_web_seed_concurrency must be greater than zero",
            ConfigField::MaxEventQueue => "max_event_queue must be greater than zero",
            ConfigField::SourceRetryLimit => "source_retry_limit must be greater than zero",
            ConfigField::SessionCommandCapacity => "session command capacity must be greater than zero",
            ConfigField::SessionEventCapacity => "session event capacity must be greater than zero",
            ConfigField::SessionShutdownTimeout => "session shutdown timeout must be greater than zero",
            ConfigField::SessionForcedShutdownTimeout => "session forced shutdown timeout must be greater than zero",
        },
    )
}

/// The message for an invalid peer-manager setting.
pub fn peer_config_message(field: PeerConfigField) -> (message: &'static str)
    ensures
        message == field.spec_message(),
{
    match field {
        PeerConfigField::UploadSlots => "upload_slots must be greater than zero",
        PeerConfigField::RequestPipelineDepth => "request_pipeline_depth must be greater than zero",
        PeerConfigField::ChokeInterval => "choke_interval must be greater than zero",
        PeerConfigField::OptimisticUnchokeInterval => "optimistic_unchoke_interval must be greater than zero",
        PeerConfigField::RateWindow => "rate_window must be greater than zero",
        PeerConfigField::RequestTimeout => "request_timeout must be greater than zero",
        PeerConfigField::Other => "peer manager config is invalid",
    }
}

/// Fails with the field's message when the span is empty.
pub fn validate_duration(value: TimeSpan, field: ConfigField) -> (res: Result<(), RuntimeError>)
    ensures
        res == (if value@ == 0 {
            Err(RuntimeError::InvalidConfig(field.spec_message()))
        } else {
            Ok(())
        }),
{
    if value.is_zero() {
        return Err(invalid_nonzero(field));
    }
    Ok(())
}

/// Fails with the field's message when the value is zero.
pub fn validate_nonzero(value: usize, field: ConfigField) -> (res: Result<(), RuntimeError>)
    ensures
        res == (if value == 0 {
            Err(RuntimeError::InvalidConfig(field.spec_message()))
        } else {
            Ok(())
        }),
{
    if value == 0 {
        return Err(invalid_nonzero(field));
    }
    Ok(())
}

/// The first zero setting among the limits, in declaration order.
pub open spec fn limits_zero_field(l: RuntimeLimits) -> Option<ConfigField> {
    if l.max_active_torrents == 0 {
        Some(ConfigField::MaxActiveTorrents)
    } else if l.max_peers_per_torrent == 0 {
        Some(ConfigField::MaxPeersPerTorrent)
    } else if l.max_sources_per_torrent == 0 {
        Some(ConfigField::MaxSourcesPerTorrent)
    } else if l.max_web_seed_concurrency == 0 {
        Some(ConfigField::MaxWebSeedConcurrency)
    } else if l.max_event_queue == 0 {
        Some(ConfigField::MaxEventQueue)
    } else if l.source_retry_limit == 0 {
        Some(ConfigField::SourceRetryLimit)
    } else {
        None
    }
}

/// The first zero setting of the session supervisor, in declaration order.
pub open spec fn session_zero_field(s: SessionRuntimeConfig) -> Option<ConfigField> {
    if s.command_capacity == 0 {
        Some(ConfigField::SessionCommandCapacity)
    } else if s.event_capacity == 0 {
        Some(ConfigField::SessionEventCapacity)
    } else if s.shutdown_timeout@ == 0 {
        Some(ConfigField::SessionShutdownTimeout)
    } else if s.forced_shutdown_timeout@ == 0 {
        Some(ConfigField::SessionForcedShutdownTimeout)
    } else {
        None
    }
}

/// The error a check reports for its first failing setting.
pub open spec fn zero_field_error(field: Option<ConfigField>) -> Option<RuntimeError> {
    match field {
        Some(f) => Some(RuntimeError::InvalidConfig(f.spec_message())),
        None => None,
    }
}

/// The first failing check of a runtime configuration, in the order it is checked:
/// the four timeouts, the listen port, the limits, the DHT settings and the session settings.
pub open spec fn runtime_config_error(c: RuntimeConfig) -> Option<RuntimeError> {
    if c.connect_timeout@ == 0 {
        Some(RuntimeError::InvalidConfig(ConfigField::ConnectTimeout.spec_message()))
    } else if c.source_timeout@ == 0 {
        Some(RuntimeError::InvalidConfig(ConfigField::SourceTimeout.spec_message()))
    } else if c.piece_timeout@ == 0 {
        Some(RuntimeError::InvalidConfig(ConfigField::PieceTimeout.spec_message()))
    } else if c.snapshot_interval@ == 0 {
        Some(RuntimeError::InvalidConfig(ConfigField::SnapshotInterval.spec_message()))
    } else if c.listen_port == 0 {
        Some(RuntimeError::InvalidConfig(ConfigField::ListenPort.spec_message()))
    } else if limits_zero_field(c.limits) is Some {
        zero_field_error(limits_zero_field(c.limits))
    } else if c.dht.spec_error() is Some {
        c.dht.spec_error()
    } else {
        zero_field_error(session_zero_field(c.session))
    }
}

impl RuntimeLimits {
    /// Accepts the limits when none of them is zero.
    pub fn validate(self) -> (res: Result<Self, RuntimeError>)
        ensures
            res == (match zero_field_error(limits_zero_field(self)) {
                Some(e) => Err(e),
                None => Ok(self),
            }),
    {
        validate_nonzero(self.max_active_torrents, ConfigField::MaxActiveTorrents)?;
        validate_nonzero(self.max_peers_per_torrent, ConfigField::MaxPeersPerTorrent)?;
        validate_nonzero(self.max_sources_per_torrent, ConfigField::MaxSourcesPerTorrent)?;
        validate_nonzero(self.max_web_seed_concurrency, ConfigField::MaxWebSeedConcurrency)?;
        validate_nonzero(self.max_event_queue, ConfigField::MaxEventQueue)?;
        validate_nonzero(self.source_retry_limit, ConfigField::SourceRetryLimit)?;
        Ok(self)
    }
}

impl SessionRuntimeConfig {
    /// Accepts the session settings when none of them is zero.
    pub fn validate(self) -> (res: Result<Self, RuntimeError>)
        ensures
            res == (match zero_field_error(session_zero_field(self)) {
                Some(e) => Err(e),
                None => Ok(self),
            }),
    {
        validate_nonzero(self.command_capacity, ConfigField::SessionCommandCapacity)?;
        validate_nonzero(self.event_capacity, ConfigField::SessionEventCapacity)?;
        validate_duration(self.shutdown_timeout, ConfigField::SessionShutdownTimeout)?;
        validate_duration(self.forced_shutdown_timeout, ConfigField::SessionForcedShutdownTimeout)?;
        Ok(self)
    }
}

impl RuntimeConfig {
    /// Two configurations with the same values.
    pub open spec fn same_config(self, other: RuntimeConfig) -> bool {
        &&& self.connect_timeout == other.connect_timeout
        &&& self.source_timeout == other.source_timeout
        &&& self.piece_timeout == other.piece_timeout
        &&& self.snapshot_interval == other.snapshot_interval
        &&& self.listen_port == other.listen_port
        &&& self.limits == other.limits
        &&& self.seed_policy == other.seed_policy
        &&& self.dht.same_settings(other.dht)
        &&& self.session == other.session
    }

    /// Checks every setting, reporting the first that fails.
    pub fn check(&self) -> (res: Result<(), RuntimeError>)
        ensures
            res == (match runtime_config_error(*self) {
                Some(e) => Err(e),
                None => Ok(()),
            }),
    {
        validate_duration(self.connect_timeout, ConfigField::ConnectTimeout)?;
        validate_duration(self.source_timeout, ConfigField::SourceTimeout)?;
        validate_duration(self.piece_timeout, ConfigField::PieceTimeout)?;
        validate_duration(self.snapshot_interval, ConfigField::SnapshotInterval)?;
        validate_nonzero(self.listen_port as usize, ConfigField::ListenPort)?;
        self.limits.validate()?;
        self.dht.validate()?;
        self.session.validate()?;
        Ok(())
    }

    /// Hands the configuration back when every setting is valid.
    pub fn validate(self) -> (res: Result<Self, RuntimeError>)
        ensures
            res == (match runtime_config_error(self) {
                Some(e) => Err(e),
                None => Ok(self),
            }),
    {
        match self.check() {
            Ok(()) => Ok(self),
            Err(e) => Err(e),
        }
    }
}

impl Clone for RuntimeConfig {
    fn clone(&self) -> (copy: Self)
        ensures
            copy.same_config(*self),
    {
        RuntimeConfig {
            connect_timeout: self.connect_timeout,
            source_timeout: self.source_timeout,
            piece_timeout: self.piece_timeout,
            snapshot_interval: self.snapshot_interval,
            listen_port: self.listen_port,
            limits: self.limits,
            seed_policy: self.seed_policy,
            dht: self.dht.clone(),
            session: self.session,
        }
    }
}

impl RuntimeLimits {
    /// The limits used when none are given.
    pub open spec fn spec_default() -> RuntimeLimits {
        RuntimeLimits {
            max_active_torrents: 8,
            max_peers_per_torrent: 30,
            max_sources_per_torrent: 64,
            max_web_seed_concurrency: 2,
            max_event_queue: 1024,
            source_retry_limit: 3,
        }
    }
}

impl Default for RuntimeLimits {
    fn default() -> (limits: Self)
        ensures
            limits == RuntimeLimits::spec_default(),
    {
        RuntimeLimits {
            max_active_torrents: 8,
            max_peers_per_torrent: 30,
            max_sources_per_torrent: 64,
            max_web_seed_concurrency: 2,
            max_event_queue: 1024,
            source_retry_limit: 3,
        }
    }
}

impl Default for SeedPolicy {
    fn default() -> (policy: Self)
        ensures
            policy.seed_after_complete,
    {
        SeedPolicy { seed_after_complete: true }
    }
}

impl Default for SessionRuntimeConfig {
    fn default() -> (config: Self)
        ensures
            config.command_capacity == 256,
            config.event_capacity == 1024,
            config.shutdown_timeout@ == 10_000_000_000,
            config.forced_shutdown_timeout@ == 2_000_000_000,
    {
        SessionRuntimeConfig {
            command_capacity: 256,
            event_capacity: 1024,
            shutdown_timeout: TimeSpan::from_secs(10),
            forced_shutdown_timeout: TimeSpan::from_secs(2),
        }
    }
}

impl Default for RuntimeConfig {
    fn default() -> (config: Self)
        ensures
            config.connect_timeout@ == 10_000_000_000,
            config.source_timeout@ == 15_000_000_000,
            config.piece_timeout@ == 30_000_000_000,
            config.snapshot_interval@ == 1_000_000_000,
            config.listen_port == 6881,
            config.limits == RuntimeLimits::spec_default(),
            config.seed_policy.seed_after_complete,
            config.dht.enabled,
            config.dht.bind == (SocketAddress { ip: IpAddress::V4(0, 0, 0, 0), port: 6881, flowinfo: 0, scope_id: 0 }),
            config.dht.bootstrap_nodes@.len() == 0,
            config.dht.query_timeout@ == 15_000_000_000,
            config.dht.command_capacity == 256,
            config.dht.metadata_size_limit == 8 * 1024 * 1024,
            config.dht.metadata_request_limit == 512,
            config.dht.tick_interval@ == 250_000_000,
            config.session.command_capacity == 256,
            config.session.event_capacity == 1024,
            config.session.shutdown_timeout@ == 10_000_000_000,
            config.session.forced_shutdown_timeout@ == 2_000_000_000,
            (runtime_config_error(config) is None),
    {
        RuntimeConfig {
            connect_timeout: TimeSpan::from_secs(10),
            source_timeout: TimeSpan::from_secs(15),
            piece_timeout: TimeSpan::from_secs(30),
            snapshot_interval: TimeSpan::from_secs(1),
            listen_port: 6881,
            limits: RuntimeLimits::default(),
            seed_policy: SeedPolicy::default(),
            dht: DhtRuntimeConfig::default(),
            session: SessionRuntimeConfig::default(),
        }
    }
}

} // verus!
