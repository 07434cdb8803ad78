use vstd::prelude::*;

use crate::config::RuntimeConfig;
use crate::error::RuntimeError;
use crate::supervision::{FailureReasonCode, PersistenceOutcome, ShutdownMode, ShutdownReport};
use crate::time::TimeSpan;

verus! {

/// Where a daemon keeps its state and socket, how often it ticks, and how
/// its runtime is set up.
#[derive(Debug)]
pub struct DaemonConfig {
    pub state_dir: String,
    pub socket_path: String,
    pub tick_interval: TimeSpan,
    pub runtime_config: RuntimeConfig,
}

/// What a running daemon reports about itself.
#[derive(Clone, Debug, PartialEq, Eq)]
pub struct DaemonStatus {
    pub pid: Option<u32>,
    pub socket_path: String,
    pub torrent_count: u32,
    pub uptime: TimeSpan,
}

/// The status of a daemon with the given process id, socket, torrents and
/// uptime; the count is cut to 32 bits.
pub fn daemon_status(pid: Option<u32>, socket_path: String, torrents: usize, uptime: TimeSpan) -> (status: DaemonStatus)
    ensures
        status.pid == pid,
        status.socket_path == socket_path,
        status.torrent_count == torrents as u32,
        status.uptime == uptime,
{
    DaemonStatus { pid, socket_path, torrent_count: torrents as u32, uptime }
}

/// The daemon of a session.
#[derive(Debug)]
pub struct DaemonRuntime;

impl DaemonRuntime {
    /// A daemon cannot start with a zero tick interval.
    pub fn check_config(config: &DaemonConfig) -> (res: Result<(), RuntimeError>)
        ensures
            config.tick_interval@ == 0 ==> res == Err::<(), RuntimeError>(
                RuntimeError::InvalidConfig("daemon tick_interval must be greater than zero"),
            ),
            config.tick_interval@ != 0 ==> res is Ok,
    {
        if config.tick_interval.is_zero() {
            return Err(RuntimeError::InvalidConfig("daemon tick_interval must be greater than zero"));
        }
        Ok(())
    }
}

/// What a daemon's end comes to: its result, and the answer owed to a
/// caller that asked it to stop.
#[derive(Debug)]
pub struct DaemonShutdownOutcome {
    pub result: Result<ShutdownReport, RuntimeError>,
    pub acknowledgement: Result<(), RuntimeError>,
}

/// The persistence outcome of a final save.
pub open spec fn persistence_outcome(saved: bool) -> PersistenceOutcome {
    if saved {
        PersistenceOutcome::Succeeded
    } else {
        PersistenceOutcome::Failed(FailureReasonCode::PersistenceFailed)
    }
}

/// Ends a daemon from the session's shutdown report and whether the final
/// save succeeded. A session that gave no report ends the daemon in error
/// with a fresh clean report; a failed save ends it in error with the
/// session's report. The caller that asked to stop is told of a failed
/// session as a cancellation and of a failed save as a persistence error.
pub fn finish_daemon(session: Result<ShutdownReport, RuntimeError>, saved: bool, elapsed: TimeSpan) -> (outcome: DaemonShutdownOutcome)
    ensures
        match session {
            Err(_) => {
                &&& outcome.acknowledgement == Err::<(), RuntimeError>(RuntimeError::Cancelled)
                &&& outcome.result matches Err(RuntimeError::DaemonShutdown { reason, report })
                &&& reason == FailureReasonCode::ChannelClosed
                &&& report.mode == ShutdownMode::Clean
                &&& report.elapsed == elapsed
                &&& report.exits@.len() == 0
                &&& report.persistence == persistence_outcome(saved)
                &&& report.capability_failures@.len() == 0
                &&& report.session_failures@.len() == 0
            },
            Ok(session_report) => {
                &&& outcome.acknowledgement == (if saved {
                    Ok::<(), RuntimeError>(())
                } else {
                    Err(RuntimeError::Persistence("final daemon persistence failed"))
                })
                &&& (saved ==> (outcome.result matches Ok(report) && report == (ShutdownReport {
                    persistence: PersistenceOutcome::Succeeded,
                    ..session_report
                })))
                &&& (!saved ==> (outcome.result matches Err(RuntimeError::DaemonShutdown { reason, report })
                    && reason == FailureReasonCode::PersistenceFailed && *report == (ShutdownReport {
                    persistence: PersistenceOutcome::Failed(FailureReasonCode::PersistenceFailed),
                    ..session_report
                })))
            },
        },
{
    let persistence = if saved {
        PersistenceOutcome::Succeeded
    } else {
        PersistenceOutcome::Failed(FailureReasonCode::PersistenceFailed)
    };
    let mut report = match session {
        Ok(report) => report,
        Err(_) => {
            let mut report = ShutdownReport::new(ShutdownMode::Clean, elapsed);
            report.persistence = persistence;
            return DaemonShutdownOutcome {
                result: Err(
                    RuntimeError::DaemonShutdown {
                        reason: FailureReasonCode::ChannelClosed,
                        report: Box::new(report),
                    },
                ),
                acknowledgement: Err(RuntimeError::Cancelled),
            };
        },
    };
    report.persistence = persistence;
    if saved {
        DaemonShutdownOutcome { result: Ok(report), acknowledgement: Ok(()) }
    } else {
        DaemonShutdownOutcome {
            result: Err(
                RuntimeError::DaemonShutdown { reason: FailureReasonCode::PersistenceFailed, report: Box::new(report) },
            ),
            acknowledgement: Err(RuntimeError::Persistence("final daemon persistence failed")),
        }
    }
}

} // verus!
