use vstd::prelude::*;

use crate::error::{error_text, RuntimeError};
use crate::net::SocketAddress;
use crate::snapshot::{RuntimeEvent, TorrentId, TorrentStatus};
use crate::task::TorrentTask;
use crate::time::TimeSpan;
use crate::torrent::TorrentPlan;

verus! {

/// What a background worker reports to the application runtime.
#[derive(Debug)]
pub enum BgEvent {
    Progress { id: TorrentId, verified_bytes: u64, total_bytes: u64 },
    SourceFailed { id: TorrentId, source: String, reason: String },
    Completed { id: TorrentId },
    PeerDisconnected { id: TorrentId, addr: SocketAddress },
    Runtime { event: RuntimeEvent },
    Failed { id: TorrentId, reason: String },
    MagnetMetadataResolved { id: TorrentId, plan: Box<TorrentPlan>, peers: Vec<SocketAddress> },
    MagnetResolutionFailed { id: TorrentId, reason: String, try_dht: bool },
}

/// Whether a download event is passed on to the application.
pub open spec fn reported(event: RuntimeEvent) -> bool {
    match event {
        RuntimeEvent::ProgressUpdated { .. }
        | RuntimeEvent::SourceFailed { .. }
        | RuntimeEvent::SourceQuarantined { .. }
        | RuntimeEvent::TaskFailed { .. }
        | RuntimeEvent::PeerDisconnected { .. }
        | RuntimeEvent::TaskCompleted { .. } => true,
        _ => false,
    }
}

/// The report a download event becomes.
pub open spec fn reports(id: TorrentId, event: RuntimeEvent, report: BgEvent) -> bool {
    match event {
        RuntimeEvent::ProgressUpdated { verified_bytes, total_bytes, .. } => report == (BgEvent::Progress {
            id,
            verified_bytes,
            total_bytes,
        }),
        RuntimeEvent::SourceFailed { source, reason, .. } => report matches BgEvent::SourceFailed {
            id: rid,
            source: s,
            reason: r,
        } && rid == id && s@ == source@ && r@ == reason@,
        RuntimeEvent::SourceQuarantined { source, .. } => report matches BgEvent::SourceFailed {
            id: rid,
            source: s,
            reason: r,
        } && rid == id && s@ == source@ && r@ == "source quarantined after failed verification"@,
        RuntimeEvent::TaskFailed { reason, .. } => report matches BgEvent::Failed { id: rid, reason: r } && rid == id
            && r@ == reason@,
        RuntimeEvent::PeerDisconnected { addr, .. } => report == (BgEvent::PeerDisconnected { id, addr }),
        RuntimeEvent::TaskCompleted { .. } => report == (BgEvent::Completed { id }),
        _ => false,
    }
}

/// Whether `out` reports the download events in order, one report for each
/// event that is passed on.
pub open spec fn reports_all(id: TorrentId, events: Seq<RuntimeEvent>, out: Seq<BgEvent>) -> bool
    decreases events.len(),
{
    if events.len() == 0 {
        out.len() == 0
    } else if reported(events.last()) {
        out.len() > 0 && reports(id, events.last(), out.last()) && reports_all(id, events.drop_last(), out.drop_last())
    } else {
        reports_all(id, events.drop_last(), out)
    }
}

/// Whether a batch of events completes the download.
pub open spec fn has_completion(events: Seq<RuntimeEvent>) -> bool {
    exists|i: int| 0 <= i < events.len() && events[i] is TaskCompleted
}

/// The failures among the events, as the torrent named and the reason.
pub open spec fn failures_in(id: TorrentId, events: Seq<RuntimeEvent>) -> Seq<(TorrentId, Seq<char>)>
    decreases events.len(),
{
    if events.len() == 0 {
        Seq::empty()
    } else {
        let rest = failures_in(id, events.drop_last());
        match events.last() {
            RuntimeEvent::TaskFailed { reason, .. } => rest.push((id, reason@)),
            _ => rest,
        }
    }
}

/// The failure reports among the reports, as the torrent and the reason.
pub open spec fn failure_reports(out: Seq<BgEvent>) -> Seq<(TorrentId, Seq<char>)>
    decreases out.len(),
{
    if out.len() == 0 {
        Seq::empty()
    } else {
        let rest = failure_reports(out.drop_last());
        match out.last() {
            BgEvent::Failed { id, reason } => rest.push((id, reason@)),
            _ => rest,
        }
    }
}

/// The completions among the events, as the torrent reported.
pub open spec fn completions_in(id: TorrentId, events: Seq<RuntimeEvent>) -> Seq<TorrentId>
    decreases events.len(),
{
    if events.len() == 0 {
        Seq::empty()
    } else {
        let rest = completions_in(id, events.drop_last());
        if events.last() is TaskCompleted {
            rest.push(id)
        } else {
            rest
        }
    }
}

/// The completion reports among the reports.
pub open spec fn completion_reports(out: Seq<BgEvent>) -> Seq<TorrentId>
    decreases out.len(),
{
    if out.len() == 0 {
        Seq::empty()
    } else {
        let rest = completion_reports(out.drop_last());
        match out.last() {
            BgEvent::Completed { id } => rest.push(id),
            _ => rest,
        }
    }
}

/// The progress among the events: torrent, verified bytes, total bytes.
pub open spec fn progress_in(id: TorrentId, events: Seq<RuntimeEvent>) -> Seq<(TorrentId, u64, u64)>
    decreases events.len(),
{
    if events.len() == 0 {
        Seq::empty()
    } else {
        let rest = progress_in(id, events.drop_last());
        match events.last() {
            RuntimeEvent::ProgressUpdated { verified_bytes, total_bytes, .. } => rest.push((id, verified_bytes, total_bytes)),
            _ => rest,
        }
    }
}

/// The progress reports among the reports.
pub open spec fn progress_reports(out: Seq<BgEvent>) -> Seq<(TorrentId, u64, u64)>
    decreases out.len(),
{
    if out.len() == 0 {
        Seq::empty()
    } else {
        let rest = progress_reports(out.drop_last());
        match out.last() {
            BgEvent::Progress { id, verified_bytes, total_bytes } => rest.push((id, verified_bytes, total_bytes)),
            _ => rest,
        }
    }
}

/// The peers lost among the events.
pub open spec fn losses_in(id: TorrentId, events: Seq<RuntimeEvent>) -> Seq<(TorrentId, SocketAddress)>
    decreases events.len(),
{
    if events.len() == 0 {
        Seq::empty()
    } else {
        let rest = losses_in(id, events.drop_last());
        match events.last() {
            RuntimeEvent::PeerDisconnected { addr, .. } => rest.push((id, addr)),
            _ => rest,
        }
    }
}

/// The lost-peer reports among the reports.
pub open spec fn loss_reports(out: Seq<BgEvent>) -> Seq<(TorrentId, SocketAddress)>
    decreases out.len(),
{
    if out.len() == 0 {
        Seq::empty()
    } else {
        let rest = loss_reports(out.drop_last());
        match out.last() {
            BgEvent::PeerDisconnected { id, addr } => rest.push((id, addr)),
            _ => rest,
        }
    }
}

/// The troubles with sources among the events: a failed source with its
/// reason, and a quarantined source with the reason that says so.
pub open spec fn source_troubles_in(id: TorrentId, events: Seq<RuntimeEvent>) -> Seq<(TorrentId, Seq<char>, Seq<char>)>
    decreases events.len(),
{
    if events.len() == 0 {
        Seq::empty()
    } else {
        let rest = source_troubles_in(id, events.drop_last());
        match events.last() {
            RuntimeEvent::SourceFailed { source, reason, .. } => rest.push((id, source@, reason@)),
            RuntimeEvent::SourceQuarantined { source, .. } => rest.push(
                (id, source@, "source quarantined after failed verification"@),
            ),
            _ => rest,
        }
    }
}

/// The failed-source reports among the reports.
pub open spec fn source_reports(out: Seq<BgEvent>) -> Seq<(TorrentId, Seq<char>, Seq<char>)>
    decreases out.len(),
{
    if out.len() == 0 {
        Seq::empty()
    } else {
        let rest = source_reports(out.drop_last());
        match out.last() {
            BgEvent::SourceFailed { id, source, reason } => rest.push((id, source@, reason@)),
            _ => rest,
        }
    }
}

/// Law: a download's reports tell the application everything it must
/// learn of the events and nothing else. Every failure of the task is
/// reported as a failure of the torrent with its reason, every completion
/// as a completion, every progress step as progress, every lost peer as a
/// lost peer, and every failed or quarantined source as a failed source,
/// each in the order of the events; there are no other reports. The
/// batch completes the download exactly when it holds a completion.
pub proof fn law_reports_mirror_the_events(id: TorrentId, events: Seq<RuntimeEvent>, out: Seq<BgEvent>)
    requires
        reports_all(id, events, out),
    ensures
        failure_reports(out) == failures_in(id, events),
        completion_reports(out) == completions_in(id, events),
        progress_reports(out) == progress_in(id, events),
        loss_reports(out) == losses_in(id, events),
        source_reports(out) == source_troubles_in(id, events),
        has_completion(events) == (completions_in(id, events).len() > 0),
        out.len() == failures_in(id, events).len() + completions_in(id, events).len() + progress_in(id, events).len()
            + losses_in(id, events).len() + source_troubles_in(id, events).len(),
    decreases events.len(),
{
    if events.len() > 0 {
        let rest = events.drop_last();
        if reported(events.last()) {
            law_reports_mirror_the_events(id, rest, out.drop_last());
        } else {
            law_reports_mirror_the_events(id, rest, out);
        }
        if has_completion(rest) {
            let k = choose|k: int| 0 <= k < rest.len() && rest[k] is TaskCompleted;
            assert(events[k] is TaskCompleted);
        }
        if has_completion(events) && !(events.last() is TaskCompleted) {
            let k = choose|k: int| 0 <= k < events.len() && events[k] is TaskCompleted;
            assert(rest[k] is TaskCompleted);
        }
        if events.last() is TaskCompleted {
            assert(events[events.len() - 1] is TaskCompleted);
        }
    }
}

/// The reports of a download's events, and whether one of them completes it.
pub fn emit_peer_events(id: TorrentId, events: &Vec<RuntimeEvent>) -> (out: (Vec<BgEvent>, bool))
    ensures
        reports_all(id, events@, out.0@),
        out.1 == has_completion(events@),
{
    let mut reports_out: Vec<BgEvent> = Vec::new();
    let mut completed = false;
    let mut i: usize = 0;
    while i < events.len()
        invariant
            i <= events@.len(),
            reports_all(id, events@.take(i as int), reports_out@),
            completed == has_completion(events@.take(i as int)),
        decreases events@.len() - i,
    {
        let ghost before = reports_out@;
        assert(events@.take(i as int + 1).drop_last() =~= events@.take(i as int));
        assert(events@.take(i as int + 1).last() == events@[i as int]);
        match &events[i] {
            RuntimeEvent::ProgressUpdated { verified_bytes, total_bytes, .. } => {
                reports_out.push(BgEvent::Progress { id, verified_bytes: *verified_bytes, total_bytes: *total_bytes });
            },
            RuntimeEvent::SourceFailed { source, reason, .. } => {
                reports_out.push(BgEvent::SourceFailed { id, source: source.clone(), reason: reason.clone() });
            },
            RuntimeEvent::SourceQuarantined { source, .. } => {
                reports_out.push(
                    BgEvent::SourceFailed {
                        id,
                        source: source.clone(),
                        reason: String::from_str("source quarantined after failed verification"),
                    },
                );
            },
            RuntimeEvent::TaskFailed { reason, .. } => {
                reports_out.push(BgEvent::Failed { id, reason: reason.clone() });
            },
            RuntimeEvent::PeerDisconnected { addr, .. } => {
                reports_out.push(BgEvent::PeerDisconnected { id, addr: *addr });
            },
            RuntimeEvent::TaskCompleted { .. } => {
                reports_out.push(BgEvent::Completed { id });
                completed = true;
            },
            _ => {},
        }
        proof {
            let taken = events@.take(i as int + 1);
            if reported(events@[i as int]) {
                assert(reports_out@.drop_last() =~= before);
            } else {
                assert(reports_out@ =~= before);
            }
            if events@[i as int] is TaskCompleted {
                assert(taken[i as int] is TaskCompleted);
            }
            if has_completion(taken) && !(events@[i as int] is TaskCompleted) {
                let k = choose|k: int| 0 <= k < taken.len() && taken[k] is TaskCompleted;
                assert(events@.take(i as int)[k] is TaskCompleted);
            }
            if has_completion(events@.take(i as int)) {
                let k = choose|k: int| 0 <= k < i && events@.take(i as int)[k] is TaskCompleted;
                assert(taken[k] is TaskCompleted);
            }
        }
        i = i + 1;
    }
    assert(events@.take(i as int) =~= events@);
    (reports_out, completed)
}

/// Whether a batch of events shows a download making progress.
pub open spec fn shows_activity(events: Seq<RuntimeEvent>) -> bool {
    exists|i: int|
        0 <= i < events.len() && (events[i] is PeerConnected || events[i] is PieceVerified
            || events[i] is ProgressUpdated)
}

pub fn peer_events_show_activity(events: &Vec<RuntimeEvent>) -> (active: bool)
    ensures
        active == shows_activity(events@),
{
    let mut i: usize = 0;
    while i < events.len()
        invariant
            i <= events@.len(),
            forall|j: int|
                0 <= j < i ==> !(events@[j] is PeerConnected || events@[j] is PieceVerified
                    || events@[j] is ProgressUpdated),
        decreases events@.len() - i,
    {
        match &events[i] {
            RuntimeEvent::PeerConnected { .. }
            | RuntimeEvent::PieceVerified { .. }
            | RuntimeEvent::ProgressUpdated { .. } => {
                return true;
            },
            _ => {},
        }
        i = i + 1;
    }
    false
}

/// What a seeding worker passes on for an event: a dropped peer as such,
/// anything else as it is.
pub open spec fn seed_report(id: TorrentId, event: RuntimeEvent) -> BgEvent {
    match event {
        RuntimeEvent::PeerDisconnected { addr, .. } => BgEvent::PeerDisconnected { id, addr },
        other => BgEvent::Runtime { event: other },
    }
}

/// The reports of a seeding worker's events, one for each, in order.
pub fn seed_reports(id: TorrentId, events: Vec<RuntimeEvent>) -> (out: Vec<BgEvent>)
    ensures
        out@ == events@.map_values(|e: RuntimeEvent| seed_report(id, e)),
{
    let ghost all = events@;
    let mut events = events;
    let mut out: Vec<BgEvent> = Vec::new();
    while events.len() > 0
        invariant
            events@.len() <= all.len(),
            events@ == all.subrange(out@.len() as int, all.len() as int),
            out@ == all.take(out@.len() as int).map_values(|e: RuntimeEvent| seed_report(id, e)),
            out@.len() + events@.len() == all.len(),
        decreases events@.len(),
    {
        let ghost k = out@.len() as int;
        let event = events.remove(0);
        assert(event == all[k]);
        let report = match event {
            RuntimeEvent::PeerDisconnected { addr, .. } => BgEvent::PeerDisconnected { id, addr },
            other => BgEvent::Runtime { event: other },
        };
        out.push(report);
        assert(all.take(k + 1).map_values(|e: RuntimeEvent| seed_report(id, e)) =~= all.take(k).map_values(
            |e: RuntimeEvent| seed_report(id, e),
        ).push(seed_report(id, all[k])));
        assert(events@ =~= all.subrange(k + 1, all.len() as int));
    }
    assert(all.take(all.len() as int) =~= all);
    out
}

/// What checking existing data on disk found, per piece.
#[derive(Clone, Copy, Debug, PartialEq, Eq, Structural)]
pub struct ResumeSummary {
    pub verified: u32,
    pub missing: u32,
    pub failed: u32,
}

/// Whether the data on disk holds every piece, verified, so it can be seeded.
pub fn resume_complete(summary: &ResumeSummary, expected_pieces: u32) -> (complete: bool)
    ensures
        complete == (summary.verified == expected_pieces && summary.missing == 0 && summary.failed == 0),
{
    summary.verified == expected_pieces && summary.missing == 0 && summary.failed == 0
}

/// How often a seeding worker ticks: the snapshot interval, at most a
/// quarter second.
pub fn seed_tick_interval(snapshot_interval: TimeSpan) -> (interval: TimeSpan)
    ensures
        interval@ == (if snapshot_interval@ <= 250_000_000 {
            snapshot_interval@
        } else {
            250_000_000
        }),
{
    snapshot_interval.shorter(TimeSpan::from_millis(250))
}

/// The report of a worker that gives up on a torrent because of an error.
pub fn failure_report(id: TorrentId, err: &RuntimeError) -> (report: BgEvent)
    ensures
        report matches BgEvent::Failed { id: rid, reason } && rid == id && reason@ == error_text(*err),
{
    BgEvent::Failed { id, reason: err.message() }
}

/// The reason a seeding worker gives up on data that is not all there.
pub open spec fn incomplete_seed_text() -> Seq<char> {
    "seed data failed resume verification"@
}

/// Readies a task for seeding once its data on disk was checked: data that
/// holds every piece, verified, is marked complete and starts seeding, which
/// is reported; otherwise the worker gives up, saying why, and the task is
/// left as it was.
pub fn seed_after_resume(task: &mut TorrentTask, summary: &ResumeSummary) -> (res: Result<Vec<RuntimeEvent>, BgEvent>)
    requires
        old(task).wf(),
    ensures
        final(task).wf(),
        !(summary.verified == old(task).spec_plan().piece_count && summary.missing == 0 && summary.failed == 0)
            ==> (res matches Err(BgEvent::Failed { id, reason }) && id == old(task).spec_id()
            && reason@ == incomplete_seed_text()) && *final(task) == *old(task),
        summary.verified == old(task).spec_plan().piece_count && summary.missing == 0 && summary.failed == 0 ==> (res
            matches Ok(events) && events@ == seq![RuntimeEvent::StateChanged {
            torrent: old(task).spec_id(),
            from: TorrentStatus::Complete,
            to: TorrentStatus::Seeding,
        }]) && final(task).spec_status() == TorrentStatus::Seeding
            && final(task).spec_verified_bytes() == old(task).spec_plan().total_size
            && final(task).spec_plan() == old(task).spec_plan()
            && final(task).spec_sources() == old(task).spec_sources(),
{
    if !resume_complete(summary, task.piece_count_of_plan()) {
        proof {
            reveal_strlit("seed data failed resume verification");
        }
        return Err(BgEvent::Failed { id: task.id(), reason: String::from_str("seed data failed resume verification") });
    }
    let _ = task.set_status_complete();
    match task.start_seeding() {
        Ok(events) => Ok(events),
        Err(_) => vstd::pervasive::unreached(),
    }
}

/// How trying to download a torrent from its peers ended.
#[derive(Debug, PartialEq, Eq)]
pub enum PeerAttempt {
    /// The torrent completed.
    Completed,
    /// The torrent has no tracker to find peers with.
    Unavailable,
    /// The attempt failed, for the reason given.
    Failed(String),
}

/// What a download worker does after trying the peers.
#[derive(Debug, PartialEq, Eq)]
pub enum DownloadStep {
    /// The download is over.
    Done,
    /// Fetch the torrent from its web seeds.
    TryWebSeeds,
    /// Give up, reporting the reason.
    GiveUp { reason: String },
}

/// The step after the peer attempt: a completed torrent is done; without
/// peers, or after a failure when there are web seeds, the web seeds are
/// tried; a failure with no web seed to fall back on is reported.
pub fn after_peer_attempt(attempt: PeerAttempt, has_web_seeds: bool) -> (step: DownloadStep)
    ensures
        match attempt {
            PeerAttempt::Completed => step == DownloadStep::Done,
            PeerAttempt::Unavailable => step == DownloadStep::TryWebSeeds,
            PeerAttempt::Failed(reason) => if has_web_seeds {
                step == DownloadStep::TryWebSeeds
            } else {
                step == (DownloadStep::GiveUp { reason })
            },
        },
{
    match attempt {
        PeerAttempt::Completed => DownloadStep::Done,
        PeerAttempt::Unavailable => DownloadStep::TryWebSeeds,
        PeerAttempt::Failed(reason) => {
            if has_web_seeds {
                DownloadStep::TryWebSeeds
            } else {
                DownloadStep::GiveUp { reason }
            }
        },
    }
}

/// Where a round of the peer download leaves it.
#[derive(Clone, Copy, Debug, PartialEq, Eq, Structural)]
pub enum PeerRound {
    /// The torrent completed; `report` says whether the completion still
    /// has to be reported, as it was not among the round's events.
    Completed { report: bool },
    /// Nothing happened for as long as a source may take: give up.
    Stalled,
    /// Go on with another round.
    GoOn,
}

/// The reason a stalled peer download gives.
pub open spec fn stalled_text() -> Seq<char> {
    "peer download made no progress before timeout"@
}

/// Where a round leaves the download: completion reported among the
/// round's events ends it; a task found complete ends it, to be reported;
/// otherwise a download idle for the source timeout has stalled.
pub fn peer_round_outcome(events_completed: bool, status: TorrentStatus, idle: TimeSpan, source_timeout: TimeSpan) -> (round: PeerRound)
    ensures
        round == (if events_completed {
            PeerRound::Completed { report: false }
        } else if status == TorrentStatus::Complete {
            PeerRound::Completed { report: true }
        } else if idle@ >= source_timeout@ {
            PeerRound::Stalled
        } else {
            PeerRound::GoOn
        }),
{
    if events_completed {
        PeerRound::Completed { report: false }
    } else if status == TorrentStatus::Complete {
        PeerRound::Completed { report: true }
    } else if idle.as_nanos() >= source_timeout.as_nanos() {
        PeerRound::Stalled
    } else {
        PeerRound::GoOn
    }
}

/// The reason a stalled peer download gives.
pub fn stalled_reason() -> (reason: String)
    ensures
        reason@ == stalled_text(),
{
    String::from_str("peer download made no progress before timeout")
}

/// The report of a web seed that failed to give the torrent.
pub fn web_seed_failure(id: TorrentId, seed: &str, err: &RuntimeError) -> (report: BgEvent)
    ensures
        report matches BgEvent::SourceFailed { id: rid, source, reason } && rid == id && source@ == seed@
            && reason@ == error_text(*err),
{
    BgEvent::SourceFailed { id, source: String::from_str(seed), reason: err.message() }
}

/// The report when every web seed failed.
pub fn web_seeds_exhausted(id: TorrentId) -> (report: BgEvent)
    ensures
        report matches BgEvent::Failed { id: rid, reason } && rid == id && reason@ == "all web seeds failed"@,
{
    BgEvent::Failed { id, reason: String::from_str("all web seeds failed") }
}

} // verus!
