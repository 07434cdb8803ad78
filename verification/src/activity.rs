use std::collections::VecDeque;

use vstd::prelude::*;

use crate::addr_text::{address_string, address_text};
use crate::format::{append_hex, decimal, decimal_string, hex_text};
use crate::snapshot::{RuntimeEvent, TorrentId, TorrentStatus};

verus! {

/// How serious a log line is.
#[derive(Clone, Copy, Debug, PartialEq, Eq, Structural)]
pub enum LogLevel {
    Info,
    Warn,
    Error,
}

/// One line of the activity log.
#[derive(Debug, PartialEq, Eq)]
pub struct LogLine {
    pub level: LogLevel,
    pub message: String,
}

impl Clone for LogLine {
    fn clone(&self) -> (copy: Self)
        ensures
            copy == *self,
    {
        LogLine { level: self.level, message: self.message.clone() }
    }
}

/// The name of a status, as `Debug` writes it.
pub open spec fn status_name(status: TorrentStatus) -> Seq<char> {
    match status {
        TorrentStatus::Checking => "Checking"@,
        TorrentStatus::Discovering => "Discovering"@,
        TorrentStatus::Downloading => "Downloading"@,
        TorrentStatus::Paused => "Paused"@,
        TorrentStatus::Complete => "Complete"@,
        TorrentStatus::Seeding => "Seeding"@,
        TorrentStatus::Failed => "Failed"@,
        TorrentStatus::Cancelled => "Cancelled"@,
    }
}

fn status_str(status: TorrentStatus) -> (name: &'static str)
    ensures
        name@ == status_name(status),
{
    match status {
        TorrentStatus::Checking => "Checking",
        TorrentStatus::Discovering => "Discovering",
        TorrentStatus::Downloading => "Downloading",
        TorrentStatus::Paused => "Paused",
        TorrentStatus::Complete => "Complete",
        TorrentStatus::Seeding => "Seeding",
        TorrentStatus::Failed => "Failed",
        TorrentStatus::Cancelled => "Cancelled",
    }
}

/// A torrent in a log line: its info hash in uppercase hexadecimal. The
/// wider client's log lines write a torrent through the `Debug` form of its
/// own id type, which this library does not hold; that the two texts agree
/// is not established here.
pub open spec fn torrent_text(id: TorrentId) -> Seq<char> {
    hex_text(id@)
}

fn append_torrent(text: &mut String, id: &TorrentId)
    ensures
        final(text)@ == old(text)@ + torrent_text(*id),
{
    append_hex(text, id.as_bytes().as_slice());
}

/// The log line an event gives, where it gives one.
pub open spec fn log_entry(event: RuntimeEvent) -> Option<(LogLevel, Seq<char>)> {
    match event {
        RuntimeEvent::TorrentAdded { torrent } => Some(
            (LogLevel::Info, "torrent "@ + torrent_text(torrent) + " added"@),
        ),
        RuntimeEvent::TorrentRemoved { torrent } => Some(
            (LogLevel::Info, "torrent "@ + torrent_text(torrent) + " removed"@),
        ),
        RuntimeEvent::StateChanged { torrent, from, to } => Some(
            (
                LogLevel::Info,
                "torrent "@ + torrent_text(torrent) + ": "@ + status_name(from) + " → "@ + status_name(to),
            ),
        ),
        RuntimeEvent::SourceFailed { torrent, source, .. } => Some(
            (LogLevel::Warn, "source "@ + source@ + " failed for torrent "@ + torrent_text(torrent)),
        ),
        RuntimeEvent::TaskFailed { torrent, reason } => Some(
            (LogLevel::Error, "torrent "@ + torrent_text(torrent) + " failed: "@ + reason@),
        ),
        RuntimeEvent::PieceVerified { torrent, piece, bytes } => Some(
            (
                LogLevel::Info,
                "torrent "@ + torrent_text(torrent) + " piece "@ + decimal(piece as nat) + " verified ("@ + decimal(
                    bytes as nat,
                ) + " bytes)"@,
            ),
        ),
        RuntimeEvent::PeerConnected { torrent, addr } => Some(
            (LogLevel::Info, "peer "@ + address_text(addr) + " connected for torrent "@ + torrent_text(torrent)),
        ),
        RuntimeEvent::PeerDisconnected { torrent, addr } => Some(
            (LogLevel::Warn, "peer "@ + address_text(addr) + " disconnected for torrent "@ + torrent_text(torrent)),
        ),
        RuntimeEvent::DhtPeersDiscovered { torrent, peers } => Some(
            (
                LogLevel::Info,
                "DHT discovered "@ + decimal(peers as nat) + " peers for torrent "@ + torrent_text(torrent),
            ),
        ),
        RuntimeEvent::DhtAnnounced { torrent, nodes } => Some(
            (
                LogLevel::Info,
                "announced torrent "@ + torrent_text(torrent) + " to "@ + decimal(nodes as nat) + " DHT nodes"@,
            ),
        ),
        RuntimeEvent::BlockUploaded { torrent, peer, piece, bytes, .. } => Some(
            (
                LogLevel::Info,
                "uploaded "@ + decimal(bytes as nat) + " bytes from piece "@ + decimal(piece as nat) + " to peer "@
                    + address_text(peer) + " for torrent "@ + torrent_text(torrent),
            ),
        ),
        RuntimeEvent::TaskCompleted { torrent } => Some(
            (LogLevel::Info, "torrent "@ + torrent_text(torrent) + " completed"@),
        ),
        _ => None,
    }
}

/// The log line an event gives, if it gives one.
pub fn map_to_log_line(event: &RuntimeEvent) -> (line: Option<LogLine>)
    ensures
        match log_entry(*event) {
            Some((level, message)) => line matches Some(l) && l.level == level && l.message@ == message,
            None => line is None,
        },
{
    let mut text = String::new();
    let level = match event {
        RuntimeEvent::TorrentAdded { torrent } => {
            text.append("torrent ");
            append_torrent(&mut text, torrent);
            text.append(" added");
            LogLevel::Info
        },
        RuntimeEvent::TorrentRemoved { torrent } => {
            text.append("torrent ");
            append_torrent(&mut text, torrent);
            text.append(" removed");
            LogLevel::Info
        },
        RuntimeEvent::StateChanged { torrent, from, to } => {
            text.append("torrent ");
            append_torrent(&mut text, torrent);
            text.append(": ");
            text.append(status_str(*from));
            text.append(" → ");
            text.append(status_str(*to));
            LogLevel::Info
        },
        RuntimeEvent::SourceFailed { torrent, source, .. } => {
            text.append("source ");
            text.append(source.as_str());
            text.append(" failed for torrent ");
            append_torrent(&mut text, torrent);
            LogLevel::Warn
        },
        RuntimeEvent::TaskFailed { torrent, reason } => {
            text.append("torrent ");
            append_torrent(&mut text, torrent);
            text.append(" failed: ");
            text.append(reason.as_str());
            LogLevel::Error
        },
        RuntimeEvent::PieceVerified { torrent, piece, bytes } => {
            text.append("torrent ");
            append_torrent(&mut text, torrent);
            text.append(" piece ");
            text.append(decimal_string(*piece as u64).as_str());
            text.append(" verified (");
            text.append(decimal_string(*bytes).as_str());
            text.append(" bytes)");
            LogLevel::Info
        },
        RuntimeEvent::PeerConnected { torrent, addr } => {
            text.append("peer ");
            text.append(address_string(addr).as_str());
            text.append(" connected for torrent ");
            append_torrent(&mut text, torrent);
            LogLevel::Info
        },
        RuntimeEvent::PeerDisconnected { torrent, addr } => {
            text.append("peer ");
            text.append(address_string(addr).as_str());
            text.append(" disconnected for torrent ");
            append_torrent(&mut text, torrent);
            LogLevel::Warn
        },
        RuntimeEvent::DhtPeersDiscovered { torrent, peers } => {
            text.append("DHT discovered ");
            text.append(decimal_string(*peers as u64).as_str());
            text.append(" peers for torrent ");
            append_torrent(&mut text, torrent);
            LogLevel::Info
        },
        RuntimeEvent::DhtAnnounced { torrent, nodes } => {
            text.append("announced torrent ");
            append_torrent(&mut text, torrent);
            text.append(" to ");
            text.append(decimal_string(*nodes as u64).as_str());
            text.append(" DHT nodes");
            LogLevel::Info
        },
        RuntimeEvent::BlockUploaded { torrent, peer, piece, bytes, .. } => {
            text.append("uploaded ");
            text.append(decimal_string(*bytes as u64).as_str());
            text.append(" bytes from piece ");
            text.append(decimal_string(*piece as u64).as_str());
            text.append(" to peer ");
            text.append(address_string(peer).as_str());
            text.append(" for torrent ");
            append_torrent(&mut text, torrent);
            LogLevel::Info
        },
        RuntimeEvent::TaskCompleted { torrent } => {
            text.append("torrent ");
            append_torrent(&mut text, torrent);
            text.append(" completed");
            LogLevel::Info
        },
        _ => {
            return None;
        },
    };
    Some(LogLine { level, message: text })
}

/// The most log lines kept.
pub const MAX_LOG_LINES: usize = 1000;

/// The most speed samples kept.
pub const DEFAULT_SPEED_SAMPLES: usize = 60;

/// The transfer rates of one tick.
#[derive(Clone, Copy, Debug, PartialEq, Eq, Structural)]
pub struct SpeedSample {
    pub second: u64,
    pub down_rate: u64,
    pub up_rate: u64,
}

/// A list with one more item at the end, its oldest dropped when it was full.
pub open spec fn bounded_push<T>(items: Seq<T>, item: T, cap: nat) -> Seq<T> {
    if items.len() >= cap && items.len() > 0 {
        items.drop_first().push(item)
    } else {
        items.push(item)
    }
}

/// The levels and texts of log lines.
pub open spec fn log_view(lines: Seq<LogLine>) -> Seq<(LogLevel, Seq<char>)> {
    lines.map_values(|l: LogLine| (l.level, l.message@))
}

/// A log after the lines that a batch of events gives, in order.
pub open spec fn logged(log: Seq<(LogLevel, Seq<char>)>, events: Seq<RuntimeEvent>) -> Seq<(LogLevel, Seq<char>)>
    decreases events.len(),
{
    if events.len() == 0 {
        log
    } else {
        let before = logged(log, events.drop_last());
        match log_entry(events.last()) {
            Some(entry) => bounded_push(before, entry, MAX_LOG_LINES as nat),
            None => before,
        }
    }
}

/// The samples of the last ticks after `ticks` ticks: as many as have
/// passed, up to the limit, their seconds counting up one by one to the
/// last tick's.
pub open spec fn samples_follow_ticks(speed: Seq<SpeedSample>, ticks: nat) -> bool {
    &&& speed.len() == if ticks < DEFAULT_SPEED_SAMPLES { ticks } else { DEFAULT_SPEED_SAMPLES as nat }
    &&& forall|i: int| 0 <= i < speed.len() ==> #[trigger] speed[i].second == ticks - speed.len() + i
}

/// What the application keeps of recent activity: the last log lines, the
/// last speed samples, and how many ticks have passed.
pub struct ActivityLog {
    logs: VecDeque<LogLine>,
    speed: VecDeque<SpeedSample>,
    tick_count: u64,
}

impl ActivityLog {
    pub closed spec fn spec_logs(&self) -> Seq<LogLine> {
        self.logs@
    }

    pub closed spec fn spec_speed(&self) -> Seq<SpeedSample> {
        self.speed@
    }

    pub closed spec fn spec_ticks(&self) -> u64 {
        self.tick_count
    }

    /// The log never holds more than its limit of lines, and the speed
    /// samples are those of the last ticks, one per tick.
    pub closed spec fn wf(&self) -> bool {
        &&& self.logs@.len() <= MAX_LOG_LINES
        &&& samples_follow_ticks(self.speed@, self.tick_count as nat)
    }

    /// Nothing recorded, no tick passed.
    pub fn new() -> (log: ActivityLog)
        ensures
            log.wf(),
            log.spec_logs().len() == 0,
            log.spec_speed().len() == 0,
            log.spec_ticks() == 0,
    {
        ActivityLog { logs: VecDeque::new(), speed: VecDeque::new(), tick_count: 0 }
    }

    /// Adds a log line, dropping the oldest when the log is full.
    pub fn push_log(&mut self, line: LogLine)
        requires
            old(self).wf(),
        ensures
            final(self).wf(),
            final(self).spec_logs() == bounded_push(old(self).spec_logs(), line, MAX_LOG_LINES as nat),
            final(self).spec_speed() == old(self).spec_speed(),
            final(self).spec_ticks() == old(self).spec_ticks(),
    {
        if self.logs.len() >= MAX_LOG_LINES {
            let _ = self.logs.pop_front();
        }
        self.logs.push_back(line);
    }

    /// Logs every event that gives a line, in order.
    pub fn record_events(&mut self, events: &Vec<RuntimeEvent>)
        requires
            old(self).wf(),
        ensures
            final(self).wf(),
            log_view(final(self).spec_logs()) == logged(log_view(old(self).spec_logs()), events@),
            final(self).spec_speed() == old(self).spec_speed(),
            final(self).spec_ticks() == old(self).spec_ticks(),
    {
        let mut i: usize = 0;
        while i < events.len()
            invariant
                i <= events@.len(),
                self.wf(),
                self.spec_speed() == old(self).spec_speed(),
                self.spec_ticks() == old(self).spec_ticks(),
                log_view(self.spec_logs()) == logged(log_view(old(self).spec_logs()), events@.take(i as int)),
            decreases events@.len() - i,
        {
            let ghost before = self.spec_logs();
            assert(events@.take(i as int + 1).drop_last() =~= events@.take(i as int));
            if let Some(line) = map_to_log_line(&events[i]) {
                let ghost entry = (line.level, line.message@);
                self.push_log(line);
                proof {
                    if before.len() >= MAX_LOG_LINES && before.len() > 0 {
                        assert(log_view(before.drop_first().push(line)) =~= log_view(before).drop_first().push(entry));
                    } else {
                        assert(log_view(before.push(line)) =~= log_view(before).push(entry));
                    }
                }
            }
            i = i + 1;
        }
        assert(events@.take(i as int) =~= events@);
    }

    /// Closes a tick: records its transfer rates as a sample, dropping the
    /// oldest sample when full, and counts the tick.
    pub fn finish_tick(&mut self, down_rate: u64, up_rate: u64)
        requires
            old(self).wf(),
            old(self).spec_ticks() < u64::MAX,
        ensures
            final(self).wf(),
            final(self).spec_speed() == bounded_push(
                old(self).spec_speed(),
                SpeedSample { second: old(self).spec_ticks(), down_rate, up_rate },
                DEFAULT_SPEED_SAMPLES as nat,
            ),
            final(self).spec_logs() == old(self).spec_logs(),
            final(self).spec_ticks() == old(self).spec_ticks() + 1,
    {
        let ghost before = self.speed@;
        if self.speed.len() >= DEFAULT_SPEED_SAMPLES {
            let _ = self.speed.pop_front();
            assert(self.speed@ =~= before.drop_first());
        }
        self.speed.push_back(SpeedSample { second: self.tick_count, down_rate, up_rate });
        self.tick_count = self.tick_count + 1;
        proof {
            let after = self.speed@;
            assert forall|i: int| 0 <= i < after.len() implies #[trigger] after[i].second == self.tick_count - after.len() + i by {
                if i < after.len() - 1 {
                    if before.len() >= DEFAULT_SPEED_SAMPLES {
                        assert(after[i] == before[i + 1]);
                    } else {
                        assert(after[i] == before[i]);
                    }
                }
            }
        }
    }

    /// How many ticks have passed.
    pub fn tick_count(&self) -> (n: u64)
        ensures
            n == self.spec_ticks(),
    {
        self.tick_count
    }

    /// The log lines, oldest first.
    pub fn logs(&self) -> (lines: Vec<LogLine>)
        ensures
            lines@ == self.spec_logs(),
    {
        let mut lines: Vec<LogLine> = Vec::new();
        let mut i: usize = 0;
        while i < self.logs.len()
            invariant
                i <= self.logs@.len(),
                lines@ == self.logs@.take(i as int),
            decreases self.logs@.len() - i,
        {
            lines.push(self.logs[i].clone());
            assert(lines@ =~= self.logs@.take(i as int + 1));
            i = i + 1;
        }
        assert(self.logs@.take(i as int) =~= self.logs@);
        lines
    }

    /// The speed samples, oldest first.
    pub fn speed_samples(&self) -> (samples: Vec<SpeedSample>)
        ensures
            samples@ == self.spec_speed(),
    {
        let mut samples: Vec<SpeedSample> = Vec::new();
        let mut i: usize = 0;
        while i < self.speed.len()
            invariant
                i <= self.speed@.len(),
                samples@ == self.speed@.take(i as int),
            decreases self.speed@.len() - i,
        {
            samples.push(self.speed[i]);
            assert(samples@ =~= self.speed@.take(i as int + 1));
            i = i + 1;
        }
        assert(self.speed@.take(i as int) =~= self.speed@);
        samples
    }
}

/// Law: however many ticks an activity log has seen, its speed samples
/// are those of the last ticks, up to the limit, with consecutive seconds
/// ending at the last tick's; its log never holds more than its limit of
/// lines, the oldest having been dropped first.
pub proof fn law_speed_samples_follow_ticks(log: &ActivityLog)
    requires
        log.wf(),
    ensures
        samples_follow_ticks(log.spec_speed(), log.spec_ticks() as nat),
        log.spec_logs().len() <= MAX_LOG_LINES,
{
}

/// Whether a batch of events moves a torrent's progress.
pub open spec fn moves_progress(events: Seq<RuntimeEvent>) -> bool {
    exists|i: int| 0 <= i < events.len() && (events[i] is ProgressUpdated || events[i] is TaskCompleted)
}

/// Whether any event moves progress, so that a fresh snapshot is due.
pub fn progress_changed(events: &Vec<RuntimeEvent>) -> (changed: bool)
    ensures
        changed == moves_progress(events@),
{
    let mut i: usize = 0;
    while i < events.len()
        invariant
            i <= events@.len(),
            forall|j: int| 0 <= j < i ==> !(events@[j] is ProgressUpdated || events@[j] is TaskCompleted),
        decreases events@.len() - i,
    {
        match &events[i] {
            RuntimeEvent::ProgressUpdated { .. } | RuntimeEvent::TaskCompleted { .. } => {
                return true;
            },
            _ => {},
        }
        i = i + 1;
    }
    false
}

} // verus!
