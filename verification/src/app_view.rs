use vstd::prelude::*;

use crate::book::{changed_at, with_state, TorrentBook};
use crate::error::{error_text, RuntimeError};
use crate::persist::{PersistentTorrent, PersistentTorrentSource, PersistentTorrentState};
use crate::snapshot::{RuntimeEvent, RuntimeSnapshot, TorrentId, TorrentSnapshot, TorrentStatus};

verus! {

/// The status of a torrent as the application's views show it.
#[derive(Clone, Copy, Debug, PartialEq, Eq, Structural)]
pub enum AppStatus {
    Checking,
    Downloading,
    Paused,
    Seeding,
    Error,
}

/// The application status of a runtime status: checking and discovering
/// show as checking, complete and seeding as seeding, failed and cancelled
/// as an error.
pub open spec fn spec_app_status(status: TorrentStatus) -> AppStatus {
    match status {
        TorrentStatus::Checking | TorrentStatus::Discovering => AppStatus::Checking,
        TorrentStatus::Downloading => AppStatus::Downloading,
        TorrentStatus::Paused => AppStatus::Paused,
        TorrentStatus::Complete | TorrentStatus::Seeding => AppStatus::Seeding,
        TorrentStatus::Failed | TorrentStatus::Cancelled => AppStatus::Error,
    }
}

pub fn app_status(status: TorrentStatus) -> (shown: AppStatus)
    ensures
        shown == spec_app_status(status),
{
    match status {
        TorrentStatus::Checking | TorrentStatus::Discovering => AppStatus::Checking,
        TorrentStatus::Downloading => AppStatus::Downloading,
        TorrentStatus::Paused => AppStatus::Paused,
        TorrentStatus::Complete | TorrentStatus::Seeding => AppStatus::Seeding,
        TorrentStatus::Failed | TorrentStatus::Cancelled => AppStatus::Error,
    }
}

/// What the application tells its front ends about a torrent.
#[derive(Debug, PartialEq, Eq)]
pub enum AppNotice {
    TorrentAdded { info_hash: TorrentId, name: String },
    TorrentRemoved { info_hash: TorrentId },
    TorrentCompleted { info_hash: TorrentId, name: String },
}

/// The name of the first torrent in the snapshot with this id, or nothing.
pub open spec fn name_in(torrents: Seq<TorrentSnapshot>, id: TorrentId) -> Seq<char>
    decreases torrents.len(),
{
    if torrents.len() == 0 {
        Seq::empty()
    } else if torrents[0].id@ == id@ {
        torrents[0].name@
    } else {
        name_in(torrents.drop_first(), id)
    }
}

fn torrent_name(snapshot: &RuntimeSnapshot, id: TorrentId) -> (name: String)
    ensures
        name@ == name_in(snapshot.torrents@, id),
{
    let mut i: usize = 0;
    assert(snapshot.torrents@.subrange(0, snapshot.torrents@.len() as int) =~= snapshot.torrents@);
    while i < snapshot.torrents.len()
        invariant
            i <= snapshot.torrents@.len(),
            name_in(snapshot.torrents@.subrange(i as int, snapshot.torrents@.len() as int), id)
                == name_in(snapshot.torrents@, id),
        decreases snapshot.torrents@.len() - i,
    {
        let ghost rest = snapshot.torrents@.subrange(i as int, snapshot.torrents@.len() as int);
        assert(rest[0] == snapshot.torrents@[i as int]);
        if snapshot.torrents[i].id.same_as(&id) {
            return snapshot.torrents[i].name.clone();
        }
        assert(rest.drop_first() =~= snapshot.torrents@.subrange(i + 1, snapshot.torrents@.len() as int));
        i = i + 1;
    }
    assert(snapshot.torrents@.subrange(i as int, snapshot.torrents@.len() as int).len() == 0);
    String::new()
}

/// The notice a runtime event gives the front ends, if any: additions and
/// completions carry the torrent's name as the snapshot has it, empty when
/// the snapshot does not hold the torrent.
pub fn app_notice_for(event: &RuntimeEvent, snapshot: &RuntimeSnapshot) -> (notice: Option<AppNotice>)
    ensures
        match *event {
            RuntimeEvent::TorrentAdded { torrent } => notice matches Some(AppNotice::TorrentAdded { info_hash, name })
                && info_hash == torrent && name@ == name_in(snapshot.torrents@, torrent),
            RuntimeEvent::TorrentRemoved { torrent } => notice == Some(AppNotice::TorrentRemoved { info_hash: torrent }),
            RuntimeEvent::TaskCompleted { torrent } => notice matches Some(AppNotice::TorrentCompleted { info_hash, name })
                && info_hash == torrent && name@ == name_in(snapshot.torrents@, torrent),
            _ => notice is None,
        },
{
    match event {
        RuntimeEvent::TorrentAdded { torrent } => Some(
            AppNotice::TorrentAdded { info_hash: *torrent, name: torrent_name(snapshot, *torrent) },
        ),
        RuntimeEvent::TorrentRemoved { torrent } => Some(AppNotice::TorrentRemoved { info_hash: *torrent }),
        RuntimeEvent::TaskCompleted { torrent } => Some(
            AppNotice::TorrentCompleted { info_hash: *torrent, name: torrent_name(snapshot, *torrent) },
        ),
        _ => None,
    }
}

/// How the application answers a command the runtime refused.
#[derive(Debug, PartialEq, Eq)]
pub enum AppRefusal {
    /// The command itself was wrong.
    InvalidCommand(String),
    /// The runtime is too busy to take it.
    Backpressure,
    /// Something went wrong inside.
    Internal(String),
}

/// The answer to a refused command: a configuration or magnet problem is
/// the command's fault, backpressure is reported as such, and anything else
/// is an internal error carrying the error's text.
pub fn app_refusal(err: &RuntimeError) -> (refusal: AppRefusal)
    ensures
        app_refusal_of(refusal, *err),
{
    match err {
        RuntimeError::InvalidConfig(m) => AppRefusal::InvalidCommand(String::from_str(m)),
        RuntimeError::Magnet(m) => AppRefusal::InvalidCommand(m.clone()),
        RuntimeError::Backpressure { .. } => AppRefusal::Backpressure,
        _ => AppRefusal::Internal(err.message()),
    }
}

/// The totals the application shows for the whole session.
#[derive(Clone, Copy, Debug, PartialEq, Eq, Structural)]
pub struct SessionTotals {
    pub torrent_count: u32,
    pub peer_count: u32,
    pub down_bytes: u64,
    pub up_bytes: u64,
}

/// The sum of the torrents' download rates, or of their upload rates.
pub open spec fn rate_sum(torrents: Seq<TorrentSnapshot>, upload: bool) -> int
    decreases torrents.len(),
{
    if torrents.len() == 0 {
        0
    } else {
        rate_sum(torrents.drop_last(), upload) + if upload {
            torrents.last().up_rate as int
        } else {
            torrents.last().down_rate as int
        }
    }
}

proof fn lemma_rate_sum_prefix(torrents: Seq<TorrentSnapshot>, i: int, upload: bool)
    requires
        0 <= i <= torrents.len(),
    ensures
        0 <= rate_sum(torrents.take(i), upload) <= rate_sum(torrents, upload),
    decreases torrents.len() - i,
{
    if i < torrents.len() {
        lemma_rate_sum_prefix(torrents, i + 1, upload);
        assert(torrents.take(i + 1).drop_last() =~= torrents.take(i));
        lemma_rate_sum_nonnegative(torrents.take(i), upload);
    } else {
        assert(torrents.take(i) =~= torrents);
        lemma_rate_sum_nonnegative(torrents, upload);
    }
}

proof fn lemma_rate_sum_nonnegative(torrents: Seq<TorrentSnapshot>, upload: bool)
    ensures
        rate_sum(torrents, upload) >= 0,
    decreases torrents.len(),
{
    if torrents.len() > 0 {
        lemma_rate_sum_nonnegative(torrents.drop_last(), upload);
    }
}

/// The session's totals: how many torrents and peers the snapshot holds
/// (counted in 32 bits, the higher bits dropped) and the sums of the
/// torrents' rates.
pub fn session_totals(snapshot: &RuntimeSnapshot) -> (totals: SessionTotals)
    requires
        rate_sum(snapshot.torrents@, false) <= u64::MAX,
        rate_sum(snapshot.torrents@, true) <= u64::MAX,
    ensures
        totals.torrent_count == snapshot.torrents@.len() as u32,
        totals.peer_count == snapshot.peers@.len() as u32,
        totals.down_bytes == rate_sum(snapshot.torrents@, false),
        totals.up_bytes == rate_sum(snapshot.torrents@, true),
{
    let mut down: u64 = 0;
    let mut up: u64 = 0;
    let mut i: usize = 0;
    while i < snapshot.torrents.len()
        invariant
            i <= snapshot.torrents@.len(),
            down == rate_sum(snapshot.torrents@.take(i as int), false),
            up == rate_sum(snapshot.torrents@.take(i as int), true),
            rate_sum(snapshot.torrents@, false) <= u64::MAX,
            rate_sum(snapshot.torrents@, true) <= u64::MAX,
        decreases snapshot.torrents@.len() - i,
    {
        proof {
            lemma_rate_sum_prefix(snapshot.torrents@, i + 1, false);
            lemma_rate_sum_prefix(snapshot.torrents@, i + 1, true);
            assert(snapshot.torrents@.take(i + 1).drop_last() =~= snapshot.torrents@.take(i as int));
        }
        down = down + snapshot.torrents[i].down_rate;
        up = up + snapshot.torrents[i].up_rate;
        i = i + 1;
    }
    assert(snapshot.torrents@.take(i as int) =~= snapshot.torrents@);
    SessionTotals {
        torrent_count: snapshot.torrents.len() as u32,
        peer_count: snapshot.peers.len() as u32,
        down_bytes: down,
        up_bytes: up,
    }
}

/// The answer to a command as the application gives it: what the runtime
/// did, or its refusal in the application's terms.
pub open spec fn refused_as(res: Result<(), AppRefusal>, engine: Result<(), RuntimeError>) -> bool {
    match engine {
        Ok(()) => res is Ok,
        Err(e) => res matches Err(r) && app_refusal_of(r, e),
    }
}

/// Whether `r` is the application's refusal for runtime error `e`.
pub open spec fn app_refusal_of(r: AppRefusal, e: RuntimeError) -> bool {
    match e {
        RuntimeError::InvalidConfig(m) => r matches AppRefusal::InvalidCommand(t) && t@ == m@,
        RuntimeError::Magnet(m) => r matches AppRefusal::InvalidCommand(t) && t@ == m@,
        RuntimeError::Backpressure { .. } => r == AppRefusal::Backpressure,
        _ => r matches AppRefusal::Internal(t) && t@ == error_text(e),
    }
}

/// Settles a pause once the runtime has acted on it: a refusal is passed on
/// and nothing is recorded; otherwise the torrent's saved record becomes
/// paused, and the answer says whether a seeding worker must be stopped,
/// which it must when the torrent was seeding.
pub fn settle_pause(book: &mut TorrentBook, id: &TorrentId, engine: Result<(), RuntimeError>, was_seeding: bool) -> (res: Result<bool, AppRefusal>)
    requires
        old(book).wf(),
    ensures
        final(book).wf(),
        match engine {
            Err(e) => (res matches Err(r) && app_refusal_of(r, e)) && final(book)@ == old(book)@,
            Ok(()) => res == Ok::<bool, AppRefusal>(was_seeding) && final(book)@ == changed_at(
                old(book)@,
                id@,
                |t| with_state(t, PersistentTorrentState::Paused),
            ),
        },
{
    match engine {
        Err(e) => Err(app_refusal(&e)),
        Ok(()) => {
            book.set_state(id, PersistentTorrentState::Paused);
            Ok(was_seeding)
        },
    }
}

/// Settles a removal: the torrent's saved record is forgotten whatever the
/// runtime answered, and a refusal is passed on.
pub fn settle_remove(book: &mut TorrentBook, id: &TorrentId, engine: Result<(), RuntimeError>) -> (res: Result<(), AppRefusal>)
    requires
        old(book).wf(),
    ensures
        final(book).wf(),
        final(book)@ == old(book)@.remove(id@),
        refused_as(res, engine),
{
    let _ = book.remove(id);
    match engine {
        Err(e) => Err(app_refusal(&e)),
        Ok(()) => Ok(()),
    }
}

/// Records a torrent added from a file: saved as downloading, with no
/// completion time, replacing any earlier record of it.
pub fn record_file_add(book: &mut TorrentBook, id: TorrentId, path: String, destination: String)
    requires
        old(book).wf(),
    ensures
        final(book).wf(),
        final(book)@ == old(book)@.insert(id@, PersistentTorrent {
            source: PersistentTorrentSource::File { path },
            destination,
            state: PersistentTorrentState::Downloading,
            added_at_unix: 0,
            completed_at_unix: None,
        }),
{
    book.insert(id, PersistentTorrent {
        source: PersistentTorrentSource::File { path },
        destination,
        state: PersistentTorrentState::Downloading,
        added_at_unix: 0,
        completed_at_unix: None,
    });
}

/// Records a torrent added from a magnet link, saved as queued until its
/// metadata arrives; a torrent that already has a record is refused.
pub fn record_magnet_add(book: &mut TorrentBook, id: TorrentId, uri: String, destination: String) -> (res: Result<(), AppRefusal>)
    requires
        old(book).wf(),
    ensures
        final(book).wf(),
        old(book)@.dom().contains(id@) ==> (res matches Err(AppRefusal::InvalidCommand(t)) && t@ == "torrent already exists"@)
            && final(book)@ == old(book)@,
        !old(book)@.dom().contains(id@) ==> res is Ok && final(book)@ == old(book)@.insert(id@, PersistentTorrent {
            source: PersistentTorrentSource::Magnet { uri },
            destination,
            state: PersistentTorrentState::Queued,
            added_at_unix: 0,
            completed_at_unix: None,
        }),
{
    if book.contains(&id) {
        return Err(AppRefusal::InvalidCommand(String::from_str("torrent already exists")));
    }
    book.insert(id, PersistentTorrent {
        source: PersistentTorrentSource::Magnet { uri },
        destination,
        state: PersistentTorrentState::Queued,
        added_at_unix: 0,
        completed_at_unix: None,
    });
    Ok(())
}

/// Whether some id in the list is this one.
pub open spec fn lists_id(ids: Seq<TorrentId>, id: TorrentId) -> bool {
    exists|i: int| 0 <= i < ids.len() && #[trigger] ids[i]@ == id@
}

/// The torrents, in snapshot order, whose download is to start: those
/// discovering, with a plan at hand, and with no worker running for them.
pub open spec fn to_start(torrents: Seq<TorrentSnapshot>, running: Seq<TorrentId>, planned: Seq<TorrentId>) -> Seq<TorrentId>
    decreases torrents.len(),
{
    if torrents.len() == 0 {
        Seq::empty()
    } else {
        let rest = to_start(torrents.drop_last(), running, planned);
        let t = torrents.last();
        if t.status == TorrentStatus::Discovering && !lists_id(running, t.id) && lists_id(planned, t.id) {
            rest.push(t.id)
        } else {
            rest
        }
    }
}

pub(crate) fn id_listed(ids: &Vec<TorrentId>, id: &TorrentId) -> (found: bool)
    ensures
        found == lists_id(ids@, *id),
{
    let mut i: usize = 0;
    while i < ids.len()
        invariant
            i <= ids@.len(),
            forall|j: int| 0 <= j < i ==> #[trigger] ids@[j]@ != id@,
        decreases ids@.len() - i,
    {
        if ids[i].same_as(id) {
            assert(ids@[i as int]@ == id@);
            return true;
        }
        i = i + 1;
    }
    false
}

/// The downloads a tick starts: the torrents discovering that have a plan
/// at hand and no worker yet, in snapshot order.
pub fn downloads_to_start(snapshot: &RuntimeSnapshot, running: &Vec<TorrentId>, planned: &Vec<TorrentId>) -> (ids: Vec<TorrentId>)
    ensures
        ids@ == to_start(snapshot.torrents@, running@, planned@),
{
    let mut ids: Vec<TorrentId> = Vec::new();
    let mut i: usize = 0;
    while i < snapshot.torrents.len()
        invariant
            i <= snapshot.torrents@.len(),
            ids@ == to_start(snapshot.torrents@.take(i as int), running@, planned@),
        decreases snapshot.torrents@.len() - i,
    {
        let t = &snapshot.torrents[i];
        proof {
            assert(snapshot.torrents@.take(i as int + 1).drop_last() =~= snapshot.torrents@.take(i as int));
        }
        if t.status == TorrentStatus::Discovering && !id_listed(running, &t.id) && id_listed(planned, &t.id) {
            ids.push(t.id);
        }
        i = i + 1;
    }
    assert(snapshot.torrents@.take(i as int) =~= snapshot.torrents@);
    ids
}

} // verus!
