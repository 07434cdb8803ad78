use vstd::prelude::*;

use crate::app_view::{id_listed, lists_id};
use crate::book::{changed_at, completed, with_state, RestoreStep, TorrentBook};
use crate::dht::{dht_announce_due, DhtRuntimeEvent, DHT_ANNOUNCE_INTERVAL_SECS};
use crate::driver::{resume_complete, BgEvent, ResumeSummary};
use crate::engine::{
    announce_targets, applied, dht_peers_added, is_target, pushed, pushed_all, replaced_with_completed, synced,
    RuntimeCommand, RuntimeEngine,
};
use crate::error::{error_text, RuntimeError};
use crate::net::SocketAddress;
use crate::persist::{PersistentTorrent, PersistentTorrentState};
use crate::snapshot::{hash_same, RuntimeEvent, TorrentId};
use crate::task::TorrentCommand;
use crate::time::TimeSpan;
use crate::torrent::TorrentPlan;

verus! {

/// What the application's loop does next, in the order given.
#[derive(Debug)]
pub enum TickAction {
    /// Ask the DHT worker for peers of a torrent. A torrent is named by its
    /// v1 info hash, so the hash asked for is the id's bytes.
    RequestDhtLookup { torrent: TorrentId, info_hash: [u8; 20] },
    /// Start resolving a magnet link's metadata from these peers.
    ResolveMagnet { torrent: TorrentId, peers: Vec<SocketAddress> },
    /// Keep these peers for the torrent's download.
    KeepDownloadPeers { torrent: TorrentId, peers: Vec<SocketAddress> },
    /// Announce the torrent on the DHT on this port. Once the DHT worker has
    /// taken the announce, the loop calls `TickState::record_announce`.
    AnnounceDht { torrent: TorrentId, info_hash: [u8; 20], port: u16 },
    /// Start seeding a completed torrent from this plan.
    SpawnSeed { plan: Box<TorrentPlan> },
    /// The torrent's background worker is done: forget its handle.
    ReleaseWorker { torrent: TorrentId },
}

/// The ids with one added at the end, unless it is already there.
pub open spec fn added_id(ids: Seq<TorrentId>, id: TorrentId) -> Seq<TorrentId> {
    if lists_id(ids, id) {
        ids
    } else {
        ids.push(id)
    }
}

/// The ids other than `id`, in order.
pub open spec fn without_id(ids: Seq<TorrentId>, id: TorrentId) -> Seq<TorrentId>
    decreases ids.len(),
{
    if ids.len() == 0 {
        ids
    } else if ids.last()@ == id@ {
        without_id(ids.drop_last(), id)
    } else {
        without_id(ids.drop_last(), id).push(ids.last())
    }
}

/// The plans for torrents other than `id`, in order.
pub open spec fn without_plan(plans: Seq<TorrentPlan>, id: TorrentId) -> Seq<TorrentPlan>
    decreases plans.len(),
{
    if plans.len() == 0 {
        plans
    } else if plans.last().id@ == id@ {
        without_plan(plans.drop_last(), id)
    } else {
        without_plan(plans.drop_last(), id).push(plans.last())
    }
}

/// The latest plan held for a torrent.
pub open spec fn plan_for(plans: Seq<TorrentPlan>, id: TorrentId) -> Option<TorrentPlan>
    decreases plans.len(),
{
    if plans.len() == 0 {
        None
    } else if plans.last().id@ == id@ {
        Some(plans.last())
    } else {
        plan_for(plans.drop_last(), id)
    }
}

/// Law: the plan held for a torrent is the one last given for it, and a
/// plan given for one torrent leaves the plan held for any other alone.
pub proof fn law_held_plan_reads_back(plans: Seq<TorrentPlan>, plan: TorrentPlan, other: TorrentId)
    ensures
        plan_for(without_plan(plans, plan.id).push(plan), plan.id) == Some(plan),
        other@ != plan.id@ ==> plan_for(without_plan(plans, plan.id).push(plan), other) == plan_for(plans, other),
{
    let kept = without_plan(plans, plan.id);
    assert(kept.push(plan).drop_last() =~= kept);
    if other@ != plan.id@ {
        lemma_without_plan_keeps_others(plans, plan.id, other);
    }
}

/// Dropping the plans of one torrent leaves the plan held for another.
proof fn lemma_without_plan_keeps_others(plans: Seq<TorrentPlan>, id: TorrentId, other: TorrentId)
    requires
        other@ != id@,
    ensures
        plan_for(without_plan(plans, id), other) == plan_for(plans, other),
    decreases plans.len(),
{
    if plans.len() > 0 {
        lemma_without_plan_keeps_others(plans.drop_last(), id, other);
        if plans.last().id@ != id@ {
            assert(without_plan(plans, id).drop_last() =~= without_plan(plans.drop_last(), id));
        }
    }
}

/// The announce times of torrents other than `id`, in order.
pub open spec fn without_stamp(stamps: Seq<(TorrentId, TimeSpan)>, id: TorrentId) -> Seq<(TorrentId, TimeSpan)>
    decreases stamps.len(),
{
    if stamps.len() == 0 {
        stamps
    } else if stamps.last().0@ == id@ {
        without_stamp(stamps.drop_last(), id)
    } else {
        without_stamp(stamps.drop_last(), id).push(stamps.last())
    }
}

/// When the torrent was last announced on the DHT.
pub open spec fn last_announce(stamps: Seq<(TorrentId, TimeSpan)>, id: TorrentId) -> Option<TimeSpan>
    decreases stamps.len(),
{
    if stamps.len() == 0 {
        None
    } else if stamps.last().0@ == id@ {
        Some(stamps.last().1)
    } else {
        last_announce(stamps.drop_last(), id)
    }
}

/// What the application's loop remembers between steps: whether a DHT
/// worker runs and has bootstrapped, the magnet links waiting for their
/// metadata, the plans of the downloads it runs, the torrents whose DHT
/// lookup has come back, and when each torrent was last announced on the
/// DHT (as time since the loop began).
#[derive(Debug)]
pub struct TickState {
    dht_attached: bool,
    dht_bootstrapped: bool,
    magnets: Vec<TorrentId>,
    plans: Vec<TorrentPlan>,
    ready: Vec<TorrentId>,
    announced: Vec<(TorrentId, TimeSpan)>,
}

/// Whether a loop state holds exactly these values.
pub open spec fn tick_state_is(
    s: TickState,
    attached: bool,
    bootstrapped: bool,
    magnets: Seq<TorrentId>,
    plans: Seq<TorrentPlan>,
    ready: Seq<TorrentId>,
    announced: Seq<(TorrentId, TimeSpan)>,
) -> bool {
    &&& s.spec_attached() == attached
    &&& s.spec_bootstrapped() == bootstrapped
    &&& s.spec_magnets() == magnets
    &&& s.spec_plans() == plans
    &&& s.spec_ready() == ready
    &&& s.spec_announced() == announced
}

impl TickState {
    pub closed spec fn spec_attached(&self) -> bool {
        self.dht_attached
    }

    pub closed spec fn spec_bootstrapped(&self) -> bool {
        self.dht_bootstrapped
    }

    pub closed spec fn spec_magnets(&self) -> Seq<TorrentId> {
        self.magnets@
    }

    pub closed spec fn spec_plans(&self) -> Seq<TorrentPlan> {
        self.plans@
    }

    pub closed spec fn spec_ready(&self) -> Seq<TorrentId> {
        self.ready@
    }

    pub closed spec fn spec_announced(&self) -> Seq<(TorrentId, TimeSpan)> {
        self.announced@
    }

    /// A loop that has seen nothing yet; `dht_attached` says whether a DHT
    /// worker runs beside it.
    pub fn new(dht_attached: bool) -> (state: TickState)
        ensures
            tick_state_is(state, dht_attached, false, Seq::empty(), Seq::empty(), Seq::empty(), Seq::empty()),
    {
        TickState {
            dht_attached,
            dht_bootstrapped: false,
            magnets: Vec::new(),
            plans: Vec::new(),
            ready: Vec::new(),
            announced: Vec::new(),
        }
    }

    /// Whether a DHT worker runs.
    pub fn dht_attached(&self) -> (attached: bool)
        ensures
            attached == self.spec_attached(),
    {
        self.dht_attached
    }

    /// Whether the DHT worker has bootstrapped.
    pub fn dht_bootstrapped(&self) -> (bootstrapped: bool)
        ensures
            bootstrapped == self.spec_bootstrapped(),
    {
        self.dht_bootstrapped
    }

    /// Whether a magnet link waits for its metadata under this id.
    pub fn has_magnet(&self, id: &TorrentId) -> (has: bool)
        ensures
            has == lists_id(self.spec_magnets(), *id),
    {
        id_listed(&self.magnets, id)
    }

    /// Whether the DHT lookup for this torrent has come back.
    pub fn is_ready(&self, id: &TorrentId) -> (ready: bool)
        ensures
            ready == lists_id(self.spec_ready(), *id),
    {
        id_listed(&self.ready, id)
    }

    /// A magnet link now waits for its metadata.
    pub fn add_magnet(&mut self, id: TorrentId)
        ensures
            tick_state_is(*final(self), old(self).spec_attached(), old(self).spec_bootstrapped(),
                added_id(old(self).spec_magnets(), id), old(self).spec_plans(), old(self).spec_ready(),
                old(self).spec_announced()),
    {
        if !id_listed(&self.magnets, &id) {
            self.magnets.push(id);
        }
    }

    /// The torrent's DHT lookup has come back.
    fn mark_ready(&mut self, id: TorrentId)
        ensures
            tick_state_is(*final(self), old(self).spec_attached(), old(self).spec_bootstrapped(),
                old(self).spec_magnets(), old(self).spec_plans(), added_id(old(self).spec_ready(), id),
                old(self).spec_announced()),
    {
        if !id_listed(&self.ready, &id) {
            self.ready.push(id);
        }
    }

    /// The magnet link under this id no longer waits.
    fn drop_magnet(&mut self, id: &TorrentId)
        ensures
            tick_state_is(*final(self), old(self).spec_attached(), old(self).spec_bootstrapped(),
                without_id(old(self).spec_magnets(), *id), old(self).spec_plans(), old(self).spec_ready(),
                old(self).spec_announced()),
    {
        let mut kept: Vec<TorrentId> = Vec::new();
        let mut i: usize = 0;
        while i < self.magnets.len()
            invariant
                i <= self.magnets@.len(),
                kept@ == without_id(self.magnets@.take(i as int), *id),
            decreases self.magnets@.len() - i,
        {
            let m = self.magnets[i];
            proof {
                assert(self.magnets@.take(i as int + 1).drop_last() =~= self.magnets@.take(i as int));
            }
            if !m.same_as(id) {
                kept.push(m);
            }
            i = i + 1;
        }
        proof {
            assert(self.magnets@.take(i as int) =~= self.magnets@);
        }
        self.magnets = kept;
    }

    /// Holds the plan of a download, in place of any earlier plan for it.
    pub fn add_plan(&mut self, plan: TorrentPlan)
        ensures
            tick_state_is(*final(self), old(self).spec_attached(), old(self).spec_bootstrapped(),
                old(self).spec_magnets(), without_plan(old(self).spec_plans(), plan.id).push(plan),
                old(self).spec_ready(), old(self).spec_announced()),
    {
        let id = plan.id;
        let _ = self.take_plan(&id);
        self.plans.push(plan);
    }

    /// Hands out the plan held for a torrent and forgets every plan for it.
    fn take_plan(&mut self, id: &TorrentId) -> (plan: Option<TorrentPlan>)
        ensures
            plan == plan_for(old(self).spec_plans(), *id),
            tick_state_is(*final(self), old(self).spec_attached(), old(self).spec_bootstrapped(),
                old(self).spec_magnets(), without_plan(old(self).spec_plans(), *id), old(self).spec_ready(),
                old(self).spec_announced()),
    {
        let ghost orig = self.plans@;
        let mut rest: Vec<TorrentPlan> = Vec::new();
        std::mem::swap(&mut rest, &mut self.plans);
        let mut kept: Vec<TorrentPlan> = Vec::new();
        let mut found: Option<TorrentPlan> = None;
        let ghost mut i: int = 0;
        while rest.len() > 0
            invariant
                0 <= i <= orig.len(),
                rest@ == orig.subrange(i, orig.len() as int),
                kept@ == without_plan(orig.take(i), *id),
                found == plan_for(orig.take(i), *id),
                self.plans@.len() == 0,
                self.dht_attached == old(self).dht_attached,
                self.dht_bootstrapped == old(self).dht_bootstrapped,
                self.magnets == old(self).magnets,
                self.ready == old(self).ready,
                self.announced == old(self).announced,
            decreases rest@.len(),
        {
            let p = rest.remove(0);
            proof {
                assert(orig.take(i + 1).drop_last() =~= orig.take(i));
                assert(orig.take(i + 1).last() == p);
                i = i + 1;
                assert(rest@ =~= orig.subrange(i, orig.len() as int));
            }
            if p.id.same_as(id) {
                found = Some(p);
            } else {
                kept.push(p);
            }
        }
        proof {
            assert(orig.take(i) =~= orig);
        }
        self.plans = kept;
        found
    }

    /// A copy of the plan held for a torrent, if there is one.
    pub fn plan_copy(&self, id: &TorrentId) -> (copy: Option<TorrentPlan>)
        ensures
            match plan_for(self.spec_plans(), *id) {
                None => copy is None,
                Some(p) => copy matches Some(c) && c.same_plan(p),
            },
    {
        let mut copy: Option<TorrentPlan> = None;
        let mut i: usize = 0;
        while i < self.plans.len()
            invariant
                i <= self.plans@.len(),
                match plan_for(self.plans@.take(i as int), *id) {
                    None => copy is None,
                    Some(p) => copy matches Some(c) && c.same_plan(p),
                },
            decreases self.plans@.len() - i,
        {
            proof {
                assert(self.plans@.take(i as int + 1).drop_last() =~= self.plans@.take(i as int));
            }
            if self.plans[i].id.same_as(id) {
                copy = Some(self.plans[i].duplicate());
            }
            i = i + 1;
        }
        proof {
            assert(self.plans@.take(i as int) =~= self.plans@);
        }
        copy
    }

    /// The ids of the torrents whose plan is held, in order.
    pub fn planned_ids(&self) -> (ids: Vec<TorrentId>)
        ensures
            ids@ == self.spec_plans().map_values(|p: TorrentPlan| p.id),
    {
        let mut ids: Vec<TorrentId> = Vec::new();
        let mut i: usize = 0;
        while i < self.plans.len()
            invariant
                i <= self.plans@.len(),
                ids@ == self.plans@.take(i as int).map_values(|p: TorrentPlan| p.id),
            decreases self.plans@.len() - i,
        {
            ids.push(self.plans[i].id);
            proof {
                assert(self.plans@.take(i as int + 1).map_values(|p: TorrentPlan| p.id) =~= self.plans@.take(
                    i as int,
                ).map_values(|p: TorrentPlan| p.id).push(self.plans@[i as int].id));
            }
            i = i + 1;
        }
        proof {
            assert(self.plans@.take(i as int) =~= self.plans@);
        }
        ids
    }

    /// When the torrent was last announced on the DHT.
    pub fn last_announce(&self, id: &TorrentId) -> (last: Option<TimeSpan>)
        ensures
            last == last_announce(self.spec_announced(), *id),
    {
        let mut i: usize = self.announced.len();
        proof {
            assert(self.announced@.take(i as int) =~= self.announced@);
        }
        while i > 0
            invariant
                i <= self.announced@.len(),
                last_announce(self.announced@, *id) == last_announce(self.announced@.take(i as int), *id),
            decreases i,
        {
            proof {
                assert(self.announced@.take(i as int).drop_last() =~= self.announced@.take(i as int - 1));
            }
            if self.announced[i - 1].0.same_as(id) {
                return Some(self.announced[i - 1].1);
            }
            i = i - 1;
        }
        None
    }

    /// Records that the DHT worker took an announce of the torrent at `at`.
    pub fn record_announce(&mut self, id: TorrentId, at: TimeSpan)
        ensures
            tick_state_is(*final(self), old(self).spec_attached(), old(self).spec_bootstrapped(),
                old(self).spec_magnets(), old(self).spec_plans(), old(self).spec_ready(),
                without_stamp(old(self).spec_announced(), id).push((id, at))),
    {
        let mut kept: Vec<(TorrentId, TimeSpan)> = Vec::new();
        let mut i: usize = 0;
        while i < self.announced.len()
            invariant
                i <= self.announced@.len(),
                kept@ == without_stamp(self.announced@.take(i as int), id),
            decreases self.announced@.len() - i,
        {
            let entry = self.announced[i];
            proof {
                assert(self.announced@.take(i as int + 1).drop_last() =~= self.announced@.take(i as int));
            }
            if !entry.0.same_as(&id) {
                kept.push(entry);
            }
            i = i + 1;
        }
        proof {
            assert(self.announced@.take(i as int) =~= self.announced@);
        }
        kept.push((id, at));
        self.announced = kept;
    }
}

/// The lookup the DHT worker is asked for, for one torrent.
pub open spec fn lookup_action(id: TorrentId) -> TickAction {
    TickAction::RequestDhtLookup { torrent: id, info_hash: id.spec_bytes() }
}

/// Lookups for each torrent, in order.
pub open spec fn lookups(ids: Seq<TorrentId>) -> Seq<TickAction> {
    ids.map_values(|id: TorrentId| lookup_action(id))
}

/// Whether a torrent is due for a DHT announce: a DHT worker runs, the
/// torrent's lookup has come back, the client listens on a port, the last
/// announce (if any) lies at least the announce interval back, and the
/// runtime holds the torrent as one it announces.
pub open spec fn announce_due(s: TickState, e: RuntimeEngine, id: TorrentId, now: TimeSpan) -> bool {
    &&& s.spec_attached()
    &&& lists_id(s.spec_ready(), id)
    &&& e.spec_config().listen_port != 0
    &&& match last_announce(s.spec_announced(), id) {
        None => true,
        Some(last) => now@ >= last@ + DHT_ANNOUNCE_INTERVAL_SECS * 1_000_000_000,
    }
    &&& e.spec_task_map().contains_key(id@)
    &&& is_target(e.spec_task_map()[id@])
}

/// The announce a torrent gets, if it is due.
pub open spec fn announce_for(s: TickState, e: RuntimeEngine, id: TorrentId, now: TimeSpan) -> Seq<TickAction> {
    if announce_due(s, e, id, now) {
        seq![TickAction::AnnounceDht { torrent: id, info_hash: id.spec_bytes(), port: e.spec_config().listen_port }]
    } else {
        Seq::empty()
    }
}

/// The announces of several torrents, in order.
pub open spec fn announces(s: TickState, e: RuntimeEngine, ids: Seq<TorrentId>, now: TimeSpan) -> Seq<TickAction>
    decreases ids.len(),
{
    if ids.len() == 0 {
        Seq::empty()
    } else {
        announces(s, e, ids.drop_last(), now) + announce_for(s, e, ids.last(), now)
    }
}

/// The runtime after queueing one event, with nothing else changed.
pub open spec fn event_pushed(before: RuntimeEngine, after: RuntimeEngine, event: RuntimeEvent) -> bool {
    &&& after.spec_config() == before.spec_config()
    &&& after.spec_tasks() == before.spec_tasks()
    &&& after.spec_block_corruption() == before.spec_block_corruption()
    &&& after.spec_events() == pushed(before.spec_events(), before.spec_config().limits.max_event_queue as nat, event)
}

/// The runtime after queueing a failure of the torrent with this reason.
pub open spec fn failure_pushed(before: RuntimeEngine, after: RuntimeEngine, id: TorrentId, reason: Seq<char>) -> bool {
    exists|r: String| r@ == reason && event_pushed(before, after, RuntimeEvent::TaskFailed { torrent: id, reason: r })
}

/// A record moved to a new lifecycle state, where there is one.
pub open spec fn book_state(before: Map<Seq<u8>, PersistentTorrent>, id: TorrentId, state: PersistentTorrentState) -> Map<Seq<u8>, PersistentTorrent> {
    changed_at(before, id@, |t: PersistentTorrent| with_state(t, state))
}

/// What an event of the DHT worker does to the loop, the runtime and the
/// saved records, and the actions it asks for.
pub open spec fn dht_event_handled(
    s0: TickState,
    s1: TickState,
    e0: RuntimeEngine,
    e1: RuntimeEngine,
    b0: Map<Seq<u8>, PersistentTorrent>,
    b1: Map<Seq<u8>, PersistentTorrent>,
    event: DhtRuntimeEvent,
    now: TimeSpan,
    actions: Seq<TickAction>,
) -> bool {
    match event {
        DhtRuntimeEvent::Bootstrapped { .. } => {
            &&& tick_state_is(s1, s0.spec_attached(), true, s0.spec_magnets(), s0.spec_plans(), s0.spec_ready(), s0.spec_announced())
            &&& e1 == e0
            &&& b1 == b0
            &&& actions == (if s0.spec_attached() {
                lookups(s0.spec_magnets()) + lookups(announce_targets(e0.spec_tasks(), e0.spec_tasks().len()))
            } else {
                Seq::empty()
            })
        },
        DhtRuntimeEvent::PeersDiscovered { torrent, peers } => {
            &&& tick_state_is(s1, s0.spec_attached(), s0.spec_bootstrapped(), s0.spec_magnets(), s0.spec_plans(),
                added_id(s0.spec_ready(), torrent), s0.spec_announced())
            &&& b1 == b0
            &&& if lists_id(s0.spec_magnets(), torrent) {
                &&& e1 == e0
                &&& actions.len() == 2
                &&& actions[0] matches TickAction::KeepDownloadPeers { torrent: t, peers: p } && t == torrent && p@ == peers@
                &&& actions[1] == TickAction::ResolveMagnet { torrent, peers }
            } else {
                &&& exists|r: Result<usize, RuntimeError>| dht_peers_added(e0, e1, torrent, peers@, r)
                &&& actions == announce_for(s1, e1, torrent, now)
            }
        },
        DhtRuntimeEvent::LookupExhausted { torrent } => {
            &&& tick_state_is(s1, s0.spec_attached(), s0.spec_bootstrapped(), s0.spec_magnets(), s0.spec_plans(),
                added_id(s0.spec_ready(), torrent), s0.spec_announced())
            &&& if lists_id(s0.spec_magnets(), torrent) {
                &&& b1 == book_state(b0, torrent, PersistentTorrentState::Failed)
                &&& failure_pushed(e0, e1, torrent, "DHT peer lookup exhausted"@)
                &&& actions.len() == 0
            } else {
                &&& e1 == e0
                &&& b1 == b0
                &&& actions == announce_for(s1, e1, torrent, now)
            }
        },
        DhtRuntimeEvent::Announced { torrent, nodes } => {
            &&& s1 == s0
            &&& b1 == b0
            &&& event_pushed(e0, e1, RuntimeEvent::DhtAnnounced { torrent, nodes })
            &&& actions.len() == 0
        },
        DhtRuntimeEvent::Failed { .. } => s1 == s0 && e1 == e0 && b1 == b0 && actions.len() == 0,
    }
}

/// Adds lookups for each listed torrent.
fn push_lookups(ids: &Vec<TorrentId>, actions: &mut Vec<TickAction>)
    ensures
        final(actions)@ == old(actions)@ + lookups(ids@),
{
    let mut i: usize = 0;
    while i < ids.len()
        invariant
            i <= ids@.len(),
            actions@ == old(actions)@ + lookups(ids@.take(i as int)),
        decreases ids@.len() - i,
    {
        let id = ids[i];
        actions.push(TickAction::RequestDhtLookup { torrent: id, info_hash: *id.as_bytes() });
        proof {
            assert(lookups(ids@.take(i as int + 1)) =~= lookups(ids@.take(i as int)).push(lookup_action(id)));
        }
        i = i + 1;
    }
    proof {
        assert(ids@.take(i as int) =~= ids@);
    }
}

/// Adds an announce of the torrent, if it is due.
fn announce_if_due(state: &TickState, engine: &RuntimeEngine, id: TorrentId, now: TimeSpan, actions: &mut Vec<TickAction>)
    requires
        engine.wf(),
    ensures
        final(actions)@ == old(actions)@ + announce_for(*state, *engine, id, now),
{
    let since = match state.last_announce(&id) {
        None => None,
        Some(last) => Some(now.saturating_sub(&last)),
    };
    let port = engine.config().listen_port;
    if state.dht_attached() && dht_announce_due(state.is_ready(&id), port, since) {
        match engine.dht_announce_target(id) {
            Some(_) => {
                actions.push(TickAction::AnnounceDht { torrent: id, info_hash: *id.as_bytes(), port });
            },
            None => {},
        }
    }
    proof {
        assert(final(actions)@ =~= old(actions)@ + announce_for(*state, *engine, id, now));
    }
}

/// Handles one event of the DHT worker. Once the worker has bootstrapped,
/// lookups go out for every waiting magnet link and every torrent the
/// runtime announces; peers found for a waiting magnet link go to its
/// metadata resolution, and otherwise to the torrent, which is then
/// announced if due; a lookup that runs dry fails a waiting magnet link
/// and otherwise lets the torrent be announced; a finished announce is
/// queued as an event.
pub fn on_dht_event(
    state: &mut TickState,
    engine: &mut RuntimeEngine,
    book: &mut TorrentBook,
    event: DhtRuntimeEvent,
    now: TimeSpan,
) -> (actions: Vec<TickAction>)
    requires
        old(engine).wf(),
        old(book).wf(),
    ensures
        final(engine).wf(),
        final(book).wf(),
        dht_event_handled(*old(state), *final(state), *old(engine), *final(engine), old(book)@, final(book)@, event, now, actions@),
{
    let mut actions: Vec<TickAction> = Vec::new();
    match event {
        DhtRuntimeEvent::Bootstrapped { .. } => {
            state.dht_bootstrapped = true;
            if state.dht_attached {
                push_lookups(&state.magnets, &mut actions);
                let targets = engine.dht_announce_targets();
                let mut ids: Vec<TorrentId> = Vec::new();
                let mut i: usize = 0;
                while i < targets.len()
                    invariant
                        i <= targets@.len(),
                        ids@ == targets@.take(i as int).map_values(|p: (TorrentId, [u8; 20])| p.0),
                    decreases targets@.len() - i,
                {
                    ids.push(targets[i].0);
                    proof {
                        assert(targets@.take(i as int + 1).map_values(|p: (TorrentId, [u8; 20])| p.0) =~= targets@.take(
                            i as int,
                        ).map_values(|p: (TorrentId, [u8; 20])| p.0).push(targets@[i as int].0));
                    }
                    i = i + 1;
                }
                proof {
                    assert(targets@.take(i as int) =~= targets@);
                }
                push_lookups(&ids, &mut actions);
            }
        },
        DhtRuntimeEvent::PeersDiscovered { torrent, peers } => {
            state.mark_ready(torrent);
            if state.has_magnet(&torrent) {
                let kept = copy_addresses(&peers);
                actions.push(TickAction::KeepDownloadPeers { torrent, peers: kept });
                actions.push(TickAction::ResolveMagnet { torrent, peers });
            } else {
                let _ = engine.add_dht_peers(torrent, peers);
                announce_if_due(state, engine, torrent, now, &mut actions);
            }
        },
        DhtRuntimeEvent::LookupExhausted { torrent } => {
            state.mark_ready(torrent);
            if state.has_magnet(&torrent) {
                book.set_state(&torrent, PersistentTorrentState::Failed);
                engine.push_event(RuntimeEvent::TaskFailed {
                    torrent,
                    reason: String::from_str("DHT peer lookup exhausted"),
                });
            } else {
                announce_if_due(state, engine, torrent, now, &mut actions);
            }
        },
        DhtRuntimeEvent::Announced { torrent, nodes } => {
            engine.push_event(RuntimeEvent::DhtAnnounced { torrent, nodes });
        },
        DhtRuntimeEvent::Failed { .. } => {},
    }
    actions
}

/// A copy of a list of addresses.
fn copy_addresses(v: &Vec<SocketAddress>) -> (copy: Vec<SocketAddress>)
    ensures
        copy@ == v@,
{
    let mut copy: Vec<SocketAddress> = Vec::new();
    let mut i: usize = 0;
    while i < v.len()
        invariant
            i <= v@.len(),
            copy@ == v@.take(i as int),
        decreases v@.len() - i,
    {
        copy.push(v[i]);
        proof {
            assert(v@.take(i as int + 1) =~= v@.take(i as int).push(v@[i as int]));
        }
        i = i + 1;
    }
    proof {
        assert(v@.take(i as int) =~= v@);
    }
    copy
}

/// The runtime after a torrent is replaced by a completed one and the
/// events of the replacement are queued.
pub open spec fn completed_into(before: RuntimeEngine, after: RuntimeEngine, id: TorrentId) -> bool {
    exists|mid: RuntimeEngine, r: Result<Vec<RuntimeEvent>, RuntimeError>| {
        &&& #[trigger] replaced_with_completed(before, mid, id, r)
        &&& after.spec_config() == mid.spec_config()
        &&& after.spec_tasks() == mid.spec_tasks()
        &&& after.spec_block_corruption() == mid.spec_block_corruption()
        &&& after.spec_events() == match r {
            Ok(events) => pushed_all(mid.spec_events(), mid.spec_config().limits.max_event_queue as nat, events@),
            Err(_) => mid.spec_events(),
        }
    }
}

/// The runtime after adding a copy of the plan and starting the torrent;
/// the start is skipped when the plan is refused. `res` is the outcome.
pub open spec fn plan_started(before: RuntimeEngine, after: RuntimeEngine, plan: TorrentPlan, id: TorrentId, res: Result<(), RuntimeError>) -> bool {
    exists|p: TorrentPlan, mid: RuntimeEngine, r: Result<(), RuntimeError>| {
        &&& p.same_plan(plan)
        &&& #[trigger] applied(before, mid, RuntimeCommand::AddPlan(Box::new(p)), r)
        &&& match r {
            Err(e) => res == Err::<(), RuntimeError>(e) && after == mid,
            Ok(_) => applied(mid, after, RuntimeCommand::Torrent(id, TorrentCommand::Start), res),
        }
    }
}

/// What resolved metadata does once the worker is released and the peers
/// kept: the plan goes to the runtime and the torrent starts; on success
/// the plan is held, the record says downloading and the torrent is
/// announced if due; on failure the torrent fails with the error's text.
pub open spec fn resolution_handled(
    s0: TickState,
    s1: TickState,
    e0: RuntimeEngine,
    e1: RuntimeEngine,
    b0: Map<Seq<u8>, PersistentTorrent>,
    b1: Map<Seq<u8>, PersistentTorrent>,
    id: TorrentId,
    plan: TorrentPlan,
    now: TimeSpan,
    rest: Seq<TickAction>,
) -> bool {
    exists|mid: RuntimeEngine, res: Result<(), RuntimeError>| {
        &&& #[trigger] plan_started(e0, mid, plan, id, res)
        &&& match res {
            Ok(_) => {
                &&& e1 == mid
                &&& tick_state_is(s1, s0.spec_attached(), s0.spec_bootstrapped(), without_id(s0.spec_magnets(), id),
                    without_plan(s0.spec_plans(), plan.id).push(plan), s0.spec_ready(), s0.spec_announced())
                &&& b1 == book_state(b0, id, PersistentTorrentState::Downloading)
                &&& rest == announce_for(s1, e1, id, now)
            },
            Err(e) => {
                &&& failure_pushed(mid, e1, id, error_text(e))
                &&& tick_state_is(s1, s0.spec_attached(), s0.spec_bootstrapped(), without_id(s0.spec_magnets(), id),
                    s0.spec_plans(), s0.spec_ready(), s0.spec_announced())
                &&& b1 == book_state(b0, id, PersistentTorrentState::Failed)
                &&& rest.len() == 0
            },
        }
    }
}

/// What a background worker's report does to the loop, the runtime and
/// the saved records, and the actions it asks for.
pub open spec fn bg_report_handled(
    s0: TickState,
    s1: TickState,
    e0: RuntimeEngine,
    e1: RuntimeEngine,
    b0: Map<Seq<u8>, PersistentTorrent>,
    b1: Map<Seq<u8>, PersistentTorrent>,
    report: BgEvent,
    now: TimeSpan,
    actions: Seq<TickAction>,
) -> bool {
    match report {
        BgEvent::Progress { id, verified_bytes, .. } => {
            &&& s1 == s0
            &&& b1 == b0
            &&& exists|r: Result<(), RuntimeError>| synced(e0, e1, id, verified_bytes, r)
            &&& actions.len() == 0
        },
        BgEvent::Completed { id } => {
            &&& tick_state_is(s1, s0.spec_attached(), s0.spec_bootstrapped(), s0.spec_magnets(),
                without_plan(s0.spec_plans(), id), s0.spec_ready(), s0.spec_announced())
            &&& b1 == changed_at(b0, id@, |t: PersistentTorrent| completed(t))
            &&& completed_into(e0, e1, id)
            &&& actions == seq![TickAction::ReleaseWorker { torrent: id }] + match plan_for(s0.spec_plans(), id) {
                Some(plan) => if e0.spec_config().seed_policy.seed_after_complete {
                    seq![TickAction::SpawnSeed { plan: Box::new(plan) }]
                } else {
                    Seq::empty()
                },
                None => Seq::empty(),
            }
        },
        BgEvent::Failed { id, reason } => {
            &&& tick_state_is(s1, s0.spec_attached(), s0.spec_bootstrapped(), s0.spec_magnets(),
                without_plan(s0.spec_plans(), id), s0.spec_ready(), s0.spec_announced())
            &&& b1 == book_state(b0, id, PersistentTorrentState::Failed)
            &&& event_pushed(e0, e1, RuntimeEvent::TaskFailed { torrent: id, reason })
            &&& actions == seq![TickAction::ReleaseWorker { torrent: id }]
        },
        BgEvent::SourceFailed { id, source, reason } => {
            &&& s1 == s0
            &&& b1 == b0
            &&& event_pushed(e0, e1, RuntimeEvent::SourceFailed { torrent: id, source, reason })
            &&& actions.len() == 0
        },
        BgEvent::PeerDisconnected { id, addr } => {
            &&& s1 == s0
            &&& b1 == b0
            &&& event_pushed(e0, e1, RuntimeEvent::PeerDisconnected { torrent: id, addr })
            &&& actions.len() == 0
        },
        BgEvent::Runtime { event } => {
            &&& s1 == s0
            &&& b1 == b0
            &&& event_pushed(e0, e1, event)
            &&& actions.len() == 0
        },
        BgEvent::MagnetMetadataResolved { id, plan, peers } => {
            &&& actions.len() >= 2
            &&& actions[0] == TickAction::ReleaseWorker { torrent: id }
            &&& actions[1] matches TickAction::KeepDownloadPeers { torrent: t, peers: p } && t == id
                && p@ == (if plan.private { Seq::<SocketAddress>::empty() } else { peers@ })
            &&& resolution_handled(s0, s1, e0, e1, b0, b1, id, *plan, now, actions.subrange(2, actions.len() as int))
        },
        BgEvent::MagnetResolutionFailed { id, reason, try_dht } => {
            &&& s1 == s0
            &&& if try_dht && s0.spec_attached() && lists_id(s0.spec_magnets(), id) {
                &&& e1 == e0
                &&& b1 == b0
                &&& actions == seq![TickAction::ReleaseWorker { torrent: id }] + (if s0.spec_bootstrapped() {
                    seq![lookup_action(id)]
                } else {
                    Seq::empty()
                })
            } else {
                &&& b1 == book_state(b0, id, PersistentTorrentState::Failed)
                &&& event_pushed(e0, e1, RuntimeEvent::TaskFailed { torrent: id, reason })
                &&& actions == seq![TickAction::ReleaseWorker { torrent: id }]
            }
        },
    }
}

/// Resolved metadata: the worker is released and the peers kept (none
/// for a private torrent); the plan goes to the runtime and the torrent
/// starts.
fn on_resolved(
    state: &mut TickState,
    engine: &mut RuntimeEngine,
    book: &mut TorrentBook,
    id: TorrentId,
    plan: Box<TorrentPlan>,
    peers: Vec<SocketAddress>,
    now: TimeSpan,
) -> (actions: Vec<TickAction>)
    requires
        old(engine).wf(),
        old(book).wf(),
    ensures
        final(engine).wf(),
        final(book).wf(),
        actions@.len() >= 2,
        actions@[0] == (TickAction::ReleaseWorker { torrent: id }),
        (actions@[1] matches TickAction::KeepDownloadPeers { torrent: t, peers: p } && t == id
            && p@ == (if plan.private { Seq::<SocketAddress>::empty() } else { peers@ })),
        resolution_handled(*old(state), *final(state), *old(engine), *final(engine), old(book)@, final(book)@, id,
            *plan, now, actions@.subrange(2, actions@.len() as int)),
{
    let mut actions: Vec<TickAction> = Vec::new();
    actions.push(TickAction::ReleaseWorker { torrent: id });
    state.drop_magnet(&id);
    let kept = if plan.private { Vec::new() } else { peers };
    actions.push(TickAction::KeepDownloadPeers { torrent: id, peers: kept });
    let ghost e0 = *engine;
    let copy = plan.duplicate();
    let added = engine.apply(RuntimeCommand::AddPlan(Box::new(copy)));
    let res = match added {
        Ok(()) => engine.apply(RuntimeCommand::Torrent(id, TorrentCommand::Start)),
        Err(e) => Err(e),
    };
    let ghost e_started = *engine;
    proof {
        assert(plan_started(e0, e_started, *plan, id, res));
    }
    match res {
        Ok(()) => {
            state.add_plan(*plan);
            book.set_state(&id, PersistentTorrentState::Downloading);
            let mut rest: Vec<TickAction> = Vec::new();
            announce_if_due(state, engine, id, now, &mut rest);
            actions.append(&mut rest);
            proof {
                assert(actions@.subrange(2, actions@.len() as int) =~= announce_for(*state, *engine, id, now));
            }
        },
        Err(e) => {
            engine.push_event(RuntimeEvent::TaskFailed { torrent: id, reason: e.message() });
            book.set_state(&id, PersistentTorrentState::Failed);
            proof {
                assert(actions@.subrange(2, actions@.len() as int) =~= Seq::<TickAction>::empty());
            }
        },
    }
    actions
}

/// A completed download: the worker is released, the plan forgotten, the
/// record marked complete and the runtime's torrent replaced by a completed
/// one; seeding starts from the held plan when the policy says to seed.
fn on_completed(state: &mut TickState, engine: &mut RuntimeEngine, book: &mut TorrentBook, id: TorrentId, now: TimeSpan) -> (actions: Vec<TickAction>)
    requires
        old(engine).wf(),
        old(book).wf(),
    ensures
        final(engine).wf(),
        final(book).wf(),
        bg_report_handled(*old(state), *final(state), *old(engine), *final(engine), old(book)@, final(book)@,
            (BgEvent::Completed { id }), now, actions@),
{
    let mut actions: Vec<TickAction> = Vec::new();
    actions.push(TickAction::ReleaseWorker { torrent: id });
    let plan = state.take_plan(&id);
    book.mark_complete(&id);
    let ghost e0 = *engine;
    let replaced = engine.replace_with_completed(id);
    let ghost mid = *engine;
    let ghost r = replaced;
    match replaced {
        Ok(events) => {
            engine.push_events(events);
        },
        Err(_) => {},
    }
    proof {
        assert(replaced_with_completed(e0, mid, id, r));
    }
    let seeding = engine.config().seed_policy.seed_after_complete;
    match plan {
        Some(p) => {
            if seeding {
                actions.push(TickAction::SpawnSeed { plan: Box::new(p) });
            }
        },
        None => {},
    }
    proof {
        assert(actions@ =~= seq![TickAction::ReleaseWorker { torrent: id }] + match plan_for(old(state).spec_plans(), id) {
            Some(plan) => if e0.spec_config().seed_policy.seed_after_complete {
                seq![TickAction::SpawnSeed { plan: Box::new(plan) }]
            } else {
                Seq::empty()
            },
            None => Seq::empty(),
        });
    }
    actions
}

/// Handles one report of a background worker. Progress is passed to the
/// runtime; a completed download is replaced by a completed torrent and
/// seeded from its plan when the policy says to seed; a failed download
/// fails; source failures, lost peers and runtime events are queued;
/// resolved metadata becomes a started download, or a failure when the
/// runtime refuses it; a failed resolution is retried over the DHT when
/// the worker asks for it, a DHT worker runs and the magnet link still
/// waits, and fails the torrent otherwise.
pub fn on_bg_report(
    state: &mut TickState,
    engine: &mut RuntimeEngine,
    book: &mut TorrentBook,
    report: BgEvent,
    now: TimeSpan,
) -> (actions: Vec<TickAction>)
    requires
        old(engine).wf(),
        old(book).wf(),
    ensures
        final(engine).wf(),
        final(book).wf(),
        bg_report_handled(*old(state), *final(state), *old(engine), *final(engine), old(book)@, final(book)@, report, now, actions@),
{
    match report {
        BgEvent::Progress { id, verified_bytes, .. } => {
            let _ = engine.sync_progress(id, verified_bytes);
            Vec::new()
        },
        BgEvent::Completed { id } => on_completed(state, engine, book, id, now),
        BgEvent::Failed { id, reason } => {
            let _ = state.take_plan(&id);
            book.set_state(&id, PersistentTorrentState::Failed);
            engine.push_event(RuntimeEvent::TaskFailed { torrent: id, reason });
            let mut actions: Vec<TickAction> = Vec::new();
            actions.push(TickAction::ReleaseWorker { torrent: id });
            proof {
                assert(actions@ =~= seq![TickAction::ReleaseWorker { torrent: id }]);
            }
            actions
        },
        BgEvent::SourceFailed { id, source, reason } => {
            engine.push_event(RuntimeEvent::SourceFailed { torrent: id, source, reason });
            Vec::new()
        },
        BgEvent::PeerDisconnected { id, addr } => {
            engine.push_event(RuntimeEvent::PeerDisconnected { torrent: id, addr });
            Vec::new()
        },
        BgEvent::Runtime { event } => {
            engine.push_event(event);
            Vec::new()
        },
        BgEvent::MagnetMetadataResolved { id, plan, peers } => on_resolved(state, engine, book, id, plan, peers, now),
        BgEvent::MagnetResolutionFailed { id, reason, try_dht } => {
            let mut actions: Vec<TickAction> = Vec::new();
            actions.push(TickAction::ReleaseWorker { torrent: id });
            if try_dht && state.dht_attached() && state.has_magnet(&id) {
                if state.dht_bootstrapped() {
                    actions.push(TickAction::RequestDhtLookup { torrent: id, info_hash: *id.as_bytes() });
                }
                proof {
                    assert(actions@ =~= seq![TickAction::ReleaseWorker { torrent: id }] + (if old(state).spec_bootstrapped() {
                        seq![lookup_action(id)]
                    } else {
                        Seq::empty()
                    }));
                }
            } else {
                book.set_state(&id, PersistentTorrentState::Failed);
                engine.push_event(RuntimeEvent::TaskFailed { torrent: id, reason });
                proof {
                    assert(actions@ =~= seq![TickAction::ReleaseWorker { torrent: id }]);
                }
            }
            actions
        },
    }
}

/// The announces a step makes after its events: each torrent the runtime
/// announces, in order, gets an announce if it is due.
pub fn announce_round(state: &TickState, engine: &RuntimeEngine, now: TimeSpan) -> (actions: Vec<TickAction>)
    requires
        engine.wf(),
    ensures
        actions@ == announces(*state, *engine, announce_targets(engine.spec_tasks(), engine.spec_tasks().len()), now),
{
    let targets = engine.dht_announce_targets();
    let ghost ids = targets@.map_values(|p: (TorrentId, [u8; 20])| p.0);
    let mut actions: Vec<TickAction> = Vec::new();
    let mut i: usize = 0;
    while i < targets.len()
        invariant
            engine.wf(),
            i <= targets@.len(),
            ids == targets@.map_values(|p: (TorrentId, [u8; 20])| p.0),
            actions@ == announces(*state, *engine, ids.take(i as int), now),
        decreases targets@.len() - i,
    {
        let id = targets[i].0;
        proof {
            assert(ids.take(i as int + 1).drop_last() =~= ids.take(i as int));
            assert(ids.take(i as int + 1).last() == id);
        }
        announce_if_due(state, engine, id, now, &mut actions);
        i = i + 1;
    }
    proof {
        assert(ids.take(i as int) =~= ids);
    }
    actions
}

/// The runtime after starting a torrent and pausing it again; the pause
/// is skipped when the start is refused. `res` is the outcome.
pub open spec fn start_paused(before: RuntimeEngine, after: RuntimeEngine, id: TorrentId, res: Result<(), RuntimeError>) -> bool {
    exists|mid: RuntimeEngine, r: Result<(), RuntimeError>| {
        &&& #[trigger] applied(before, mid, RuntimeCommand::Torrent(id, TorrentCommand::Start), r)
        &&& match r {
            Err(e) => res == Err::<(), RuntimeError>(e) && after == mid,
            Ok(_) => applied(mid, after, RuntimeCommand::Torrent(id, TorrentCommand::Pause), res),
        }
    }
}

/// What adding a saved torrent's plan does: a copy of the plan goes to the
/// runtime, and a torrent saved as paused is then started and paused; a
/// magnet link has no plan and changes nothing.
pub open spec fn restore_added(before: RuntimeEngine, after: RuntimeEngine, plan: TorrentPlan, step: RestoreStep, res: Result<(), RuntimeError>) -> bool {
    if step == RestoreStep::AwaitMagnet {
        res is Ok && after == before
    } else {
        exists|p: TorrentPlan, mid: RuntimeEngine, r: Result<(), RuntimeError>| {
            &&& p.same_plan(plan)
            &&& #[trigger] applied(before, mid, RuntimeCommand::AddPlan(Box::new(p)), r)
            &&& match r {
                Err(e) => res == Err::<(), RuntimeError>(e) && after == mid,
                Ok(_) => if step == RestoreStep::StartPaused {
                    start_paused(mid, after, plan.id, res)
                } else {
                    res is Ok && after == mid
                },
            }
        }
    }
}

/// Brings a saved torrent back into the runtime, before its data on disk is
/// checked: the plan is added, and a torrent saved as paused is started and
/// paused again. A magnet link waits for its metadata instead.
pub fn restore_add(engine: &mut RuntimeEngine, plan: &TorrentPlan, step: RestoreStep) -> (res: Result<(), RuntimeError>)
    requires
        old(engine).wf(),
    ensures
        final(engine).wf(),
        restore_added(*old(engine), *final(engine), *plan, step, res),
{
    if step == RestoreStep::AwaitMagnet {
        return Ok(());
    }
    let ghost e0 = *engine;
    let copy = plan.duplicate();
    let added = engine.apply(RuntimeCommand::AddPlan(Box::new(copy)));
    let ghost mid = *engine;
    let res = match added {
        Err(e) => Err(e),
        Ok(()) => {
            if step == RestoreStep::StartPaused {
                let started = engine.apply(RuntimeCommand::Torrent(plan.id, TorrentCommand::Start));
                let ghost mid2 = *engine;
                let ghost r2 = started;
                let paused = match started {
                    Err(e) => Err(e),
                    Ok(()) => engine.apply(RuntimeCommand::Torrent(plan.id, TorrentCommand::Pause)),
                };
                proof {
                    assert(applied(mid, mid2, RuntimeCommand::Torrent(plan.id, TorrentCommand::Start), r2));
                    assert(start_paused(mid, *engine, plan.id, paused));
                }
                paused
            } else {
                Ok(())
            }
        },
    };
    proof {
        assert(applied(e0, mid, RuntimeCommand::AddPlan(Box::new(copy)), added));
    }
    res
}

/// What finishing the restore of a torrent does once its data on disk was
/// checked. A torrent saved as complete whose every piece verified, none
/// missing or failed, is replaced by a completed torrent, the replacement's
/// events queued, and seeded from its plan when the policy says to seed;
/// one whose data did not check out is started and paused. A torrent saved
/// as downloading has its plan held and is started. Nothing else happens
/// for the other steps.
pub open spec fn restore_finished(
    s0: TickState,
    s1: TickState,
    e0: RuntimeEngine,
    e1: RuntimeEngine,
    plan: TorrentPlan,
    step: RestoreStep,
    summary: ResumeSummary,
    res: Result<Vec<TickAction>, RuntimeError>,
) -> bool {
    match step {
        RestoreStep::VerifyComplete => {
            &&& s1 == s0
            &&& if summary.verified == plan.piece_count && summary.missing == 0 && summary.failed == 0 {
                exists|mid: RuntimeEngine, r: Result<Vec<RuntimeEvent>, RuntimeError>| {
                    &&& #[trigger] replaced_with_completed(e0, mid, plan.id, r)
                    &&& match r {
                        Err(e) => res == Err::<Vec<TickAction>, RuntimeError>(e) && e1 == mid,
                        Ok(events) => {
                            &&& e1.spec_config() == mid.spec_config()
                            &&& e1.spec_tasks() == mid.spec_tasks()
                            &&& e1.spec_block_corruption() == mid.spec_block_corruption()
                            &&& e1.spec_events() == pushed_all(mid.spec_events(), mid.spec_config().limits.max_event_queue as nat, events@)
                            &&& res matches Ok(actions) && actions@ == (if e0.spec_config().seed_policy.seed_after_complete {
                                seq![TickAction::SpawnSeed { plan: Box::new(plan) }]
                            } else {
                                Seq::empty()
                            })
                        },
                    }
                }
            } else {
                exists|r: Result<(), RuntimeError>| {
                    &&& #[trigger] start_paused(e0, e1, plan.id, r)
                    &&& match r {
                        Err(e) => res == Err::<Vec<TickAction>, RuntimeError>(e),
                        Ok(_) => res matches Ok(actions) && actions@.len() == 0,
                    }
                }
            }
        },
        RestoreStep::VerifyAndDownload => {
            &&& tick_state_is(s1, s0.spec_attached(), s0.spec_bootstrapped(), s0.spec_magnets(),
                without_plan(s0.spec_plans(), plan.id).push(plan), s0.spec_ready(), s0.spec_announced())
            &&& exists|r: Result<(), RuntimeError>| {
                &&& #[trigger] applied(e0, e1, RuntimeCommand::Torrent(plan.id, TorrentCommand::Start), r)
                &&& match r {
                    Err(e) => res == Err::<Vec<TickAction>, RuntimeError>(e),
                    Ok(_) => res matches Ok(actions) && actions@.len() == 0,
                }
            }
        },
        _ => s1 == s0 && e1 == e0 && (res matches Ok(actions) && actions@.len() == 0),
    }
}

/// Finishes restoring a saved torrent once its data on disk was checked.
pub fn restore_checked(
    state: &mut TickState,
    engine: &mut RuntimeEngine,
    plan: TorrentPlan,
    step: RestoreStep,
    summary: &ResumeSummary,
) -> (res: Result<Vec<TickAction>, RuntimeError>)
    requires
        old(engine).wf(),
    ensures
        final(engine).wf(),
        restore_finished(*old(state), *final(state), *old(engine), *final(engine), plan, step, *summary, res),
{
    let id = plan.id;
    let ghost whole = plan;
    match step {
        RestoreStep::VerifyComplete => {
            if resume_complete(summary, plan.piece_count()) {
                let ghost e0 = *engine;
                let replaced = engine.replace_with_completed(id);
                let ghost mid = *engine;
                let ghost r = replaced;
                proof {
                    assert(replaced_with_completed(e0, mid, id, r));
                }
                let events = match replaced {
                    Err(e) => return Err(e),
                    Ok(events) => events,
                };
                engine.push_events(events);
                let mut actions: Vec<TickAction> = Vec::new();
                if engine.config().seed_policy.seed_after_complete {
                    actions.push(TickAction::SpawnSeed { plan: Box::new(plan) });
                }
                proof {
                    assert(actions@ =~= (if e0.spec_config().seed_policy.seed_after_complete {
                        seq![TickAction::SpawnSeed { plan: Box::new(whole) }]
                    } else {
                        Seq::empty()
                    }));
                }
                Ok(actions)
            } else {
                let ghost e0 = *engine;
                let started = engine.apply(RuntimeCommand::Torrent(id, TorrentCommand::Start));
                let ghost mid = *engine;
                let ghost r1 = started;
                let paused = match started {
                    Err(e) => Err(e),
                    Ok(()) => engine.apply(RuntimeCommand::Torrent(id, TorrentCommand::Pause)),
                };
                proof {
                    assert(applied(e0, mid, RuntimeCommand::Torrent(id, TorrentCommand::Start), r1));
                    assert(start_paused(e0, *engine, id, paused));
                }
                match paused {
                    Err(e) => Err(e),
                    Ok(()) => Ok(Vec::new()),
                }
            }
        },
        RestoreStep::VerifyAndDownload => {
            state.add_plan(plan);
            let started = engine.apply(RuntimeCommand::Torrent(id, TorrentCommand::Start));
            match started {
                Err(e) => Err(e),
                Ok(()) => Ok(Vec::new()),
            }
        },
        _ => Ok(Vec::new()),
    }
}

/// Whether a list of local-discovery targets names exactly these
/// torrents, in order, each with its own info hash.
pub open spec fn targets_match(targets: Seq<(TorrentId, [u8; 20])>, ids: Seq<TorrentId>) -> bool {
    &&& targets.len() == ids.len()
    &&& forall|i: int| 0 <= i < ids.len() ==> (#[trigger] targets[i]).0@ == ids[i]@ && targets[i].1@ == ids[i]@
}

/// The torrents to hand the local-discovery worker, when they differ from
/// those it was last given: the torrents the runtime announces, in order,
/// each with its info hash; `None` when `previous` names them already.
pub fn lsd_update(previous: &Vec<(TorrentId, [u8; 20])>, engine: &RuntimeEngine) -> (update: Option<Vec<(TorrentId, [u8; 20])>>)
    requires
        engine.wf(),
    ensures
        update is None <==> targets_match(previous@, announce_targets(engine.spec_tasks(), engine.spec_tasks().len())),
        update matches Some(t) ==> targets_match(t@, announce_targets(engine.spec_tasks(), engine.spec_tasks().len())),
{
    let current = engine.lsd_announce_targets();
    let ghost ids = announce_targets(engine.spec_tasks(), engine.spec_tasks().len());
    proof {
        assert(current@.map_values(|p: (TorrentId, [u8; 20])| p.0).len() == current@.len());
        assert forall|i: int| 0 <= i < ids.len() implies (#[trigger] current@[i]).0@ == ids[i]@ && current@[i].1@ == ids[i]@ by {
            assert(current@.map_values(|p: (TorrentId, [u8; 20])| p.0)[i] == current@[i].0);
        }
    }
    if previous.len() != current.len() {
        return Some(current);
    }
    let mut i: usize = 0;
    while i < current.len()
        invariant
            i <= current@.len(),
            previous@.len() == current@.len(),
            ids == announce_targets(engine.spec_tasks(), engine.spec_tasks().len()),
            targets_match(current@, ids),
            forall|j: int| 0 <= j < i ==> (#[trigger] previous@[j]).0@ == ids[j]@ && previous@[j].1@ == ids[j]@,
        decreases current@.len() - i,
    {
        if !previous[i].0.same_as(&current[i].0) || !hash_same(&previous[i].1, &current[i].1) {
            proof {
                assert(current@[i as int].0@ == ids[i as int]@ && current@[i as int].1@ == ids[i as int]@);
                assert(!(previous@[i as int].0@ == ids[i as int]@ && previous@[i as int].1@ == ids[i as int]@));
            }
            return Some(current);
        }
        i = i + 1;
    }
    None
}

/// The DHT lookup for a torrent, when it can be asked for now: a DHT
/// worker runs and has bootstrapped. Otherwise the lookup waits for the
/// bootstrap, which looks up every waiting magnet link and announced torrent.
pub fn lookup_request(state: &TickState, id: TorrentId) -> (action: Option<TickAction>)
    ensures
        action == (if state.spec_attached() && state.spec_bootstrapped() {
            Some(lookup_action(id))
        } else {
            None
        }),
{
    if state.dht_attached() && state.dht_bootstrapped() {
        Some(TickAction::RequestDhtLookup { torrent: id, info_hash: *id.as_bytes() })
    } else {
        None
    }
}

/// The DHT lookup that follows adding a torrent from a file: only a
/// torrent the runtime announces is looked up, and only when the lookup
/// can be asked for now.
pub fn lookup_after_add(state: &TickState, engine: &RuntimeEngine, id: TorrentId) -> (action: Option<TickAction>)
    requires
        engine.wf(),
    ensures
        action == (if engine.spec_task_map().contains_key(id@) && is_target(engine.spec_task_map()[id@])
            && state.spec_attached() && state.spec_bootstrapped() {
            Some(lookup_action(id))
        } else {
            None
        }),
{
    match engine.dht_announce_target(id) {
        Some(_) => lookup_request(state, id),
        None => None,
    }
}

} // verus!
