use std::collections::VecDeque;

use vstd::prelude::*;

use crate::config::{runtime_config_error, RuntimeConfig, RuntimeLimits, SeedPolicy};
use crate::corruption::BlockCorruptionTracker;
use crate::error::{error_text, FailureScope, RetryClass, RuntimeError};
use crate::format::{decimal, decimal_string};
use crate::snapshot::{
    bytes_less, lemma_bytes_less_irreflexive, lemma_bytes_less_total, lemma_bytes_less_transitive,
    RuntimeEvent, TorrentId,
};
use crate::corruption::{failure_count, with_failure};
use crate::net::SocketAddress;
use crate::snapshot::TorrentStatus;
use crate::source::{EndpointView, SourceKind};
use crate::task::{PeerActivity, command_outcome, events_match, offer, offer_dht_peers, TorrentCommand, TorrentTask};
use crate::torrent::TorrentPlan;

verus! {

/// A magnet link to add, and where its data goes.
#[derive(Clone, Debug, PartialEq, Eq)]
pub struct MagnetAdd {
    pub uri: String,
    pub destination: String,
}

/// A command to the runtime.
#[derive(Debug)]
pub enum RuntimeCommand {
    AddPlan(Box<TorrentPlan>),
    AddMagnet(Box<MagnetAdd>),
    Torrent(TorrentId, TorrentCommand),
    Remove(TorrentId),
}

/// A change to the runtime's settings; `None` leaves a setting as it is.
#[derive(Clone, Copy, Debug, PartialEq, Eq)]
pub struct SettingsPatch {
    pub listen_port: Option<u16>,
    pub limits: Option<RuntimeLimits>,
    pub seed_policy: Option<SeedPolicy>,
}

/// What undoes a staged change.
#[derive(Debug)]
pub enum RollbackRecord {
    AddRollback { id: TorrentId },
    RemoveRollback { id: TorrentId, plan: Box<TorrentPlan> },
    SettingsRollback { previous: Box<RuntimeConfig> },
}

/// A change the runtime stages before it executes it.
#[derive(Debug)]
pub enum StageIntent {
    Add { plan: Box<TorrentPlan> },
    Remove { id: TorrentId, delete_data: bool },
    Pause { id: TorrentId },
    Resume { id: TorrentId },
    Settings { patch: SettingsPatch },
}

/// Where a staged change stands.
#[derive(Clone, Copy, Debug, PartialEq, Eq, Structural)]
pub enum IntentState {
    Declared,
    Validated,
    Executed,
    Failed,
    RolledBack,
}

impl StageIntent {
    /// A change starts out declared.
    pub fn state(&self) -> (state: IntentState)
        ensures
            state == IntentState::Declared,
    {
        IntentState::Declared
    }
}

/// The torrents of a runtime and its event queue.
#[derive(Debug)]
pub struct RuntimeEngine {
    config: RuntimeConfig,
    tasks: Vec<TorrentTask>,
    events: VecDeque<RuntimeEvent>,
    block_corruption: BlockCorruptionTracker,
}

/// The events after pushing one onto a queue bounded by `max`: the oldest
/// is dropped when the queue is exactly full.
pub open spec fn pushed(events: Seq<RuntimeEvent>, max: nat, event: RuntimeEvent) -> Seq<RuntimeEvent> {
    if events.len() == max && events.len() > 0 {
        events.drop_first().push(event)
    } else {
        events.push(event)
    }
}

/// The events after pushing several in order.
pub open spec fn pushed_all(events: Seq<RuntimeEvent>, max: nat, new: Seq<RuntimeEvent>) -> Seq<RuntimeEvent>
    decreases new.len(),
{
    if new.len() == 0 {
        events
    } else {
        pushed(pushed_all(events, max, new.drop_last()), max, new.last())
    }
}

/// The configuration after a settings patch.
pub open spec fn patched(c: RuntimeConfig, patch: SettingsPatch) -> RuntimeConfig {
    RuntimeConfig {
        listen_port: match patch.listen_port { Some(p) => p, None => c.listen_port },
        limits: match patch.limits { Some(l) => l, None => c.limits },
        seed_policy: match patch.seed_policy { Some(p) => p, None => c.seed_policy },
        ..c
    }
}

/// Whether a task is announced: discovering, downloading or seeding, and public.
pub open spec fn is_target(t: TorrentTask) -> bool {
    crate::task::is_announcing(t.spec_status()) && !t.spec_plan().private
}

/// The ids of the announced tasks among the first `n`, in order.
pub open spec fn announce_targets(tasks: Seq<TorrentTask>, n: nat) -> Seq<TorrentId>
    decreases n,
{
    if n == 0 {
        Seq::empty()
    } else if is_target(tasks[n - 1]) {
        announce_targets(tasks, (n - 1) as nat).push(tasks[n - 1].spec_id())
    } else {
        announce_targets(tasks, (n - 1) as nat)
    }
}

/// A task that differs from `before` only in its lifecycle state.
pub open spec fn status_changed(before: TorrentTask, after: TorrentTask, status: TorrentStatus) -> bool {
    &&& after.spec_status() == status
    &&& after.spec_plan() == before.spec_plan()
    &&& after.spec_verified_bytes() == before.spec_verified_bytes()
    &&& after.spec_downloaded_bytes() == before.spec_downloaded_bytes()
    &&& after.spec_uploaded_bytes() == before.spec_uploaded_bytes()
    &&& after.spec_sources() == before.spec_sources()
    &&& after.spec_seed_after_complete() == before.spec_seed_after_complete()
}

/// The error for an id the runtime does not hold.
pub open spec fn unknown_torrent() -> RuntimeError {
    RuntimeError::InvalidConfig("unknown torrent")
}

/// What setting the verified bytes of a torrent does to a runtime, and its answer.
pub open spec fn synced(before: RuntimeEngine, after: RuntimeEngine, id: TorrentId, verified_bytes: u64, res: Result<(), RuntimeError>) -> bool {
    &&& after.spec_config() == before.spec_config()
    &&& after.spec_events() == before.spec_events()
    &&& after.spec_block_corruption() == before.spec_block_corruption()
    &&& !before.spec_task_map().contains_key(id@) ==> res == Err::<(), RuntimeError>(unknown_torrent())
        && after.spec_tasks() == before.spec_tasks()
    &&& before.spec_task_map().contains_key(id@) ==> {
        let t = before.spec_task_map()[id@];
        let u = after.spec_task_map()[id@];
        &&& res is Ok
        &&& after.spec_task_map().contains_key(id@)
        &&& after.spec_task_map() == before.spec_task_map().insert(id@, u)
        &&& u.spec_verified_bytes() == crate::snapshot::min_u64(verified_bytes, t.spec_plan().total_size)
        &&& u.spec_status() == t.spec_status()
        &&& u.spec_plan() == t.spec_plan()
        &&& u.spec_sources() == t.spec_sources()
    }
}

/// What replacing a torrent with a completed one does to a runtime, and its answer.
pub open spec fn replaced_with_completed(before: RuntimeEngine, after: RuntimeEngine, id: TorrentId, res: Result<Vec<RuntimeEvent>, RuntimeError>) -> bool {
    &&& after.spec_config() == before.spec_config()
    &&& after.spec_events() == before.spec_events()
    &&& after.spec_block_corruption() == before.spec_block_corruption()
    &&& !before.spec_task_map().contains_key(id@) ==> res == Err::<Vec<RuntimeEvent>, RuntimeError>(unknown_torrent())
        && after.spec_tasks() == before.spec_tasks()
    &&& before.spec_task_map().contains_key(id@) && runtime_config_error(before.spec_config()) is Some ==> res
        == Err::<Vec<RuntimeEvent>, RuntimeError>(runtime_config_error(before.spec_config())->0)
        && after.spec_task_map() == before.spec_task_map().remove(id@)
    &&& before.spec_task_map().contains_key(id@) && runtime_config_error(before.spec_config()) is None ==> {
        let t = before.spec_task_map()[id@];
        let u = after.spec_task_map()[id@];
        let total = t.spec_plan().total_size;
        let seeding = before.spec_config().seed_policy.seed_after_complete;
        &&& after.spec_task_map().contains_key(id@)
        &&& after.spec_task_map() == before.spec_task_map().insert(id@, u)
        &&& u.spec_plan() == t.spec_plan()
        &&& u.spec_status() == (if seeding { TorrentStatus::Seeding } else { TorrentStatus::Complete })
        &&& u.spec_verified_bytes() == total
        &&& res matches Ok(events) && events@ == seq![RuntimeEvent::TorrentRemoved { torrent: id }] + (if seeding {
            seq![RuntimeEvent::StateChanged { torrent: t.spec_id(), from: TorrentStatus::Complete, to: TorrentStatus::Seeding }]
        } else {
            Seq::empty()
        }) + seq![
            RuntimeEvent::TorrentAdded { torrent: id },
            RuntimeEvent::ProgressUpdated { torrent: id, verified_bytes: total, total_bytes: total },
            RuntimeEvent::TaskCompleted { torrent: id },
        ]
    }
}

/// What offering DHT peers to a torrent does to a runtime, and its answer.
pub open spec fn dht_peers_added(before: RuntimeEngine, after: RuntimeEngine, id: TorrentId, peers: Seq<SocketAddress>, res: Result<usize, RuntimeError>) -> bool {
    &&& after.spec_config() == before.spec_config()
    &&& after.spec_block_corruption() == before.spec_block_corruption()
    &&& !before.spec_task_map().contains_key(id@) ==> res == Err::<usize, RuntimeError>(unknown_torrent())
        && after.spec_tasks() == before.spec_tasks() && after.spec_events() == before.spec_events()
    &&& before.spec_task_map().contains_key(id@) ==> {
        let t = before.spec_task_map()[id@];
        let u = after.spec_task_map()[id@];
        let outcome = offer_dht_peers(t.spec_sources(), peers, peers.len());
        let added: nat = if t.spec_plan().private { 0 } else { outcome.1 };
        &&& res == Ok::<usize, RuntimeError>(added as usize)
        &&& after.spec_task_map().contains_key(id@)
        &&& after.spec_task_map() == before.spec_task_map().insert(id@, u)
        &&& u.spec_sources() == (if t.spec_plan().private { t.spec_sources() } else { outcome.0 })
        &&& u.spec_status() == t.spec_status()
        &&& u.spec_plan() == t.spec_plan()
        &&& after.spec_events() == (if added > 0 {
            pushed(before.spec_events(), before.spec_config().limits.max_event_queue as nat,
                RuntimeEvent::DhtPeersDiscovered { torrent: id, peers: if added <= u32::MAX { added as u32 } else { u32::MAX } })
        } else {
            before.spec_events()
        })
    }
}

/// What applying a command does to a runtime, and its answer.
pub open spec fn applied(before: RuntimeEngine, after: RuntimeEngine, command: RuntimeCommand, res: Result<(), RuntimeError>) -> bool {
    &&& after.spec_config() == before.spec_config()
    &&& after.spec_block_corruption() == before.spec_block_corruption()
    &&& match command {
        RuntimeCommand::AddMagnet(_) => res matches Err(RuntimeError::Magnet(_))
            && after.spec_tasks() == before.spec_tasks() && after.spec_events() == before.spec_events(),
        RuntimeCommand::AddPlan(plan) => {
            if before.spec_tasks().len() >= before.spec_config().limits.max_active_torrents {
                res == Err::<(), RuntimeError>(RuntimeError::Backpressure { stage: "adding torrent" })
                    && after.spec_tasks() == before.spec_tasks() && after.spec_events() == before.spec_events()
            } else if runtime_config_error(before.spec_config()) is Some {
                res == Err::<(), RuntimeError>(runtime_config_error(before.spec_config())->0)
                    && after.spec_tasks() == before.spec_tasks() && after.spec_events() == before.spec_events()
            } else {
                &&& res is Ok
                &&& after.spec_task_map().contains_key(plan.id@)
                &&& after.spec_task_map()[plan.id@].spec_plan() == *plan
                &&& after.spec_task_map() == before.spec_task_map().insert(plan.id@, after.spec_task_map()[plan.id@])
                &&& after.spec_events() == pushed(before.spec_events(),
                    before.spec_config().limits.max_event_queue as nat, RuntimeEvent::TorrentAdded { torrent: plan.id })
            }
        },
        RuntimeCommand::Remove(id) => if before.spec_task_map().contains_key(id@) {
            &&& res is Ok
            &&& after.spec_task_map() == before.spec_task_map().remove(id@)
            &&& after.spec_events() == pushed(before.spec_events(),
                before.spec_config().limits.max_event_queue as nat, RuntimeEvent::TorrentRemoved { torrent: id })
        } else {
            res == Err::<(), RuntimeError>(unknown_torrent()) && after.spec_tasks() == before.spec_tasks()
                && after.spec_events() == before.spec_events()
        },
        RuntimeCommand::Torrent(id, cmd) => if before.spec_task_map().contains_key(id@) {
            let t = before.spec_task_map()[id@];
            let outcome = command_outcome(t.spec_id(), cmd, t.spec_status(), t.spec_verified_bytes(), t.spec_plan().total_size);
            &&& after.spec_task_map().contains_key(id@)
            &&& status_changed(t, after.spec_task_map()[id@], outcome.0)
            &&& after.spec_task_map() == before.spec_task_map().insert(id@, after.spec_task_map()[id@])
            &&& match outcome.1 {
                Ok(events) => res is Ok && after.spec_events() == pushed_all(before.spec_events(),
                    before.spec_config().limits.max_event_queue as nat,
                    if cmd == TorrentCommand::Cancel { events.push(RuntimeEvent::TaskCancelled { torrent: id }) } else { events }),
                Err(e) => res == Err::<(), RuntimeError>(e) && after.spec_events() == before.spec_events(),
            }
        } else {
            res == Err::<(), RuntimeError>(unknown_torrent()) && after.spec_tasks() == before.spec_tasks()
                && after.spec_events() == before.spec_events()
        }
    }
}

impl RuntimeEngine {
    pub closed spec fn spec_config(&self) -> RuntimeConfig {
        self.config
    }

    pub closed spec fn spec_tasks(&self) -> Seq<TorrentTask> {
        self.tasks@
    }

    pub closed spec fn spec_events(&self) -> Seq<RuntimeEvent> {
        self.events@
    }

    pub closed spec fn spec_block_corruption(&self) -> BlockCorruptionTracker {
        self.block_corruption
    }

    /// The tasks ascend by id and each holds together.
    pub closed spec fn wf(&self) -> bool {
        &&& ids_sorted(self.tasks@)
        &&& forall|i: int| 0 <= i < self.tasks@.len() ==> (#[trigger] self.tasks@[i]).wf()
    }

    /// The tasks by id.
    pub open spec fn spec_task_map(&self) -> Map<Seq<u8>, TorrentTask> {
        task_map(self.spec_tasks())
    }

    /// An engine for a valid configuration, with no torrents and no events.
    pub fn new(config: RuntimeConfig) -> (res: Result<Self, RuntimeError>)
        ensures
            match runtime_config_error(config) {
                Some(e) => res == Err::<RuntimeEngine, RuntimeError>(e),
                None => res matches Ok(engine) && engine.wf() && engine.spec_config() == config
                    && engine.spec_tasks().len() == 0 && engine.spec_events().len() == 0
                    && engine.spec_block_corruption().wf() && engine.spec_block_corruption()@.blocks.len() == 0
                    && engine.spec_block_corruption()@.quarantined.is_empty() && engine.spec_block_corruption()@.max_failures == 3,
            },
    {
        let config = config.validate()?;
        Ok(RuntimeEngine {
            config,
            tasks: Vec::new(),
            events: VecDeque::new(),
            block_corruption: BlockCorruptionTracker::new(3),
        })
    }

    /// The configuration.
    pub fn config(&self) -> (config: &RuntimeConfig)
        ensures
            *config == self.spec_config(),
    {
        &self.config
    }

    /// The first position whose task does not come before `id`, and whether
    /// the task there has this id.
    fn locate(&self, id: &TorrentId) -> (found: (usize, bool))
        requires
            self.wf(),
        ensures
            found.0 <= self.spec_tasks().len(),
            forall|j: int| 0 <= j < found.0 ==> bytes_less(#[trigger] self.spec_tasks()[j].spec_id()@, id@),
            found.1 == (found.0 < self.spec_tasks().len() && self.spec_tasks()[found.0 as int].spec_id()@ == id@),
            found.0 < self.spec_tasks().len() && !found.1 ==> bytes_less(id@, self.spec_tasks()[found.0 as int].spec_id()@),
            found.1 == has_task(self.spec_tasks(), id@),
            found.1 ==> index_of(self.spec_tasks(), id@) == found.0,
    {
        let mut i: usize = 0;
        while i < self.tasks.len() && self.tasks[i].id().precedes(id)
            invariant
                self.wf(),
                i <= self.tasks@.len(),
                forall|j: int| 0 <= j < i ==> bytes_less(#[trigger] self.tasks@[j].spec_id()@, id@),
            decreases self.tasks@.len() - i,
        {
            i = i + 1;
        }
        let found = i < self.tasks.len() && self.tasks[i].id().same_as(id);
        proof {
            let tasks = self.tasks@;
            id.lemma_len();
            if i < tasks.len() {
                tasks[i as int].spec_id().lemma_len();
                lemma_bytes_less_total(tasks[i as int].spec_id()@, id@);
            }
            if has_task(tasks, id@) {
                let c = index_of(tasks, id@);
                lemma_bytes_less_irreflexive(id@);
                if c < i {
                } else if c > i {
                    lemma_bytes_less_transitive(id@, tasks[i as int].spec_id()@, tasks[c].spec_id()@);
                }
            }
            if found {
                assert(has_task(tasks, id@));
                lemma_sorted_unique(tasks, i as int, index_of(tasks, id@));
            }
        }
        (i, found)
    }

    /// Whether the runtime holds the torrent.
    pub fn has_torrent(&self, id: TorrentId) -> (has: bool)
        requires
            self.wf(),
        ensures
            has == self.spec_task_map().contains_key(id@),
    {
        self.locate(&id).1
    }

    /// Puts a task in its place, replacing one with the same id.
    fn put_task(&mut self, task: TorrentTask)
        requires
            old(self).wf(),
            task.wf(),
        ensures
            final(self).wf(),
            final(self).spec_task_map() == old(self).spec_task_map().insert(task.spec_id()@, task),
            final(self).spec_config() == old(self).spec_config(),
            final(self).spec_events() == old(self).spec_events(),
            final(self).spec_block_corruption() == old(self).spec_block_corruption(),
    {
        let id = task.id();
        let (pos, found) = self.locate(&id);
        let ghost tasks = self.tasks@;
        if found {
            self.tasks.set(pos, task);
            proof {
                lemma_update_sorted(tasks, pos as int, task);
            }
        } else {
            self.tasks.insert(pos, task);
            proof {
                lemma_insert_sorted(tasks, pos as int, task);
            }
        }
        proof {
            assert forall|i: int| 0 <= i < self.tasks@.len() implies (#[trigger] self.tasks@[i]).wf() by {
                if found {
                    if i != pos {
                        assert(self.tasks@[i] == tasks[i]);
                    }
                } else if i < pos {
                    assert(self.tasks@[i] == tasks[i]);
                } else if i > pos {
                    assert(self.tasks@[i] == tasks[i - 1]);
                }
            }
        }
    }

    /// Takes the task with this id out of the runtime.
    fn take_task(&mut self, id: &TorrentId) -> (task: Option<TorrentTask>)
        requires
            old(self).wf(),
        ensures
            final(self).wf(),
            match task {
                Some(t) => old(self).spec_task_map().contains_key(id@) && t == old(self).spec_task_map()[id@]
                    && t.wf() && t.spec_id()@ == id@
                    && final(self).spec_task_map() == old(self).spec_task_map().remove(id@),
                None => !old(self).spec_task_map().contains_key(id@) && final(self).spec_tasks() == old(self).spec_tasks(),
            },
            final(self).spec_config() == old(self).spec_config(),
            final(self).spec_events() == old(self).spec_events(),
            final(self).spec_block_corruption() == old(self).spec_block_corruption(),
    {
        let (pos, found) = self.locate(id);
        if !found {
            return None;
        }
        let ghost tasks = self.tasks@;
        let task = self.tasks.remove(pos);
        proof {
            lemma_remove_sorted(tasks, pos as int);
            lemma_map_at(tasks, pos as int);
            assert forall|i: int| 0 <= i < self.tasks@.len() implies (#[trigger] self.tasks@[i]).wf() by {
                if i < pos {
                    assert(self.tasks@[i] == tasks[i]);
                } else {
                    assert(self.tasks@[i] == tasks[i + 1]);
                }
            }
        }
        Some(task)
    }

    /// Adds a torrent: refused with backpressure when the runtime already
    /// holds its maximum of torrents; otherwise the torrent replaces any with
    /// the same id and is reported added.
    pub fn add_plan_intent(&mut self, plan: TorrentPlan) -> (res: Result<Vec<RuntimeEvent>, RuntimeError>)
        requires
            old(self).wf(),
        ensures
            final(self).wf(),
            final(self).spec_config() == old(self).spec_config(),
            final(self).spec_events() == old(self).spec_events(),
            final(self).spec_block_corruption() == old(self).spec_block_corruption(),
            old(self).spec_tasks().len() >= old(self).spec_config().limits.max_active_torrents ==> res
                == Err::<Vec<RuntimeEvent>, RuntimeError>(RuntimeError::Backpressure { stage: "adding torrent" })
                && final(self).spec_tasks() == old(self).spec_tasks(),
            old(self).spec_tasks().len() < old(self).spec_config().limits.max_active_torrents ==> match runtime_config_error(
                old(self).spec_config(),
            ) {
                Some(e) => res == Err::<Vec<RuntimeEvent>, RuntimeError>(e) && final(self).spec_tasks() == old(self).spec_tasks(),
                None => res matches Ok(events) && events@ == seq![RuntimeEvent::TorrentAdded { torrent: plan.id }]
                    && final(self).spec_task_map().contains_key(plan.id@)
                    && final(self).spec_task_map()[plan.id@].spec_plan() == plan
                    && final(self).spec_task_map()[plan.id@].spec_status() == crate::snapshot::TorrentStatus::Checking
                    && final(self).spec_task_map() == old(self).spec_task_map().insert(plan.id@, final(self).spec_task_map()[plan.id@]),
            },
    {
        if self.tasks.len() >= self.config.limits.max_active_torrents {
            return Err(RuntimeError::Backpressure { stage: "adding torrent" });
        }
        let id = plan.id;
        let task = TorrentTask::new_with_peers(plan, &self.config)?;
        let ghost t = task;
        self.put_task(task);
        proof {
            assert(self.spec_task_map().contains_key(id@));
            assert(self.spec_task_map()[id@] == t);
        }
        let mut events = Vec::new();
        events.push(RuntimeEvent::TorrentAdded { torrent: id });
        assert(events@ =~= seq![RuntimeEvent::TorrentAdded { torrent: id }]);
        Ok(events)
    }

    /// Removes a torrent, handing back its plan and reporting the removal.
    pub fn remove_torrent_intent(&mut self, id: TorrentId) -> (res: Result<(Box<TorrentPlan>, Vec<RuntimeEvent>), RuntimeError>)
        requires
            old(self).wf(),
        ensures
            final(self).wf(),
            final(self).spec_config() == old(self).spec_config(),
            final(self).spec_events() == old(self).spec_events(),
            final(self).spec_block_corruption() == old(self).spec_block_corruption(),
            !old(self).spec_task_map().contains_key(id@) ==> res == Err::<(Box<TorrentPlan>, Vec<RuntimeEvent>), RuntimeError>(unknown_torrent())
                && final(self).spec_tasks() == old(self).spec_tasks(),
            old(self).spec_task_map().contains_key(id@) ==> (res matches Ok((plan, events))
                && *plan == old(self).spec_task_map()[id@].spec_plan()
                && events@ == seq![RuntimeEvent::TorrentRemoved { torrent: id }]
                && final(self).spec_task_map() == old(self).spec_task_map().remove(id@)),
    {
        match self.take_task(&id) {
            None => Err(RuntimeError::InvalidConfig("unknown torrent")),
            Some(task) => {
                let plan = task.into_plan();
                let mut events = Vec::new();
                events.push(RuntimeEvent::TorrentRemoved { torrent: id });
                assert(events@ =~= seq![RuntimeEvent::TorrentRemoved { torrent: id }]);
                Ok((Box::new(plan), events))
            },
        }
    }

    /// Applies a settings patch: each setting it holds replaces the current one.
    pub fn apply_settings_patch(&mut self, patch: &SettingsPatch) -> (res: Result<(), RuntimeError>)
        ensures
            res is Ok,
            final(self).spec_config() == patched(old(self).spec_config(), *patch),
            final(self).spec_tasks() == old(self).spec_tasks(),
            final(self).spec_events() == old(self).spec_events(),
            final(self).spec_block_corruption() == old(self).spec_block_corruption(),
            old(self).wf() ==> final(self).wf(),
    {
        if let Some(port) = patch.listen_port {
            self.config.listen_port = port;
        }
        if let Some(limits) = patch.limits {
            self.config.limits = limits;
        }
        if let Some(seed_policy) = patch.seed_policy {
            self.config.seed_policy = seed_policy;
        }
        Ok(())
    }

    /// Undoes a staged change: an added torrent is removed; a removed torrent
    /// is restored from its plan unless one with its id is present; replaced
    /// settings are put back.
    pub fn rollback(&mut self, record: RollbackRecord) -> (res: Result<(), RuntimeError>)
        requires
            old(self).wf(),
        ensures
            final(self).wf(),
            final(self).spec_events() == old(self).spec_events(),
            final(self).spec_block_corruption() == old(self).spec_block_corruption(),
            match record {
                RollbackRecord::AddRollback { id } => res is Ok && final(self).spec_config() == old(self).spec_config()
                    && final(self).spec_task_map() == old(self).spec_task_map().remove(id@),
                RollbackRecord::RemoveRollback { id, plan } => final(self).spec_config() == old(self).spec_config()
                    && if old(self).spec_task_map().contains_key(id@) {
                        res is Ok && final(self).spec_tasks() == old(self).spec_tasks()
                    } else {
                        match runtime_config_error(old(self).spec_config()) {
                            Some(e) => res == Err::<(), RuntimeError>(e) && final(self).spec_tasks() == old(self).spec_tasks(),
                            None => res is Ok && final(self).spec_task_map().contains_key(plan.id@)
                                && final(self).spec_task_map()[plan.id@].spec_plan() == *plan
                                && final(self).spec_task_map()[plan.id@].spec_status() == crate::snapshot::TorrentStatus::Checking
                                && final(self).spec_task_map() == old(self).spec_task_map().insert(plan.id@, final(self).spec_task_map()[plan.id@]),
                        }
                    },
                RollbackRecord::SettingsRollback { previous } => res is Ok && final(self).spec_config() == *previous
                    && final(self).spec_tasks() == old(self).spec_tasks(),
            },
    {
        match record {
            RollbackRecord::AddRollback { id } => {
                let removed = self.take_task(&id);
                proof {
                    if removed is None {
                        assert(self.spec_task_map() =~= old(self).spec_task_map().remove(id@));
                    }
                }
                Ok(())
            },
            RollbackRecord::RemoveRollback { id, plan } => {
                if !self.has_torrent(id) {
                    let task = TorrentTask::new_with_peers(*plan, &self.config)?;
                    let ghost t = task;
                    self.put_task(task);
                    proof {
                        assert(self.spec_task_map().contains_key(t.spec_id()@));
                    }
                }
                Ok(())
            },
            RollbackRecord::SettingsRollback { previous } => {
                self.config = *previous;
                Ok(())
            },
        }
    }

    /// The corruption tracker.
    pub fn block_corruption(&self) -> (tracker: &BlockCorruptionTracker)
        ensures
            *tracker == self.spec_block_corruption(),
    {
        &self.block_corruption
    }

    /// Applies a command to one torrent. Cancelling also reports the task cancelled.
    pub fn apply_torrent(&mut self, id: TorrentId, command: TorrentCommand) -> (res: Result<Vec<RuntimeEvent>, RuntimeError>)
        requires
            old(self).wf(),
        ensures
            final(self).wf(),
            final(self).spec_config() == old(self).spec_config(),
            final(self).spec_events() == old(self).spec_events(),
            final(self).spec_block_corruption() == old(self).spec_block_corruption(),
            !old(self).spec_task_map().contains_key(id@) ==> res == Err::<Vec<RuntimeEvent>, RuntimeError>(unknown_torrent())
                && final(self).spec_tasks() == old(self).spec_tasks(),
            old(self).spec_task_map().contains_key(id@) ==> {
                let t = old(self).spec_task_map()[id@];
                let outcome = command_outcome(t.spec_id(), command, t.spec_status(), t.spec_verified_bytes(), t.spec_plan().total_size);
                &&& final(self).spec_task_map().contains_key(id@)
                &&& status_changed(t, final(self).spec_task_map()[id@], outcome.0)
                &&& final(self).spec_task_map() == old(self).spec_task_map().insert(id@, final(self).spec_task_map()[id@])
                &&& events_match(res, match outcome.1 {
                    Ok(events) => Ok(if command == TorrentCommand::Cancel {
                        events.push(RuntimeEvent::TaskCancelled { torrent: id })
                    } else {
                        events
                    }),
                    Err(e) => Err(e),
                })
            },
    {
        let mut task = match self.take_task(&id) {
            None => return Err(RuntimeError::InvalidConfig("unknown torrent")),
            Some(task) => task,
        };
        let result = task.apply(command);
        let ghost t = task;
        self.put_task(task);
        proof {
            assert(self.spec_task_map()[id@] == t);
            assert(self.spec_task_map() =~= old(self).spec_task_map().insert(id@, t));
        }
        let mut events = result?;
        if command == TorrentCommand::Cancel {
            events.push(RuntimeEvent::TaskCancelled { torrent: id });
        }
        Ok(events)
    }

    /// Sets the verified bytes of a torrent, capped at its size.
    pub fn sync_progress(&mut self, id: TorrentId, verified_bytes: u64) -> (res: Result<(), RuntimeError>)
        requires
            old(self).wf(),
        ensures
            final(self).wf(),
            synced(*old(self), *final(self), id, verified_bytes, res),
    {
        let mut task = match self.take_task(&id) {
            None => return Err(RuntimeError::InvalidConfig("unknown torrent")),
            Some(task) => task,
        };
        task.set_verified_bytes(verified_bytes);
        let ghost t = task;
        self.put_task(task);
        proof {
            assert(self.spec_task_map()[id@] == t);
            assert(self.spec_task_map() =~= old(self).spec_task_map().insert(id@, t));
        }
        Ok(())
    }

    /// Records corrupt data from a peer for one block; returns whether the
    /// peer is now quarantined.
    pub fn record_block_failure(&mut self, piece: u32, block: u32, peer: SocketAddress) -> (quarantine: bool)
        requires
            old(self).spec_block_corruption().wf(),
        ensures
            final(self).spec_block_corruption().wf(),
            final(self).spec_block_corruption()@.blocks == with_failure(old(self).spec_block_corruption()@.blocks, piece, block, peer),
            final(self).spec_block_corruption()@.max_failures == old(self).spec_block_corruption()@.max_failures,
            quarantine == (failure_count(final(self).spec_block_corruption()@.blocks, peer)
                >= old(self).spec_block_corruption()@.max_failures),
            final(self).spec_block_corruption()@.quarantined == (if quarantine {
                old(self).spec_block_corruption()@.quarantined.insert(peer)
            } else {
                old(self).spec_block_corruption()@.quarantined
            }),
            final(self).spec_config() == old(self).spec_config(),
            final(self).spec_tasks() == old(self).spec_tasks(),
            final(self).spec_events() == old(self).spec_events(),
            old(self).wf() ==> final(self).wf(),
    {
        self.block_corruption.record_failure(piece, block, peer)
    }

    /// Replaces a torrent with a fresh task for the same plan, marked
    /// complete, seeding when the policy says so. Reports the removal, the
    /// start of seeding, the new addition, full progress and completion. When
    /// the configuration no longer validates the torrent stays removed.
    pub fn replace_with_completed(&mut self, id: TorrentId) -> (res: Result<Vec<RuntimeEvent>, RuntimeError>)
        requires
            old(self).wf(),
        ensures
            final(self).wf(),
            replaced_with_completed(*old(self), *final(self), id, res),
    {
        let (plan, mut events) = self.remove_torrent_intent(id)?;
        let total = plan.total_size;
        let ghost p = *plan;
        let mut task = TorrentTask::new_with_peers(*plan, &self.config)?;
        task.set_status_complete()?;
        let ghost before_seed = events@;
        if self.config.seed_policy.seed_after_complete {
            let mut started = task.start_seeding()?;
            events.append(&mut started);
        }
        let ghost t = task;
        let ghost removed_map = self.spec_task_map();
        self.put_task(task);
        proof {
            assert(self.spec_task_map()[id@] == t);
            assert(self.spec_task_map() =~= old(self).spec_task_map().insert(id@, t));
        }
        let ghost mid = events@;
        events.push(RuntimeEvent::TorrentAdded { torrent: id });
        events.push(RuntimeEvent::ProgressUpdated { torrent: id, verified_bytes: total, total_bytes: total });
        events.push(RuntimeEvent::TaskCompleted { torrent: id });
        proof {
            let seeding = old(self).spec_config().seed_policy.seed_after_complete;
            let tail = seq![
                RuntimeEvent::TorrentAdded { torrent: id },
                RuntimeEvent::ProgressUpdated { torrent: id, verified_bytes: total, total_bytes: total },
                RuntimeEvent::TaskCompleted { torrent: id },
            ];
            assert(events@ =~= mid + tail);
            assert(mid =~= seq![RuntimeEvent::TorrentRemoved { torrent: id }] + (if seeding {
                seq![RuntimeEvent::StateChanged { torrent: t.spec_id(), from: TorrentStatus::Complete, to: TorrentStatus::Seeding }]
            } else {
                Seq::empty()
            }));
        }
        Ok(events)
    }

    /// Offers DHT peers to a torrent and reports how many it took, when any.
    pub fn add_dht_peers(&mut self, id: TorrentId, peers: Vec<SocketAddress>) -> (res: Result<usize, RuntimeError>)
        requires
            old(self).wf(),
        ensures
            final(self).wf(),
            dht_peers_added(*old(self), *final(self), id, peers@, res),
    {
        let mut task = match self.take_task(&id) {
            None => return Err(RuntimeError::InvalidConfig("unknown torrent")),
            Some(task) => task,
        };
        let added = task.add_dht_peers(peers);
        let ghost t = task;
        self.put_task(task);
        proof {
            assert(self.spec_task_map()[id@] == t);
            assert(self.spec_task_map() =~= old(self).spec_task_map().insert(id@, t));
        }
        if added > 0 {
            let count: u32 = if added <= u32::MAX as usize { added as u32 } else { u32::MAX };
            self.push_event(RuntimeEvent::DhtPeersDiscovered { torrent: id, peers: count });
        }
        Ok(added)
    }

    /// Offers a peer found by local service discovery to a torrent.
    pub fn add_lsd_peer(&mut self, id: TorrentId, peer: SocketAddress) -> (added: bool)
        requires
            old(self).wf(),
        ensures
            final(self).wf(),
            final(self).spec_config() == old(self).spec_config(),
            final(self).spec_events() == old(self).spec_events(),
            final(self).spec_block_corruption() == old(self).spec_block_corruption(),
            !old(self).spec_task_map().contains_key(id@) ==> !added && final(self).spec_tasks() == old(self).spec_tasks(),
            old(self).spec_task_map().contains_key(id@) ==> {
                let t = old(self).spec_task_map()[id@];
                let u = final(self).spec_task_map()[id@];
                &&& final(self).spec_task_map().contains_key(id@)
                &&& final(self).spec_task_map() == old(self).spec_task_map().insert(id@, u)
                &&& u.spec_status() == t.spec_status()
                &&& u.spec_plan() == t.spec_plan()
                &&& if t.spec_plan().private || !peer.spec_is_dialable() {
                    !added && u.spec_sources() == t.spec_sources()
                } else {
                    (u.spec_sources(), added) == offer(t.spec_sources(), EndpointView::Peer(peer), SourceKind::LsdPeer)
                }
            },
    {
        let mut task = match self.take_task(&id) {
            None => return false,
            Some(task) => task,
        };
        let added = task.add_lsd_peer(peer);
        let ghost t = task;
        self.put_task(task);
        proof {
            assert(self.spec_task_map()[id@] == t);
            assert(self.spec_task_map() =~= old(self).spec_task_map().insert(id@, t));
        }
        added
    }

    /// Settles an attempt to complete a torrent from one source's pieces.
    /// Success stands. A piece that failed its hash check quarantines the
    /// source: that is queued, and the attempt comes back as a failure of the
    /// source to quarantine. Any other error is queued as a failed source and
    /// comes back as a failure of the source to retry.
    pub fn settle_source_attempt(&mut self, id: TorrentId, source: String, outcome: Result<(), RuntimeError>) -> (res: Result<(), RuntimeError>)
        requires
            old(self).wf(),
        ensures
            final(self).wf(),
            final(self).spec_config() == old(self).spec_config(),
            final(self).spec_tasks() == old(self).spec_tasks(),
            final(self).spec_block_corruption() == old(self).spec_block_corruption(),
            match outcome {
                Ok(_) => res is Ok && final(self).spec_events() == old(self).spec_events(),
                Err(RuntimeError::PieceHashMismatch { piece }) => {
                    &&& final(self).spec_events() == pushed(old(self).spec_events(),
                        old(self).spec_config().limits.max_event_queue as nat,
                        RuntimeEvent::SourceQuarantined { torrent: id, source })
                    &&& res matches Err(RuntimeError::SourceFailed { source_id, scope, retry, reason })
                    &&& source_id@ == source@
                    &&& scope == FailureScope::SourceLocal
                    &&& retry == RetryClass::Quarantine
                    &&& reason@ == "piece "@ + decimal(piece as nat) + " failed hash verification"@
                },
                Err(e) => {
                    &&& exists|r: String| r@ == error_text(e) && final(self).spec_events() == pushed(old(self).spec_events(),
                        old(self).spec_config().limits.max_event_queue as nat,
                        RuntimeEvent::SourceFailed { torrent: id, source, reason: r })
                    &&& res matches Err(RuntimeError::SourceFailed { source_id, scope, retry, reason })
                    &&& source_id@ == source@
                    &&& scope == FailureScope::SourceLocal
                    &&& retry == RetryClass::Retryable
                    &&& reason@ == error_text(e)
                },
            },
    {
        match outcome {
            Ok(()) => Ok(()),
            Err(RuntimeError::PieceHashMismatch { piece }) => {
                let source_id = source.clone();
                self.push_event(RuntimeEvent::SourceQuarantined { torrent: id, source });
                let mut reason = String::from_str("piece ");
                reason.append(decimal_string(piece as u64).as_str());
                reason.append(" failed hash verification");
                Err(RuntimeError::SourceFailed {
                    source_id,
                    scope: FailureScope::SourceLocal,
                    retry: RetryClass::Quarantine,
                    reason,
                })
            },
            Err(err) => {
                let source_id = source.clone();
                let text = err.message();
                self.push_event(RuntimeEvent::SourceFailed { torrent: id, source, reason: text.clone() });
                Err(RuntimeError::SourceFailed {
                    source_id,
                    scope: FailureScope::SourceLocal,
                    retry: RetryClass::Retryable,
                    reason: text,
                })
            },
        }
    }

    /// Gives up on a torrent after every source failed: the torrent, if the
    /// runtime holds it, fails with the last error and that is queued; the
    /// answer is that all peers failed, with the last error.
    pub fn fail_after_sources(&mut self, id: TorrentId, last_error: String) -> (err: RuntimeError)
        requires
            old(self).wf(),
        ensures
            final(self).wf(),
            err == (RuntimeError::AllPeersFailed { last_error }),
            final(self).spec_config() == old(self).spec_config(),
            final(self).spec_block_corruption() == old(self).spec_block_corruption(),
            !old(self).spec_task_map().contains_key(id@) ==> final(self).spec_tasks() == old(self).spec_tasks()
                && final(self).spec_events() == old(self).spec_events(),
            old(self).spec_task_map().contains_key(id@) ==> {
                let t = old(self).spec_task_map()[id@];
                let u = final(self).spec_task_map()[id@];
                &&& final(self).spec_task_map().contains_key(id@)
                &&& final(self).spec_task_map() == old(self).spec_task_map().insert(id@, u)
                &&& status_changed(t, u, TorrentStatus::Failed)
                &&& final(self).spec_events() == pushed(old(self).spec_events(),
                    old(self).spec_config().limits.max_event_queue as nat,
                    RuntimeEvent::TaskFailed { torrent: t.spec_id(), reason: last_error })
            },
    {
        let mut task = match self.take_task(&id) {
            None => return RuntimeError::AllPeersFailed { last_error },
            Some(task) => task,
        };
        let events = task.mark_failed(last_error.clone());
        let ghost t = task;
        self.put_task(task);
        proof {
            assert(self.spec_task_map()[id@] == t);
            assert(self.spec_task_map() =~= old(self).spec_task_map().insert(id@, t));
        }
        self.push_events(events);
        proof {
            reveal_with_fuel(pushed_all, 2);
        }
        RuntimeError::AllPeersFailed { last_error }
    }

    /// The torrents to announce on the DHT, in id order, each with its info hash.
    pub fn dht_announce_targets(&self) -> (targets: Vec<(TorrentId, [u8; 20])>)
        requires
            self.wf(),
        ensures
            targets@.map_values(|p: (TorrentId, [u8; 20])| p.0) == announce_targets(self.spec_tasks(), self.spec_tasks().len()),
            forall|i: int| 0 <= i < targets@.len() ==> (#[trigger] targets@[i]).1@ == targets@[i].0@,
    {
        self.announce_targets()
    }

    /// The torrents to announce by local service discovery, in id order.
    pub fn lsd_announce_targets(&self) -> (targets: Vec<(TorrentId, [u8; 20])>)
        requires
            self.wf(),
        ensures
            targets@.map_values(|p: (TorrentId, [u8; 20])| p.0) == announce_targets(self.spec_tasks(), self.spec_tasks().len()),
            forall|i: int| 0 <= i < targets@.len() ==> (#[trigger] targets@[i]).1@ == targets@[i].0@,
    {
        self.announce_targets()
    }

    fn announce_targets(&self) -> (targets: Vec<(TorrentId, [u8; 20])>)
        requires
            self.wf(),
        ensures
            targets@.map_values(|p: (TorrentId, [u8; 20])| p.0) == announce_targets(self.spec_tasks(), self.spec_tasks().len()),
            forall|i: int| 0 <= i < targets@.len() ==> (#[trigger] targets@[i]).1@ == targets@[i].0@,
    {
        let mut targets: Vec<(TorrentId, [u8; 20])> = Vec::new();
        let mut i: usize = 0;
        while i < self.tasks.len()
            invariant
                i <= self.tasks@.len(),
                targets@.map_values(|p: (TorrentId, [u8; 20])| p.0) == announce_targets(self.tasks@, i as nat),
                forall|j: int| 0 <= j < targets@.len() ==> (#[trigger] targets@[j]).1@ == targets@[j].0@,
            decreases self.tasks@.len() - i,
        {
            match self.tasks[i].dht_announce_target() {
                Some(id) => {
                    let ghost before = targets@;
                    targets.push((id, *id.as_bytes()));
                    assert(targets@.map_values(|p: (TorrentId, [u8; 20])| p.0) =~= before.map_values(
                        |p: (TorrentId, [u8; 20])| p.0,
                    ).push(id));
                },
                None => {},
            }
            i = i + 1;
        }
        targets
    }

    /// The info hash to announce on the DHT for one torrent, if it is announced.
    pub fn dht_announce_target(&self, id: TorrentId) -> (target: Option<[u8; 20]>)
        requires
            self.wf(),
        ensures
            match target {
                Some(hash) => self.spec_task_map().contains_key(id@) && is_target(self.spec_task_map()[id@]) && hash@ == id@,
                None => !(self.spec_task_map().contains_key(id@) && is_target(self.spec_task_map()[id@])),
            },
    {
        let (pos, found) = self.locate(&id);
        if !found {
            return None;
        }
        proof {
            lemma_map_at(self.tasks@, pos as int);
        }
        match self.tasks[pos].dht_announce_target() {
            Some(t) => Some(*t.as_bytes()),
            None => None,
        }
    }

    /// What the runtime looks like: each torrent in id order, with the
    /// queued events. The runtime holds no live connections, so connection
    /// counts and rates read zero here.
    pub fn snapshot(&self) -> (snap: crate::snapshot::RuntimeSnapshot)
        requires
            self.wf(),
        ensures
            snap.torrents@.len() == self.spec_tasks().len(),
            forall|i: int| 0 <= i < snap.torrents@.len() ==> {
                let s = #[trigger] snap.torrents@[i];
                let t = self.spec_tasks()[i];
                &&& s.id == t.spec_id()
                &&& s.status == t.spec_status()
                &&& s.total_bytes == t.spec_plan().total_size
                &&& s.verified_bytes == crate::snapshot::min_u64(t.spec_verified_bytes(), t.spec_plan().total_size)
                &&& s.peers == 0 && s.seeds == 0 && s.down_rate == 0 && s.up_rate == 0
            },
            snap.peers@.len() == 0,
            snap.events@ == self.spec_events(),
    {
        let idle = PeerActivity { peers: 0, seeds: 0, down_rate: 0, up_rate: 0 };
        let mut torrents: Vec<crate::snapshot::TorrentSnapshot> = Vec::new();
        let mut i: usize = 0;
        while i < self.tasks.len()
            invariant
                i <= self.tasks@.len(),
                idle == (PeerActivity { peers: 0, seeds: 0, down_rate: 0, up_rate: 0 }),
                torrents@.len() == i,
                forall|j: int| 0 <= j < i ==> {
                    let s = #[trigger] torrents@[j];
                    let t = self.tasks@[j];
                    &&& s.id == t.spec_id()
                    &&& s.status == t.spec_status()
                    &&& s.total_bytes == t.spec_plan().total_size
                    &&& s.verified_bytes == crate::snapshot::min_u64(t.spec_verified_bytes(), t.spec_plan().total_size)
                    &&& s.peers == 0 && s.seeds == 0 && s.down_rate == 0 && s.up_rate == 0
                },
            decreases self.tasks@.len() - i,
        {
            torrents.push(self.tasks[i].snapshot(idle));
            i = i + 1;
        }
        let mut events = Vec::new();
        let mut k: usize = 0;
        while k < self.events.len()
            invariant
                k <= self.events@.len(),
                events@ == self.events@.take(k as int),
            decreases self.events@.len() - k,
        {
            events.push(self.events[k].clone());
            assert(self.events@.take(k as int + 1) =~= self.events@.take(k as int).push(self.events@[k as int]));
            k = k + 1;
        }
        assert(self.events@.take(k as int) =~= self.events@);
        crate::snapshot::RuntimeSnapshot { torrents, peers: Vec::new(), events }
    }

    /// Applies a command: adds a plan, removes a torrent, or applies a
    /// lifecycle command to one torrent, queueing what it reports. A magnet
    /// link is refused: it must first be resolved into a plan.
    pub fn apply(&mut self, command: RuntimeCommand) -> (res: Result<(), RuntimeError>)
        requires
            old(self).wf(),
        ensures
            final(self).wf(),
            applied(*old(self), *final(self), command, res),
    {
        match command {
            RuntimeCommand::AddMagnet(_) => Err(RuntimeError::Magnet(
                "magnet links are resolved into a plan before they are added".to_owned(),
            )),
            RuntimeCommand::AddPlan(plan) => {
                let events = self.add_plan_intent(*plan)?;
                self.push_events(events);
                proof {
                    reveal_with_fuel(pushed_all, 2);
                }
                Ok(())
            },
            RuntimeCommand::Remove(id) => {
                let (_plan, events) = self.remove_torrent_intent(id)?;
                self.push_events(events);
                proof {
                    reveal_with_fuel(pushed_all, 2);
                }
                Ok(())
            },
            RuntimeCommand::Torrent(id, cmd) => {
                let events = self.apply_torrent(id, cmd)?;
                self.push_events(events);
                Ok(())
            },
        }
    }

    /// Queues an event; when the queue is exactly at its bound the oldest
    /// event is dropped first.
    pub fn push_event(&mut self, event: RuntimeEvent)
        ensures
            final(self).spec_events() == pushed(old(self).spec_events(), old(self).spec_config().limits.max_event_queue as nat, event),
            final(self).spec_config() == old(self).spec_config(),
            final(self).spec_tasks() == old(self).spec_tasks(),
            final(self).spec_block_corruption() == old(self).spec_block_corruption(),
            old(self).wf() ==> final(self).wf(),
    {
        if self.events.len() == self.config.limits.max_event_queue && self.events.len() > 0 {
            let ghost before = self.events@;
            let _ = self.events.pop_front();
            assert(self.events@ =~= before.drop_first());
        }
        self.events.push_back(event);
    }

    /// Queues events in order.
    pub fn push_events(&mut self, events: Vec<RuntimeEvent>)
        ensures
            final(self).spec_events() == pushed_all(old(self).spec_events(), old(self).spec_config().limits.max_event_queue as nat, events@),
            final(self).spec_config() == old(self).spec_config(),
            final(self).spec_tasks() == old(self).spec_tasks(),
            final(self).spec_block_corruption() == old(self).spec_block_corruption(),
            old(self).wf() ==> final(self).wf(),
    {
        let mut i: usize = 0;
        while i < events.len()
            invariant
                i <= events@.len(),
                self.spec_config() == old(self).spec_config(),
                self.spec_tasks() == old(self).spec_tasks(),
                self.spec_block_corruption() == old(self).spec_block_corruption(),
                old(self).wf() ==> self.wf(),
                self.spec_events() == pushed_all(old(self).spec_events(), old(self).spec_config().limits.max_event_queue as nat, events@.take(i as int)),
            decreases events@.len() - i,
        {
            let e = events[i].clone();
            assert(events@.take(i as int + 1).drop_last() =~= events@.take(i as int));
            self.push_event(e);
            i = i + 1;
        }
        assert(events@.take(events@.len() as int) =~= events@);
    }

    /// Hands out the queued events, oldest first, and empties the queue.
    pub fn drain_events(&mut self) -> (drained: Vec<RuntimeEvent>)
        ensures
            drained@ == old(self).spec_events(),
            final(self).spec_events().len() == 0,
            final(self).spec_config() == old(self).spec_config(),
            final(self).spec_tasks() == old(self).spec_tasks(),
            final(self).spec_block_corruption() == old(self).spec_block_corruption(),
            old(self).wf() ==> final(self).wf(),
    {
        let mut drained = Vec::new();
        while self.events.len() > 0
            invariant
                drained@ + self.events@ == old(self).spec_events(),
                self.spec_config() == old(self).spec_config(),
                self.spec_tasks() == old(self).spec_tasks(),
                self.spec_block_corruption() == old(self).spec_block_corruption(),
                old(self).wf() ==> self.wf(),
            decreases self.events@.len(),
        {
            let ghost before = self.events@;
            let ghost d = drained@;
            match self.events.pop_front() {
                Some(e) => {
                    drained.push(e);
                    assert(drained@ + self.events@ =~= d + before);
                },
                None => {},
            }
        }
        assert(drained@ =~= old(self).spec_events());
        drained
    }
}

/// The ids of the tasks ascend in byte order.
pub open spec fn ids_sorted(tasks: Seq<TorrentTask>) -> bool {
    forall|i: int, j: int| 0 <= i < j < tasks.len() ==> bytes_less(tasks[i].spec_id()@, tasks[j].spec_id()@)
}

/// Whether some task has this id.
pub open spec fn has_task(tasks: Seq<TorrentTask>, id: Seq<u8>) -> bool {
    exists|i: int| 0 <= i < tasks.len() && #[trigger] tasks[i].spec_id()@ == id
}

/// The tasks by id.
pub open spec fn task_map(tasks: Seq<TorrentTask>) -> Map<Seq<u8>, TorrentTask> {
    Map::new(
        |k: Seq<u8>| has_task(tasks, k),
        |k: Seq<u8>| tasks[index_of(tasks, k)],
    )
}

/// A position of a task with this id.
pub open spec fn index_of(tasks: Seq<TorrentTask>, id: Seq<u8>) -> int {
    choose|i: int| 0 <= i < tasks.len() && #[trigger] tasks[i].spec_id()@ == id
}

/// The index of the task with this id in sorted tasks.
proof fn lemma_sorted_unique(tasks: Seq<TorrentTask>, i: int, j: int)
    requires
        ids_sorted(tasks),
        0 <= i < tasks.len(),
        0 <= j < tasks.len(),
        tasks[i].spec_id()@ == tasks[j].spec_id()@,
    ensures
        i == j,
{
    if i < j {
        lemma_bytes_less_irreflexive(tasks[i].spec_id()@);
    } else if j < i {
        lemma_bytes_less_irreflexive(tasks[i].spec_id()@);
    }
}

/// The map entry of a task in sorted tasks is that task.
proof fn lemma_map_at(tasks: Seq<TorrentTask>, i: int)
    requires
        ids_sorted(tasks),
        0 <= i < tasks.len(),
    ensures
        task_map(tasks).contains_key(tasks[i].spec_id()@),
        task_map(tasks)[tasks[i].spec_id()@] == tasks[i],
{
    let k = tasks[i].spec_id()@;
    assert(has_task(tasks, k));
    let c = index_of(tasks, k);
    lemma_sorted_unique(tasks, i, c);
    assert(task_map(tasks)[k] == tasks[c]);
}

/// Inserting a task with a new id at its place keeps the order and adds it to the map.
proof fn lemma_insert_sorted(tasks: Seq<TorrentTask>, pos: int, t: TorrentTask)
    requires
        ids_sorted(tasks),
        0 <= pos <= tasks.len(),
        forall|j: int| 0 <= j < pos ==> bytes_less(#[trigger] tasks[j].spec_id()@, t.spec_id()@),
        pos < tasks.len() ==> bytes_less(t.spec_id()@, tasks[pos].spec_id()@),
    ensures
        ids_sorted(tasks.insert(pos, t)),
        task_map(tasks.insert(pos, t)) == task_map(tasks).insert(t.spec_id()@, t),
{
    let n = tasks.insert(pos, t);
    assert forall|i: int, j: int| 0 <= i < j < n.len() implies bytes_less(n[i].spec_id()@, n[j].spec_id()@) by {
        if j < pos {
        } else if j == pos {
        } else if i < pos {
            if j - 1 > pos {
                lemma_bytes_less_transitive(t.spec_id()@, tasks[pos].spec_id()@, tasks[j - 1].spec_id()@);
            }
            lemma_bytes_less_transitive(tasks[i].spec_id()@, t.spec_id()@, tasks[j - 1].spec_id()@);
        } else if i == pos {
            if j - 1 > pos {
                lemma_bytes_less_transitive(t.spec_id()@, tasks[pos].spec_id()@, tasks[j - 1].spec_id()@);
            }
        } else {
        }
    }
    let m1 = task_map(n);
    let m2 = task_map(tasks).insert(t.spec_id()@, t);
    assert forall|k: Seq<u8>| m1.contains_key(k) == m2.contains_key(k) by {
        if has_task(n, k) {
            let i = choose|i: int| 0 <= i < n.len() && #[trigger] n[i].spec_id()@ == k;
            if i < pos {
                assert(tasks[i].spec_id()@ == k);
            } else if i > pos {
                assert(tasks[i - 1].spec_id()@ == k);
            }
        }
        if has_task(tasks, k) {
            let i = choose|i: int| 0 <= i < tasks.len() && #[trigger] tasks[i].spec_id()@ == k;
            if i < pos {
                assert(n[i].spec_id()@ == k);
            } else {
                assert(n[i + 1].spec_id()@ == k);
            }
        }
        if k == t.spec_id()@ {
            assert(n[pos].spec_id()@ == k);
        }
    }
    assert forall|k: Seq<u8>| m1.contains_key(k) implies m1[k] == m2[k] by {
        assert(has_task(n, k));
        let i = index_of(n, k);
        lemma_map_at(n, i);
        lemma_bytes_less_irreflexive(t.spec_id()@);
        if i < pos {
            lemma_map_at(tasks, i);
            assert(k != t.spec_id()@);
        } else if i > pos {
            lemma_map_at(tasks, i - 1);
            if pos < tasks.len() && i - 1 > pos {
                lemma_bytes_less_transitive(t.spec_id()@, tasks[pos].spec_id()@, tasks[i - 1].spec_id()@);
            }
            assert(k != t.spec_id()@);
        }
    }
    assert(m1 =~= m2);
}

/// Replacing the task at a position with one of the same id keeps the order
/// and replaces it in the map.
proof fn lemma_update_sorted(tasks: Seq<TorrentTask>, pos: int, t: TorrentTask)
    requires
        ids_sorted(tasks),
        0 <= pos < tasks.len(),
        tasks[pos].spec_id()@ == t.spec_id()@,
    ensures
        ids_sorted(tasks.update(pos, t)),
        task_map(tasks.update(pos, t)) == task_map(tasks).insert(t.spec_id()@, t),
{
    let n = tasks.update(pos, t);
    assert forall|i: int, j: int| 0 <= i < j < n.len() implies bytes_less(n[i].spec_id()@, n[j].spec_id()@) by {
        assert(n[i].spec_id()@ == tasks[i].spec_id()@);
        assert(n[j].spec_id()@ == tasks[j].spec_id()@);
    }
    let m1 = task_map(n);
    let m2 = task_map(tasks).insert(t.spec_id()@, t);
    assert forall|k: Seq<u8>| m1.contains_key(k) == m2.contains_key(k) by {
        if has_task(n, k) {
            let i = choose|i: int| 0 <= i < n.len() && #[trigger] n[i].spec_id()@ == k;
            assert(tasks[i].spec_id()@ == k);
        }
        if has_task(tasks, k) {
            let i = choose|i: int| 0 <= i < tasks.len() && #[trigger] tasks[i].spec_id()@ == k;
            assert(n[i].spec_id()@ == k);
        }
        if k == t.spec_id()@ {
            assert(n[pos].spec_id()@ == k);
        }
    }
    assert forall|k: Seq<u8>| m1.contains_key(k) implies m1[k] == m2[k] by {
        assert(has_task(n, k));
        let i = index_of(n, k);
        lemma_map_at(n, i);
        if i != pos {
            lemma_map_at(tasks, i);
            lemma_map_at(n, pos);
            if k == t.spec_id()@ {
                lemma_sorted_unique(n, i, pos);
            }
        }
    }
    assert(m1 =~= m2);
}

/// Removing a task keeps the order and removes it from the map.
proof fn lemma_remove_sorted(tasks: Seq<TorrentTask>, pos: int)
    requires
        ids_sorted(tasks),
        0 <= pos < tasks.len(),
    ensures
        ids_sorted(tasks.remove(pos)),
        task_map(tasks.remove(pos)) == task_map(tasks).remove(tasks[pos].spec_id()@),
{
    let n = tasks.remove(pos);
    let id = tasks[pos].spec_id()@;
    assert forall|i: int, j: int| 0 <= i < j < n.len() implies bytes_less(n[i].spec_id()@, n[j].spec_id()@) by {
        let a = if i < pos { i } else { i + 1 };
        let b = if j < pos { j } else { j + 1 };
        assert(n[i] == tasks[a]);
        assert(n[j] == tasks[b]);
    }
    let m1 = task_map(n);
    let m2 = task_map(tasks).remove(id);
    assert forall|k: Seq<u8>| m1.contains_key(k) == m2.contains_key(k) by {
        if has_task(n, k) {
            let i = choose|i: int| 0 <= i < n.len() && #[trigger] n[i].spec_id()@ == k;
            let a = if i < pos { i } else { i + 1 };
            assert(tasks[a].spec_id()@ == k);
            if k == id {
                lemma_sorted_unique(tasks, a, pos);
            }
        }
        if has_task(tasks, k) && k != id {
            let i = choose|i: int| 0 <= i < tasks.len() && #[trigger] tasks[i].spec_id()@ == k;
            if i < pos {
                assert(n[i].spec_id()@ == k);
            } else {
                assert(i != pos);
                assert(n[i - 1].spec_id()@ == k);
            }
        }
    }
    assert forall|k: Seq<u8>| m1.contains_key(k) implies m1[k] == m2[k] by {
        assert(has_task(n, k));
        let i = index_of(n, k);
        lemma_map_at(n, i);
        let a = if i < pos { i } else { i + 1 };
        lemma_map_at(tasks, a);
    }
    assert(m1 =~= m2);
}

} // verus!
