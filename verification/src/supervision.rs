use vstd::prelude::*;

use crate::dht::{DhtCommand, DhtRuntimeEvent};
use crate::error::RuntimeError;
use crate::lsd::{LsdCommand, LsdError, LsdRuntimeEvent};
use crate::time::TimeSpan;

verus! {

/// The kinds of task a session owns.
#[derive(Clone, Copy, Debug, PartialEq, Eq, Structural, Hash, PartialOrd, Ord)]
pub enum TaskKind {
    Session,
    Dht,
    Lsd,
}

/// The workers that every torrent of a session shares.
#[derive(Clone, Copy, Debug, PartialEq, Eq, Structural, Hash, PartialOrd, Ord)]
pub enum SharedWorkerKind {
    Dht,
    Lsd,
}

/// Why a task or a delivery failed, without any detail that could leak.
#[derive(Clone, Copy, Debug, PartialEq, Eq, Structural)]
pub enum FailureReasonCode {
    Cancelled,
    ChannelClosed,
    CommandBackpressure,
    WorkerPanicked,
    ShutdownTimeout,
    PersistenceFailed,
    DhtFailed,
    LsdFailed,
}

/// Whether state was saved on shutdown.
#[derive(Clone, Copy, Debug, PartialEq, Eq, Structural)]
pub enum PersistenceOutcome {
    NotAttempted,
    Succeeded,
    Failed(FailureReasonCode),
}

/// How a task ended.
#[derive(Clone, Copy, Debug, PartialEq, Eq, Structural)]
pub enum TaskExit {
    Graceful,
    Failed(FailureReasonCode),
    Aborted,
}

/// Whether a shutdown waits for tasks or aborts them at once.
#[derive(Clone, Copy, Debug, PartialEq, Eq, Structural)]
pub enum ShutdownMode {
    Clean,
    Forced,
}

/// How a task's join handle reported its end: it returned, it panicked, or
/// it was cancelled.
#[derive(Clone, Copy, Debug, PartialEq, Eq, Structural)]
pub enum JoinOutcome {
    Finished,
    Panicked,
    Cancelled,
}

/// What a joined task's outcome means: a return is graceful, a panic is a
/// failure, a cancellation is an abort only where the task was aborted.
pub fn classify_join(result: JoinOutcome, aborted: bool) -> (exit: TaskExit)
    ensures
        exit == (match result {
            JoinOutcome::Finished => TaskExit::Graceful,
            JoinOutcome::Panicked => TaskExit::Failed(FailureReasonCode::WorkerPanicked),
            JoinOutcome::Cancelled => if aborted {
                TaskExit::Aborted
            } else {
                TaskExit::Failed(FailureReasonCode::Cancelled)
            },
        }),
{
    match result {
        JoinOutcome::Finished => TaskExit::Graceful,
        JoinOutcome::Panicked => TaskExit::Failed(FailureReasonCode::WorkerPanicked),
        JoinOutcome::Cancelled => if aborted {
            TaskExit::Aborted
        } else {
            TaskExit::Failed(FailureReasonCode::Cancelled)
        },
    }
}

/// The exits of one kind in a map of exits, or none.
pub open spec fn exits_at(m: Map<TaskKind, Seq<TaskExit>>, kind: TaskKind) -> Seq<TaskExit> {
    if m.dom().contains(kind) {
        m[kind]
    } else {
        Seq::empty()
    }
}

/// Two maps of exits joined: each kind gets the first map's exits, then the
/// second's.
pub open spec fn merged(
    target: Map<TaskKind, Seq<TaskExit>>,
    source: Map<TaskKind, Seq<TaskExit>>,
) -> Map<TaskKind, Seq<TaskExit>> {
    Map::new(
        |k: TaskKind| target.dom().contains(k) || source.dom().contains(k),
        |k: TaskKind| exits_at(target, k) + exits_at(source, k),
    )
}

/// The view of an optional list.
pub open spec fn list_view<T>(o: Option<Vec<T>>) -> Option<Seq<T>> {
    match o {
        Some(v) => Some(v@),
        None => None,
    }
}

/// The items of an optional list, or none.
pub open spec fn list_items<T>(o: Option<Vec<T>>) -> Seq<T> {
    match o {
        Some(v) => v@,
        None => Seq::empty(),
    }
}

/// Appends to an optional list, making it first where there is none.
fn push_into<T>(slot: &mut Option<Vec<T>>, item: T)
    ensures
        list_view(*final(slot)) == Some(list_items(*old(slot)).push(item)),
{
    match slot {
        Some(v) => v.push(item),
        None => {
            let mut v: Vec<T> = Vec::new();
            v.push(item);
            *slot = Some(v);
            assert(v@ =~= Seq::<T>::empty().push(item));
        },
    }
}

/// Appends a list to an optional list, making it first where there is none.
fn extend_into<T>(slot: &mut Option<Vec<T>>, items: Vec<T>)
    ensures
        list_view(*final(slot)) == Some(list_items(*old(slot)) + items@),
{
    let mut items = items;
    match slot {
        Some(v) => v.append(&mut items),
        None => {
            *slot = Some(items);
            assert(items@ =~= Seq::<T>::empty() + items@);
        },
    }
}

/// Exits recorded per task kind; a kind that never had an entry has none.
#[derive(Clone, Debug, PartialEq, Eq)]
pub struct ExitsByKind {
    session: Option<Vec<TaskExit>>,
    dht: Option<Vec<TaskExit>>,
    lsd: Option<Vec<TaskExit>>,
}

impl ExitsByKind {
    /// The entry of one kind.
    pub closed spec fn entry(&self, kind: TaskKind) -> Option<Seq<TaskExit>> {
        match kind {
            TaskKind::Session => list_view(self.session),
            TaskKind::Dht => list_view(self.dht),
            TaskKind::Lsd => list_view(self.lsd),
        }
    }
}

impl View for ExitsByKind {
    type V = Map<TaskKind, Seq<TaskExit>>;

    closed spec fn view(&self) -> Map<TaskKind, Seq<TaskExit>> {
        Map::new(|k: TaskKind| self.entry(k) is Some, |k: TaskKind| self.entry(k)->0)
    }
}

impl ExitsByKind {
    /// An entry is what the view holds for its kind.
    proof fn lemma_entry(&self, kind: TaskKind)
        ensures
            self.entry(kind) == (if self@.dom().contains(kind) {
                Some(self@[kind])
            } else {
                None::<Seq<TaskExit>>
            }),
    {
    }

    /// No exits.
    pub fn new() -> (exits: ExitsByKind)
        ensures
            exits@ == Map::<TaskKind, Seq<TaskExit>>::empty(),
    {
        let exits = ExitsByKind { session: None, dht: None, lsd: None };
        assert(exits@ =~= Map::<TaskKind, Seq<TaskExit>>::empty());
        exits
    }

    /// The exits of a kind, where it has an entry.
    pub fn get(&self, kind: TaskKind) -> (exits: Option<&Vec<TaskExit>>)
        ensures
            match exits {
                Some(v) => self@.dom().contains(kind) && v@ == self@[kind],
                None => !self@.dom().contains(kind),
            },
    {
        let slot = match kind {
            TaskKind::Session => &self.session,
            TaskKind::Dht => &self.dht,
            TaskKind::Lsd => &self.lsd,
        };
        match slot {
            Some(v) => Some(v),
            None => None,
        }
    }

    /// Whether a kind has an entry.
    pub fn contains_kind(&self, kind: TaskKind) -> (has: bool)
        ensures
            has == self@.dom().contains(kind),
    {
        self.get(kind).is_some()
    }

    /// How many of a list's exits are aborts.
    fn count_aborted(v: &Vec<TaskExit>) -> (n: usize)
        ensures
            n == aborted_in(v@),
    {
        let mut n: usize = 0;
        let mut i: usize = 0;
        while i < v.len()
            invariant
                i <= v@.len(),
                n == aborted_in(v@.take(i as int)),
                n <= i,
            decreases v@.len() - i,
        {
            assert(v@.take(i as int + 1).drop_last() =~= v@.take(i as int));
            if v[i] == TaskExit::Aborted {
                n = n + 1;
            }
            i = i + 1;
        }
        assert(v@.take(i as int) =~= v@);
        n
    }
}

/// How many aborts a list of exits holds.
pub open spec fn aborted_in(s: Seq<TaskExit>) -> nat
    decreases s.len(),
{
    if s.len() == 0 {
        0
    } else {
        aborted_in(s.drop_last()) + if s.last() == TaskExit::Aborted {
            1nat
        } else {
            0nat
        }
    }
}

/// A list never holds more aborts than exits.
pub proof fn lemma_aborted_in_bound(s: Seq<TaskExit>)
    ensures
        aborted_in(s) <= s.len(),
    decreases s.len(),
{
    if s.len() > 0 {
        lemma_aborted_in_bound(s.drop_last());
    }
}

/// Records one exit under its kind.
pub fn push_exit(exits: &mut ExitsByKind, kind: TaskKind, exit: TaskExit)
    ensures
        final(exits)@ == old(exits)@.insert(kind, exits_at(old(exits)@, kind).push(exit)),
{
    match kind {
        TaskKind::Session => push_into(&mut exits.session, exit),
        TaskKind::Dht => push_into(&mut exits.dht, exit),
        TaskKind::Lsd => push_into(&mut exits.lsd, exit),
    }
    assert(exits@ =~= old(exits)@.insert(kind, exits_at(old(exits)@, kind).push(exit)));
}

/// Adds every exit of `source` after those of `target`, kind by kind.
pub fn merge_exits(target: &mut ExitsByKind, source: ExitsByKind)
    ensures
        final(target)@ == merged(old(target)@, source@),
{
    let ghost src = source@;
    let ExitsByKind { session, dht, lsd } = source;
    if let Some(v) = session {
        extend_into(&mut target.session, v);
    }
    if let Some(v) = dht {
        extend_into(&mut target.dht, v);
    }
    if let Some(v) = lsd {
        extend_into(&mut target.lsd, v);
    }
    assert(target@ =~= merged(old(target)@, src));
}

/// Failures recorded per shared worker, each reason once.
#[derive(Clone, Debug, PartialEq, Eq)]
pub struct FailuresByWorker {
    dht: Option<Vec<FailureReasonCode>>,
    lsd: Option<Vec<FailureReasonCode>>,
}

impl FailuresByWorker {
    pub closed spec fn entry(&self, worker: SharedWorkerKind) -> Option<Seq<FailureReasonCode>> {
        match worker {
            SharedWorkerKind::Dht => list_view(self.dht),
            SharedWorkerKind::Lsd => list_view(self.lsd),
        }
    }
}

impl View for FailuresByWorker {
    type V = Map<SharedWorkerKind, Seq<FailureReasonCode>>;

    closed spec fn view(&self) -> Map<SharedWorkerKind, Seq<FailureReasonCode>> {
        Map::new(|k: SharedWorkerKind| self.entry(k) is Some, |k: SharedWorkerKind| self.entry(k)->0)
    }
}

/// The reasons recorded for one worker, or none.
pub open spec fn reasons_at(
    m: Map<SharedWorkerKind, Seq<FailureReasonCode>>,
    worker: SharedWorkerKind,
) -> Seq<FailureReasonCode> {
    if m.dom().contains(worker) {
        m[worker]
    } else {
        Seq::empty()
    }
}

/// A list with a value added at the end unless it is already there.
pub open spec fn with_unique(values: Seq<FailureReasonCode>, value: FailureReasonCode) -> Seq<FailureReasonCode> {
    if values.contains(value) {
        values
    } else {
        values.push(value)
    }
}

/// Adds a value to a list unless the list holds it already.
pub fn push_unique(values: &mut Vec<FailureReasonCode>, value: FailureReasonCode)
    ensures
        final(values)@ == with_unique(old(values)@, value),
{
    let mut i: usize = 0;
    while i < values.len()
        invariant
            i <= values@.len(),
            values@ == old(values)@,
            forall|j: int| 0 <= j < i ==> values@[j] != value,
        decreases values@.len() - i,
    {
        if values[i] == value {
            assert(values@.contains(value));
            return;
        }
        i = i + 1;
    }
    assert(!values@.contains(value));
    values.push(value);
}

impl FailuresByWorker {
    /// An entry is what the view holds for its worker.
    proof fn lemma_entry(&self, worker: SharedWorkerKind)
        ensures
            self.entry(worker) == (if self@.dom().contains(worker) {
                Some(self@[worker])
            } else {
                None::<Seq<FailureReasonCode>>
            }),
    {
    }

    /// No failures.
    pub fn new() -> (failures: FailuresByWorker)
        ensures
            failures@ == Map::<SharedWorkerKind, Seq<FailureReasonCode>>::empty(),
    {
        let failures = FailuresByWorker { dht: None, lsd: None };
        assert(failures@ =~= Map::<SharedWorkerKind, Seq<FailureReasonCode>>::empty());
        failures
    }

    /// The reasons recorded for a worker, where it has an entry.
    pub fn get(&self, worker: SharedWorkerKind) -> (reasons: Option<&Vec<FailureReasonCode>>)
        ensures
            match reasons {
                Some(v) => self@.dom().contains(worker) && v@ == self@[worker],
                None => !self@.dom().contains(worker),
            },
    {
        let slot = match worker {
            SharedWorkerKind::Dht => &self.dht,
            SharedWorkerKind::Lsd => &self.lsd,
        };
        match slot {
            Some(v) => Some(v),
            None => None,
        }
    }

    /// Records a reason for a worker, once.
    pub fn record(&mut self, worker: SharedWorkerKind, reason: FailureReasonCode)
        ensures
            final(self)@ == old(self)@.insert(worker, with_unique(reasons_at(old(self)@, worker), reason)),
    {
        let slot = match worker {
            SharedWorkerKind::Dht => &mut self.dht,
            SharedWorkerKind::Lsd => &mut self.lsd,
        };
        match slot {
            Some(v) => push_unique(v, reason),
            None => {
                let mut v: Vec<FailureReasonCode> = Vec::new();
                push_unique(&mut v, reason);
                *slot = Some(v);
            },
        }
        assert(self@ =~= old(self)@.insert(worker, with_unique(reasons_at(old(self)@, worker), reason)));
    }
}

/// What a shutdown found: its mode and duration, every task's exit, the
/// outcome of saving state, and the failures seen while the session ran.
#[derive(Clone, Debug, PartialEq, Eq)]
pub struct ShutdownReport {
    pub mode: ShutdownMode,
    pub elapsed: TimeSpan,
    pub exits: ExitsByKind,
    pub persistence: PersistenceOutcome,
    pub capability_failures: FailuresByWorker,
    pub session_failures: Vec<FailureReasonCode>,
}

impl ShutdownReport {
    /// A report with no exits, no failures and nothing saved.
    pub fn new(mode: ShutdownMode, elapsed: TimeSpan) -> (report: ShutdownReport)
        ensures
            report.mode == mode,
            report.elapsed == elapsed,
            report.exits@ == Map::<TaskKind, Seq<TaskExit>>::empty(),
            report.persistence == PersistenceOutcome::NotAttempted,
            report.capability_failures@ == Map::<SharedWorkerKind, Seq<FailureReasonCode>>::empty(),
            report.session_failures@ == Seq::<FailureReasonCode>::empty(),
    {
        ShutdownReport {
            mode,
            elapsed,
            exits: ExitsByKind::new(),
            persistence: PersistenceOutcome::NotAttempted,
            capability_failures: FailuresByWorker::new(),
            session_failures: Vec::new(),
        }
    }

    /// How many tasks were aborted, over every kind.
    pub fn aborted_count(&self) -> (n: usize)
        requires
            exits_at(self.exits@, TaskKind::Session).len() + exits_at(self.exits@, TaskKind::Dht).len()
                + exits_at(self.exits@, TaskKind::Lsd).len() <= usize::MAX,
        ensures
            n == aborted_in(exits_at(self.exits@, TaskKind::Session)) + aborted_in(
                exits_at(self.exits@, TaskKind::Dht),
            ) + aborted_in(exits_at(self.exits@, TaskKind::Lsd)),
    {
        let a = match self.exits.get(TaskKind::Session) {
            Some(v) => ExitsByKind::count_aborted(v),
            None => 0,
        };
        let b = match self.exits.get(TaskKind::Dht) {
            Some(v) => ExitsByKind::count_aborted(v),
            None => 0,
        };
        let c = match self.exits.get(TaskKind::Lsd) {
            Some(v) => ExitsByKind::count_aborted(v),
            None => 0,
        };
        proof {
            lemma_aborted_in_bound(exits_at(self.exits@, TaskKind::Session));
            lemma_aborted_in_bound(exits_at(self.exits@, TaskKind::Dht));
            lemma_aborted_in_bound(exits_at(self.exits@, TaskKind::Lsd));
        }
        a + b + c
    }
}

/// Whether two lists of exits are the same.
fn same_exit_list(a: &Vec<TaskExit>, b: &Vec<TaskExit>) -> (same: bool)
    ensures
        same == (a@ == b@),
{
    if a.len() != b.len() {
        return false;
    }
    let mut i: usize = 0;
    while i < a.len()
        invariant
            a@.len() == b@.len(),
            i <= a@.len(),
            forall|j: int| 0 <= j < i ==> a@[j] == b@[j],
        decreases a@.len() - i,
    {
        if a[i] != b[i] {
            return false;
        }
        i = i + 1;
    }
    assert(a@ =~= b@);
    true
}

/// Whether two lists of reasons are the same.
fn same_reason_list(a: &Vec<FailureReasonCode>, b: &Vec<FailureReasonCode>) -> (same: bool)
    ensures
        same == (a@ == b@),
{
    if a.len() != b.len() {
        return false;
    }
    let mut i: usize = 0;
    while i < a.len()
        invariant
            a@.len() == b@.len(),
            i <= a@.len(),
            forall|j: int| 0 <= j < i ==> a@[j] == b@[j],
        decreases a@.len() - i,
    {
        if a[i] != b[i] {
            return false;
        }
        i = i + 1;
    }
    assert(a@ =~= b@);
    true
}

fn same_optional_exits(a: &Option<Vec<TaskExit>>, b: &Option<Vec<TaskExit>>) -> (same: bool)
    ensures
        same == (list_view(*a) == list_view(*b)),
{
    match (a, b) {
        (Some(x), Some(y)) => same_exit_list(x, y),
        (None, None) => true,
        _ => false,
    }
}

fn same_optional_reasons(a: &Option<Vec<FailureReasonCode>>, b: &Option<Vec<FailureReasonCode>>) -> (same: bool)
    ensures
        same == (list_view(*a) == list_view(*b)),
{
    match (a, b) {
        (Some(x), Some(y)) => same_reason_list(x, y),
        (None, None) => true,
        _ => false,
    }
}

/// When two reports say the same.
pub open spec fn same_report(a: ShutdownReport, b: ShutdownReport) -> bool {
    &&& a.mode == b.mode
    &&& a.elapsed == b.elapsed
    &&& a.exits@ == b.exits@
    &&& a.persistence == b.persistence
    &&& a.capability_failures@ == b.capability_failures@
    &&& a.session_failures@ == b.session_failures@
}

impl ShutdownReport {
    /// Whether two reports say the same.
    pub fn same_as(&self, other: &ShutdownReport) -> (same: bool)
        ensures
            same == same_report(*self, *other),
    {
        let exits = same_optional_exits(&self.exits.session, &other.exits.session)
            && same_optional_exits(&self.exits.dht, &other.exits.dht)
            && same_optional_exits(&self.exits.lsd, &other.exits.lsd);
        proof {
            if exits {
                assert(self.exits@ =~= other.exits@);
            } else if self.exits@ == other.exits@ {
                self.exits.lemma_entry(TaskKind::Session);
                other.exits.lemma_entry(TaskKind::Session);
                self.exits.lemma_entry(TaskKind::Dht);
                other.exits.lemma_entry(TaskKind::Dht);
                self.exits.lemma_entry(TaskKind::Lsd);
                other.exits.lemma_entry(TaskKind::Lsd);
            }
        }
        let failures = same_optional_reasons(&self.capability_failures.dht, &other.capability_failures.dht)
            && same_optional_reasons(&self.capability_failures.lsd, &other.capability_failures.lsd);
        proof {
            if failures {
                assert(self.capability_failures@ =~= other.capability_failures@);
            } else if self.capability_failures@ == other.capability_failures@ {
                self.capability_failures.lemma_entry(SharedWorkerKind::Dht);
                other.capability_failures.lemma_entry(SharedWorkerKind::Dht);
                self.capability_failures.lemma_entry(SharedWorkerKind::Lsd);
                other.capability_failures.lemma_entry(SharedWorkerKind::Lsd);
            }
        }
        self.mode == other.mode && self.elapsed == other.elapsed && exits && self.persistence == other.persistence
            && failures && same_reason_list(&self.session_failures, &other.session_failures)
    }
}

/// The report of a session whose supervisor did not answer in time: forced,
/// with the session itself timed out.
pub fn timeout_report(elapsed: TimeSpan) -> (report: ShutdownReport)
    ensures
        report.mode == ShutdownMode::Forced,
        report.elapsed == elapsed,
        report.exits@ == Map::<TaskKind, Seq<TaskExit>>::empty().insert(
            TaskKind::Session,
            seq![TaskExit::Failed(FailureReasonCode::ShutdownTimeout)],
        ),
        report.persistence == PersistenceOutcome::NotAttempted,
        report.capability_failures@ == Map::<SharedWorkerKind, Seq<FailureReasonCode>>::empty(),
        report.session_failures@ == Seq::<FailureReasonCode>::empty(),
{
    let mut report = ShutdownReport::new(ShutdownMode::Forced, elapsed);
    push_exit(&mut report.exits, TaskKind::Session, TaskExit::Failed(FailureReasonCode::ShutdownTimeout));
    assert(Seq::<TaskExit>::empty().push(TaskExit::Failed(FailureReasonCode::ShutdownTimeout)) =~= seq![
        TaskExit::Failed(FailureReasonCode::ShutdownTimeout),
    ]);
    report
}

/// The report of a daemon that was aborted: forced, with the session
/// aborted and nothing saved.
pub fn aborted_daemon_report(elapsed: TimeSpan) -> (report: ShutdownReport)
    ensures
        report.mode == ShutdownMode::Forced,
        report.elapsed == elapsed,
        report.exits@ == Map::<TaskKind, Seq<TaskExit>>::empty().insert(TaskKind::Session, seq![TaskExit::Aborted]),
        report.persistence == PersistenceOutcome::NotAttempted,
        report.capability_failures@ == Map::<SharedWorkerKind, Seq<FailureReasonCode>>::empty(),
        report.session_failures@ == Seq::<FailureReasonCode>::empty(),
{
    let mut report = ShutdownReport::new(ShutdownMode::Forced, elapsed);
    push_exit(&mut report.exits, TaskKind::Session, TaskExit::Aborted);
    assert(Seq::<TaskExit>::empty().push(TaskExit::Aborted) =~= seq![TaskExit::Aborted]);
    report.persistence = PersistenceOutcome::NotAttempted;
    report
}

/// The longest span, in nanoseconds.
pub open spec fn max_span_nanos() -> nat {
    (u64::MAX * 1_000_000_000 + 999_999_999) as nat
}

/// A sum of spans, held at the longest span.
pub open spec fn saturated(nanos: nat) -> nat {
    if nanos > max_span_nanos() {
        max_span_nanos()
    } else {
        nanos
    }
}

fn saturating_add(a: TimeSpan, b: TimeSpan) -> (sum: TimeSpan)
    ensures
        sum@ == saturated(a@ + b@),
{
    match a.checked_add(&b) {
        Some(s) => s,
        None => TimeSpan::max_value(),
    }
}

/// The grace a session owner gives its supervisor beyond the workers' budget.
pub const SHUTDOWN_CONTROL_GRACE_MILLIS: u64 = 100;

/// How long an owner waits for its session to shut down: a clean shutdown
/// may take both budgets, a forced one the forced budget; then the grace.
pub fn shutdown_budget(mode: ShutdownMode, clean_timeout: TimeSpan, forced_timeout: TimeSpan) -> (budget: TimeSpan)
    ensures
        budget@ == saturated(
            (match mode {
                ShutdownMode::Clean => saturated(clean_timeout@ + forced_timeout@),
                ShutdownMode::Forced => forced_timeout@,
            }) + 100_000_000,
        ),
{
    let worker = match mode {
        ShutdownMode::Clean => saturating_add(clean_timeout, forced_timeout),
        ShutdownMode::Forced => forced_timeout,
    };
    saturating_add(worker, TimeSpan::from_millis(SHUTDOWN_CONTROL_GRACE_MILLIS))
}

/// The shared worker a task kind stands for; the session is none.
pub open spec fn spec_shared_worker(kind: TaskKind) -> Option<SharedWorkerKind> {
    match kind {
        TaskKind::Dht => Some(SharedWorkerKind::Dht),
        TaskKind::Lsd => Some(SharedWorkerKind::Lsd),
        TaskKind::Session => None,
    }
}

pub fn shared_worker(kind: TaskKind) -> (worker: Option<SharedWorkerKind>)
    ensures
        worker == spec_shared_worker(kind),
{
    match kind {
        TaskKind::Dht => Some(SharedWorkerKind::Dht),
        TaskKind::Lsd => Some(SharedWorkerKind::Lsd),
        TaskKind::Session => None,
    }
}

/// What a session tells its owner.
#[derive(Clone, Copy, Debug, PartialEq, Eq, Structural)]
pub enum SessionNotice {
    DhtBootstrapped { nodes: usize },
    SharedWorkerFailed { worker: SharedWorkerKind, reason: FailureReasonCode },
}

/// What a session passes on from its workers.
#[derive(Clone, Debug, PartialEq, Eq)]
pub enum SessionEvent {
    Dht(DhtRuntimeEvent),
    Lsd(LsdRuntimeEvent),
    SharedWorkerFailed { worker: SharedWorkerKind, reason: FailureReasonCode },
}

/// A command for one of the shared workers.
#[derive(Clone, Debug, PartialEq, Eq)]
pub enum SessionCommand {
    Dht(DhtCommand),
    Lsd(LsdCommand),
}

/// The worker a command goes to.
pub fn command_worker(command: &SessionCommand) -> (worker: SharedWorkerKind)
    ensures
        worker == (match command {
            SessionCommand::Dht(_) => SharedWorkerKind::Dht,
            SessionCommand::Lsd(_) => SharedWorkerKind::Lsd,
        }),
{
    match command {
        SessionCommand::Dht(_) => SharedWorkerKind::Dht,
        SessionCommand::Lsd(_) => SharedWorkerKind::Lsd,
    }
}

/// What a DHT event becomes at the session boundary: a failure keeps only
/// its code; a bootstrap is passed on with a notice; the rest is passed on.
pub fn normalize_dht_event(event: DhtRuntimeEvent) -> (res: Result<(SessionEvent, Option<SessionNotice>), FailureReasonCode>)
    ensures
        res == (match event {
            DhtRuntimeEvent::Failed { .. } => Err(FailureReasonCode::DhtFailed),
            DhtRuntimeEvent::Bootstrapped { nodes } => Ok(
                (
                    SessionEvent::Dht(DhtRuntimeEvent::Bootstrapped { nodes }),
                    Some(SessionNotice::DhtBootstrapped { nodes }),
                ),
            ),
            _ => Ok((SessionEvent::Dht(event), None)),
        }),
{
    match event {
        DhtRuntimeEvent::Failed { .. } => Err(FailureReasonCode::DhtFailed),
        DhtRuntimeEvent::Bootstrapped { nodes } => Ok(
            (
                SessionEvent::Dht(DhtRuntimeEvent::Bootstrapped { nodes }),
                Some(SessionNotice::DhtBootstrapped { nodes }),
            ),
        ),
        event => Ok((SessionEvent::Dht(event), None)),
    }
}

/// The runtime error a refused discovery command becomes.
pub fn map_lsd_error(error: LsdError) -> (mapped: RuntimeError)
    ensures
        mapped == (match error {
            LsdError::CommandBackpressure => RuntimeError::Backpressure { stage: "lsd_command" },
            _ => RuntimeError::Cancelled,
        }),
{
    match error {
        LsdError::CommandBackpressure => RuntimeError::Backpressure { stage: "lsd_command" },
        LsdError::WorkerClosed => RuntimeError::Cancelled,
        _ => RuntimeError::Cancelled,
    }
}

/// The code a refused worker command is recorded under.
pub fn command_failure_reason(error: &RuntimeError) -> (reason: FailureReasonCode)
    ensures
        reason == (if error is Backpressure {
            FailureReasonCode::CommandBackpressure
        } else {
            FailureReasonCode::ChannelClosed
        }),
{
    match error {
        RuntimeError::Backpressure { .. } => FailureReasonCode::CommandBackpressure,
        _ => FailureReasonCode::ChannelClosed,
    }
}

/// The code a failed delivery is recorded under: a full channel is
/// backpressure, a closed one is closed.
pub fn delivery_failure_reason(full: bool) -> (reason: FailureReasonCode)
    ensures
        reason == (if full {
            FailureReasonCode::CommandBackpressure
        } else {
            FailureReasonCode::ChannelClosed
        }),
{
    if full {
        FailureReasonCode::CommandBackpressure
    } else {
        FailureReasonCode::ChannelClosed
    }
}

/// The notices a batch of exits of one kind gives: one per failure of a
/// shared worker, in order.
pub open spec fn failure_notices(kind: TaskKind, exits: Seq<TaskExit>) -> Seq<SessionNotice>
    decreases exits.len(),
{
    if exits.len() == 0 {
        Seq::empty()
    } else {
        let rest = failure_notices(kind, exits.drop_last());
        match (exits.last(), spec_shared_worker(kind)) {
            (TaskExit::Failed(reason), Some(worker)) => rest.push(
                SessionNotice::SharedWorkerFailed { worker, reason },
            ),
            _ => rest,
        }
    }
}

/// What a session supervisor keeps while it runs: the exits it has seen,
/// the failures of its shared workers, and the failures to deliver.
pub struct SupervisorLedger {
    observed_exits: ExitsByKind,
    capability_failures: FailuresByWorker,
    session_failures: Vec<FailureReasonCode>,
}

impl SupervisorLedger {
    pub closed spec fn spec_observed(&self) -> Map<TaskKind, Seq<TaskExit>> {
        self.observed_exits@
    }

    pub closed spec fn spec_capability_failures(&self) -> Map<SharedWorkerKind, Seq<FailureReasonCode>> {
        self.capability_failures@
    }

    pub closed spec fn spec_session_failures(&self) -> Seq<FailureReasonCode> {
        self.session_failures@
    }

    /// Nothing seen yet.
    pub fn new() -> (ledger: SupervisorLedger)
        ensures
            ledger.spec_observed() == Map::<TaskKind, Seq<TaskExit>>::empty(),
            ledger.spec_capability_failures() == Map::<SharedWorkerKind, Seq<FailureReasonCode>>::empty(),
            ledger.spec_session_failures() == Seq::<FailureReasonCode>::empty(),
    {
        SupervisorLedger {
            observed_exits: ExitsByKind::new(),
            capability_failures: FailuresByWorker::new(),
            session_failures: Vec::new(),
        }
    }

    /// Records a failure of a shared worker, and gives the event and the
    /// notice that report it.
    pub fn emit_failure(&mut self, worker: SharedWorkerKind, reason: FailureReasonCode) -> (out: (
        SessionEvent,
        SessionNotice,
    ))
        ensures
            final(self).spec_capability_failures() == old(self).spec_capability_failures().insert(
                worker,
                with_unique(reasons_at(old(self).spec_capability_failures(), worker), reason),
            ),
            final(self).spec_observed() == old(self).spec_observed(),
            final(self).spec_session_failures() == old(self).spec_session_failures(),
            out.0 == (SessionEvent::SharedWorkerFailed { worker, reason }),
            out.1 == (SessionNotice::SharedWorkerFailed { worker, reason }),
    {
        self.capability_failures.record(worker, reason);
        (SessionEvent::SharedWorkerFailed { worker, reason }, SessionNotice::SharedWorkerFailed { worker, reason })
    }

    /// Records a refused command for a worker; see `emit_failure`.
    pub fn command_failed(&mut self, worker: SharedWorkerKind, error: &RuntimeError) -> (out: (
        SessionEvent,
        SessionNotice,
    ))
        ensures
            ({
                let reason = if error is Backpressure {
                    FailureReasonCode::CommandBackpressure
                } else {
                    FailureReasonCode::ChannelClosed
                };
                &&& final(self).spec_capability_failures() == old(self).spec_capability_failures().insert(
                    worker,
                    with_unique(reasons_at(old(self).spec_capability_failures(), worker), reason),
                )
                &&& out.0 == (SessionEvent::SharedWorkerFailed { worker, reason })
                &&& out.1 == (SessionNotice::SharedWorkerFailed { worker, reason })
            }),
            final(self).spec_observed() == old(self).spec_observed(),
            final(self).spec_session_failures() == old(self).spec_session_failures(),
    {
        let reason = command_failure_reason(error);
        self.emit_failure(worker, reason)
    }

    /// Records that an event or notice could not be delivered.
    pub fn record_delivery_failure(&mut self, full: bool)
        ensures
            final(self).spec_session_failures() == with_unique(
                old(self).spec_session_failures(),
                if full {
                    FailureReasonCode::CommandBackpressure
                } else {
                    FailureReasonCode::ChannelClosed
                },
            ),
            final(self).spec_observed() == old(self).spec_observed(),
            final(self).spec_capability_failures() == old(self).spec_capability_failures(),
    {
        let reason = delivery_failure_reason(full);
        push_unique(&mut self.session_failures, reason);
    }

    /// Records the exits of finished tasks of one kind, and gives a notice
    /// for each failure of a shared worker among them.
    pub fn harvest(&mut self, kind: TaskKind, exits: Vec<TaskExit>) -> (notices: Vec<SessionNotice>)
        ensures
            notices@ == failure_notices(kind, exits@),
            final(self).spec_observed() == old(self).spec_observed().insert(
                kind,
                exits_at(old(self).spec_observed(), kind) + exits@,
            ),
            final(self).spec_capability_failures() == old(self).spec_capability_failures(),
            final(self).spec_session_failures() == old(self).spec_session_failures(),
    {
        let worker = shared_worker(kind);
        let mut notices: Vec<SessionNotice> = Vec::new();
        let mut i: usize = 0;
        while i < exits.len()
            invariant
                i <= exits@.len(),
                worker == spec_shared_worker(kind),
                notices@ == failure_notices(kind, exits@.take(i as int)),
            decreases exits@.len() - i,
        {
            assert(exits@.take(i as int + 1).drop_last() =~= exits@.take(i as int));
            if let TaskExit::Failed(reason) = exits[i] {
                if let Some(w) = worker {
                    notices.push(SessionNotice::SharedWorkerFailed { worker: w, reason });
                }
            }
            i = i + 1;
        }
        assert(exits@.take(i as int) =~= exits@);
        let ghost ex = exits@;
        let ghost before = self.observed_exits@;
        let mut batch = ExitsByKind::new();
        match kind {
            TaskKind::Session => batch.session = Some(exits),
            TaskKind::Dht => batch.dht = Some(exits),
            TaskKind::Lsd => batch.lsd = Some(exits),
        }
        let ghost added = batch@;
        assert(added =~= Map::<TaskKind, Seq<TaskExit>>::empty().insert(kind, ex));
        merge_exits(&mut self.observed_exits, batch);
        assert forall|k: TaskKind| k != kind implies exits_at(before, k) + exits_at(added, k) =~= exits_at(before, k) by {
        }
        assert(self.observed_exits@ =~= before.insert(kind, exits_at(before, kind) + ex));
        notices
    }

    /// Builds the report of a shutdown from the exits the registry gave: the
    /// exits seen earlier follow them kind by kind, and the recorded
    /// failures move into the report.
    pub fn finish(&mut self, mode: ShutdownMode, elapsed: TimeSpan, exits: ExitsByKind) -> (report: ShutdownReport)
        ensures
            report.mode == mode,
            report.elapsed == elapsed,
            report.exits@ == merged(exits@, old(self).spec_observed()),
            report.persistence == PersistenceOutcome::NotAttempted,
            report.capability_failures@ == old(self).spec_capability_failures(),
            report.session_failures@ == old(self).spec_session_failures(),
            final(self).spec_observed() == Map::<TaskKind, Seq<TaskExit>>::empty(),
            final(self).spec_capability_failures() == Map::<SharedWorkerKind, Seq<FailureReasonCode>>::empty(),
            final(self).spec_session_failures() == Seq::<FailureReasonCode>::empty(),
    {
        let mut exits = exits;
        let mut observed = ExitsByKind::new();
        std::mem::swap(&mut observed, &mut self.observed_exits);
        merge_exits(&mut exits, observed);
        let mut capability_failures = FailuresByWorker::new();
        std::mem::swap(&mut capability_failures, &mut self.capability_failures);
        let mut session_failures: Vec<FailureReasonCode> = Vec::new();
        std::mem::swap(&mut session_failures, &mut self.session_failures);
        let mut report = ShutdownReport::new(mode, elapsed);
        report.exits = exits;
        report.capability_failures = capability_failures;
        report.session_failures = session_failures;
        report
    }
}

} // verus!
