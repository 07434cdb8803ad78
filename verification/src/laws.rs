use vstd::prelude::*;

use crate::corruption::{blocks_blaming, failure_count, has_block, is_block, with_failure, BadBlockView};
use crate::error::{same_failure, RuntimeError};
use crate::format::{hex_char, hex_text};
use crate::lsd::{hex_digit, info_hash_value};
use crate::net::SocketAddress;
use crate::engine::announce_targets;
use crate::snapshot::{RuntimeEvent, TorrentId, TorrentStatus};
use crate::source::{
    after_failure, distinct_endpoints, has_endpoint, is_retry_candidate, SourceFailure, record_candidate, retry_candidates, EndpointView,
    SourceRecord, SourceState, SourceTableView,
};
use crate::supervision::{exits_at, merged, with_unique, FailureReasonCode, TaskExit, TaskKind};
use crate::task::{command_outcome, illegal_transition, quarantined, spec_is_legal_transition, TorrentCommand, TorrentTask};

verus! {

/// A torrent never moves to the state it is in, and never leaves `Failed`
/// or `Cancelled`.
pub proof fn law_lifecycle_has_no_self_moves_and_ends_for_good(from: TorrentStatus, to: TorrentStatus)
    ensures
        !spec_is_legal_transition(from, from),
        !spec_is_legal_transition(TorrentStatus::Failed, to),
        !spec_is_legal_transition(TorrentStatus::Cancelled, to),
{
}

/// Equality of failures is symmetric and transitive, and every failure
/// that equality compares equals itself: all but a full source table, a
/// duplicate source, and persistence, magnet, metadata and daemon shutdown
/// failures, which equal nothing.
pub proof fn law_failure_equality_is_an_equivalence(a: RuntimeError, b: RuntimeError, c: RuntimeError)
    ensures
        !(a is SourceTableFull || a is DuplicateSource || a is Persistence || a is Magnet || a is Metadata
            || a is DaemonShutdown) ==> same_failure(a, a),
        (a is SourceTableFull || a is DuplicateSource || a is Persistence || a is Magnet || a is Metadata
            || a is DaemonShutdown) ==> !same_failure(a, b) && !same_failure(b, a),
        same_failure(a, b) ==> same_failure(b, a),
        same_failure(a, b) && same_failure(b, c) ==> same_failure(a, c),
{
}

/// Recording a reason twice records it once: the list stays free of repeats
/// and holds the reason.
pub proof fn law_unique_push_is_idempotent(values: Seq<FailureReasonCode>, value: FailureReasonCode)
    ensures
        with_unique(with_unique(values, value), value) == with_unique(values, value),
        with_unique(values, value).contains(value),
        values.no_duplicates() ==> with_unique(values, value).no_duplicates(),
{
    if !values.contains(value) {
        assert(values.push(value)[values.len() as int] == value);
    }
}

/// Merging exits loses none and adds none: each kind ends with the target's
/// exits followed by the source's, and merging nothing changes nothing.
pub proof fn law_merging_exits_keeps_every_exit(
    target: Map<TaskKind, Seq<TaskExit>>,
    source: Map<TaskKind, Seq<TaskExit>>,
    kind: TaskKind,
)
    ensures
        exits_at(merged(target, source), kind) == exits_at(target, kind) + exits_at(source, kind),
        exits_at(merged(target, source), kind).len() == exits_at(target, kind).len() + exits_at(source, kind).len(),
        merged(target, Map::empty()) == target,
{
    assert(merged(target, Map::empty()) =~= target) by {
        assert forall|k: TaskKind| target.dom().contains(k) implies #[trigger] merged(target, Map::empty())[k] == target[k] by {
            assert(exits_at(target, k) + exits_at(Map::<TaskKind, Seq<TaskExit>>::empty(), k) =~= target[k]);
        }
    }
}

/// Every retry candidate is the candidate form of a record that may be
/// retried, among the first `n`.
proof fn lemma_retry_candidates_come_from_retryable(entries: Seq<SourceRecord>, n: nat, j: int)
    requires
        n <= entries.len(),
        0 <= j < retry_candidates(entries, n).len(),
    ensures
        exists|i: int|
            0 <= i < n && is_retry_candidate(entries[i]) && retry_candidates(entries, n)[j] == record_candidate(
                entries,
                i,
            ),
    decreases n,
{
    let acc = retry_candidates(entries, (n - 1) as nat);
    if j < acc.len() {
        lemma_retry_candidates_come_from_retryable(entries, (n - 1) as nat, j);
        let i = choose|i: int|
            0 <= i < n - 1 && is_retry_candidate(entries[i]) && acc[j] == record_candidate(entries, i);
        assert(retry_candidates(entries, n)[j] == acc[j]);
    } else {
        assert(retry_candidates(entries, n)[j] == record_candidate(entries, n - 1));
    }
}

/// A source that just succeeded is not offered again as a candidate.
pub proof fn law_succeeded_source_is_not_a_candidate(entries: Seq<SourceRecord>, k: int)
    requires
        0 <= k < entries.len(),
        entries.len() <= usize::MAX,
    ensures
        ({
            let after = entries.update(k, SourceRecord { state: SourceState::Active, failures: 0, ..entries[k] });
            forall|j: int|
                0 <= j < retry_candidates(after, after.len()).len() ==> (#[trigger] retry_candidates(
                    after,
                    after.len(),
                )[j]).id != k + 1
        }),
{
    let after = entries.update(k, SourceRecord { state: SourceState::Active, failures: 0, ..entries[k] });
    assert forall|j: int| 0 <= j < retry_candidates(after, after.len()).len() implies (#[trigger] retry_candidates(
        after,
        after.len(),
    )[j]).id != k + 1 by {
        lemma_retry_candidates_come_from_retryable(after, after.len(), j);
        let i = choose|i: int|
            0 <= i < after.len() && is_retry_candidate(after[i]) && retry_candidates(after, after.len())[j]
                == record_candidate(after, i);
        assert(i != k);
        assert(record_candidate(after, i).id == i + 1);
    }
}

/// Counting blame over two lists of blocks where every block of the first
/// still blames whom it blamed.
proof fn lemma_blaming_grows(a: Seq<BadBlockView>, b: Seq<BadBlockView>, peer: SocketAddress, n: nat)
    requires
        n <= a.len(),
        n <= b.len(),
        forall|j: int| 0 <= j < n ==> (#[trigger] a[j].peers).contains(peer) ==> b[j].peers.contains(peer),
    ensures
        blocks_blaming(b, peer, n) >= blocks_blaming(a, peer, n),
    decreases n,
{
    if n > 0 {
        lemma_blaming_grows(a, b, peer, (n - 1) as nat);
    }
}

proof fn lemma_blaming_prefix(a: Seq<BadBlockView>, b: Seq<BadBlockView>, peer: SocketAddress, n: nat)
    requires
        n <= a.len(),
        n <= b.len(),
        forall|j: int| 0 <= j < n ==> a[j] == b[j],
    ensures
        blocks_blaming(b, peer, n) == blocks_blaming(a, peer, n),
    decreases n,
{
    if n > 0 {
        lemma_blaming_prefix(a, b, peer, (n - 1) as nat);
    }
}

/// Blame only grows: after a peer sends a bad block, no peer blames fewer
/// blocks than before, so a quarantined peer stays past the threshold.
pub proof fn law_blame_only_grows(
    blocks: Seq<BadBlockView>,
    piece: u32,
    block: u32,
    peer: SocketAddress,
    other: SocketAddress,
)
    ensures
        failure_count(with_failure(blocks, piece, block, peer), other) >= failure_count(blocks, other),
{
    let after = with_failure(blocks, piece, block, peer);
    if has_block(blocks, piece, block) {
        let i = choose|i: int| 0 <= i < blocks.len() && is_block(#[trigger] blocks[i], piece, block);
        assert forall|j: int| 0 <= j < blocks.len() implies (#[trigger] blocks[j].peers).contains(other)
            ==> after[j].peers.contains(other) by {
            if j == i && blocks[j].peers.contains(other) {
                let k = choose|k: int| 0 <= k < blocks[j].peers.len() && blocks[j].peers[k] == other;
                assert(after[j].peers[k] == other);
            }
        }
        lemma_blaming_grows(blocks, after, other, blocks.len());
    } else {
        lemma_blaming_prefix(blocks, after, other, blocks.len());
    }
}

/// The hex text of some bytes has two digits per byte, high digit first.
pub(crate) proof fn lemma_hex_text_digits(bytes: Seq<u8>)
    ensures
        hex_text(bytes).len() == 2 * bytes.len(),
        forall|k: int|
            0 <= k < bytes.len() ==> hex_text(bytes)[2 * k] == hex_char(bytes[k] as nat / 16) && hex_text(bytes)[2 * k
                + 1] == hex_char(bytes[k] as nat % 16),
    decreases bytes.len(),
{
    if bytes.len() > 0 {
        let init = bytes.drop_last();
        lemma_hex_text_digits(init);
        let t = hex_text(bytes);
        assert(t == hex_text(init) + seq![hex_char(bytes.last() as nat / 16), hex_char(bytes.last() as nat % 16)]);
        assert forall|k: int| 0 <= k < bytes.len() implies t[2 * k] == hex_char(bytes[k] as nat / 16) && t[2 * k + 1]
            == hex_char(bytes[k] as nat % 16) by {
            if k < init.len() {
                assert(init[k] == bytes[k]);
            }
        }
    }
}

/// Every hex digit this library writes reads back as its value.
pub(crate) proof fn lemma_hex_char_reads_back(d: nat)
    requires
        d < 16,
    ensures
        hex_digit(hex_char(d)) == Some(d as u8),
{
    if d < 10 {
        assert(hex_char(d) as u32 == 48 + d);
    } else {
        assert(hex_char(d) as u32 == 55 + d);
    }
}

/// Reading the hex text of twenty bytes gives the bytes back.
pub proof fn law_info_hash_hex_round_trip(bytes: Seq<u8>)
    requires
        bytes.len() == 20,
    ensures
        info_hash_value(hex_text(bytes)) == Some(bytes),
{
    let t = hex_text(bytes);
    lemma_hex_text_digits(bytes);
    assert forall|i: int| 0 <= i < 40 implies (#[trigger] hex_digit(t[i])) is Some by {
        let k = i / 2;
        if i % 2 == 0 {
            assert(i == 2 * k);
            lemma_hex_char_reads_back(bytes[k] as nat / 16);
        } else {
            assert(i == 2 * k + 1);
            lemma_hex_char_reads_back(bytes[k] as nat % 16);
        }
    }
    let back = Seq::new(20, |k: int| (hex_digit(t[2 * k])->0 * 16 + hex_digit(t[2 * k + 1])->0) as u8);
    assert forall|k: int| 0 <= k < 20 implies back[k] == bytes[k] by {
        lemma_hex_char_reads_back(bytes[k] as nat / 16);
        lemma_hex_char_reads_back(bytes[k] as nat % 16);
    }
    assert(back =~= bytes);
}

/// Quarantine sticks: blaming the source at an address for corrupt data a
/// second time changes nothing more.
pub proof fn law_quarantine_is_idempotent(t: SourceTableView, addr: SocketAddress)
    requires
        distinct_endpoints(t.entries),
    ensures
        quarantined(quarantined(t, addr), addr) == quarantined(t, addr),
{
    let e = EndpointView::Peer(addr);
    if has_endpoint(t.entries, e) {
        let k = choose|k: int| 0 <= k < t.entries.len() && #[trigger] t.entries[k].endpoint == e;
        let t1 = quarantined(t, addr);
        assert(t1.entries[k].endpoint == e);
        assert(has_endpoint(t1.entries, e));
        let k1 = choose|k: int| 0 <= k < t1.entries.len() && #[trigger] t1.entries[k].endpoint == e;
        if k1 != k {
            assert(t1.entries[k1] == t.entries[k1]);
            if k1 < k {
                assert(t.entries[k1].endpoint != t.entries[k].endpoint);
            } else {
                assert(t.entries[k].endpoint != t.entries[k1].endpoint);
            }
        }
        assert(t1.entries.update(k, t1.entries[k]) =~= t1.entries);
    }
}

/// Law: what the lifecycle commands do. A torrent that has not ended
/// (neither failed, cancelled nor complete) is cancelled by one state
/// change; a checking torrent starts discovering; a discovering,
/// downloading or seeding torrent pauses; a paused torrent resumes
/// seeding when every byte is verified and downloading otherwise; a tick
/// moves a checking torrent to discovering and a discovering one to
/// downloading, and leaves a downloading or paused one as it is. A complete
/// torrent resumes seeding once every byte is verified, and cannot be
/// cancelled. Only a checking torrent starts; a checking, complete, failed
/// or cancelled one cannot pause; a checking one cannot resume. A failed or
/// cancelled torrent refuses every move to another state.
pub proof fn law_commands_move_the_lifecycle(id: TorrentId, status: TorrentStatus, verified: u64, total: u64)
    ensures
        status != TorrentStatus::Failed && status != TorrentStatus::Cancelled && status != TorrentStatus::Complete
            ==> command_outcome(id, TorrentCommand::Cancel, status, verified, total) == (
            TorrentStatus::Cancelled,
            Ok::<Seq<RuntimeEvent>, RuntimeError>(
                seq![RuntimeEvent::StateChanged { torrent: id, from: status, to: TorrentStatus::Cancelled }],
            ),
        ),
        command_outcome(id, TorrentCommand::Start, TorrentStatus::Checking, verified, total) == (
            TorrentStatus::Discovering,
            Ok::<Seq<RuntimeEvent>, RuntimeError>(
                seq![RuntimeEvent::StateChanged { torrent: id, from: TorrentStatus::Checking, to: TorrentStatus::Discovering }],
            ),
        ),
        status == TorrentStatus::Discovering || status == TorrentStatus::Downloading || status == TorrentStatus::Seeding
            ==> command_outcome(id, TorrentCommand::Pause, status, verified, total) == (
            TorrentStatus::Paused,
            Ok::<Seq<RuntimeEvent>, RuntimeError>(
                seq![RuntimeEvent::StateChanged { torrent: id, from: status, to: TorrentStatus::Paused }],
            ),
        ),
        ({
            let to = if verified == total { TorrentStatus::Seeding } else { TorrentStatus::Downloading };
            command_outcome(id, TorrentCommand::Resume, TorrentStatus::Paused, verified, total) == (
                to,
                Ok::<Seq<RuntimeEvent>, RuntimeError>(
                    seq![RuntimeEvent::StateChanged { torrent: id, from: TorrentStatus::Paused, to }],
                ),
            )
        }),
        command_outcome(id, TorrentCommand::Tick, TorrentStatus::Checking, verified, total) == (
            TorrentStatus::Discovering,
            Ok::<Seq<RuntimeEvent>, RuntimeError>(
                seq![RuntimeEvent::StateChanged { torrent: id, from: TorrentStatus::Checking, to: TorrentStatus::Discovering }],
            ),
        ),
        command_outcome(id, TorrentCommand::Tick, TorrentStatus::Discovering, verified, total) == (
            TorrentStatus::Downloading,
            Ok::<Seq<RuntimeEvent>, RuntimeError>(
                seq![RuntimeEvent::StateChanged { torrent: id, from: TorrentStatus::Discovering, to: TorrentStatus::Downloading }],
            ),
        ),
        status == TorrentStatus::Downloading || status == TorrentStatus::Paused
            ==> command_outcome(id, TorrentCommand::Tick, status, verified, total) == (
            status,
            Ok::<Seq<RuntimeEvent>, RuntimeError>(Seq::empty()),
        ),
        status != TorrentStatus::Checking && status != TorrentStatus::Discovering
            ==> command_outcome(id, TorrentCommand::Start, status, verified, total) == (
            status,
            Err::<Seq<RuntimeEvent>, RuntimeError>(illegal_transition()),
        ),
        status == TorrentStatus::Checking || status == TorrentStatus::Complete || status == TorrentStatus::Failed
            || status == TorrentStatus::Cancelled ==> command_outcome(id, TorrentCommand::Pause, status, verified, total) == (
            status,
            Err::<Seq<RuntimeEvent>, RuntimeError>(illegal_transition()),
        ),
        command_outcome(id, TorrentCommand::Cancel, TorrentStatus::Complete, verified, total) == (
            TorrentStatus::Complete,
            Err::<Seq<RuntimeEvent>, RuntimeError>(illegal_transition()),
        ),
        verified == total ==> command_outcome(id, TorrentCommand::Resume, TorrentStatus::Complete, verified, total) == (
            TorrentStatus::Seeding,
            Ok::<Seq<RuntimeEvent>, RuntimeError>(
                seq![RuntimeEvent::StateChanged { torrent: id, from: TorrentStatus::Complete, to: TorrentStatus::Seeding }],
            ),
        ),
        command_outcome(id, TorrentCommand::Resume, TorrentStatus::Checking, verified, total) == (
            TorrentStatus::Checking,
            Err::<Seq<RuntimeEvent>, RuntimeError>(illegal_transition()),
        ),
        forall|command: TorrentCommand|
            (status == TorrentStatus::Failed || status == TorrentStatus::Cancelled) ==> {
                &&& (#[trigger] command_outcome(id, command, status, verified, total)).0 == status
                &&& (command_outcome(id, command, status, verified, total).1 matches Ok(events) ==> events.len() == 0)
            },
{
    assert(seq![RuntimeEvent::StateChanged { torrent: id, from: TorrentStatus::Paused, to: TorrentStatus::Seeding }].len() == 1);
}

/// Law: how a failure moves a source. Corrupt data and protocol
/// violations quarantine it with its failure count left alone, and it is
/// then no retry candidate. Any other failure counts once more and cools
/// the source down while the count stays below the retry limit, and
/// exhausts it once the count reaches the limit; only a cooling source is
/// tried again.
pub proof fn law_failures_quarantine_or_count(entries: Seq<SourceRecord>, k: int, failure: SourceFailure, limit: nat)
    requires
        0 <= k < entries.len(),
        entries.len() <= usize::MAX,
        entries[k].failures < usize::MAX,
    ensures
        ({
            let after = entries.update(k, after_failure(entries[k], failure, limit));
            &&& failure is CorruptData || failure is ProtocolViolation ==> {
                &&& after[k].state == SourceState::Quarantined
                &&& after[k].failures == entries[k].failures
                &&& forall|j: int| 0 <= j < retry_candidates(after, after.len()).len()
                    ==> (#[trigger] retry_candidates(after, after.len())[j]).id != k + 1
            }
            &&& !(failure is CorruptData || failure is ProtocolViolation) ==> {
                &&& after[k].failures == entries[k].failures + 1
                &&& (after[k].state == SourceState::Exhausted) == (entries[k].failures + 1 >= limit)
                &&& (after[k].state == SourceState::CoolingDown) == (entries[k].failures + 1 < limit)
            }
            &&& after[k].endpoint == entries[k].endpoint
            &&& after[k].kind == entries[k].kind
        }),
{
    let after = entries.update(k, after_failure(entries[k], failure, limit));
    if failure is CorruptData || failure is ProtocolViolation {
        assert forall|j: int| 0 <= j < retry_candidates(after, after.len()).len() implies (#[trigger] retry_candidates(
            after,
            after.len(),
        )[j]).id != k + 1 by {
            lemma_retry_candidates_come_from_retryable(after, after.len(), j);
            let i = choose|i: int|
                0 <= i < after.len() && is_retry_candidate(after[i]) && retry_candidates(after, after.len())[j]
                    == record_candidate(after, i);
            assert(i != k);
            assert(record_candidate(after, i).id == i + 1);
        }
    }
}

/// Whether a torrent is discovering, downloading or seeding, and public.
pub open spec fn active_and_public(t: TorrentTask) -> bool {
    (t.spec_status() == TorrentStatus::Discovering || t.spec_status() == TorrentStatus::Downloading
        || t.spec_status() == TorrentStatus::Seeding) && !t.spec_plan().private
}

/// Law: the torrents announced on the DHT and by local discovery are
/// exactly the public ones that are discovering, downloading or seeding:
/// each such torrent is among the targets, and every target is the id of
/// such a torrent. A seeding torrent is announced so that peers can find
/// the seeder; a paused, checking, complete, failed, cancelled or private
/// torrent is not.
pub proof fn law_announce_targets_are_the_active_public_torrents(tasks: Seq<TorrentTask>, n: nat)
    requires
        n <= tasks.len(),
    ensures
        forall|i: int| 0 <= i < n && active_and_public(#[trigger] tasks[i])
            ==> announce_targets(tasks, n).contains(tasks[i].spec_id()),
        forall|x: TorrentId| #[trigger] announce_targets(tasks, n).contains(x)
            ==> exists|j: int| 0 <= j < n && tasks[j].spec_id() == x && active_and_public(tasks[j]),
    decreases n,
{
    if n > 0 {
        law_announce_targets_are_the_active_public_torrents(tasks, (n - 1) as nat);
        let prev = announce_targets(tasks, (n - 1) as nat);
        let cur = announce_targets(tasks, n);
        assert forall|i: int| 0 <= i < n && active_and_public(#[trigger] tasks[i]) implies cur.contains(tasks[i].spec_id()) by {
            if i < n - 1 {
                let k = choose|k: int| 0 <= k < prev.len() && prev[k] == tasks[i].spec_id();
                if crate::engine::is_target(tasks[n - 1]) {
                    assert(cur[k] == prev[k]);
                } else {
                    assert(cur[k] == prev[k]);
                }
            } else {
                assert(cur[prev.len() as int] == tasks[i].spec_id());
            }
        }
        assert forall|x: TorrentId| #[trigger] cur.contains(x)
            implies exists|j: int| 0 <= j < n && tasks[j].spec_id() == x && active_and_public(tasks[j]) by {
            let k = choose|k: int| 0 <= k < cur.len() && cur[k] == x;
            if k < prev.len() {
                assert(prev[k] == x);
                assert(prev.contains(x));
            } else {
                assert(active_and_public(tasks[n - 1]) && tasks[n - 1].spec_id() == x);
            }
        }
    }
}

} // verus!
