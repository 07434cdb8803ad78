use vstd::prelude::*;

use crate::persist::{
    PersistentState, PersistentTorrent, PersistentTorrentSource, PersistentTorrentState,
    PERSISTENT_STATE_SCHEMA_VERSION,
};
use crate::snapshot::{
    bytes_less, lemma_bytes_less_irreflexive, lemma_bytes_less_total, lemma_bytes_less_transitive,
    TorrentId,
};

verus! {

/// The ids ascend in byte order, so each occurs once.
pub open spec fn ids_ascend(e: Seq<(TorrentId, PersistentTorrent)>) -> bool {
    forall|i: int, j: int| 0 <= i < j < e.len() ==> bytes_less(e[i].0@, e[j].0@)
}

/// Whether some entry has this id.
pub open spec fn holds_id(e: Seq<(TorrentId, PersistentTorrent)>, id: Seq<u8>) -> bool {
    exists|i: int| 0 <= i < e.len() && #[trigger] e[i].0@ == id
}

/// A position of an entry with this id.
pub open spec fn position_of(e: Seq<(TorrentId, PersistentTorrent)>, id: Seq<u8>) -> int {
    choose|i: int| 0 <= i < e.len() && #[trigger] e[i].0@ == id
}

/// The records by id.
pub open spec fn record_map(e: Seq<(TorrentId, PersistentTorrent)>) -> Map<Seq<u8>, PersistentTorrent> {
    Map::new(|k: Seq<u8>| holds_id(e, k), |k: Seq<u8>| e[position_of(e, k)].1)
}

/// A record with a new lifecycle state.
pub open spec fn with_state(t: PersistentTorrent, state: PersistentTorrentState) -> PersistentTorrent {
    PersistentTorrent { state, ..t }
}

/// A record marked complete; the completion time is written as zero.
pub open spec fn completed(t: PersistentTorrent) -> PersistentTorrent {
    PersistentTorrent { state: PersistentTorrentState::Complete, completed_at_unix: Some(0u64), ..t }
}

/// The records of a map with one record changed, where it is present.
pub open spec fn changed_at(
    m: Map<Seq<u8>, PersistentTorrent>,
    id: Seq<u8>,
    f: spec_fn(PersistentTorrent) -> PersistentTorrent,
) -> Map<Seq<u8>, PersistentTorrent> {
    if m.dom().contains(id) {
        m.insert(id, f(m[id]))
    } else {
        m
    }
}

/// What the saved record of a torrent says to do with it when the
/// application starts again.
#[derive(Clone, Copy, Debug, PartialEq, Eq, Structural)]
pub enum RestoreStep {
    /// A magnet link: wait for its metadata before anything else.
    AwaitMagnet,
    /// Add it, start it and pause it again.
    StartPaused,
    /// Check the data on disk; seed it if every piece is there, else leave it paused.
    VerifyComplete,
    /// Check the data on disk, then go on downloading.
    VerifyAndDownload,
}

/// The step that restores a saved torrent.
pub open spec fn spec_restore_step(t: PersistentTorrent) -> RestoreStep {
    match t.source {
        PersistentTorrentSource::Magnet { .. } => RestoreStep::AwaitMagnet,
        PersistentTorrentSource::File { .. } => match t.state {
            PersistentTorrentState::Paused => RestoreStep::StartPaused,
            PersistentTorrentState::Complete => RestoreStep::VerifyComplete,
            _ => RestoreStep::VerifyAndDownload,
        },
    }
}

pub fn restore_step(torrent: &PersistentTorrent) -> (step: RestoreStep)
    ensures
        step == spec_restore_step(*torrent),
{
    match torrent.source {
        PersistentTorrentSource::Magnet { .. } => RestoreStep::AwaitMagnet,
        PersistentTorrentSource::File { .. } => match torrent.state {
            PersistentTorrentState::Paused => RestoreStep::StartPaused,
            PersistentTorrentState::Complete => RestoreStep::VerifyComplete,
            _ => RestoreStep::VerifyAndDownload,
        },
    }
}

/// Why a resumed torrent's record cannot be brought back to life.
#[derive(Clone, Copy, Debug, PartialEq, Eq, Structural)]
pub enum ResumeRefusal {
    /// The torrent came from a magnet link whose metadata never arrived.
    MagnetUnresolved,
}

/// The saved record of every torrent the application manages, kept in
/// info-hash order with each torrent once: what is written to disk between
/// runs.
#[derive(Debug)]
pub struct TorrentBook {
    entries: Vec<(TorrentId, PersistentTorrent)>,
}

impl View for TorrentBook {
    type V = Map<Seq<u8>, PersistentTorrent>;

    open spec fn view(&self) -> Map<Seq<u8>, PersistentTorrent> {
        record_map(self.spec_entries())
    }
}

impl TorrentBook {
    /// The records in the order they are saved.
    pub closed spec fn spec_entries(&self) -> Seq<(TorrentId, PersistentTorrent)> {
        self.entries@
    }

    pub open spec fn wf(&self) -> bool {
        ids_ascend(self.spec_entries())
    }

    /// No records.
    pub fn new() -> (book: TorrentBook)
        ensures
            book.wf(),
            book@ == Map::<Seq<u8>, PersistentTorrent>::empty(),
            book.spec_entries().len() == 0,
    {
        let book = TorrentBook { entries: Vec::new() };
        assert(book@ =~= Map::<Seq<u8>, PersistentTorrent>::empty());
        book
    }

    /// The number of records.
    pub fn len(&self) -> (n: usize)
        ensures
            n == self.spec_entries().len(),
    {
        self.entries.len()
    }

    /// The first position whose id does not come before `id`, and whether
    /// the entry there has this id.
    fn locate(&self, id: &TorrentId) -> (found: (usize, bool))
        requires
            self.wf(),
        ensures
            found.0 <= self.spec_entries().len(),
            forall|j: int| 0 <= j < found.0 ==> bytes_less(#[trigger] self.spec_entries()[j].0@, id@),
            found.1 == (found.0 < self.spec_entries().len() && self.spec_entries()[found.0 as int].0@ == id@),
            found.0 < self.spec_entries().len() && !found.1 ==> bytes_less(id@, self.spec_entries()[found.0 as int].0@),
            found.1 == holds_id(self.spec_entries(), id@),
    {
        let mut i: usize = 0;
        while i < self.entries.len() && self.entries[i].0.precedes(id)
            invariant
                self.wf(),
                i <= self.entries@.len(),
                forall|j: int| 0 <= j < i ==> bytes_less(#[trigger] self.entries@[j].0@, id@),
            decreases self.entries@.len() - i,
        {
            i = i + 1;
        }
        let found = i < self.entries.len() && self.entries[i].0.same_as(id);
        proof {
            let e = self.entries@;
            id.lemma_len();
            if i < e.len() {
                e[i as int].0.lemma_len();
                lemma_bytes_less_total(e[i as int].0@, id@);
            }
            if holds_id(e, id@) {
                let c = position_of(e, id@);
                lemma_bytes_less_irreflexive(id@);
                if c > i {
                    lemma_bytes_less_transitive(id@, e[i as int].0@, e[c].0@);
                }
            }
        }
        (i, found)
    }

    /// Whether the book has a record of the torrent.
    pub fn contains(&self, id: &TorrentId) -> (has: bool)
        requires
            self.wf(),
        ensures
            has == self@.dom().contains(id@),
    {
        self.locate(id).1
    }

    /// The record of the torrent, if there is one.
    pub fn get(&self, id: &TorrentId) -> (record: Option<&PersistentTorrent>)
        requires
            self.wf(),
        ensures
            match record {
                Some(t) => self@.dom().contains(id@) && self@[id@] == *t,
                None => !self@.dom().contains(id@),
            },
    {
        let (i, found) = self.locate(id);
        if found {
            proof {
                lemma_lookup(self.entries@, i as int);
            }
            Some(&self.entries[i].1)
        } else {
            None
        }
    }

    /// Records a torrent, replacing any earlier record of it.
    pub fn insert(&mut self, id: TorrentId, torrent: PersistentTorrent)
        requires
            old(self).wf(),
        ensures
            final(self).wf(),
            final(self)@ == old(self)@.insert(id@, torrent),
    {
        let (i, found) = self.locate(&id);
        let ghost before = self.entries@;
        let ghost key = id@;
        if found {
            self.entries.set(i, (id, torrent));
            proof {
                let after = self.entries@;
                assert(after == before.update(i as int, (id, torrent)));
                assert forall|a: int, b: int| 0 <= a < b < after.len() implies bytes_less(after[a].0@, after[b].0@) by {
                    assert(after[a].0@ == before[a].0@);
                    assert(after[b].0@ == before[b].0@);
                }
                lemma_replaced_map(before, after, i as int);
            }
        } else {
            self.entries.insert(i, (id, torrent));
            proof {
                let after = self.entries@;
                assert(after == before.insert(i as int, (id, torrent)));
                assert forall|a: int, b: int| 0 <= a < b < after.len() implies bytes_less(after[a].0@, after[b].0@) by {
                    if b < i {
                    } else if b == i {
                        assert(after[a] == before[a]);
                    } else if a < i {
                        assert(after[a] == before[a]);
                        assert(after[b] == before[b - 1]);
                        if i < before.len() {
                            if a < i {
                                lemma_bytes_less_transitive(before[a].0@, key, before[i as int].0@);
                            }
                            if b - 1 > i {
                                lemma_bytes_less_transitive(before[a].0@, before[i as int].0@, before[b - 1].0@);
                            }
                        }
                    } else if a == i {
                        assert(after[b] == before[b - 1]);
                        if b - 1 > i {
                            lemma_bytes_less_transitive(key, before[i as int].0@, before[b - 1].0@);
                        }
                    } else {
                        assert(after[a] == before[a - 1]);
                        assert(after[b] == before[b - 1]);
                    }
                }
                lemma_inserted_map(before, after, i as int);
            }
        }
    }

    /// Forgets the torrent, handing back its record if there was one.
    pub fn remove(&mut self, id: &TorrentId) -> (removed: Option<PersistentTorrent>)
        requires
            old(self).wf(),
        ensures
            final(self).wf(),
            final(self)@ == old(self)@.remove(id@),
            removed == (if old(self)@.dom().contains(id@) {
                Some(old(self)@[id@])
            } else {
                None::<PersistentTorrent>
            }),
    {
        let (i, found) = self.locate(id);
        let ghost before = self.entries@;
        if !found {
            proof {
                assert(record_map(before) =~= record_map(before).remove(id@));
            }
            return None;
        }
        proof {
            lemma_lookup(before, i as int);
        }
        let (_, torrent) = self.entries.remove(i);
        proof {
            let after = self.entries@;
            assert(after == before.remove(i as int));
            assert forall|a: int, b: int| 0 <= a < b < after.len() implies bytes_less(after[a].0@, after[b].0@) by {
                let a0 = if a < i { a } else { a + 1 };
                let b0 = if b < i { b } else { b + 1 };
                assert(after[a] == before[a0]);
                assert(after[b] == before[b0]);
            }
            lemma_removed_map(before, after, i as int);
        }
        Some(torrent)
    }

    /// Moves the torrent's record, if there is one, to a new lifecycle
    /// state; returns whether there was one.
    pub fn set_state(&mut self, id: &TorrentId, state: PersistentTorrentState) -> (present: bool)
        requires
            old(self).wf(),
        ensures
            final(self).wf(),
            present == old(self)@.dom().contains(id@),
            final(self)@ == changed_at(old(self)@, id@, |t: PersistentTorrent| with_state(t, state)),
    {
        let (i, found) = self.locate(id);
        let ghost before = self.entries@;
        if !found {
            return false;
        }
        proof {
            lemma_lookup(before, i as int);
        }
        let (key, mut torrent) = self.entries.remove(i);
        torrent.state = state;
        self.entries.insert(i, (key, torrent));
        proof {
            let after = self.entries@;
            assert(after =~= before.update(i as int, (key, torrent)));
            assert forall|a: int, b: int| 0 <= a < b < after.len() implies bytes_less(after[a].0@, after[b].0@) by {
                assert(after[a].0@ == before[a].0@);
                assert(after[b].0@ == before[b].0@);
            }
            lemma_replaced_map(before, after, i as int);
        }
        true
    }

    /// Marks the torrent's record, if there is one, as complete; returns
    /// whether there was one.
    pub fn mark_complete(&mut self, id: &TorrentId) -> (present: bool)
        requires
            old(self).wf(),
        ensures
            final(self).wf(),
            present == old(self)@.dom().contains(id@),
            final(self)@ == changed_at(old(self)@, id@, |t: PersistentTorrent| completed(t)),
    {
        let (i, found) = self.locate(id);
        let ghost before = self.entries@;
        if !found {
            return false;
        }
        proof {
            lemma_lookup(before, i as int);
        }
        let (key, mut torrent) = self.entries.remove(i);
        torrent.state = PersistentTorrentState::Complete;
        torrent.completed_at_unix = Some(0);
        self.entries.insert(i, (key, torrent));
        proof {
            let after = self.entries@;
            assert(after =~= before.update(i as int, (key, torrent)));
            assert forall|a: int, b: int| 0 <= a < b < after.len() implies bytes_less(after[a].0@, after[b].0@) by {
                assert(after[a].0@ == before[a].0@);
                assert(after[b].0@ == before[b].0@);
            }
            lemma_replaced_map(before, after, i as int);
        }
        true
    }

    /// Brings a resumed torrent's record back to life: one that came from a
    /// file is complete when the torrent is seeding and downloading
    /// otherwise; one from a magnet link whose metadata never arrived is
    /// refused and left as it is. A torrent without a record is left alone.
    pub fn record_resumed(&mut self, id: &TorrentId, seeding: bool) -> (res: Result<(), ResumeRefusal>)
        requires
            old(self).wf(),
        ensures
            final(self).wf(),
            !old(self)@.dom().contains(id@) ==> res is Ok && final(self)@ == old(self)@,
            old(self)@.dom().contains(id@) && old(self)@[id@].source is Magnet
                ==> res == Err::<(), ResumeRefusal>(ResumeRefusal::MagnetUnresolved) && final(self)@ == old(self)@,
            old(self)@.dom().contains(id@) && old(self)@[id@].source is File ==> res is Ok
                && final(self)@ == old(self)@.insert(id@, with_state(
                    old(self)@[id@],
                    if seeding { PersistentTorrentState::Complete } else { PersistentTorrentState::Downloading },
                )),
    {
        match self.get(id) {
            None => Ok(()),
            Some(t) => {
                if let PersistentTorrentSource::Magnet { .. } = t.source {
                    return Err(ResumeRefusal::MagnetUnresolved);
                }
                let state = if seeding {
                    PersistentTorrentState::Complete
                } else {
                    PersistentTorrentState::Downloading
                };
                self.set_state(id, state);
                Ok(())
            }
        }
    }

    /// The state to save: the current schema and every record in info-hash
    /// order.
    pub fn persistent_state(&self) -> (state: PersistentState)
        ensures
            state.schema_version == PERSISTENT_STATE_SCHEMA_VERSION,
            state.torrents@ == self.spec_entries().map_values(|e: (TorrentId, PersistentTorrent)| e.1),
    {
        let mut torrents: Vec<PersistentTorrent> = Vec::new();
        let mut i: usize = 0;
        while i < self.entries.len()
            invariant
                i <= self.entries@.len(),
                torrents@ == self.entries@.take(i as int).map_values(|e: (TorrentId, PersistentTorrent)| e.1),
            decreases self.entries@.len() - i,
        {
            let t = self.entries[i].1.clone();
            torrents.push(t);
            assert(self.entries@.take(i as int + 1).map_values(|e: (TorrentId, PersistentTorrent)| e.1)
                =~= self.entries@.take(i as int).map_values(|e: (TorrentId, PersistentTorrent)| e.1).push(
                self.entries@[i as int].1,
            ));
            i = i + 1;
        }
        assert(self.entries@.take(i as int) =~= self.entries@);
        PersistentState { schema_version: PERSISTENT_STATE_SCHEMA_VERSION, torrents }
    }
}

/// In ascending entries, an id is found at one position only.
proof fn lemma_unique(e: Seq<(TorrentId, PersistentTorrent)>, i: int, j: int)
    requires
        ids_ascend(e),
        0 <= i < e.len(),
        0 <= j < e.len(),
        e[i].0@ == e[j].0@,
    ensures
        i == j,
{
    if i != j {
        lemma_bytes_less_irreflexive(e[i].0@);
    }
}

/// The record an entry's id maps to is that entry's.
proof fn lemma_lookup(e: Seq<(TorrentId, PersistentTorrent)>, i: int)
    requires
        ids_ascend(e),
        0 <= i < e.len(),
    ensures
        record_map(e).dom().contains(e[i].0@),
        record_map(e)[e[i].0@] == e[i].1,
{
    assert(holds_id(e, e[i].0@));
    lemma_unique(e, i, position_of(e, e[i].0@));
}

/// Replacing the entry at a position by one with the same id changes the
/// record of that id alone.
proof fn lemma_replaced_map(before: Seq<(TorrentId, PersistentTorrent)>, after: Seq<(TorrentId, PersistentTorrent)>, i: int)
    requires
        ids_ascend(before),
        ids_ascend(after),
        0 <= i < before.len(),
        after.len() == before.len(),
        after[i].0@ == before[i].0@,
        forall|j: int| 0 <= j < before.len() && j != i ==> after[j] == before[j],
    ensures
        record_map(after) == record_map(before).insert(before[i].0@, after[i].1),
{
    let key = before[i].0@;
    lemma_lookup(after, i);
    assert forall|k: Seq<u8>| #[trigger] record_map(after).dom().contains(k) <==> record_map(before).insert(key, after[i].1).dom().contains(k) by {
        if holds_id(after, k) {
            let p = position_of(after, k);
            if p != i {
                assert(before[p].0@ == k);
            }
        }
        if holds_id(before, k) {
            let p = position_of(before, k);
            if p != i {
                assert(after[p].0@ == k);
            }
        }
    }
    assert forall|k: Seq<u8>| #[trigger] record_map(after).dom().contains(k) && k != key implies record_map(after)[k] == record_map(before)[k] by {
        let p = position_of(after, k);
        lemma_lookup(after, p);
        assert(p != i);
        assert(before[p] == after[p]);
        lemma_lookup(before, p);
    }
    assert(record_map(after) =~= record_map(before).insert(key, after[i].1));
}

/// Inserting an entry with a new id at a position adds its record and
/// keeps the others.
proof fn lemma_inserted_map(before: Seq<(TorrentId, PersistentTorrent)>, after: Seq<(TorrentId, PersistentTorrent)>, i: int)
    requires
        ids_ascend(before),
        ids_ascend(after),
        0 <= i <= before.len(),
        after == before.insert(i, after[i]),
    ensures
        record_map(after) == record_map(before).insert(after[i].0@, after[i].1),
{
    let key = after[i].0@;
    lemma_lookup(after, i);
    assert forall|k: Seq<u8>| #[trigger] record_map(after).dom().contains(k) <==> record_map(before).insert(key, after[i].1).dom().contains(k) by {
        if holds_id(after, k) && k != key {
            let p = position_of(after, k);
            if p < i {
                assert(before[p].0@ == k);
            } else {
                assert(p != i);
                assert(before[p - 1].0@ == k);
            }
        }
        if holds_id(before, k) {
            let p = position_of(before, k);
            if p < i {
                assert(after[p].0@ == k);
            } else {
                assert(after[p + 1].0@ == k);
            }
        }
    }
    assert forall|k: Seq<u8>| #[trigger] record_map(after).dom().contains(k) && k != key implies record_map(after)[k] == record_map(before)[k] by {
        let p = position_of(after, k);
        lemma_lookup(after, p);
        assert(p != i);
        let q = if p < i { p } else { p - 1 };
        assert(after[p] == before[q]);
        lemma_lookup(before, q);
    }
    assert(record_map(after) =~= record_map(before).insert(key, after[i].1));
}

/// Removing the entry at a position removes its record and keeps the others.
proof fn lemma_removed_map(before: Seq<(TorrentId, PersistentTorrent)>, after: Seq<(TorrentId, PersistentTorrent)>, i: int)
    requires
        ids_ascend(before),
        ids_ascend(after),
        0 <= i < before.len(),
        after == before.remove(i),
    ensures
        record_map(after) == record_map(before).remove(before[i].0@),
{
    let key = before[i].0@;
    assert forall|k: Seq<u8>| #[trigger] record_map(after).dom().contains(k) <==> record_map(before).remove(key).dom().contains(k) by {
        if holds_id(after, k) {
            let p = position_of(after, k);
            let q = if p < i { p } else { p + 1 };
            assert(after[p] == before[q]);
            assert(q != i);
            if k == key {
                lemma_unique(before, q, i);
            }
        }
        if holds_id(before, k) && k != key {
            let p = position_of(before, k);
            assert(p != i);
            if p < i {
                assert(after[p].0@ == k);
            } else {
                assert(after[p - 1].0@ == k);
            }
        }
    }
    assert forall|k: Seq<u8>| #[trigger] record_map(after).dom().contains(k) implies record_map(after)[k] == record_map(before)[k] by {
        let p = position_of(after, k);
        lemma_lookup(after, p);
        let q = if p < i { p } else { p + 1 };
        assert(after[p] == before[q]);
        lemma_lookup(before, q);
    }
    assert(record_map(after) =~= record_map(before).remove(key));
}

/// What is recorded is read back as it was written, and forgetting a
/// torrent that was just recorded, where it had no record before, leaves
/// the book as it was.
pub proof fn law_book_reads_back_writes(book: TorrentBook, id: TorrentId, torrent: PersistentTorrent)
    ensures
        book@.insert(id@, torrent).dom().contains(id@),
        book@.insert(id@, torrent)[id@] == torrent,
        !book@.dom().contains(id@) ==> book@.insert(id@, torrent).remove(id@) == book@,
{
    if !book@.dom().contains(id@) {
        assert(book@.insert(id@, torrent).remove(id@) =~= book@);
    }
}

} // verus!
