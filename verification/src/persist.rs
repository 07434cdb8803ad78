use vstd::prelude::*;

use crate::error::RuntimeError;

verus! {

/// The schema version of saved state that this library reads and writes.
pub const PERSISTENT_STATE_SCHEMA_VERSION: u16 = 2;

/// The file that holds the saved state, inside the state directory.
pub const STATE_FILE_NAME: &'static str = "state.json";

/// The file a new state is written to before it replaces the old one.
pub const STATE_TEMP_FILE_NAME: &'static str = "state.json.tmp";

/// Where a saved torrent came from.
#[derive(Debug, PartialEq, Eq)]
pub enum PersistentTorrentSource {
    File { path: String },
    Magnet { uri: String },
}

impl Clone for PersistentTorrentSource {
    fn clone(&self) -> (copy: Self)
        ensures
            copy == *self,
    {
        match self {
            PersistentTorrentSource::File { path } => PersistentTorrentSource::File { path: path.clone() },
            PersistentTorrentSource::Magnet { uri } => PersistentTorrentSource::Magnet { uri: uri.clone() },
        }
    }
}

/// The saved lifecycle state of a torrent.
#[derive(Clone, Copy, Debug, PartialEq, Eq, Structural)]
pub enum PersistentTorrentState {
    Queued,
    Downloading,
    Paused,
    Complete,
    Failed,
}

/// One saved torrent.
#[derive(Debug, PartialEq, Eq)]
pub struct PersistentTorrent {
    pub source: PersistentTorrentSource,
    pub destination: String,
    pub state: PersistentTorrentState,
    pub added_at_unix: u64,
    pub completed_at_unix: Option<u64>,
}

impl Clone for PersistentTorrent {
    fn clone(&self) -> (copy: Self)
        ensures
            copy == *self,
    {
        PersistentTorrent {
            source: self.source.clone(),
            destination: self.destination.clone(),
            state: self.state,
            added_at_unix: self.added_at_unix,
            completed_at_unix: self.completed_at_unix,
        }
    }
}

/// Everything saved between runs.
#[derive(Clone, Debug, PartialEq, Eq)]
pub struct PersistentState {
    pub schema_version: u16,
    pub torrents: Vec<PersistentTorrent>,
}

impl PersistentState {
    /// Nothing saved yet, in the current schema.
    pub fn empty() -> (state: PersistentState)
        ensures
            state.schema_version == PERSISTENT_STATE_SCHEMA_VERSION,
            state.torrents@.len() == 0,
    {
        PersistentState { schema_version: PERSISTENT_STATE_SCHEMA_VERSION, torrents: Vec::new() }
    }

    /// Accepts a state of the current schema, unchanged; refuses any other.
    pub fn validate(self) -> (res: Result<PersistentState, RuntimeError>)
        ensures
            self.schema_version == PERSISTENT_STATE_SCHEMA_VERSION ==> res == Ok::<PersistentState, RuntimeError>(self),
            self.schema_version != PERSISTENT_STATE_SCHEMA_VERSION ==> res == Err::<PersistentState, RuntimeError>(
                RuntimeError::Persistence("unsupported persistent state schema version"),
            ),
    {
        if self.schema_version != PERSISTENT_STATE_SCHEMA_VERSION {
            return Err(RuntimeError::Persistence("unsupported persistent state schema version"));
        }
        Ok(self)
    }
}

/// Whether a saved file's schema version is the first one, whose torrents
/// name only a source file.
pub fn is_legacy_schema(version: u64) -> (legacy: bool)
    ensures
        legacy == (version == 1),
{
    version == 1
}

/// One torrent as the first schema saved it.
#[derive(Clone, Debug, PartialEq, Eq)]
pub struct PersistentTorrentV1 {
    pub source_path: String,
    pub destination: String,
    pub state: PersistentTorrentState,
    pub added_at_unix: u64,
    pub completed_at_unix: Option<u64>,
}

/// State as the first schema saved it.
#[derive(Clone, Debug, PartialEq, Eq)]
pub struct PersistentStateV1 {
    pub torrents: Vec<PersistentTorrentV1>,
}

/// A torrent of the first schema in the current one: its source is its file.
pub open spec fn upgraded(old: PersistentTorrentV1) -> PersistentTorrent {
    PersistentTorrent {
        source: PersistentTorrentSource::File { path: old.source_path },
        destination: old.destination,
        state: old.state,
        added_at_unix: old.added_at_unix,
        completed_at_unix: old.completed_at_unix,
    }
}

impl PersistentStateV1 {
    /// The same torrents, in order, in the current schema.
    pub fn into_current(self) -> (state: PersistentState)
        ensures
            state.schema_version == PERSISTENT_STATE_SCHEMA_VERSION,
            state.torrents@ == self.torrents@.map_values(|t: PersistentTorrentV1| upgraded(t)),
    {
        let mut torrents: Vec<PersistentTorrent> = Vec::new();
        let mut i: usize = 0;
        while i < self.torrents.len()
            invariant
                i <= self.torrents@.len(),
                torrents@ == self.torrents@.take(i as int).map_values(|t: PersistentTorrentV1| upgraded(t)),
            decreases self.torrents@.len() - i,
        {
            let old = &self.torrents[i];
            let torrent = PersistentTorrent {
                source: PersistentTorrentSource::File { path: old.source_path.clone() },
                destination: old.destination.clone(),
                state: old.state,
                added_at_unix: old.added_at_unix,
                completed_at_unix: old.completed_at_unix,
            };
            torrents.push(torrent);
            assert(self.torrents@.take(i as int + 1).map_values(|t: PersistentTorrentV1| upgraded(t))
                =~= self.torrents@.take(i as int).map_values(|t: PersistentTorrentV1| upgraded(t)).push(
                upgraded(self.torrents@[i as int]),
            ));
            i = i + 1;
        }
        assert(self.torrents@.take(i as int) =~= self.torrents@);
        PersistentState { schema_version: PERSISTENT_STATE_SCHEMA_VERSION, torrents }
    }
}

/// A file name under a directory, as a Unix path join gives it: no
/// separator after an empty directory or one that ends in `/`, one
/// separator otherwise.
pub open spec fn joined(dir: Seq<char>, name: Seq<char>) -> Seq<char> {
    if dir.len() == 0 || dir.last() == '/' {
        dir + name
    } else {
        dir + seq!['/'] + name
    }
}

/// Joins a relative file name to a directory.
pub fn join_path(dir: &str, name: &str) -> (path: String)
    ensures
        path@ == joined(dir@, name@),
{
    let mut path = String::from_str(dir);
    let chars = crate::text::chars_of(dir);
    let n = chars.len();
    if n > 0 && chars[n - 1] != '/' {
        path.append("/");
        proof {
            reveal_strlit("/");
        }
    }
    path.append(name);
    path
}

/// Where saved state lives: a directory, and the state file in it.
#[derive(Clone, Debug, PartialEq, Eq)]
pub struct PersistentStore {
    state_dir: String,
    state_path: String,
}

impl PersistentStore {
    pub closed spec fn spec_state_dir(&self) -> Seq<char> {
        self.state_dir@
    }

    pub closed spec fn spec_state_path(&self) -> Seq<char> {
        self.state_path@
    }

    /// A store in the directory `path`; its state file is `state.json` there.
    pub fn open(path: &str) -> (res: Result<PersistentStore, RuntimeError>)
        ensures
            res matches Ok(store) && store.spec_state_dir() == path@ && store.spec_state_path() == joined(
                path@,
                STATE_FILE_NAME@,
            ),
    {
        let state_path = join_path(path, STATE_FILE_NAME);
        Ok(PersistentStore { state_dir: String::from_str(path), state_path })
    }

    /// The state file.
    pub fn state_path(&self) -> (path: &str)
        ensures
            path@ == self.spec_state_path(),
    {
        self.state_path.as_str()
    }

    /// The state directory.
    pub fn state_dir(&self) -> (dir: &str)
        ensures
            dir@ == self.spec_state_dir(),
    {
        self.state_dir.as_str()
    }

    /// The file a new state is written to before it replaces the state file.
    pub fn temp_path(&self) -> (path: String)
        ensures
            path@ == joined(self.spec_state_dir(), STATE_TEMP_FILE_NAME@),
    {
        join_path(self.state_dir.as_str(), STATE_TEMP_FILE_NAME)
    }
}

} // verus!
