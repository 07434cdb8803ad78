# styx_runtime

The verified core of the Styx BitTorrent runtime, written in Verus.

`src/` is the library. Every function in it carries a contract that Verus
proves; the few calls into outside code (`url`, `rand`, and `std`'s UTF-8
check) stand behind trusted wrappers whose contracts are spelled out in
their doc comments. Roughly:

- `config`, `types`, `metadata`, `dht`, `daemon`: settings and their checks.
- `source`, `task`, `engine`, `snapshot`: the sources, lifecycle and byte
  accounting of each torrent, and the runtime that holds them.
- `roster`, `blame`, `pex`, `dht_lookup`, `tracker`, `discovery`, `lsd`:
  peer connections, blame for corrupt pieces, peer exchange, DHT lookups,
  tracker requests and local service discovery (with its packet codec).
- `driver`, `web_seed`, `magnet`: the decisions of the background download,
  seeding and magnet-resolution workers.
- `book`, `persist`: what is saved between runs, and how saved torrents are
  brought back.
- `tick`: the application's step loop as a state machine: what each DHT
  event and each background report does to the runtime and the saved
  records, which actions (lookups, announces, seeds, resolutions) follow,
  and the engine steps that restore a saved torrent.
- `supervision`, `activity`, `app_view`: shutdown reports, the activity log
  and what the application's front ends are told.
- `laws`, `lsd_laws`: properties that span several functions, stated and
  proved as proof functions.

`app/` is ordinary Rust around the library: the state file on disk, the
discovery socket, the tokio tasks that supervise the shared workers, and
the step loop that feeds reports to `tick` and carries out its actions.
`tests/` exercises the library on concrete values.
