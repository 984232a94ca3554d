# unified_api

An inventory service, written in Rust and proved with Verus. It gathers inventories of
hosts and groups from sources, keeps them in a cache that knows how old each host is,
enriches them, and serves them: as they are, as views over several sources, or rendered
for a consumer.

## Layout

- `src/` is the library. Its functions have contracts that Verus proves, but for a few
  wrappers around functions of `std` and of other crates, whose contracts are believed.
  - `domain/`: the entities. The cache entry and its clock, inventories and the two ways
    to read them, sources, views, and how attempts are recorded.
  - `application/`: what the service decides. Syncing, refreshing on demand, enriching,
    routing views, rendering, reloading the configuration, updating projects.
  - `api/`, `builder`, `state`, `scheduler`, `auth`: what the service is made of and what
    it answers.
  - `config`, `validation`, `cron`: the configuration and what is wrong with it.
  - `ports/`: what the library hands to the world outside and gets back.
  - `text`, `strmap`, `json`, `yaml`, `clock`, `locks`, `model`: what the rest is written
    in. The items that are believed rather than proved stand here and in
    `domain/cache_entry`; each says which function of `std`, `serde_json`,
    `serde_yaml_ng`, `bytes` or `dashmap` it stands for.
  - `*_laws`: what holds of several functions together, as proof functions.
- `tests/` runs the library, with the real crates beneath it.
- `app/` is the program around it: files, processes, HTTP, timers.

## How a run is split

Where a run waits for the world outside, the library has one function for each decision.
Syncing a source is `begin_sync`, then the connector, then `complete_sync` and
`settle_sync`; refreshing hosts is `begin_refresh`, the locks, `resume_refresh`, a sync,
and `finish_refresh`; updating a project is `begin_project` and `next_step` until it is
done. The program does what it is told and hands back what came of it.

Functions that read the clock have a twin that takes the moment as an argument: `is_fresh`
and `is_fresh_at`. The twin says exactly what comes out; the other says that it is what
the twin says for some moment.
