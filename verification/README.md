# redloop

A Redis-backed queue for immediate and scheduled jobs: enqueueing, worker leases with
heartbeats, retries under a retry policy, reclaiming expired leases, and operator
commands. The Rust side of the queue's logic is written in Verus and proved against its
contracts: key layout, stored records, script arguments and replies, job records and
pages, and the worker's decisions. The state transitions themselves (reservation,
acknowledgement, retry under the policy, reaping, operator moves) run inside Redis as Lua
programs; they are not verified, and this crate does not ship them.

## Layout

- `src/` — the verified library.
  - `text.rs` decimal and hexadecimal numerals, their parsing, and string helpers.
  - `time.rs` durations, timestamps within chrono's calendar range, polling arithmetic.
  - `types.rs`, `store.rs` records, results and store requests.
  - `error.rs` the error surface and the classification of Redis failures.
  - `config.rs` connection and worker configuration, validation, retry-policy keys.
  - `keys.rs` the Redis key layout (one hash tag per namespace).
  - `codec.rs` the stored worker-configuration record and lease metadata.
  - `protocol.rs` script replies and arguments.
  - `scripts.rs` the keys and arguments of every script invocation.
  - `records.rs` job records, failed-job pages, worker listings and stale workers.
  - `worker.rs` the worker's decisions: lease bookkeeping, settlement, polling.
  - `builder.rs` the fluent job API; `cli.rs` the decisions of the command line.
- `tests/` — tests of the library on concrete values.
- `app/` — the program around the library: Redis connections and commands, the async
  worker loop, and the `redloop-cli` command line. It reads the Lua programs of the
  queue at start-up from the directory named by `REDLOOP_SCRIPTS_DIR` (default
  `scripts`).
