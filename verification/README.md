# flovenet

The logic of the Flovenet peer-to-peer social and compute network, written in Verus:
each public function carries a `requires`/`ensures` contract that Verus proves.

## Layout

- `src/` — the verified library.
  - `gateway` — the GraphQL gateway's state: profiles, posts (newest first), follow
    lists, the feed, search, and the answers to each query and mutation.
  - `auth` — accounts with salted Argon2id password hashes and HS256 tokens.
  - `keyed` — the key/value table that the gateway and the accounts are kept in.
  - `social` — signed posts: the signed payload, signing and verification (Ed25519).
  - `moderation` — the content flags raised by the moderator job.
  - `scheduler` — whether a node takes a job, and the reason given when it does not.
  - `gpu`, `gpu_info` — splitting GPU memory into 8/4/2 GiB slots; reading the
    driver's GPU information lines.
  - `gossip` — gossip topics and message identifiers (a quick hash of the first 64 bytes).
  - `runtime` — job manifests, their validation, fuel, and runtime errors.
  - `daemon`, `cli`, `node`, `resources`, `scenarios`, `storage`, `crypto` — the node's
    command line, roles, dashboard files, job answers, identity and test scenarios.
  - `text`, `time`, `random` — strings, instants and random identifiers.
  Calls into outside crates (argon2, hex, jsonwebtoken, chrono, uuid, rand, serde_json,
  ed25519-dalek) go through small trusted wrappers whose contracts are documented
  beside them.
- `tests/` — tests run against the compiled library.
- `app/` — the `flovenet` program: clap command line, axum servers, async-graphql
  schema, libp2p gossip, Wasmtime runs, resource detection, and the floating-point
  scoring that the library leaves to it.
