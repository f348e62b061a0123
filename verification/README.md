# kindroid_manager

The core of Kindroid Manager, a desktop tool for authoring Kindroid persona
characters locally and pushing them to Kindroid AIs, written in Verus.

- `src/` is the verified library. Verus proves every function against its
  contract; functions whose answer rests on the OS keychain or the clock
  state only what holds whatever those give, and hand the outcome to a
  verified function with an exact contract:
  - `domain/`: characters and their snapshots, targets, journal entries
    (validation and keyphrase normalisation), chat messages and sync state,
    automation state, the push log (body truncation), the text share code
    and the share image (PNG chunk walk, stripping, framing).
  - `kindroid.rs`, `ai.rs`: the Kindroid API and the AI provider as plain
    values: status classification, `Retry-After`, URLs, paging.
  - `search.rs`: escaping a user query for SQLite FTS5.
  - `storage.rs`: image type detection and migration ordering.
  - `security.rs`: the token store on the OS keychain.
  - `commands/`: the decisions of each command — what a push sends, in
    which order, and what it logs; how a sync pages and backs off; when an
    automation cycle writes journal entries or a summary, and the prompts
    it sends.
  - `text.rs`, `bytes.rs`: string and byte helpers with their specs.
- `app/` is the unverified shell: HTTP clients (`reqwest`), the repository
  interface, the JSON (`serde`) forms of the library's types, and the
  command flows that perform the outside calls in the order the library
  decides.
- `tests/` runs the library on concrete values.

Calls into outside crates (`keyring`, `base64`, `image`, `png`, `chrono`,
`serde_json`, `uuid`) go through small trusted wrappers whose contracts
say what the crates do; each states in its doc comment what is assumed.
