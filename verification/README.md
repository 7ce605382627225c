# domain_replay_supervisor_app

A verified library for the domain replay supervisor. Given a replay manifest and the
triggers that changed, it decides which domains to replay, builds a `workflow_command_v1`
for each selected domain, records the run in a control-plane run record and a supervisor
report, and computes where these outputs go, either as local files or as object storage
keys.

Layout:

- `src/` is the library, verified with Verus:
  - `args.rs` parses the command line; `args/laws.rs` states what the parser answers
    for any list of option/value pairs.
  - `planning/` validates the manifest, matches triggers, renders command templates,
    builds the workflow commands, the authority migration records and the control-plane
    run record, and counts input keys.
  - `run/` selects domains, builds the report and the run summary.
  - `output/` gives the local file paths, the storage keys and the newline-delimited
    JSON contents.
  - `keys.rs` and `time.rs` give the partitioned storage keys and UTC dates.
  - `json.rs` and `hash.rs` give the compact JSON form of the records and the SHA-256
    checksums and identifiers derived from it (strings are escaped by `serde_json`,
    SHA-256 comes from `sha2`).
  - `text.rs`, `order.rs`, `number.rs` and `path.rs` are the string, ordering, integer
    and path helpers that the rest is proved against.
- `tests/` runs the library on concrete values.
- `app/` is the program: it reads the manifest, lists input keys in object storage,
  writes the files and objects, and prints the summary.
