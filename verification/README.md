# lifecycle_outbox

A verified library around a lifecycle event outbox: a JSONL file that sessions
append one line per event to, plus the configuration layers and the command line
decisions of the program that owns it. Everything under `src/` is checked by
Verus against the contracts written beside it.

- `src/outbox/`: the line format, sequence recovery, torn line repair, appending,
  the reconciliation of interrupted turns, the queue and its flush, the lock, the
  identities and the handling of terminating signals. `durability`, `sequence`
  and `pairing` hold the laws of the file.
- `src/config/`: settings and how layers of them are merged, profiles, managed
  overlays and requirements. `layering` and `consent` hold the laws.
- `src/cli/`: what a command line asks for.
- `src/json.rs`: the JSON layer over `serde_json`.
- `src/text.rs`, `src/sorting.rs`, `src/string_map.rs`: strings and small
  collections.
- `app/`: the files, locks, tasks and signals around the library.
- `tests/`: the library at work on concrete values.

A few items are taken on trust, each with a doc comment that names the function
of the outside crate or of std behind it: the JSON layer (`src/json.rs`), UTF-8
decoding and `String::push` (`src/text.rs`), the clock (`src/outbox/append.rs`),
random ids (`src/outbox/identity.rs`) and TOML parsing
(`src/config/misplaced.rs`).

The file on disk is represented by `OutboxFile`, an image of its end. The library
decides on the image; the application reads it before and writes it back after,
under the outbox's lock.
