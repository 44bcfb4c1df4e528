# helix

A block-level backup engine. It reads a device in fixed-size blocks, hashes
every block with BLAKE3, stores full and incremental snapshots in a
repository, and restores a snapshot by applying its chain of snapshots, the
oldest first.

The library under `src/` is verified with Verus: each public function states
what it returns in its contract, and the properties that tie functions
together are proof functions.

- `block`: block arithmetic for files, the map of changed blocks, block hashes.
- `tracker`: change trackers (an in-memory bitmap, dm-era, file-system
  events) and the choice of tracker per platform.
- `repository`: the record format of snapshot data files, manifests, the
  listing of snapshots ordered by time, restore chains, integrity checks.
- `backup`, `restore`: which blocks a backup takes, and which writes a
  restore makes, in which order.
- `crypto`: zstd compression and AES-256-GCM encryption of block data.
- `config`, `cli`: settings with their defaults and rules, command-line
  values.

`app/` is the `helix` program: argument parsing, file and device I/O, the
SQLite index, JSON and YAML files, logging and progress output. It hands the
library plain values and acts on what the library decides.
