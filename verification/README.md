# cloud_sync

A synchroniser that mirrors a watched folder onto cloud storage backends
(Google Drive, Dropbox, OneDrive, Box, WebDAV, Nextcloud, Azure Blob Storage
and others), with two-way sync and conflict copies, client-side AES-256-GCM
encryption, bandwidth limits and retries.

The library under `src/` is written in Verus: every function carries a
contract, and the properties the tool relies on are stated and proved as
`law_*` proof functions (what the planner never deletes, what a conflict
keeps, that a status report reads back, that a retry schedule ends, ...).

- `src/sync_plan.rs`, `policy.rs`, `state.rs`, `catalog.rs`: what a sync run
  does with each path, from the local side, the remote side and the record of
  the previous run.
- `src/scan.rs`, `ignore.rs`, `daemon.rs`, `paths.rs`: which entries are kept,
  excluded or refused, and how paths map between the folder and a backend.
- `src/control.rs`, `status.rs`: the daemon's control commands and its status
  report.
- `src/storage.rs`, `rate_limit.rs`: errors, retries and the token bucket.
- `src/checksum.rs`, `crypto.rs`: digests and encryption, over the RustCrypto
  crates.
- `src/signing_order.rs`: what an Azure Shared Key signature does not
  depend on (header and parameter order, padding, other headers).
- `src/azure.rs`, `webdav.rs`, `xml.rs`, `listings.rs`, `drive.rs`,
  `path_walk.rs`, `mega_tree.rs`, `box_auth.rs`, `endpoints.rs`, `backends.rs`: the providers'
  addresses, signatures, queries and listings.

`app/` is the daemon itself: configuration files, the folder watcher, the
control socket and the provider clients (HTTP, SFTP, MEGA), all calling the
library for their decisions; `--check-backends` and `--diagnose <name>` probe
the configured backends. `tests/` exercises the library on concrete values.
