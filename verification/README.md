# chatvault

ChatVault keeps the files that arrive in chat applications as a long-lived,
searchable archive: it indexes them locally, archives their content to a
WebDAV vault and keeps several computers in step through per-device journals.

## Layout

- `src/` — the library, verified with Verus. It holds the rules of the system
  as functions with contracts: the vault's storage layout and identifiers,
  journal events and their validation, segment framing and hashing, commit
  markers and cursor advancement, last-writer-wins source mappings, object
  visibility, the upload queue and its backoff, the local copy policy and its
  reclaim plan, image checks, search conditions, scan decisions, run history
  and image candidates. Public `proof fn`s state the laws that connect them
  (round trips, merge order independence, what a reclaim keeps, what a
  published segment lets a reader accept).
- `tests/` — executable tests of the library on concrete values.
- `app/` — ordinary Rust around the library: the SQLite index, file-system
  access, hashing and copying files, and the conversions between the
  library's plain values and `chrono`, `serde_json` and `rusqlite`.

Calls into `blake3`, `image` and `serde_json` that the library's logic makes
go through small trusted wrappers whose contracts say what those crates
document.
