# music_manager

The core of a music manager, written in Verus: the code under `src/` is
verified against its `requires`/`ensures` contracts.

- `search`, `inference`, `ranking`: Soulseek search queries, guessing artist
  and title from shared file names, and the two search pipelines, the
  search module's and the client's (filter, dedup, then a stable sort by a
  rank key, proved to be a sorted, stable permutation).
- `rate_limit`, `tui`, `wishlist`: state machines for search rate limiting,
  the Soulseek session, the terminal UI and the wishlist.
- `spotify`, `youtube`, `matching`, `services`: PKCE login, feed handling,
  match decisions, pagination and other service decisions.
- `mm_types`, `timestamp`, `paths`: typed domain values with round-trip laws.
- `text`, `regex_ops`: string operations specified over character sequences,
  and the calls into `regex` and `unaccent`.

`app/` holds the unverified runtime: network calls, the terminal event loop
and drawing, and serde copies of library types. `tests/` exercises the
library with the real outside crates linked.
