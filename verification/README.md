# tubemin

A self-hosted video pipeline: URLs submitted from a browser extension, an iOS
shortcut or the dashboard are downloaded (by MeTube, or directly for media
URLs and HLS/DASH manifests) and uploaded to PeerTube.

## Layout

- `src/` — the library, written in Verus and verified: configuration,
  identities and ownership, API keys, submission planning and retries, file
  classification in the downloads directory, download naming and HLS playlist
  parsing, downloader command lines, PeerTube upload planning, the MeTube queue
  and socket protocol, the dashboard listing queries, the rules of a
  submission's life in the store (which submission an imported file or a
  handoff belongs to, how owned deletions proceed), and the internal handoff
  and cleanup endpoints. Each module states its behaviour in `requires` /
  `ensures` contracts over sequence and set models, and the cross-function
  properties as proof functions (`lemma_*`).
- `tests/` — tests of the library on concrete values.
- `app/` — the server around the library: HTTP handlers (axum), sessions and
  OIDC, the SQLite store (sqlx), the MeTube and PeerTube HTTP clients, the
  downloaders (yt-dlp, ffmpeg), and the downloads watcher.

Calls into outside crates that the library makes (bcrypt, getrandom, uuid, the URL
parser, serde_json) go through small trusted wrappers whose contracts are
documented next to them.
