# swarm

Repository references for the swarm workspace manager, with their behaviour
proved in Verus.

- `src/text.rs` — trimming, `.git` suffix stripping and splitting on
  `Seq<char>`, and executable versions on character ranges.
- `src/repos.rs` — reading a repository reference (URL, `git@` remote or
  canonical `host/owner/name`), the canonical name, the clone URL, the
  metadata file, and the decisions the repository index takes between its
  database queries.
- `src/paths.rs` — where repositories live under the data directory.
- `src/laws.rs` — what a parse gives, and which names and URLs of a
  repository read back as it.
- `src/toolchains/` — environment variables for workspace sessions.
- `src/prune.rs` — the outcome of pruning workspaces.
- `app/` — the database, filesystem and runtime around the library.
