# session_naming

Names coding-agent sessions after their conversations, verified with Verus.

- `src/transcript_naming.rs` — the naming tiers over a transcript's tail and
  head reads, the tidy/acceptability rules, and their laws.
- `src/transcript_paths.rs` — where a working directory's transcripts live.
- `src/session_files.rs` — which directory entries are transcripts.
- `src/tab_title.rs` — agent-aware tab, tab-line and rail-row titles.
- `src/project_layout.rs` — projects of a window and tab cycling.
- `src/text.rs`, `src/json.rs` — character-level text helpers and the JSON
  values the rules read (parsed by `serde_json`).
- `app/lib.rs` — the bounded file reads and `Path`-typed entry points.
