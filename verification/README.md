# backend

Reads Codex CLI JSONL session logs into rendered observations and projects
them for a desktop viewer. The library's logic is proved in Verus; it rests
on trusted contracts for JSON decoding (`serde_json`), lossy UTF-8 decoding
(std) and the event tally's `IndexMap` operations, whose behaviour is stated,
not proved. File system and environment access stay in `app/`, which hands
their results to the library.

- `src/` is the verified library:
  - `text` — whitespace trimming, substring search and string building over
    character sequences;
  - `json` — a one-level view of a JSON document, decoded by `serde_json`;
  - `jsonl` — reading a log line by line: entries, ignored and malformed
    lines, and the per-event tally (`parse_str`, `parse_bytes`);
  - `event_counts` — the tally, an `indexmap::IndexMap` kept in first-seen
    order;
  - `domain` — entries, entry kinds and the entry filter;
  - `session` — Windows path prefixes and components, and session ids found
    in a log's path;
  - `paths` — whether a path is absolute, and joining paths, the Windows way;
  - `start_dir` — which directory the file picker opens;
  - `api` — the request and response objects of the viewer's boundary, and
    where a requested path resolves to;
  - `parse_laws`, `api_laws` — what holds of every log and every projection.
- `app/` reads files, the current directory and the environment, renders
  answers as JSON and holds the Tauri commands.
- `tests/` exercises the library on concrete logs.
