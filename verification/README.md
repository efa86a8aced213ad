# ldc_companion

A local companion for developers: it records coding events sent by an editor
extension, sums up each day, and drafts LinkedIn posts that a human approves
before anything is published.

The crate is written in Verus. Its library (`src/`) holds the logic with
contracts that Verus proves:

- `ingest`: validation and normalization of incoming events (secrets removed
  from file lists and metadata, language minutes merged and capped);
  `ingest_laws` proves that normalization is idempotent and leaves no secret.
- `daily`: the aggregation of a day's stored events into projects, files and
  minutes per language, and the day's Git signals from its snapshot and
  commit events.
- `analysis`: the local technical analysis, its complexity score, and the
  decision between the Copilot CLI's answer and the local fallback.
- `draft`, `llm`: the daily draft, the template provider and the pieces of
  the OpenAI Responses API request and reply.
- `similarity`: tokens, overlap fractions, the style score and the ranking of
  voice examples.
- `linkedin`: the publication plan, the Posts API body and the reading of its
  answer.
- `config`, `config_laws`: settings from environment variables and their
  defaults.
- `api`: request checks and error answers of the HTTP API.
- `text`, `order`, `fmt`, `json`, `model`: the strings, orderings, number
  formatting and JSON values the rest is stated over.

`app/` is the daemon around the library: the HTTP server (axum), the SQLite
store (sqlx), the child process of the Copilot CLI and the HTTP clients of
the outside APIs. Floating-point scores are rounded there from the fractions
the library computes.
