# OpenCoWork

Message routing, delivery and text handling for chat platforms, and the
decisions of a workspace server that lets clients read and write files and
run commands under an approval workflow.

## Layout

- `src/` — the verified library.
  - `text` — chunking on word boundaries, truncation at char boundaries,
    input summaries.
  - `delivery` — delivery errors, their classification, the backoff policy
    and the decisions of a retry run.
  - `router` — message deduplication and the router's counters.
  - `telegram`, `slack`, `workspace`, `events` — adapter identities,
    message types and configuration checks.
  - `server` — configuration, errors and their HTTP answers, path
    resolution inside the workspace, glob filters for listings, the approval
    manager, the audit log, the middleware decisions and the handlers'
    request and response bodies.
  - `strutil`, `unicode` — character-level helpers and UTF-8 facts.
  - `external` — the declarations of other crates' types the library holds.
- `tests/` — tests of the library.
- `app/` — the command line, the HTTP server on axum, the async retry
  driver, the rate limiter, and the serde forms of the library's types.
