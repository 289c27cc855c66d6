# korgi_beats

Verified core of the Korgi.Beats beat-detection service.

- `src/` — the library, verified with Verus:
  - `analyzer` — beat selection (greedy non-maximum suppression with a
    relaxed second pass), onset spacing, beat intervals and the tempo
    histogram mode.
  - `auth` — session claims, bearer-token extraction, authentication outcome.
  - `upload` — upload size limits, stored file naming, upload refusals, and
    the upload request's decision step with its run laws.
  - `jobs`, `worker` — job statuses, job access, and the background worker's
    decision step with its lifecycle laws.
  - `register` — password hashing, registration refusals, and the
    registration request's decision step with its ordering law.
  - `beats_json`, `tokens` — stored beat lists and API-token hashes.
  - `text` — string matching used by the above.
- `app/` — the HTTP server (axum), database access (sqlx), audio decoding and
  signal processing (symphonia, rustfft), JWT encoding (jsonwebtoken).
- `tests/` — tests of the library.
