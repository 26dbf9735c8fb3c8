# colgrep-cloud

The verified core of a Cloudflare Worker that stores code indexes per user
and searches them.

- `src/` is the library, verified with Verus: password hashing and
  verification (PBKDF2-SHA256, base64), identifiers and session tokens,
  index keys and statistics, case-insensitive text search with its ranking,
  the batching of embedding requests, and every decision the HTTP handlers
  make (validation, status codes, error messages, replies).
- `app/` is the worker: routing, D1/R2/KV and HTTP calls, JSON
  (de)serialisation, the HTML pages, and the floating-point parts
  (embeddings and cosine ranking).
- `tests/` exercises the library on concrete values.
