# migration-system

Migrates a WordPress site to Strapi v5: taxonomies (performers, studios,
categories, sub-categories), user avatars, users, authors, and articles with
their images and comments.

## Layout

- `src/` — the verified library (Verus). Every decision of the migration lives
  here with a contract: HTML content parsing and rebuilding, excerpt and slug
  normalisation, article payload construction, the per-article state machine
  (cover, images, POST with retries, comments), bulk user batching and
  reconciliation, author creation, the mapping tables and retry queues, the
  reading of the taxonomy CSV files, request bodies and URLs for Strapi and
  WordPress, and the interpretation of their replies. `src/laws.rs` states the properties that span several operations.
- `app/` — the program around the library: command line, configuration and
  data files, HTTP (reqwest), async orchestration (tokio), JSONL logging.
  It performs the I/O the library asks for and hands the replies back, with
  the JSON of a reply read into the library's types.
- `tests/` — tests of the library on concrete values.

## Running

```bash
migration-system --only-phase all --max-articles 10 --dry-run
```

Configuration is read from `data/config/config.json` and
`data/config/pre-migration-config.json`; `WP_BASE_URL`, `STRAPI_BASE_URL` and
`STRAPI_TOKEN` override the file.

Phases, in order: taxonomies, user images, admin users, users (with
reconciliation of the failed ones), authors, articles.
