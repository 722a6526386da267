# tideorm

The query-building, relation, schema and seeding logic of an async ORM, written
in Verus: every function of `src/` states what it returns in its contract, and
Verus proves it.

## Layout

- `src/` — the verified library.
  - Text and values: `text` (character sequences, joining, decimal rendering),
    `dialect` (backends, identifier quoting), `json` (JSON values and their
    text), `error`.
  - Queries: `structure` (joins, unions, window functions, CTEs), `condition`
    (WHERE conditions and OR groups), `model` (a model's table, keys and
    fields), `builder` (the query builder), `classify` (which conditions can be
    rendered), `render_where`, `render_select` and `render_parts` (the SQL
    preview), `render_bound` (the SQL with bound values, and COUNT and
    EXISTS statements), `array_filter` (array filters in each dialect:
    PostgreSQL array operators, MySQL `JSON_CONTAINS`, SQLite `json_each`),
    `cache_key` and `cache_tags` (what a cached result
    is keyed and
    tagged by), `query_cache` (cached results evicted by table), `tables`
    (tables named in SQL text), `mutation` (the guards on
    bulk writes), `mutation_sql` (the statements bulk writes send and the
    soft-delete stamp), `chunking` (walking the matches in batches), `decode` (COUNT
    and EXISTS results), `identities` (connection identities), `fragment`
    (reusable clause sets), `describe` (the conditions and operators named in
    error reports).
  - Relations: `relations` (relation metadata, paths, trees, eager queries),
    `relation_sql` (shared checks and the recursive tree query), `direct`
    (`HasOne`, `HasMany`, `BelongsTo`), `self_ref`, `polymorphic`,
    `many_to_many`, `eager_keys`, `consolidation` (regrouping joined rows).
  - Schema and seeds: `schema` (DDL generation and its registry),
    `column_type` (the logical column type of a Rust type spelling), `sync`
    (schema synchronization), `seeding` (seed ordering and run plans).
- `tests/` — tests run against the compiled library.
- `app/` — the I/O around the library: converting `serde_json` values, the
  process-wide registries and the schema file, and async drivers that run the
  queries and seeds the library plans.

## Verifying

The library verifies with Verus; the tests run with the outside crates named in
`Cargo.toml` linked in.
