# fts_bench

The query handling of a set of full-text search benchmark engines (LanceDB,
Lance and Tantivy front ends), as a Verus-verified library, and the programs
that run it against the engines.

- `src/` — the verified library:
  - `text`, `numbers`: characters, trimming, joining; decimal and hexadecimal
    text, `usize` parsing.
  - `lancedb_query`, `lancedb_serve`, `lancedb_check`: query shapes (term,
    union, intersection, phrase), the request server's decisions, and the check
    tool's records.
  - `lance_query`, `lance_serve`: the Lance query language (`+` required
    clauses, quoted phrases) and the Lance server's request plans and answers.
  - `ingest`: corpus lines into batches of documents.
  - `probe`, `probe_cli`, `timing`: the latency probe's cases and command line,
    and best/median summaries.
  - `tantivy_check`: the Tantivy check tool's shape names, commands and ids.
  - `*_laws`: properties of whole query shapes and of every request.
- `tests/` — tests on concrete values.
- `app/` — the programs (one subcommand each): I/O, the engines' APIs, timing.

`app/` calls the `lance`, `lance-index`, `lance-datafusion` and `lancedb` crates,
which are not among the dependencies in `Cargo.toml`: together they bring in
far more packages than this build allows. `app/` therefore does not compile
here; the library and its tests do not depend on them.
