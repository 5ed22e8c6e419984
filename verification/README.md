# sls-releases

Service that collects the latest releases of the modules of a multi-module
repository from GitHub, keeps them in SQLite and lists them over HTTP as plain
text, HTML or JSON.

Layout:

- `src/` — the library, verified with Verus: release tag parsing, version and
  release ordering, the newest release per module, listings and their
  rendering, content negotiation, the GitHub paging state machine, the stored
  row format and queries, job status codes, settings resolution, transaction
  id decoding and the web fallback decisions. Calls into `regex`, `chrono` and
  `mime_guess` stand behind small trusted wrappers whose contracts say what is
  assumed of them.
- `app/` — the executable around the library: command line, settings file,
  SQLite access with `sqlx`, the GitHub HTTP client with `reqwest`, the
  `axum` server and the background refresh loop.
- `tests/` — tests of the library on concrete values.

Collections: the library keeps the known modules as a list of
`(name, localized name)` pairs whose meaning is the map where a later pair
wins (`pairs_map`), finds module names by a search of a list, and picks the
newest release per module with a pass over a list kept sorted by name. Verus
specifies std's `HashMap`, `HashSet` and `BTreeMap` only for keys whose
hashing or ordering it models, and `String` keys are not among them, so the
contracts are stated over these lists instead.
