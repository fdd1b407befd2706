# ddog

A command line for Datadog (logs search, tail, get and aggregate; monitors;
dashboards), whose decision-making core is a Verus-verified library.

## Layout

- `src/` — the verified library `ddog`:
  - `time_spec` — `now`, `now-<N><unit>`, RFC-3339 and bare durations;
  - `config` — credentials and site from flags, environment and profiles,
    with the precedence laws;
  - `client` — client settings, URLs, and the retry policy as a step
    function (`on_response`, `on_send_error`);
  - `logs`, `logs_cli`, `tail`, `aggregate`, `metrics`, `monitors`,
    `dashboards` — requests, argument checking, paging, de-duplication,
    response flattening and table rows;
  - `output` — output modes, field lookup and the text/table renderings;
  - `json` — the JSON model used for free-form payloads;
  - `text` — the string operations the rest is specified with.
- `tests/` — tests of the library, run against the real outside crates.
- `app/` — the executable: clap arguments, serde shapes, the HTTP loop
  (tokio + reqwest), configuration files, and printing.
