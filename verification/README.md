# postlane

The core of the Postlane desktop backend as a Verus library: every decision
the backend takes is a verified function with a contract, and the I/O around
those decisions (HTTP, files, the keyring, DNS) is plain Rust in `app/`.

## Layout

- `src/` — the verified library.
  - `text`, `json` — strings and the JSON tree the library reads and builds.
  - `validation`, `identifiers`, `ip_ranges` — input checks, hashes and IDs,
    private address ranges.
  - `repos`, `discovery`, `connection`, `repo_init` — the repo registry,
    auto-discovery of clones, the connection-status table, initial config
    files.
  - `credentials`, `routing`, `usage`, `scheduler_config`, `schedule_time`,
    `sync` — scheduler credentials, provider fallback, monthly usage limits,
    the per-repo scheduler order, schedule times, account sync tasks.
  - `providers/` — for each scheduling provider, the request bodies and how
    its replies are read; `provider_policy` holds their status rules and URLs.
  - `accounts`, `registry`, `published` — the account web API, projects, and
    the published-posts view.
  - `laws` — properties that span several operations.
- `tests/` — tests run against the compiled library.
- `app/` — the I/O shell: HTTP transports, file storage, SSRF checks that
  need `std::net`, and serde copies of the library's types.
