# synology_mcp

A service that exposes a Synology NAS (system information, utilisation,
installed packages, volumes and disks) as MCP tools over HTTP.

- `src/` is the verified library (Verus):
  - `text.rs`: decimal formatting and `str::parse`-compatible parsing of
    unsigned integers, and splitting at `:`;
  - `json.rs`: a model of the JSON replies with `serde_json`-like lookups;
  - `dsm/client.rs`: the DSM session protocol (URLs, request forms, judging
    login and call replies, error texts);
  - `dsm/system.rs`, `dsm/storage.rs`: what is read out of the replies;
  - `config.rs`, `auth.rs`: settings from environment values, and admission
    by bearer token.
- `app/` is the program around it: HTTP requests, JSON parsing, the MCP server,
  the environment, and the floating-point size arithmetic.
- `tests/` exercises the library.
