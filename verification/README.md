# onepanel_cli

A deployment tool for 1Panel servers: static sites, Docker image archives and
compose-file image updates.

- `src/` is the verified library (Verus). It holds the compose-file update
  (`yaml.rs`, `compose.rs`), the reading of API answers (`api.rs`, `json.rs`,
  `site.rs`), connection settings and their precedence (`config.rs`), the API
  address and request signature (`panel.rs`), the JSON request bodies
  (`requests.rs`), character-level helpers
  (`text.rs`), the error type (`error.rs`) and properties that span several
  operations (`laws.rs`).
- `app/` is the command-line program: argument parsing, HTTP requests, the
  local configuration file, `docker save`, directory walking and printing.
- `tests/` exercises the library on concrete inputs.
