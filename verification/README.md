# codexx

Manages the configuration of Codex on a desktop: third-party providers and official accounts, the
live `config.toml` and `auth.json`, model menus, quotas, exports of conversations, and archives of
skills and MCP servers.

- `src/` is the library. Every rule stands there with a contract that Verus proves, and the laws
  that hold of several rules together are public proof functions (`law_…`).
- `app/` performs what the library decides: files, SQLite, HTTP and ZIP. The window that hosts it
  implements `Shell`.
- `tests/` runs the library on concrete values.

| module | what it decides |
| --- | --- |
| `providers::store`, `table` | saved providers: normal form, matching, imports, copies, undoing |
| `providers::live_files` | the order in which the two live files are written and put back |
| `providers::live_action` | the parts of an action on the live configuration, and its undoing |
| `providers::live_toml`, `live` | what is merged into the live configuration and taken out of it |
| `providers::official_profiles`, `profile_switch`, `profile_change` | official accounts, switches between them, and the undoing of a change |
| `providers::official_display`, `quota` | what is shown of a login, and its quota |
| `providers::model_catalog` | menus of models |
| `sessions` | conversations and their transcripts |
| `skills_mcp` | archives: what is accepted, and what an import does |
| `transfers`, `naming` | names of exported files |

What the library asks of other crates (`toml_edit`, `serde_json`, `sha2`, `base64`, `chrono`,
`reqwest`, `ureq`) stands in `toml`, `json`, `digest`, `base64url`, `clock` and `web`. The contracts
there are believed, not proved; each names the function it is about. Contracts speak of what a TOML
document holds and of how the entries of its root table are written, comments included; the order of
its keys, and how its text is made up of them, stay inside `toml_edit`.
