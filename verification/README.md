# codeg_core

The core rules of the Codeg agent runtime, written in Verus: each public
function states what it returns in its `requires` / `ensures`, and Verus
proves the code against that statement.

## Layout

- `src/` — the verified library.
  - `context/` — conversation context: the token budget, the transcript
    format and its hydration into a context store, the cut policy and
    compaction (plain and model-written summaries, their checkpoints and
    recovery), the message log, spill files, history migration and how a
    session is opened.
  - `code_intel/` — which language servers a workspace calls for, the LSP
    pool's admission rules, the MCP tool surface and codegraph arguments.
  - `native_config.rs`, `native_shutdown.rs`, `process_owner.rs`,
    `run_settled.rs`, `workflow_adapt.rs` — provider configuration, process
    shutdown and ownership, the file changes of a settled run, and workflow
    events of the agents.
  - `json.rs`, `strmap.rs`, `text.rs`, `path_text.rs` — JSON values, a
    string-keyed map, and text and path helpers with their specifications.
- `tests/` — tests run against the compiled library.
- `app/` — the unverified edge: file system, processes, serde types, the
  directory walk and the transcript store's lookups, calling into the
  library for every decision.

Calls into `serde_json`, `sha2` and `urlencoding` stand behind small trusted
wrappers whose contracts say what those crates compute.
