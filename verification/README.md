# line_hub_core

The core of LINE Model Hub, a desktop assistant that lets any
OpenAI-compatible model drive LINE Desktop through the line-desktop-mcp
tool server, written in Verus.

- `src/` is the verified library:
  - `conversation` — the agentic loop as a state machine (list tools, stream
    a model turn, ask before any send, call tools, bounded number of turns);
  - `provider` — shared chat types, the OpenAI-compatible stream logic
    (thinking-tag stripping across chunks, wire chunks to stream events,
    one terminal event per stream) and per-provider settings and catalogues;
  - `mcp` — decoding of MCP content blocks, tool replies and tool lists, and
    where the line-desktop-mcp entry script is looked for;
  - `commands` — the rules of the desktop shell (provider ids, token budgets,
    tool categories, system prompt, send-confirmation text, UI payloads,
    chat targets, entry-path tiers, the cancel gate of a streaming turn);
  - `tz` — Asia/Taipei calendar dates against UTC instants;
  - `config`, `history`, `keyring`, `respawn`, `sse`, `vendor`, `error`,
    `json`, `text` — configuration defaults, session titles, stored-key
    listing, respawn backoff, SSE line handling, error messages and text
    helpers.
- `app/` is the command-line program around it: HTTP streaming, the MCP
  child process and vendor extraction, SQLite history, the OS keyring,
  configuration files, the clock, Ctrl-C and a terminal send confirmation.
- `tests/` exercises the library from outside.
