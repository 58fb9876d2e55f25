# term_ide

A terminal IDE with language model agents: a file tree, an output area that
shows files and agent output, a command input, a list of agents, and a
workspace selector. The logic is a library verified with Verus; the program
around it draws with ratatui and performs the I/O.

## Layout

- `src/` — the verified library.
  - `state/` — focus cycling, input modes, output contexts, the status bar.
  - `panels/` — the file tree, the input line (history, selection), the
    output panel (file viewer, agent viewer, CLI agent input), the agents
    list, the chat panel, and the editor (buffer, selection, undo, diff,
    key bindings and the actions they carry out, syntax highlighting, the
    rows it shows and its clicks).
  - `agents/` — the agent registry, agent status, and the conductor that
    reads agent requests out of model answers.
  - `llm/` — messages, errors, provider status, the provider registry with
    fallback, which providers the configuration sets up, JSON values, and
    the three providers (the local Ollama server, Anthropic, Gemini): their
    settings, requests and streaming formats. The Anthropic provider is
    configured under the name `anthropic`, with its model given in the
    configuration.
  - `ui/` — layout, theme choice, scrolling, the workspace selector, and
    markdown rendering of agent output.
  - `config.rs`, `dispatch.rs`, `keys.rs`, `terminal.rs`, `files.rs` — the
    configuration and `${VAR}` expansion, global key and mouse dispatch,
    key encoding for terminals, terminal sizes and colors, file icons and
    ignore rules.
- `tests/` — tests of the library.
- `app/` — the program: terminal setup, the event loop, HTTP streaming
  (and reading the bodies of failed requests),
  pseudo-terminals for CLI agents, the file watcher, the clipboard, and
  drawing.
