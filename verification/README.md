# rolodex_core

The verified core of a terminal coding agent: its file tools (reading
slices and indentation blocks, structural edits compiled to a patch,
search and smart-tool arguments), the chat-completions compatibility
layer (request translation and the streamed-response state machine),
project navigation (tabs, workspaces, favourites, recents, split panes),
the pickers and switchers of the interface with their layouts and key
handling, and the auto-mode climber guard.

- `src/` is the library. Every function carries a `requires`/`ensures`
  contract checked by Verus; laws that relate several calls are public
  proof functions (`lemma_*`). Calls into the standard library and into
  outside crates (`serde_json`, `ratatui`, `dirs`) stand behind small
  trusted wrappers whose contracts say what those crates document and no
  more. Where an outcome is not fixed by its arguments (how the layout's
  solver splits an area, the home directory), the contract says only what
  holds of every outcome, and the views are drawn by verified functions
  that take the parts the layout gave.
- `tests/` runs the library on concrete values.
- `app/` is ordinary Rust around it: the file system, JSON parsing,
  persisted state, the chat event stream, the protocol map's artifacts
  and drawing on the terminal.
