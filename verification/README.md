# herdr-scratch-pane (verified library)

The decision logic, command builders and configuration handling of a Herdr
plugin that keeps a persistent floating scratch popup backed by tmux, written
in Verus with contracts that Verus proves.

- `src/` is the verified library:
  - `scope`: scratch scopes, pane labels and tmux session names;
  - `herdr`: panes and workspaces as Herdr reports them, and the pane id in
    Herdr's reply to opening a plugin pane;
  - `decisions`: what a toggle or a minimize does;
  - `state`, `workspace_marker`: the recorded scratch state and the workspace
    label marker;
  - `commands`, `actions`: argument lists of the Herdr commands;
  - `pane`: the tmux client and legacy dtach commands;
  - `keybindings`, `keys_document`: the tmux prefix and the managed key
    bindings of the Herdr configuration, edited through `toml_edit`;
  - `config`, `geometry`, `mouse`: display settings and the scratch box;
  - `manifest`: the plugin manifest;
  - `text`: character-level helpers.
- `app/` is the command-line program: argument parsing, running Herdr and
  tmux, and reading and writing files.
- `tests/` exercises the library.
