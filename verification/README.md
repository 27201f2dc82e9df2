# nu_plugin_herdr_navigate_directory

A Nushell plugin that provides `hnd`, a directory-navigation command that
cooperates with Herdr workspaces, tabs, and panes. Outside Herdr it changes
the caller's directory; inside Herdr it reuses an idle pane already at the
target, changes directory only for downward navigation, and otherwise
creates a focused tab or workspace.

## Layout

- `src/` is the verified library, written in Verus:
  - `path`, `types`, `decision`: canonical paths, the session model, and
    the decision of one navigation, with its laws.
  - `orchestrate`: the Herdr side of a navigation as a state machine that
    requests Herdr work and receives its results; at most one
    recomputation, creation only from a recomputed view.
  - `invocation`: one `hnd` call at the command boundary as a state
    machine: target resolution, configuration read only inside Herdr,
    orchestration, and the ordered `OLDPWD`/`PWD` history writes.
  - `herdr/*`: the caller context, response envelopes, inspection of
    snapshots, creation, focus requests, socket framing, and error-detail
    sanitizing.
  - `completion`, `prefix`, `display`, `complete`: dynamic completion of
    the directory argument.
  - `config`, `command`: plugin configuration and the command boundary.
- `app/` is the plugin binary: Nushell engine calls, file-system
  resolution, the Herdr CLI and socket transport, and JSON decoding. It
  hands plain values to the library and performs what the library decides.
- `tests/` exercises the library on concrete values.
