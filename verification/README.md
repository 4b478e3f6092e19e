# piri

Window and workspace automation for the niri compositor.

`src/` is the library: what is read off the compositor's answers, which windows
and workspaces are meant, and what is asked for next. Its contracts are proved
with Verus. It holds no connection and reads no clock: whoever uses it hands it
plain values and carries out what it decides.

- `config`: the settings and their defaults
- `text`, `numbers`, `search`: what the rest is written in terms of
- `pattern`, `toml_table`: regular expressions and TOML tables; what these
  modules say of the `regex` and `toml` crates is trusted
- `niri`, `action`, `events`, `connection`: windows, workspaces and outputs,
  what can be asked for, what is told, and how an exchange goes
- `matcher`: matching windows against patterns
- `window_utils`, `geometry`, `named_workspace`, `processes`, `swallow`: what
  several plugins need
- `window_rule`, `panels`: moving, floating and focusing windows by rules
- `workspace_rule`, `columns`, `edge_pulse`: arranging the tiled windows of a
  workspace

`app/` is the program's side: the socket, the configuration file, the event
loops, and the arithmetic of floating-point coordinates, which the library
carries as bit patterns, compares by integer keys or takes in fixed point.
