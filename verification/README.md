# autowc

The verified core of AutoWC, a small nested Wayland compositor driven by
automation, and of the MCP server that drives it.

`src/` is checked by Verus:

- `text`, `keycodes`: character utilities and the W3C `KeyboardEvent.code`
  key names with their Linux input codes.
- `control`, `keys_sequence`, `json_command`: control commands, the plain-text
  syntax, the `keys` mini-language and the checking of decoded JSON commands.
- `plan`: target resolution, the expansion of a command into timed low-level
  actions, and the control queue that replays them.
- `window`, `host_input`: the window registry, per-window host key tracking
  and host mouse buttons.
- `protocol`, `startup`, `clipboard`: responses, start-up options, screenshot
  files and the clipboard format choice.
- `command`, `session`, `server`: the MCP side — control lines for automation
  commands, the decisions of a session with the compositor process, and tool
  parameters.

`app/` holds the MCP server binary (process and stdio handling with tokio and
rmcp) and the compositor's stdin/stdout and PNG helpers. `tests/` exercises the
library.
