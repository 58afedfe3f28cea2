# Fleet Commander

A terminal UI for a fleet of coding agents, each in its own dev container, with
its state machine written and proved in Verus.

- `src/` is the library: what a key or an event does (`app`), what the screens
  show (`ui`), the file explorer's tree (`explorer`), the frames and envelopes of
  the in-container service (`framing`, `protocol`), key bindings and
  configuration (`keybind`, `config`), workspaces and pairings (`workspace`,
  `pairing`), the tools that agents call (`mcp_server`) and the decisions of the
  `init` command (`init`). Each function states what it does over a mathematical
  model; the `laws` modules, and the sections named so, state what holds across
  functions.
- `app/` is the program around it. It reads keys, files and sockets, hands the
  library plain values, performs the effects that come back, and draws the
  scenes.
  It is not complete: it starts no containers, speaks no ACP and has no client of
  the in-container service, and it shows messages and files as plain text.
- `tests/` runs the library.

The application never does I/O by itself. `App::handle` takes an event, changes
the state and leaves a list of effects; the program takes them with
`App::take_effects` and reports what came of them as further events. Drawing
works the same way: `ui::render` turns the state into a scene of plain widgets.
