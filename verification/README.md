# warp_foss

The core of a terminal emulator, written in Verus: each public function
carries a `requires`/`ensures` contract that Verus proves.

## Layout

- `src/terminal/grid.rs` — the screen grid: cells, cursor, scrollback,
  scroll regions, dirty-region tracking and batched updates, modelled by
  `GridModel`.
- `src/terminal/parser.rs` — the escape-sequence state (cursor, pen, scroll
  region, saved state, device status replies, OSC 7 directory). The byte-level
  state machine is the `vte` crate; the actions it reports are applied by
  verified code, either to the parser state alone or, through
  `OutputCommand`s, to an output sink such as the grid.
- `src/ui/input.rs` — keyboard events to the bytes a terminal expects.
- `src/ui/layout.rs` — the split-pane tree over pane ids: split, close,
  focus order and the pane limit.
- `src/ui/ai_command_palette.rs`, `src/ui/status_bar.rs`,
  `src/ui/renderer.rs` — UI state and errors.
- `src/config/` — themes (hex colors, built-in palettes) and terminal settings.
- `src/plugin/` — plugin hook types and the host/plugin byte protocol.
- `src/clock.rs`, `src/strings.rs` — time and text helpers with contracts.
- `tests/` — tests of the library.
- `app/` — the program around the library: configuration files (serde, toml),
  process output, git, winit key conversion, the WebAssembly plugin host.

The GPU renderer of the original (wgpu, pollster) and its logging (tracing)
are not part of this build: the program is headless, and the window, text
and PTY modules those crates served are not here.

## Checking

Verus verifies `src/`; the laws of the library are the public `lemma_*`
proof functions next to the code they speak of.
