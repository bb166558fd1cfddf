# purrtty

The logic of a terminal emulator with an agent mode, verified with Verus.

- `src/grid.rs`: the grid as rows of cells, in absolute and in view numbering.
- `src/selection.rs`: selecting text, and the text of a selection.
- `src/renderer.rs`: the size of the grid, and which rows a frame shapes again.
- `src/quad.rs`: rectangles as triangles, and the size of their buffers.
- `src/agent.rs`, `src/json.rs`: the agent's stream of JSON events.
- `src/dump.rs`: a dump of the screen as lines of text.
- `src/shell.rs`: the life of the one window.
- `src/text.rs`: the operations on strings that the others share.

`app/` is the program around the library: the window, the GPU and the agent's
process. `tests/` runs the library on concrete values.
