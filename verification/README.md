# tezzera

The verified core of the Tezzera UI toolkit, written in Verus.

`src/` is the library; every function in it carries a contract that Verus
proves:

- `a11y` — roles, accessibility nodes and their JSON form, the node tree, and
  keyboard focus traversal (with the laws that relate focus moves).
- `text` — the text cursor and its moves.
- `render` — nearest-neighbour scaling and alpha blending of RGBA images into
  a canvas.
- `widgets` — widget state: switch, checkbox state, text, text input display,
  and the bounded toast queue.
- `component` — the element tree, framework errors and the application root.
- `devtools` — atom snapshots and the inspector's history.
- `cli` — argument checking and project templates of `tzr new`.
- `platform` — window configuration, keyboard event translation and frame
  packing.
- `demo` — the small pieces of logic the demo panels use.

`app/` holds what Verus does not see: the tiny-skia canvas, the winit /
softbuffer window loop, file I/O of the CLI, closures kept as trait objects,
and widget geometry in floating point.
