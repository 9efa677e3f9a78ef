# tiled

A verified library for tile maps and a small sprite and map editor, written in
Verus. Verus verifies every function in `src/`, and their contracts state
what each returns or changes. The exceptions are the methods of the traits
that a user implements (`HexCoord`, `Painter`) and the constructors of the
field-less tool types `Bucket` and `EyeDropper`, whose only value is the one
they return.

- `tile`, `rpg`, `hex`, `quads`: tilesets and their id ranges, packed terrain
  corners, RPG-Maker tile ids and autotiles, hexagonal coordinates, quad
  index buffers.
- `tilemap`: the tile map being edited: layers, tile stacks, links and their
  counts, palette and categories, brushing and erasing.
- `font`, `draw`: the built-in bitmap font and drawing made of filled
  rectangles (lines, frames, bit-mask columns, text).
- `editor_ui`: the immediate-mode interface of the map editor: widget ids,
  hit testing, buttons, draggers, sliders.
- `layout`, `widgets`, `ui_state`, `immediate`, `dock`, `stk`, `theme`:
  flow layout, retained widgets, pointer tracking, colors.
- `tool`, `receiver`: the sprite editor's drawing tools, which return the
  requests they make of the canvas, and the image with its layers, zoom and
  the page exchanges that apply and undo edits.
- `event`: input events and what keys mean to the editor.
- `renderer`, `shape`: the walk over the cells of a rectangle and map object
  pieces.

`app/` holds the parts that work on floating-point numbers (the float flow
layout, slider models, hex rounding, the orthogonal grid, the alert timer and
cell properties) around the library.
