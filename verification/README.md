# rustpal

The core of a classic tile-based role-playing game engine, written and proved
in Verus. It keeps the game's data and saves, the keyboard, walking and
obstacles, menus, screen effects, and the JSON that automation clients read.
What a function does stands in its contract; what holds of several functions
together stands in the public proof functions named `law_*`.

- `src/` is the library. It draws nothing and reads no files: it takes bytes
  and events, and hands back pictures, palettes, lists of things to draw, and
  what to do next.
- `app/` is the program around it: window, graphics device, sound, files.
- `tests/` runs the library on a small made-up world.

A few functions of the standard library, of `web-time` and of `png` are called
through items whose contracts are believed, not proved: see `src/clock.rs`,
`src/text.rs` and `src/art.rs`.
