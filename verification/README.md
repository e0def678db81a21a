# timeline_demo

A Flash-style timeline editor demo whose editing logic is verified with Verus.

- `src/` is the verified library: the timeline engine (layers, keyframes,
  playback), the stage model (item order and selection, with cut, copy,
  duplicate, reordering and deletion), the library panel (default assets,
  folder tree, search, import of dropped files), the tools and their keyboard
  shortcuts, the console log, the items that tools and menus create, and
  script-line highlighting. Random identifiers and the time of day come from
  `uuid` and `chrono` through small trusted wrappers whose contracts state
  what those crates guarantee.
- `tests/` exercises the library on concrete values.
- `app/` is the eframe/egui window around the library: drawing, pointer
  handling, floating-point geometry, screenshots and the crash dialog.
