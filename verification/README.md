# makepad_draw (verified core)

The logic of makepad's vector icon atlas, SVG path reader, font face and desktop
window chrome, as a Verus-verified library.

- `src/svg_path.rs`: the SVG path-data reader, a byte-level state machine specified by
  `parse_spec`; numbers are kept exactly as their decimal digits.
- `src/svg_path_laws.rs`: laws of the reader (arity of every segment, separators).
- `src/icon_atlas.rs`: the icon cache keyed by a `makepad_live_id` hash, its queue of
  icons to rasterise, and the decisions of the rasterisation pass.
- `src/icon_atlas_laws.rs`: laws of the cache (a lookup after an insertion finds it,
  slots never move, a pass drains the queue).
- `src/font_face.rs`: a font face that always parses (checked with `rustybuzz`'s
  `ttf_parser` when it is made), and its variations.
- `src/desktop_window.rs`: what chrome clicks ask of a window, whom events concern, and
  which chrome buttons are drawn.
- `app/`: the floating-point and platform side: number values and point arithmetic of
  paths, placement of icons in the texture, trapezoids, `rustybuzz` faces, window glue.
