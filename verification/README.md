# color_worker

A color-science worker for DuckDB (over Apache Arrow), split into a library
whose logic is proved with Verus and a thin executable around it.

`src/` — the verified library:

* `color` — `Rgb`, channel clamping, `#rrggbb` formatting, hex parsing
  (`#rgb` / `#rrggbb` / `#rrggbbaa`, optional `#`, surrounding whitespace
  ignored), the CSS named-color table and the nearest-name selection (first
  minimum of the distance order keys), with the laws of hex round trips.
* `meta` — the JSON keyword arrays and the per-object tag list of the catalog
  metadata, with the law that every keyword array decodes back to its keywords.
* `scalar` — the row logic of the scalar functions: which rows are NULL, the
  clamped RGB operands, the parsed hex operands.
* `table` — the rows of the `named_colors` table and the proof that its names
  are unique.

`app/` — the worker binary: Arrow column reading and result building, the
`vgi` worker registration and catalog metadata, and the floating-point formulas
(sRGB companding, HSL, CIELAB, CIEDE2000, WCAG luminance and contrast), which
cannot stand in the verified library.

`tests/` — tests of the library's public functions.

## The named-color table

`NAMED_COLORS` holds the 147 CSS named-color keywords that the worker documents:
the named colors of CSS and SVG, with both the `gray` and the `grey` spelling of
each of the seven grays (`gray`, `darkgray`, `darkslategray`, `dimgray`,
`lightgray`, `lightslategray`, `slategray`). `rebeccapurple`, which CSS Color
Level 4 adds as a 148th keyword, is not among them. Each `grey` spelling has the
channels of its `gray` twin and sorts after it, so on a tie `nearest_color_name`
returns the `gray` spelling.
