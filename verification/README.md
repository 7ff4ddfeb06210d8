# box_drawing

Geometric rendering of the Unicode Box Drawing and Block Elements characters for
terminals. Instead of relying on the font, each glyph is drawn as axis-aligned
rectangles sized to the exact terminal cell, so that lines tile seamlessly into
unbroken borders at any cell size, font or line height.

- `src/` is the library, written and proved in Verus. Lengths are integers: a
  cell counts in units of 2^-30 pixel, a rectangle in steps of a 120th of a unit,
  so that every half, eighth and dash comes out exactly.
- `src/laws/` states and proves what holds of every drawing: that strokes reach
  the edges of their cell and keep within it, that facing arms meet across a
  seam, that rounded corners are unbroken, that dashes keep their rhythm from
  cell to cell, that opposite blocks partition a cell, that a drawing moves with
  its cell.
- `app/` is the floating-point face of the library: it takes cells in `f32`
  pixels and hands out `f32` rectangles.
- `tests/` runs the library, also against the same geometry computed in `f32`.
