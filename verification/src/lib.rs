//! Geometric rendering of the Box Drawing (U+2500..U+257F) and Block Elements
//! (U+2580..U+259F) glyphs.
//!
//! Terminals render these characters constantly (TUIs, `tput`, ncurses, git
//! UIs, ...) and users expect their lines to tile seamlessly into unbroken
//! borders. Relying on the font's glyphs does not achieve this: a font draws
//! each glyph inside its own em box, but the terminal cell is a different size
//! (especially once line height is taken into account), so the strokes don't
//! reach the cell edges and adjacent cells show hairline gaps, most visibly at
//! corners and T/cross junctions.
//!
//! Instead these glyphs are drawn as axis-aligned rectangles sized to the exact
//! terminal cell. A vertical stroke spans the full cell height, a horizontal
//! stroke the full width, and a corner is the union of two such strokes, so they
//! connect by construction at any cell size, font, or line height. That they do
//! is proved in [`laws`].
//!
//! Diagonals (U+2571..U+2573) are intentionally omitted: they cannot be drawn
//! cleanly with axis-aligned rectangles, so they fall through to the font.
//!
//! - [`glyph`] holds the table of drawable characters, [`names`] the grammar of
//!   Unicode names that the table follows.
//! - [`geometry`] holds cells, rectangles and the scales in which they count.
//! - [`drawing`] says what each glyph fills, and [`render`](mod@render) computes
//!   it.
//! - [`coverage`] says which points a drawing covers, and [`laws`] what holds of
//!   every drawing.

pub mod coverage;
pub mod drawing;
pub mod geometry;
pub mod glyph;
pub mod laws;
pub mod names;
pub mod render;

pub use geometry::{Cell, Rect, FINE, OPAQUE, PIXEL};
pub use glyph::{is_box_drawing, shape, Shape, Spec, Weight};
pub use render::{line_thickness, render, weight_of};
