//! The drawable glyphs and the geometry of each one, in cell-relative terms.

use vstd::prelude::*;

use crate::names;

verus! {

/// Weight of one arm of a line-drawing glyph.
#[derive(Clone, Copy, PartialEq, Eq, Debug, Structural)]
pub enum Weight {
    Light,
    Heavy,
    Double,
}

/// A line-drawing glyph described by the weight of each of its four arms plus
/// the dash count (0 = solid) and whether the corner is rounded.
#[derive(Clone, Copy, PartialEq, Eq, Debug)]
pub struct Spec {
    pub up: Option<Weight>,
    pub down: Option<Weight>,
    pub left: Option<Weight>,
    pub right: Option<Weight>,
    pub dashes: u8,
    pub arc: bool,
}

/// The geometry of a single box-drawing or block codepoint.
#[derive(Clone, Copy, PartialEq, Eq, Debug)]
pub enum Shape {
    /// Lines, corners, junctions, dashes and arcs.
    Lines(Spec),
    /// A solid rectangle, in eighths of the cell (used for blocks and eighths).
    Rect { x0: u8, y0: u8, x1: u8, y1: u8 },
    /// A full-cell fill at the given alpha, in quarters (the shade characters).
    Shade(u8),
    /// Any combination of the four cell quadrants (the quadrant characters).
    Quadrants { ul: bool, ur: bool, ll: bool, lr: bool },
}

/// The cell-relative geometry of `c`, or `None` for a character that is left
/// to the font. Diagonals are among those: they cannot be drawn cleanly with
/// axis-aligned rectangles.
pub fn shape(c: char) -> (r: Option<Shape>)
    ensures
        r == names::named(c),
{
    Some(match c {
        '─' => Shape::Lines(Spec { up: None, down: None, left: Some(Weight::Light), right: Some(Weight::Light), dashes: 0, arc: false }),
        '━' => Shape::Lines(Spec { up: None, down: None, left: Some(Weight::Heavy), right: Some(Weight::Heavy), dashes: 0, arc: false }),
        '│' => Shape::Lines(Spec { up: Some(Weight::Light), down: Some(Weight::Light), left: None, right: None, dashes: 0, arc: false }),
        '┃' => Shape::Lines(Spec { up: Some(Weight::Heavy), down: Some(Weight::Heavy), left: None, right: None, dashes: 0, arc: false }),
        '┄' => Shape::Lines(Spec { up: None, down: None, left: Some(Weight::Light), right: Some(Weight::Light), dashes: 3, arc: false }),
        '┅' => Shape::Lines(Spec { up: None, down: None, left: Some(Weight::Heavy), right: Some(Weight::Heavy), dashes: 3, arc: false }),
        '┆' => Shape::Lines(Spec { up: Some(Weight::Light), down: Some(Weight::Light), left: None, right: None, dashes: 3, arc: false }),
        '┇' => Shape::Lines(Spec { up: Some(Weight::Heavy), down: Some(Weight::Heavy), left: None, right: None, dashes: 3, arc: false }),
        '┈' => Shape::Lines(Spec { up: None, down: None, left: Some(Weight::Light), right: Some(Weight::Light), dashes: 4, arc: false }),
        '┉' => Shape::Lines(Spec { up: None, down: None, left: Some(Weight::Heavy), right: Some(Weight::Heavy), dashes: 4, arc: false }),
        '┊' => Shape::Lines(Spec { up: Some(Weight::Light), down: Some(Weight::Light), left: None, right: None, dashes: 4, arc: false }),
        '┋' => Shape::Lines(Spec { up: Some(Weight::Heavy), down: Some(Weight::Heavy), left: None, right: None, dashes: 4, arc: false }),
        '┌' => Shape::Lines(Spec { up: None, down: Some(Weight::Light), left: None, right: Some(Weight::Light), dashes: 0, arc: false }),
        '┍' => Shape::Lines(Spec { up: None, down: Some(Weight::Light), left: None, right: Some(Weight::Heavy), dashes: 0, arc: false }),
        '┎' => Shape::Lines(Spec { up: None, down: Some(Weight::Heavy), left: None, right: Some(Weight::Light), dashes: 0, arc: false }),
        '┏' => Shape::Lines(Spec { up: None, down: Some(Weight::Heavy), left: None, right: Some(Weight::Heavy), dashes: 0, arc: false }),
        '┐' => Shape::Lines(Spec { up: None, down: Some(Weight::Light), left: Some(Weight::Light), right: None, dashes: 0, arc: false }),
        '┑' => Shape::Lines(Spec { up: None, down: Some(Weight::Light), left: Some(Weight::Heavy), right: None, dashes: 0, arc: false }),
        '┒' => Shape::Lines(Spec { up: None, down: Some(Weight::Heavy), left: Some(Weight::Light), right: None, dashes: 0, arc: false }),
        '┓' => Shape::Lines(Spec { up: None, down: Some(Weight::Heavy), left: Some(Weight::Heavy), right: None, dashes: 0, arc: false }),
        '└' => Shape::Lines(Spec { up: Some(Weight::Light), down: None, left: None, right: Some(Weight::Light), dashes: 0, arc: false }),
        '┕' => Shape::Lines(Spec { up: Some(Weight::Light), down: None, left: None, right: Some(Weight::Heavy), dashes: 0, arc: false }),
        '┖' => Shape::Lines(Spec { up: Some(Weight::Heavy), down: None, left: None, right: Some(Weight::Light), dashes: 0, arc: false }),
        '┗' => Shape::Lines(Spec { up: Some(Weight::Heavy), down: None, left: None, right: Some(Weight::Heavy), dashes: 0, arc: false }),
        '┘' => Shape::Lines(Spec { up: Some(Weight::Light), down: None, left: Some(Weight::Light), right: None, dashes: 0, arc: false }),
        '┙' => Shape::Lines(Spec { up: Some(Weight::Light), down: None, left: Some(Weight::Heavy), right: None, dashes: 0, arc: false }),
        '┚' => Shape::Lines(Spec { up: Some(Weight::Heavy), down: None, left: Some(Weight::Light), right: None, dashes: 0, arc: false }),
        '┛' => Shape::Lines(Spec { up: Some(Weight::Heavy), down: None, left: Some(Weight::Heavy), right: None, dashes: 0, arc: false }),
        '├' => Shape::Lines(Spec { up: Some(Weight::Light), down: Some(Weight::Light), left: None, right: Some(Weight::Light), dashes: 0, arc: false }),
        '┝' => Shape::Lines(Spec { up: Some(Weight::Light), down: Some(Weight::Light), left: None, right: Some(Weight::Heavy), dashes: 0, arc: false }),
        '┞' => Shape::Lines(Spec { up: Some(Weight::Heavy), down: Some(Weight::Light), left: None, right: Some(Weight::Light), dashes: 0, arc: false }),
        '┟' => Shape::Lines(Spec { up: Some(Weight::Light), down: Some(Weight::Heavy), left: None, right: Some(Weight::Light), dashes: 0, arc: false }),
        '┠' => Shape::Lines(Spec { up: Some(Weight::Heavy), down: Some(Weight::Heavy), left: None, right: Some(Weight::Light), dashes: 0, arc: false }),
        '┡' => Shape::Lines(Spec { up: Some(Weight::Heavy), down: Some(Weight::Light), left: None, right: Some(Weight::Heavy), dashes: 0, arc: false }),
        '┢' => Shape::Lines(Spec { up: Some(Weight::Light), down: Some(Weight::Heavy), left: None, right: Some(Weight::Heavy), dashes: 0, arc: false }),
        '┣' => Shape::Lines(Spec { up: Some(Weight::Heavy), down: Some(Weight::Heavy), left: None, right: Some(Weight::Heavy), dashes: 0, arc: false }),
        '┤' => Shape::Lines(Spec { up: Some(Weight::Light), down: Some(Weight::Light), left: Some(Weight::Light), right: None, dashes: 0, arc: false }),
        '┥' => Shape::Lines(Spec { up: Some(Weight::Light), down: Some(Weight::Light), left: Some(Weight::Heavy), right: None, dashes: 0, arc: false }),
        '┦' => Shape::Lines(Spec { up: Some(Weight::Heavy), down: Some(Weight::Light), left: Some(Weight::Light), right: None, dashes: 0, arc: false }),
        '┧' => Shape::Lines(Spec { up: Some(Weight::Light), down: Some(Weight::Heavy), left: Some(Weight::Light), right: None, dashes: 0, arc: false }),
        '┨' => Shape::Lines(Spec { up: Some(Weight::Heavy), down: Some(Weight::Heavy), left: Some(Weight::Light), right: None, dashes: 0, arc: false }),
        '┩' => Shape::Lines(Spec { up: Some(Weight::Heavy), down: Some(Weight::Light), left: Some(Weight::Heavy), right: None, dashes: 0, arc: false }),
        '┪' => Shape::Lines(Spec { up: Some(Weight::Light), down: Some(Weight::Heavy), left: Some(Weight::Heavy), right: None, dashes: 0, arc: false }),
        '┫' => Shape::Lines(Spec { up: Some(Weight::Heavy), down: Some(Weight::Heavy), left: Some(Weight::Heavy), right: None, dashes: 0, arc: false }),
        '┬' => Shape::Lines(Spec { up: None, down: Some(Weight::Light), left: Some(Weight::Light), right: Some(Weight::Light), dashes: 0, arc: false }),
        '┭' => Shape::Lines(Spec { up: None, down: Some(Weight::Light), left: Some(Weight::Heavy), right: Some(Weight::Light), dashes: 0, arc: false }),
        '┮' => Shape::Lines(Spec { up: None, down: Some(Weight::Light), left: Some(Weight::Light), right: Some(Weight::Heavy), dashes: 0, arc: false }),
        '┯' => Shape::Lines(Spec { up: None, down: Some(Weight::Light), left: Some(Weight::Heavy), right: Some(Weight::Heavy), dashes: 0, arc: false }),
        '┰' => Shape::Lines(Spec { up: None, down: Some(Weight::Heavy), left: Some(Weight::Light), right: Some(Weight::Light), dashes: 0, arc: false }),
        '┱' => Shape::Lines(Spec { up: None, down: Some(Weight::Heavy), left: Some(Weight::Heavy), right: Some(Weight::Light), dashes: 0, arc: false }),
        '┲' => Shape::Lines(Spec { up: None, down: Some(Weight::Heavy), left: Some(Weight::Light), right: Some(Weight::Heavy), dashes: 0, arc: false }),
        '┳' => Shape::Lines(Spec { up: None, down: Some(Weight::Heavy), left: Some(Weight::Heavy), right: Some(Weight::Heavy), dashes: 0, arc: false }),
        '┴' => Shape::Lines(Spec { up: Some(Weight::Light), down: None, left: Some(Weight::Light), right: Some(Weight::Light), dashes: 0, arc: false }),
        '┵' => Shape::Lines(Spec { up: Some(Weight::Light), down: None, left: Some(Weight::Heavy), right: Some(Weight::Light), dashes: 0, arc: false }),
        '┶' => Shape::Lines(Spec { up: Some(Weight::Light), down: None, left: Some(Weight::Light), right: Some(Weight::Heavy), dashes: 0, arc: false }),
        '┷' => Shape::Lines(Spec { up: Some(Weight::Light), down: None, left: Some(Weight::Heavy), right: Some(Weight::Heavy), dashes: 0, arc: false }),
        '┸' => Shape::Lines(Spec { up: Some(Weight::Heavy), down: None, left: Some(Weight::Light), right: Some(Weight::Light), dashes: 0, arc: false }),
        '┹' => Shape::Lines(Spec { up: Some(Weight::Heavy), down: None, left: Some(Weight::Heavy), right: Some(Weight::Light), dashes: 0, arc: false }),
        '┺' => Shape::Lines(Spec { up: Some(Weight::Heavy), down: None, left: Some(Weight::Light), right: Some(Weight::Heavy), dashes: 0, arc: false }),
        '┻' => Shape::Lines(Spec { up: Some(Weight::Heavy), down: None, left: Some(Weight::Heavy), right: Some(Weight::Heavy), dashes: 0, arc: false }),
        '┼' => Shape::Lines(Spec { up: Some(Weight::Light), down: Some(Weight::Light), left: Some(Weight::Light), right: Some(Weight::Light), dashes: 0, arc: false }),
        '┽' => Shape::Lines(Spec { up: Some(Weight::Light), down: Some(Weight::Light), left: Some(Weight::Heavy), right: Some(Weight::Light), dashes: 0, arc: false }),
        '┾' => Shape::Lines(Spec { up: Some(Weight::Light), down: Some(Weight::Light), left: Some(Weight::Light), right: Some(Weight::Heavy), dashes: 0, arc: false }),
        '┿' => Shape::Lines(Spec { up: Some(Weight::Light), down: Some(Weight::Light), left: Some(Weight::Heavy), right: Some(Weight::Heavy), dashes: 0, arc: false }),
        '╀' => Shape::Lines(Spec { up: Some(Weight::Heavy), down: Some(Weight::Light), left: Some(Weight::Light), right: Some(Weight::Light), dashes: 0, arc: false }),
        '╁' => Shape::Lines(Spec { up: Some(Weight::Light), down: Some(Weight::Heavy), left: Some(Weight::Light), right: Some(Weight::Light), dashes: 0, arc: false }),
        '╂' => Shape::Lines(Spec { up: Some(Weight::Heavy), down: Some(Weight::Heavy), left: Some(Weight::Light), right: Some(Weight::Light), dashes: 0, arc: false }),
        '╃' => Shape::Lines(Spec { up: Some(Weight::Heavy), down: Some(Weight::Light), left: Some(Weight::Heavy), right: Some(Weight::Light), dashes: 0, arc: false }),
        '╄' => Shape::Lines(Spec { up: Some(Weight::Heavy), down: Some(Weight::Light), left: Some(Weight::Light), right: Some(Weight::Heavy), dashes: 0, arc: false }),
        '╅' => Shape::Lines(Spec { up: Some(Weight::Light), down: Some(Weight::Heavy), left: Some(Weight::Heavy), right: Some(Weight::Light), dashes: 0, arc: false }),
        '╆' => Shape::Lines(Spec { up: Some(Weight::Light), down: Some(Weight::Heavy), left: Some(Weight::Light), right: Some(Weight::Heavy), dashes: 0, arc: false }),
        '╇' => Shape::Lines(Spec { up: Some(Weight::Heavy), down: Some(Weight::Light), left: Some(Weight::Heavy), right: Some(Weight::Heavy), dashes: 0, arc: false }),
        '╈' => Shape::Lines(Spec { up: Some(Weight::Light), down: Some(Weight::Heavy), left: Some(Weight::Heavy), right: Some(Weight::Heavy), dashes: 0, arc: false }),
        '╉' => Shape::Lines(Spec { up: Some(Weight::Heavy), down: Some(Weight::Heavy), left: Some(Weight::Heavy), right: Some(Weight::Light), dashes: 0, arc: false }),
        '╊' => Shape::Lines(Spec { up: Some(Weight::Heavy), down: Some(Weight::Heavy), left: Some(Weight::Light), right: Some(Weight::Heavy), dashes: 0, arc: false }),
        '╋' => Shape::Lines(Spec { up: Some(Weight::Heavy), down: Some(Weight::Heavy), left: Some(Weight::Heavy), right: Some(Weight::Heavy), dashes: 0, arc: false }),
        '╌' => Shape::Lines(Spec { up: None, down: None, left: Some(Weight::Light), right: Some(Weight::Light), dashes: 2, arc: false }),
        '╍' => Shape::Lines(Spec { up: None, down: None, left: Some(Weight::Heavy), right: Some(Weight::Heavy), dashes: 2, arc: false }),
        '╎' => Shape::Lines(Spec { up: Some(Weight::Light), down: Some(Weight::Light), left: None, right: None, dashes: 2, arc: false }),
        '╏' => Shape::Lines(Spec { up: Some(Weight::Heavy), down: Some(Weight::Heavy), left: None, right: None, dashes: 2, arc: false }),
        '═' => Shape::Lines(Spec { up: None, down: None, left: Some(Weight::Double), right: Some(Weight::Double), dashes: 0, arc: false }),
        '║' => Shape::Lines(Spec { up: Some(Weight::Double), down: Some(Weight::Double), left: None, right: None, dashes: 0, arc: false }),
        '╒' => Shape::Lines(Spec { up: None, down: Some(Weight::Light), left: None, right: Some(Weight::Double), dashes: 0, arc: false }),
        '╓' => Shape::Lines(Spec { up: None, down: Some(Weight::Double), left: None, right: Some(Weight::Light), dashes: 0, arc: false }),
        '╔' => Shape::Lines(Spec { up: None, down: Some(Weight::Double), left: None, right: Some(Weight::Double), dashes: 0, arc: false }),
        '╕' => Shape::Lines(Spec { up: None, down: Some(Weight::Light), left: Some(Weight::Double), right: None, dashes: 0, arc: false }),
        '╖' => Shape::Lines(Spec { up: None, down: Some(Weight::Double), left: Some(Weight::Light), right: None, dashes: 0, arc: false }),
        '╗' => Shape::Lines(Spec { up: None, down: Some(Weight::Double), left: Some(Weight::Double), right: None, dashes: 0, arc: false }),
        '╘' => Shape::Lines(Spec { up: Some(Weight::Light), down: None, left: None, right: Some(Weight::Double), dashes: 0, arc: false }),
        '╙' => Shape::Lines(Spec { up: Some(Weight::Double), down: None, left: None, right: Some(Weight::Light), dashes: 0, arc: false }),
        '╚' => Shape::Lines(Spec { up: Some(Weight::Double), down: None, left: None, right: Some(Weight::Double), dashes: 0, arc: false }),
        '╛' => Shape::Lines(Spec { up: Some(Weight::Light), down: None, left: Some(Weight::Double), right: None, dashes: 0, arc: false }),
        '╜' => Shape::Lines(Spec { up: Some(Weight::Double), down: None, left: Some(Weight::Light), right: None, dashes: 0, arc: false }),
        '╝' => Shape::Lines(Spec { up: Some(Weight::Double), down: None, left: Some(Weight::Double), right: None, dashes: 0, arc: false }),
        '╞' => Shape::Lines(Spec { up: Some(Weight::Light), down: Some(Weight::Light), left: None, right: Some(Weight::Double), dashes: 0, arc: false }),
        '╟' => Shape::Lines(Spec { up: Some(Weight::Double), down: Some(Weight::Double), left: None, right: Some(Weight::Light), dashes: 0, arc: false }),
        '╠' => Shape::Lines(Spec { up: Some(Weight::Double), down: Some(Weight::Double), left: None, right: Some(Weight::Double), dashes: 0, arc: false }),
        '╡' => Shape::Lines(Spec { up: Some(Weight::Light), down: Some(Weight::Light), left: Some(Weight::Double), right: None, dashes: 0, arc: false }),
        '╢' => Shape::Lines(Spec { up: Some(Weight::Double), down: Some(Weight::Double), left: Some(Weight::Light), right: None, dashes: 0, arc: false }),
        '╣' => Shape::Lines(Spec { up: Some(Weight::Double), down: Some(Weight::Double), left: Some(Weight::Double), right: None, dashes: 0, arc: false }),
        '╤' => Shape::Lines(Spec { up: None, down: Some(Weight::Light), left: Some(Weight::Double), right: Some(Weight::Double), dashes: 0, arc: false }),
        '╥' => Shape::Lines(Spec { up: None, down: Some(Weight::Double), left: Some(Weight::Light), right: Some(Weight::Light), dashes: 0, arc: false }),
        '╦' => Shape::Lines(Spec { up: None, down: Some(Weight::Double), left: Some(Weight::Double), right: Some(Weight::Double), dashes: 0, arc: false }),
        '╧' => Shape::Lines(Spec { up: Some(Weight::Light), down: None, left: Some(Weight::Double), right: Some(Weight::Double), dashes: 0, arc: false }),
        '╨' => Shape::Lines(Spec { up: Some(Weight::Double), down: None, left: Some(Weight::Light), right: Some(Weight::Light), dashes: 0, arc: false }),
        '╩' => Shape::Lines(Spec { up: Some(Weight::Double), down: None, left: Some(Weight::Double), right: Some(Weight::Double), dashes: 0, arc: false }),
        '╪' => Shape::Lines(Spec { up: Some(Weight::Light), down: Some(Weight::Light), left: Some(Weight::Double), right: Some(Weight::Double), dashes: 0, arc: false }),
        '╫' => Shape::Lines(Spec { up: Some(Weight::Double), down: Some(Weight::Double), left: Some(Weight::Light), right: Some(Weight::Light), dashes: 0, arc: false }),
        '╬' => Shape::Lines(Spec { up: Some(Weight::Double), down: Some(Weight::Double), left: Some(Weight::Double), right: Some(Weight::Double), dashes: 0, arc: false }),
        '╭' => Shape::Lines(Spec { up: None, down: Some(Weight::Light), left: None, right: Some(Weight::Light), dashes: 0, arc: true }),
        '╮' => Shape::Lines(Spec { up: None, down: Some(Weight::Light), left: Some(Weight::Light), right: None, dashes: 0, arc: true }),
        '╯' => Shape::Lines(Spec { up: Some(Weight::Light), down: None, left: Some(Weight::Light), right: None, dashes: 0, arc: true }),
        '╰' => Shape::Lines(Spec { up: Some(Weight::Light), down: None, left: None, right: Some(Weight::Light), dashes: 0, arc: true }),
        '╴' => Shape::Lines(Spec { up: None, down: None, left: Some(Weight::Light), right: None, dashes: 0, arc: false }),
        '╵' => Shape::Lines(Spec { up: Some(Weight::Light), down: None, left: None, right: None, dashes: 0, arc: false }),
        '╶' => Shape::Lines(Spec { up: None, down: None, left: None, right: Some(Weight::Light), dashes: 0, arc: false }),
        '╷' => Shape::Lines(Spec { up: None, down: Some(Weight::Light), left: None, right: None, dashes: 0, arc: false }),
        '╸' => Shape::Lines(Spec { up: None, down: None, left: Some(Weight::Heavy), right: None, dashes: 0, arc: false }),
        '╹' => Shape::Lines(Spec { up: Some(Weight::Heavy), down: None, left: None, right: None, dashes: 0, arc: false }),
        '╺' => Shape::Lines(Spec { up: None, down: None, left: None, right: Some(Weight::Heavy), dashes: 0, arc: false }),
        '╻' => Shape::Lines(Spec { up: None, down: Some(Weight::Heavy), left: None, right: None, dashes: 0, arc: false }),
        '╼' => Shape::Lines(Spec { up: None, down: None, left: Some(Weight::Light), right: Some(Weight::Heavy), dashes: 0, arc: false }),
        '╽' => Shape::Lines(Spec { up: Some(Weight::Light), down: Some(Weight::Heavy), left: None, right: None, dashes: 0, arc: false }),
        '╾' => Shape::Lines(Spec { up: None, down: None, left: Some(Weight::Heavy), right: Some(Weight::Light), dashes: 0, arc: false }),
        '╿' => Shape::Lines(Spec { up: Some(Weight::Heavy), down: Some(Weight::Light), left: None, right: None, dashes: 0, arc: false }),
        '▀' => Shape::Rect { x0: 0, y0: 0, x1: 8, y1: 4 },
        '▁' => Shape::Rect { x0: 0, y0: 7, x1: 8, y1: 8 },
        '▂' => Shape::Rect { x0: 0, y0: 6, x1: 8, y1: 8 },
        '▃' => Shape::Rect { x0: 0, y0: 5, x1: 8, y1: 8 },
        '▄' => Shape::Rect { x0: 0, y0: 4, x1: 8, y1: 8 },
        '▅' => Shape::Rect { x0: 0, y0: 3, x1: 8, y1: 8 },
        '▆' => Shape::Rect { x0: 0, y0: 2, x1: 8, y1: 8 },
        '▇' => Shape::Rect { x0: 0, y0: 1, x1: 8, y1: 8 },
        '█' => Shape::Rect { x0: 0, y0: 0, x1: 8, y1: 8 },
        '▉' => Shape::Rect { x0: 0, y0: 0, x1: 7, y1: 8 },
        '▊' => Shape::Rect { x0: 0, y0: 0, x1: 6, y1: 8 },
        '▋' => Shape::Rect { x0: 0, y0: 0, x1: 5, y1: 8 },
        '▌' => Shape::Rect { x0: 0, y0: 0, x1: 4, y1: 8 },
        '▍' => Shape::Rect { x0: 0, y0: 0, x1: 3, y1: 8 },
        '▎' => Shape::Rect { x0: 0, y0: 0, x1: 2, y1: 8 },
        '▏' => Shape::Rect { x0: 0, y0: 0, x1: 1, y1: 8 },
        '▐' => Shape::Rect { x0: 4, y0: 0, x1: 8, y1: 8 },
        '░' => Shape::Shade(1),
        '▒' => Shape::Shade(2),
        '▓' => Shape::Shade(3),
        '▔' => Shape::Rect { x0: 0, y0: 0, x1: 8, y1: 1 },
        '▕' => Shape::Rect { x0: 7, y0: 0, x1: 8, y1: 8 },
        '▖' => Shape::Quadrants { ul: false, ur: false, ll: true, lr: false },
        '▗' => Shape::Quadrants { ul: false, ur: false, ll: false, lr: true },
        '▘' => Shape::Quadrants { ul: true, ur: false, ll: false, lr: false },
        '▙' => Shape::Quadrants { ul: true, ur: false, ll: true, lr: true },
        '▚' => Shape::Quadrants { ul: true, ur: false, ll: false, lr: true },
        '▛' => Shape::Quadrants { ul: true, ur: true, ll: true, lr: false },
        '▜' => Shape::Quadrants { ul: true, ur: true, ll: false, lr: true },
        '▝' => Shape::Quadrants { ul: false, ur: true, ll: false, lr: false },
        '▞' => Shape::Quadrants { ul: false, ur: true, ll: true, lr: false },
        '▟' => Shape::Quadrants { ul: false, ur: true, ll: true, lr: true },
        _ => {
            return None;
        },
    })
}

/// Returns `true` if [`crate::render`] can draw `c`, i.e. the font glyph should
/// be suppressed in favor of our geometry. Callers must keep buffer suppression
/// and rendering in agreement, so both gate on this single predicate.
pub fn is_box_drawing(c: char) -> (r: bool)
    ensures
        r == names::drawable(c),
        r == (names::named(c) is Some),
{
    proof {
        names::law_drawable_range(c);
    }
    shape(c).is_some()
}

} // verus!
