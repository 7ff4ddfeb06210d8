//! What each drawable character looks like, read off its Unicode name.
//!
//! The names follow a regular grammar. "BOX DRAWINGS UP HEAVY AND RIGHT DOWN
//! LIGHT" names a weight for the upper arm and another for the right and the
//! lower arm; "LOWER ONE EIGHTH BLOCK" names a side of the cell and how much of
//! the cell is filled from there. Each row below spells one name out in the
//! order of its words.

use vstd::prelude::*;

use crate::geometry::OPAQUE;
use crate::glyph::{Shape, Spec, Weight};

verus! {

/// A direction word of a line-drawing name.
pub ghost enum Dir {
    Up,
    Down,
    Left,
    Right,
    Vertical,
    Horizontal,
}

/// A side word of a block name.
pub ghost enum Side {
    Upper,
    Lower,
    Left,
    Right,
}

/// No arms at all.
pub open spec fn blank() -> Spec {
    Spec { up: None, down: None, left: None, right: None, dashes: 0, arc: false }
}

impl Spec {
    /// The same glyph with arms of weight `w` towards `d`.
    pub open spec fn draw(self, w: Weight, d: Dir) -> Spec {
        match d {
            Dir::Up => Spec { up: Some(w), ..self },
            Dir::Down => Spec { down: Some(w), ..self },
            Dir::Left => Spec { left: Some(w), ..self },
            Dir::Right => Spec { right: Some(w), ..self },
            Dir::Vertical => Spec { up: Some(w), down: Some(w), ..self },
            Dir::Horizontal => Spec { left: Some(w), right: Some(w), ..self },
        }
    }
}

/// A solid line drawing.
pub open spec fn solid(arms: Spec) -> Shape {
    Shape::Lines(arms)
}

/// A line drawing broken into `n` dashes.
pub open spec fn dashed(n: u8, arms: Spec) -> Shape {
    Shape::Lines(Spec { dashes: n, ..arms })
}

/// A line drawing with a rounded corner.
pub open spec fn rounded(arms: Spec) -> Shape {
    Shape::Lines(Spec { arc: true, ..arms })
}

/// A block that fills `n` eighths of the cell from `side`.
pub open spec fn block(side: Side, n: u8) -> Shape {
    match side {
        Side::Upper => Shape::Rect { x0: 0, y0: 0, x1: 8, y1: n },
        Side::Lower => Shape::Rect { x0: 0, y0: (8 - n) as u8, x1: 8, y1: 8 },
        Side::Left => Shape::Rect { x0: 0, y0: 0, x1: n, y1: 8 },
        Side::Right => Shape::Rect { x0: (8 - n) as u8, y0: 0, x1: 8, y1: 8 },
    }
}

/// A quadrant glyph with nothing filled yet.
pub open spec fn no_quadrant() -> Shape {
    Shape::Quadrants { ul: false, ur: false, ll: false, lr: false }
}

impl Shape {
    /// The same quadrant glyph with the quadrant at (`v`, `h`) filled too.
    pub open spec fn fill(self, v: Side, h: Side) -> Shape {
        match self {
            Shape::Quadrants { ul, ur, ll, lr } => Shape::Quadrants {
                ul: ul || (v is Upper && h is Left),
                ur: ur || (v is Upper && h is Right),
                ll: ll || (v is Lower && h is Left),
                lr: lr || (v is Lower && h is Right),
            },
            _ => self,
        }
    }
}

/// Box Drawing (U+2500..U+257F) without the diagonals (U+2571..U+2573), and
/// Block Elements (U+2580..U+259F).
pub open spec fn drawable(c: char) -> bool {
    0x2500 <= c as u32 <= 0x259F && !(0x2571 <= c as u32 <= 0x2573)
}

/// The shape that the name of `c` describes; `None` for a character that is
/// left to the font.
pub open spec fn named(c: char) -> Option<Shape> {
    match c {
        // BOX DRAWINGS LIGHT HORIZONTAL
        '─' => Some(solid(blank().draw(Weight::Light, Dir::Horizontal))),
        // BOX DRAWINGS HEAVY HORIZONTAL
        '━' => Some(solid(blank().draw(Weight::Heavy, Dir::Horizontal))),
        // BOX DRAWINGS LIGHT VERTICAL
        '│' => Some(solid(blank().draw(Weight::Light, Dir::Vertical))),
        // BOX DRAWINGS HEAVY VERTICAL
        '┃' => Some(solid(blank().draw(Weight::Heavy, Dir::Vertical))),
        // BOX DRAWINGS LIGHT TRIPLE DASH HORIZONTAL
        '┄' => Some(dashed(3, blank().draw(Weight::Light, Dir::Horizontal))),
        // BOX DRAWINGS HEAVY TRIPLE DASH HORIZONTAL
        '┅' => Some(dashed(3, blank().draw(Weight::Heavy, Dir::Horizontal))),
        // BOX DRAWINGS LIGHT TRIPLE DASH VERTICAL
        '┆' => Some(dashed(3, blank().draw(Weight::Light, Dir::Vertical))),
        // BOX DRAWINGS HEAVY TRIPLE DASH VERTICAL
        '┇' => Some(dashed(3, blank().draw(Weight::Heavy, Dir::Vertical))),
        // BOX DRAWINGS LIGHT QUADRUPLE DASH HORIZONTAL
        '┈' => Some(dashed(4, blank().draw(Weight::Light, Dir::Horizontal))),
        // BOX DRAWINGS HEAVY QUADRUPLE DASH HORIZONTAL
        '┉' => Some(dashed(4, blank().draw(Weight::Heavy, Dir::Horizontal))),
        // BOX DRAWINGS LIGHT QUADRUPLE DASH VERTICAL
        '┊' => Some(dashed(4, blank().draw(Weight::Light, Dir::Vertical))),
        // BOX DRAWINGS HEAVY QUADRUPLE DASH VERTICAL
        '┋' => Some(dashed(4, blank().draw(Weight::Heavy, Dir::Vertical))),
        // BOX DRAWINGS LIGHT DOWN AND RIGHT
        '┌' => Some(solid(blank().draw(Weight::Light, Dir::Down).draw(Weight::Light, Dir::Right))),
        // BOX DRAWINGS DOWN LIGHT AND RIGHT HEAVY
        '┍' => Some(solid(blank().draw(Weight::Light, Dir::Down).draw(Weight::Heavy, Dir::Right))),
        // BOX DRAWINGS DOWN HEAVY AND RIGHT LIGHT
        '┎' => Some(solid(blank().draw(Weight::Heavy, Dir::Down).draw(Weight::Light, Dir::Right))),
        // BOX DRAWINGS HEAVY DOWN AND RIGHT
        '┏' => Some(solid(blank().draw(Weight::Heavy, Dir::Down).draw(Weight::Heavy, Dir::Right))),
        // BOX DRAWINGS LIGHT DOWN AND LEFT
        '┐' => Some(solid(blank().draw(Weight::Light, Dir::Down).draw(Weight::Light, Dir::Left))),
        // BOX DRAWINGS DOWN LIGHT AND LEFT HEAVY
        '┑' => Some(solid(blank().draw(Weight::Light, Dir::Down).draw(Weight::Heavy, Dir::Left))),
        // BOX DRAWINGS DOWN HEAVY AND LEFT LIGHT
        '┒' => Some(solid(blank().draw(Weight::Heavy, Dir::Down).draw(Weight::Light, Dir::Left))),
        // BOX DRAWINGS HEAVY DOWN AND LEFT
        '┓' => Some(solid(blank().draw(Weight::Heavy, Dir::Down).draw(Weight::Heavy, Dir::Left))),
        // BOX DRAWINGS LIGHT UP AND RIGHT
        '└' => Some(solid(blank().draw(Weight::Light, Dir::Up).draw(Weight::Light, Dir::Right))),
        // BOX DRAWINGS UP LIGHT AND RIGHT HEAVY
        '┕' => Some(solid(blank().draw(Weight::Light, Dir::Up).draw(Weight::Heavy, Dir::Right))),
        // BOX DRAWINGS UP HEAVY AND RIGHT LIGHT
        '┖' => Some(solid(blank().draw(Weight::Heavy, Dir::Up).draw(Weight::Light, Dir::Right))),
        // BOX DRAWINGS HEAVY UP AND RIGHT
        '┗' => Some(solid(blank().draw(Weight::Heavy, Dir::Up).draw(Weight::Heavy, Dir::Right))),
        // BOX DRAWINGS LIGHT UP AND LEFT
        '┘' => Some(solid(blank().draw(Weight::Light, Dir::Up).draw(Weight::Light, Dir::Left))),
        // BOX DRAWINGS UP LIGHT AND LEFT HEAVY
        '┙' => Some(solid(blank().draw(Weight::Light, Dir::Up).draw(Weight::Heavy, Dir::Left))),
        // BOX DRAWINGS UP HEAVY AND LEFT LIGHT
        '┚' => Some(solid(blank().draw(Weight::Heavy, Dir::Up).draw(Weight::Light, Dir::Left))),
        // BOX DRAWINGS HEAVY UP AND LEFT
        '┛' => Some(solid(blank().draw(Weight::Heavy, Dir::Up).draw(Weight::Heavy, Dir::Left))),
        // BOX DRAWINGS LIGHT VERTICAL AND RIGHT
        '├' => Some(solid(blank().draw(Weight::Light, Dir::Vertical).draw(Weight::Light, Dir::Right))),
        // BOX DRAWINGS VERTICAL LIGHT AND RIGHT HEAVY
        '┝' => Some(solid(blank().draw(Weight::Light, Dir::Vertical).draw(Weight::Heavy, Dir::Right))),
        // BOX DRAWINGS UP HEAVY AND RIGHT DOWN LIGHT
        '┞' => Some(solid(blank().draw(Weight::Heavy, Dir::Up).draw(Weight::Light, Dir::Right).draw(Weight::Light, Dir::Down))),
        // BOX DRAWINGS DOWN HEAVY AND RIGHT UP LIGHT
        '┟' => Some(solid(blank().draw(Weight::Heavy, Dir::Down).draw(Weight::Light, Dir::Right).draw(Weight::Light, Dir::Up))),
        // BOX DRAWINGS VERTICAL HEAVY AND RIGHT LIGHT
        '┠' => Some(solid(blank().draw(Weight::Heavy, Dir::Vertical).draw(Weight::Light, Dir::Right))),
        // BOX DRAWINGS DOWN LIGHT AND RIGHT UP HEAVY
        '┡' => Some(solid(blank().draw(Weight::Light, Dir::Down).draw(Weight::Heavy, Dir::Right).draw(Weight::Heavy, Dir::Up))),
        // BOX DRAWINGS UP LIGHT AND RIGHT DOWN HEAVY
        '┢' => Some(solid(blank().draw(Weight::Light, Dir::Up).draw(Weight::Heavy, Dir::Right).draw(Weight::Heavy, Dir::Down))),
        // BOX DRAWINGS HEAVY VERTICAL AND RIGHT
        '┣' => Some(solid(blank().draw(Weight::Heavy, Dir::Vertical).draw(Weight::Heavy, Dir::Right))),
        // BOX DRAWINGS LIGHT VERTICAL AND LEFT
        '┤' => Some(solid(blank().draw(Weight::Light, Dir::Vertical).draw(Weight::Light, Dir::Left))),
        // BOX DRAWINGS VERTICAL LIGHT AND LEFT HEAVY
        '┥' => Some(solid(blank().draw(Weight::Light, Dir::Vertical).draw(Weight::Heavy, Dir::Left))),
        // BOX DRAWINGS UP HEAVY AND LEFT DOWN LIGHT
        '┦' => Some(solid(blank().draw(Weight::Heavy, Dir::Up).draw(Weight::Light, Dir::Left).draw(Weight::Light, Dir::Down))),
        // BOX DRAWINGS DOWN HEAVY AND LEFT UP LIGHT
        '┧' => Some(solid(blank().draw(Weight::Heavy, Dir::Down).draw(Weight::Light, Dir::Left).draw(Weight::Light, Dir::Up))),
        // BOX DRAWINGS VERTICAL HEAVY AND LEFT LIGHT
        '┨' => Some(solid(blank().draw(Weight::Heavy, Dir::Vertical).draw(Weight::Light, Dir::Left))),
        // BOX DRAWINGS DOWN LIGHT AND LEFT UP HEAVY
        '┩' => Some(solid(blank().draw(Weight::Light, Dir::Down).draw(Weight::Heavy, Dir::Left).draw(Weight::Heavy, Dir::Up))),
        // BOX DRAWINGS UP LIGHT AND LEFT DOWN HEAVY
        '┪' => Some(solid(blank().draw(Weight::Light, Dir::Up).draw(Weight::Heavy, Dir::Left).draw(Weight::Heavy, Dir::Down))),
        // BOX DRAWINGS HEAVY VERTICAL AND LEFT
        '┫' => Some(solid(blank().draw(Weight::Heavy, Dir::Vertical).draw(Weight::Heavy, Dir::Left))),
        // BOX DRAWINGS LIGHT DOWN AND HORIZONTAL
        '┬' => Some(solid(blank().draw(Weight::Light, Dir::Down).draw(Weight::Light, Dir::Horizontal))),
        // BOX DRAWINGS LEFT HEAVY AND RIGHT DOWN LIGHT
        '┭' => Some(solid(blank().draw(Weight::Heavy, Dir::Left).draw(Weight::Light, Dir::Right).draw(Weight::Light, Dir::Down))),
        // BOX DRAWINGS RIGHT HEAVY AND LEFT DOWN LIGHT
        '┮' => Some(solid(blank().draw(Weight::Heavy, Dir::Right).draw(Weight::Light, Dir::Left).draw(Weight::Light, Dir::Down))),
        // BOX DRAWINGS DOWN LIGHT AND HORIZONTAL HEAVY
        '┯' => Some(solid(blank().draw(Weight::Light, Dir::Down).draw(Weight::Heavy, Dir::Horizontal))),
        // BOX DRAWINGS DOWN HEAVY AND HORIZONTAL LIGHT
        '┰' => Some(solid(blank().draw(Weight::Heavy, Dir::Down).draw(Weight::Light, Dir::Horizontal))),
        // BOX DRAWINGS RIGHT LIGHT AND LEFT DOWN HEAVY
        '┱' => Some(solid(blank().draw(Weight::Light, Dir::Right).draw(Weight::Heavy, Dir::Left).draw(Weight::Heavy, Dir::Down))),
        // BOX DRAWINGS LEFT LIGHT AND RIGHT DOWN HEAVY
        '┲' => Some(solid(blank().draw(Weight::Light, Dir::Left).draw(Weight::Heavy, Dir::Right).draw(Weight::Heavy, Dir::Down))),
        // BOX DRAWINGS HEAVY DOWN AND HORIZONTAL
        '┳' => Some(solid(blank().draw(Weight::Heavy, Dir::Down).draw(Weight::Heavy, Dir::Horizontal))),
        // BOX DRAWINGS LIGHT UP AND HORIZONTAL
        '┴' => Some(solid(blank().draw(Weight::Light, Dir::Up).draw(Weight::Light, Dir::Horizontal))),
        // BOX DRAWINGS LEFT HEAVY AND RIGHT UP LIGHT
        '┵' => Some(solid(blank().draw(Weight::Heavy, Dir::Left).draw(Weight::Light, Dir::Right).draw(Weight::Light, Dir::Up))),
        // BOX DRAWINGS RIGHT HEAVY AND LEFT UP LIGHT
        '┶' => Some(solid(blank().draw(Weight::Heavy, Dir::Right).draw(Weight::Light, Dir::Left).draw(Weight::Light, Dir::Up))),
        // BOX DRAWINGS UP LIGHT AND HORIZONTAL HEAVY
        '┷' => Some(solid(blank().draw(Weight::Light, Dir::Up).draw(Weight::Heavy, Dir::Horizontal))),
        // BOX DRAWINGS UP HEAVY AND HORIZONTAL LIGHT
        '┸' => Some(solid(blank().draw(Weight::Heavy, Dir::Up).draw(Weight::Light, Dir::Horizontal))),
        // BOX DRAWINGS RIGHT LIGHT AND LEFT UP HEAVY
        '┹' => Some(solid(blank().draw(Weight::Light, Dir::Right).draw(Weight::Heavy, Dir::Left).draw(Weight::Heavy, Dir::Up))),
        // BOX DRAWINGS LEFT LIGHT AND RIGHT UP HEAVY
        '┺' => Some(solid(blank().draw(Weight::Light, Dir::Left).draw(Weight::Heavy, Dir::Right).draw(Weight::Heavy, Dir::Up))),
        // BOX DRAWINGS HEAVY UP AND HORIZONTAL
        '┻' => Some(solid(blank().draw(Weight::Heavy, Dir::Up).draw(Weight::Heavy, Dir::Horizontal))),
        // BOX DRAWINGS LIGHT VERTICAL AND HORIZONTAL
        '┼' => Some(solid(blank().draw(Weight::Light, Dir::Vertical).draw(Weight::Light, Dir::Horizontal))),
        // BOX DRAWINGS LEFT HEAVY AND RIGHT VERTICAL LIGHT
        '┽' => Some(solid(blank().draw(Weight::Heavy, Dir::Left).draw(Weight::Light, Dir::Right).draw(Weight::Light, Dir::Vertical))),
        // BOX DRAWINGS RIGHT HEAVY AND LEFT VERTICAL LIGHT
        '┾' => Some(solid(blank().draw(Weight::Heavy, Dir::Right).draw(Weight::Light, Dir::Left).draw(Weight::Light, Dir::Vertical))),
        // BOX DRAWINGS VERTICAL LIGHT AND HORIZONTAL HEAVY
        '┿' => Some(solid(blank().draw(Weight::Light, Dir::Vertical).draw(Weight::Heavy, Dir::Horizontal))),
        // BOX DRAWINGS UP HEAVY AND DOWN HORIZONTAL LIGHT
        '╀' => Some(solid(blank().draw(Weight::Heavy, Dir::Up).draw(Weight::Light, Dir::Down).draw(Weight::Light, Dir::Horizontal))),
        // BOX DRAWINGS DOWN HEAVY AND UP HORIZONTAL LIGHT
        '╁' => Some(solid(blank().draw(Weight::Heavy, Dir::Down).draw(Weight::Light, Dir::Up).draw(Weight::Light, Dir::Horizontal))),
        // BOX DRAWINGS VERTICAL HEAVY AND HORIZONTAL LIGHT
        '╂' => Some(solid(blank().draw(Weight::Heavy, Dir::Vertical).draw(Weight::Light, Dir::Horizontal))),
        // BOX DRAWINGS LEFT UP HEAVY AND RIGHT DOWN LIGHT
        '╃' => Some(solid(blank().draw(Weight::Heavy, Dir::Left).draw(Weight::Heavy, Dir::Up).draw(Weight::Light, Dir::Right).draw(Weight::Light, Dir::Down))),
        // BOX DRAWINGS RIGHT UP HEAVY AND LEFT DOWN LIGHT
        '╄' => Some(solid(blank().draw(Weight::Heavy, Dir::Right).draw(Weight::Heavy, Dir::Up).draw(Weight::Light, Dir::Left).draw(Weight::Light, Dir::Down))),
        // BOX DRAWINGS LEFT DOWN HEAVY AND RIGHT UP LIGHT
        '╅' => Some(solid(blank().draw(Weight::Heavy, Dir::Left).draw(Weight::Heavy, Dir::Down).draw(Weight::Light, Dir::Right).draw(Weight::Light, Dir::Up))),
        // BOX DRAWINGS RIGHT DOWN HEAVY AND LEFT UP LIGHT
        '╆' => Some(solid(blank().draw(Weight::Heavy, Dir::Right).draw(Weight::Heavy, Dir::Down).draw(Weight::Light, Dir::Left).draw(Weight::Light, Dir::Up))),
        // BOX DRAWINGS DOWN LIGHT AND UP HORIZONTAL HEAVY
        '╇' => Some(solid(blank().draw(Weight::Light, Dir::Down).draw(Weight::Heavy, Dir::Up).draw(Weight::Heavy, Dir::Horizontal))),
        // BOX DRAWINGS UP LIGHT AND DOWN HORIZONTAL HEAVY
        '╈' => Some(solid(blank().draw(Weight::Light, Dir::Up).draw(Weight::Heavy, Dir::Down).draw(Weight::Heavy, Dir::Horizontal))),
        // BOX DRAWINGS RIGHT LIGHT AND LEFT VERTICAL HEAVY
        '╉' => Some(solid(blank().draw(Weight::Light, Dir::Right).draw(Weight::Heavy, Dir::Left).draw(Weight::Heavy, Dir::Vertical))),
        // BOX DRAWINGS LEFT LIGHT AND RIGHT VERTICAL HEAVY
        '╊' => Some(solid(blank().draw(Weight::Light, Dir::Left).draw(Weight::Heavy, Dir::Right).draw(Weight::Heavy, Dir::Vertical))),
        // BOX DRAWINGS HEAVY VERTICAL AND HORIZONTAL
        '╋' => Some(solid(blank().draw(Weight::Heavy, Dir::Vertical).draw(Weight::Heavy, Dir::Horizontal))),
        // BOX DRAWINGS LIGHT DOUBLE DASH HORIZONTAL
        '╌' => Some(dashed(2, blank().draw(Weight::Light, Dir::Horizontal))),
        // BOX DRAWINGS HEAVY DOUBLE DASH HORIZONTAL
        '╍' => Some(dashed(2, blank().draw(Weight::Heavy, Dir::Horizontal))),
        // BOX DRAWINGS LIGHT DOUBLE DASH VERTICAL
        '╎' => Some(dashed(2, blank().draw(Weight::Light, Dir::Vertical))),
        // BOX DRAWINGS HEAVY DOUBLE DASH VERTICAL
        '╏' => Some(dashed(2, blank().draw(Weight::Heavy, Dir::Vertical))),
        // BOX DRAWINGS DOUBLE HORIZONTAL
        '═' => Some(solid(blank().draw(Weight::Double, Dir::Horizontal))),
        // BOX DRAWINGS DOUBLE VERTICAL
        '║' => Some(solid(blank().draw(Weight::Double, Dir::Vertical))),
        // BOX DRAWINGS DOWN SINGLE AND RIGHT DOUBLE
        '╒' => Some(solid(blank().draw(Weight::Light, Dir::Down).draw(Weight::Double, Dir::Right))),
        // BOX DRAWINGS DOWN DOUBLE AND RIGHT SINGLE
        '╓' => Some(solid(blank().draw(Weight::Double, Dir::Down).draw(Weight::Light, Dir::Right))),
        // BOX DRAWINGS DOUBLE DOWN AND RIGHT
        '╔' => Some(solid(blank().draw(Weight::Double, Dir::Down).draw(Weight::Double, Dir::Right))),
        // BOX DRAWINGS DOWN SINGLE AND LEFT DOUBLE
        '╕' => Some(solid(blank().draw(Weight::Light, Dir::Down).draw(Weight::Double, Dir::Left))),
        // BOX DRAWINGS DOWN DOUBLE AND LEFT SINGLE
        '╖' => Some(solid(blank().draw(Weight::Double, Dir::Down).draw(Weight::Light, Dir::Left))),
        // BOX DRAWINGS DOUBLE DOWN AND LEFT
        '╗' => Some(solid(blank().draw(Weight::Double, Dir::Down).draw(Weight::Double, Dir::Left))),
        // BOX DRAWINGS UP SINGLE AND RIGHT DOUBLE
        '╘' => Some(solid(blank().draw(Weight::Light, Dir::Up).draw(Weight::Double, Dir::Right))),
        // BOX DRAWINGS UP DOUBLE AND RIGHT SINGLE
        '╙' => Some(solid(blank().draw(Weight::Double, Dir::Up).draw(Weight::Light, Dir::Right))),
        // BOX DRAWINGS DOUBLE UP AND RIGHT
        '╚' => Some(solid(blank().draw(Weight::Double, Dir::Up).draw(Weight::Double, Dir::Right))),
        // BOX DRAWINGS UP SINGLE AND LEFT DOUBLE
        '╛' => Some(solid(blank().draw(Weight::Light, Dir::Up).draw(Weight::Double, Dir::Left))),
        // BOX DRAWINGS UP DOUBLE AND LEFT SINGLE
        '╜' => Some(solid(blank().draw(Weight::Double, Dir::Up).draw(Weight::Light, Dir::Left))),
        // BOX DRAWINGS DOUBLE UP AND LEFT
        '╝' => Some(solid(blank().draw(Weight::Double, Dir::Up).draw(Weight::Double, Dir::Left))),
        // BOX DRAWINGS VERTICAL SINGLE AND RIGHT DOUBLE
        '╞' => Some(solid(blank().draw(Weight::Light, Dir::Vertical).draw(Weight::Double, Dir::Right))),
        // BOX DRAWINGS VERTICAL DOUBLE AND RIGHT SINGLE
        '╟' => Some(solid(blank().draw(Weight::Double, Dir::Vertical).draw(Weight::Light, Dir::Right))),
        // BOX DRAWINGS DOUBLE VERTICAL AND RIGHT
        '╠' => Some(solid(blank().draw(Weight::Double, Dir::Vertical).draw(Weight::Double, Dir::Right))),
        // BOX DRAWINGS VERTICAL SINGLE AND LEFT DOUBLE
        '╡' => Some(solid(blank().draw(Weight::Light, Dir::Vertical).draw(Weight::Double, Dir::Left))),
        // BOX DRAWINGS VERTICAL DOUBLE AND LEFT SINGLE
        '╢' => Some(solid(blank().draw(Weight::Double, Dir::Vertical).draw(Weight::Light, Dir::Left))),
        // BOX DRAWINGS DOUBLE VERTICAL AND LEFT
        '╣' => Some(solid(blank().draw(Weight::Double, Dir::Vertical).draw(Weight::Double, Dir::Left))),
        // BOX DRAWINGS DOWN SINGLE AND HORIZONTAL DOUBLE
        '╤' => Some(solid(blank().draw(Weight::Light, Dir::Down).draw(Weight::Double, Dir::Horizontal))),
        // BOX DRAWINGS DOWN DOUBLE AND HORIZONTAL SINGLE
        '╥' => Some(solid(blank().draw(Weight::Double, Dir::Down).draw(Weight::Light, Dir::Horizontal))),
        // BOX DRAWINGS DOUBLE DOWN AND HORIZONTAL
        '╦' => Some(solid(blank().draw(Weight::Double, Dir::Down).draw(Weight::Double, Dir::Horizontal))),
        // BOX DRAWINGS UP SINGLE AND HORIZONTAL DOUBLE
        '╧' => Some(solid(blank().draw(Weight::Light, Dir::Up).draw(Weight::Double, Dir::Horizontal))),
        // BOX DRAWINGS UP DOUBLE AND HORIZONTAL SINGLE
        '╨' => Some(solid(blank().draw(Weight::Double, Dir::Up).draw(Weight::Light, Dir::Horizontal))),
        // BOX DRAWINGS DOUBLE UP AND HORIZONTAL
        '╩' => Some(solid(blank().draw(Weight::Double, Dir::Up).draw(Weight::Double, Dir::Horizontal))),
        // BOX DRAWINGS VERTICAL SINGLE AND HORIZONTAL DOUBLE
        '╪' => Some(solid(blank().draw(Weight::Light, Dir::Vertical).draw(Weight::Double, Dir::Horizontal))),
        // BOX DRAWINGS VERTICAL DOUBLE AND HORIZONTAL SINGLE
        '╫' => Some(solid(blank().draw(Weight::Double, Dir::Vertical).draw(Weight::Light, Dir::Horizontal))),
        // BOX DRAWINGS DOUBLE VERTICAL AND HORIZONTAL
        '╬' => Some(solid(blank().draw(Weight::Double, Dir::Vertical).draw(Weight::Double, Dir::Horizontal))),
        // BOX DRAWINGS LIGHT ARC DOWN AND RIGHT
        '╭' => Some(rounded(blank().draw(Weight::Light, Dir::Down).draw(Weight::Light, Dir::Right))),
        // BOX DRAWINGS LIGHT ARC DOWN AND LEFT
        '╮' => Some(rounded(blank().draw(Weight::Light, Dir::Down).draw(Weight::Light, Dir::Left))),
        // BOX DRAWINGS LIGHT ARC UP AND LEFT
        '╯' => Some(rounded(blank().draw(Weight::Light, Dir::Up).draw(Weight::Light, Dir::Left))),
        // BOX DRAWINGS LIGHT ARC UP AND RIGHT
        '╰' => Some(rounded(blank().draw(Weight::Light, Dir::Up).draw(Weight::Light, Dir::Right))),
        // BOX DRAWINGS LIGHT LEFT
        '╴' => Some(solid(blank().draw(Weight::Light, Dir::Left))),
        // BOX DRAWINGS LIGHT UP
        '╵' => Some(solid(blank().draw(Weight::Light, Dir::Up))),
        // BOX DRAWINGS LIGHT RIGHT
        '╶' => Some(solid(blank().draw(Weight::Light, Dir::Right))),
        // BOX DRAWINGS LIGHT DOWN
        '╷' => Some(solid(blank().draw(Weight::Light, Dir::Down))),
        // BOX DRAWINGS HEAVY LEFT
        '╸' => Some(solid(blank().draw(Weight::Heavy, Dir::Left))),
        // BOX DRAWINGS HEAVY UP
        '╹' => Some(solid(blank().draw(Weight::Heavy, Dir::Up))),
        // BOX DRAWINGS HEAVY RIGHT
        '╺' => Some(solid(blank().draw(Weight::Heavy, Dir::Right))),
        // BOX DRAWINGS HEAVY DOWN
        '╻' => Some(solid(blank().draw(Weight::Heavy, Dir::Down))),
        // BOX DRAWINGS LIGHT LEFT AND HEAVY RIGHT
        '╼' => Some(solid(blank().draw(Weight::Light, Dir::Left).draw(Weight::Heavy, Dir::Right))),
        // BOX DRAWINGS LIGHT UP AND HEAVY DOWN
        '╽' => Some(solid(blank().draw(Weight::Light, Dir::Up).draw(Weight::Heavy, Dir::Down))),
        // BOX DRAWINGS HEAVY LEFT AND LIGHT RIGHT
        '╾' => Some(solid(blank().draw(Weight::Heavy, Dir::Left).draw(Weight::Light, Dir::Right))),
        // BOX DRAWINGS HEAVY UP AND LIGHT DOWN
        '╿' => Some(solid(blank().draw(Weight::Heavy, Dir::Up).draw(Weight::Light, Dir::Down))),
        // UPPER HALF BLOCK
        '▀' => Some(block(Side::Upper, 4)),
        // LOWER ONE EIGHTH BLOCK
        '▁' => Some(block(Side::Lower, 1)),
        // LOWER ONE QUARTER BLOCK
        '▂' => Some(block(Side::Lower, 2)),
        // LOWER THREE EIGHTHS BLOCK
        '▃' => Some(block(Side::Lower, 3)),
        // LOWER HALF BLOCK
        '▄' => Some(block(Side::Lower, 4)),
        // LOWER FIVE EIGHTHS BLOCK
        '▅' => Some(block(Side::Lower, 5)),
        // LOWER THREE QUARTERS BLOCK
        '▆' => Some(block(Side::Lower, 6)),
        // LOWER SEVEN EIGHTHS BLOCK
        '▇' => Some(block(Side::Lower, 7)),
        // FULL BLOCK
        '█' => Some(block(Side::Lower, 8)),
        // LEFT SEVEN EIGHTHS BLOCK
        '▉' => Some(block(Side::Left, 7)),
        // LEFT THREE QUARTERS BLOCK
        '▊' => Some(block(Side::Left, 6)),
        // LEFT FIVE EIGHTHS BLOCK
        '▋' => Some(block(Side::Left, 5)),
        // LEFT HALF BLOCK
        '▌' => Some(block(Side::Left, 4)),
        // LEFT THREE EIGHTHS BLOCK
        '▍' => Some(block(Side::Left, 3)),
        // LEFT ONE QUARTER BLOCK
        '▎' => Some(block(Side::Left, 2)),
        // LEFT ONE EIGHTH BLOCK
        '▏' => Some(block(Side::Left, 1)),
        // RIGHT HALF BLOCK
        '▐' => Some(block(Side::Right, 4)),
        // LIGHT SHADE
        '░' => Some(Shape::Shade(1)),
        // MEDIUM SHADE
        '▒' => Some(Shape::Shade(2)),
        // DARK SHADE
        '▓' => Some(Shape::Shade(3)),
        // UPPER ONE EIGHTH BLOCK
        '▔' => Some(block(Side::Upper, 1)),
        // RIGHT ONE EIGHTH BLOCK
        '▕' => Some(block(Side::Right, 1)),
        // QUADRANT LOWER LEFT
        '▖' => Some(no_quadrant().fill(Side::Lower, Side::Left)),
        // QUADRANT LOWER RIGHT
        '▗' => Some(no_quadrant().fill(Side::Lower, Side::Right)),
        // QUADRANT UPPER LEFT
        '▘' => Some(no_quadrant().fill(Side::Upper, Side::Left)),
        // QUADRANT UPPER LEFT AND LOWER LEFT AND LOWER RIGHT
        '▙' => Some(no_quadrant().fill(Side::Upper, Side::Left).fill(Side::Lower, Side::Left).fill(Side::Lower, Side::Right)),
        // QUADRANT UPPER LEFT AND LOWER RIGHT
        '▚' => Some(no_quadrant().fill(Side::Upper, Side::Left).fill(Side::Lower, Side::Right)),
        // QUADRANT UPPER LEFT AND UPPER RIGHT AND LOWER LEFT
        '▛' => Some(no_quadrant().fill(Side::Upper, Side::Left).fill(Side::Upper, Side::Right).fill(Side::Lower, Side::Left)),
        // QUADRANT UPPER LEFT AND UPPER RIGHT AND LOWER RIGHT
        '▜' => Some(no_quadrant().fill(Side::Upper, Side::Left).fill(Side::Upper, Side::Right).fill(Side::Lower, Side::Right)),
        // QUADRANT UPPER RIGHT
        '▝' => Some(no_quadrant().fill(Side::Upper, Side::Right)),
        // QUADRANT UPPER RIGHT AND LOWER LEFT
        '▞' => Some(no_quadrant().fill(Side::Upper, Side::Right).fill(Side::Lower, Side::Left)),
        // QUADRANT UPPER RIGHT AND LOWER LEFT AND LOWER RIGHT
        '▟' => Some(no_quadrant().fill(Side::Upper, Side::Right).fill(Side::Lower, Side::Left).fill(Side::Lower, Side::Right)),
        _ => None,
    }
}

/// Every character of the two blocks has a shape, except the diagonals, and no
/// other character has one.
pub proof fn law_drawable_range(c: char)
    ensures
        named(c) is Some <==> drawable(c),
{
}

/// How the glyphs of the table are made. A line drawing has an arm. A dashed
/// one is a straight line of a single weight that runs all the way across. A
/// rounded one has one horizontal and one vertical arm, both light. In one with
/// double arms, no arm is heavy, and arms that face each other have the same
/// weight. A block is not empty and does not leave the cell, a shade is neither
/// transparent nor opaque, and a quadrant glyph has a quadrant.
pub open spec fn well_made(shape: Shape) -> bool {
    match shape {
        Shape::Lines(s) => {
            &&& s.horizontal() || s.vertical()
            &&& s.dashes > 0 ==> {
                &&& 2 <= s.dashes <= 4
                &&& !s.arc
                &&& !s.doubled()
                &&& s.left == s.right
                &&& s.up == s.down
                &&& s.horizontal() != s.vertical()
            }
            &&& s.arc ==> {
                ||| s == (Spec { down: light_arm(), right: light_arm(), ..rounded_blank() })
                ||| s == (Spec { down: light_arm(), left: light_arm(), ..rounded_blank() })
                ||| s == (Spec { up: light_arm(), right: light_arm(), ..rounded_blank() })
                ||| s == (Spec { up: light_arm(), left: light_arm(), ..rounded_blank() })
            }
            &&& s.doubled() ==> {
                &&& s.left is Some && s.right is Some ==> s.left == s.right
                &&& s.up is Some && s.down is Some ==> s.up == s.down
                &&& s.left != Some(Weight::Heavy) && s.right != Some(Weight::Heavy)
                &&& s.up != Some(Weight::Heavy) && s.down != Some(Weight::Heavy)
            }
        },
        Shape::Rect { x0, y0, x1, y1 } => x0 < x1 <= 8 && y0 < y1 <= 8,
        Shape::Shade(alpha) => 0 < alpha < OPAQUE,
        Shape::Quadrants { ul, ur, ll, lr } => ul || ur || ll || lr,
    }
}

/// A light arm.
pub open spec fn light_arm() -> Option<Weight> {
    Some(Weight::Light)
}

/// A rounded glyph without arms.
pub open spec fn rounded_blank() -> Spec {
    Spec { arc: true, ..blank() }
}

/// Every glyph of the table is well made.
pub proof fn law_table(c: char)
    ensures
        named(c) matches Some(shape) ==> well_made(shape),
{
}

} // verus!
