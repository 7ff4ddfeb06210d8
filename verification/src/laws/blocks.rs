//! How blocks, shades and quadrants divide their cell.

use vstd::prelude::*;

use crate::coverage;
use crate::drawing;
use crate::geometry::{self, Cell, OPAQUE};
use crate::glyph::Shape;
use crate::laws::extent;
use crate::names;

verus! {

/// A block that fills the cell from one side and the block that fills the rest
/// from the opposite side partition the cell: every point of the cell is in one
/// of the two and in no more than one, and no other point is in either.
pub proof fn law_opposite_blocks_partition(
    vertical: bool,
    n: u8,
    cell: Cell,
    light: int,
    heavy: int,
    offsets: Seq<(i64, i64)>,
    px: int,
    py: int,
)
    requires
        n <= 8,
    ensures
        ({
            let (one, other) = if vertical {
                (
                    names::block(names::Side::Upper, n),
                    names::block(names::Side::Lower, (8 - n) as u8),
                )
            } else {
                (
                    names::block(names::Side::Left, n),
                    names::block(names::Side::Right, (8 - n) as u8),
                )
            };
            let here = geometry::covered(
                drawing::shape_areas(one, cell, light, heavy, offsets),
                px,
                py,
            );
            let there = geometry::covered(
                drawing::shape_areas(other, cell, light, heavy, offsets),
                px,
                py,
            );
            &&& !(here && there)
            &&& (here || there) <==> coverage::in_cell(cell, px, py)
        }),
{
    let len = if vertical {
        cell.height as int
    } else {
        cell.width as int
    };
    lemma_split(n as int, 8, len);
    lemma_split(0, n as int, len);
    if len >= 0 {
        lemma_ordered(n as int, 8, len);
    } else {
        lemma_ordered(n as int, 8, -len);
        lemma_opposite(n as int, len);
    }
    let k = n as int;
    if vertical {
        lemma_covered_eighths(cell, 0, 0, 8, k, px, py);
        lemma_covered_eighths(cell, 0, k, 8, 8, px, py);
    } else {
        lemma_covered_eighths(cell, 0, 0, k, 8, px, py);
        lemma_covered_eighths(cell, k, 0, 8, 8, px, py);
    }
}

/// What a block covers.
pub proof fn lemma_covered_eighths(
    cell: Cell,
    x0: int,
    y0: int,
    x1: int,
    y1: int,
    px: int,
    py: int,
)
    ensures
        geometry::covered(drawing::eighths(cell, x0, y0, x1, y1), px, py) <==> {
            &&& cell.left_edge() + 15 * (x0 * cell.width) <= px < cell.left_edge() + 15 * (x1
                * cell.width)
            &&& cell.top_edge() + 15 * (y0 * cell.height) <= py < cell.top_edge() + 15 * (y1
                * cell.height)
        },
{
    lemma_split(x0, x1, cell.width as int);
    lemma_split(y0, y1, cell.height as int);
    coverage::lemma_covered_fill(
        cell.left_edge() + 15 * (x0 * cell.width),
        cell.top_edge() + 15 * (y0 * cell.height),
        15 * ((x1 - x0) * cell.width),
        15 * ((y1 - y0) * cell.height),
        OPAQUE as int,
        px,
        py,
    );
}

/// A shade fills the whole cell and nothing else.
pub proof fn law_shade_fills_cell(
    alpha: u8,
    cell: Cell,
    light: int,
    heavy: int,
    offsets: Seq<(i64, i64)>,
    px: int,
    py: int,
)
    ensures
        geometry::covered(
            drawing::shape_areas(Shape::Shade(alpha), cell, light, heavy, offsets),
            px,
            py,
        ) <==> coverage::in_cell(cell, px, py),
{
    coverage::lemma_covered_fill(
        cell.left_edge(),
        cell.top_edge(),
        geometry::fine(cell.width as int),
        geometry::fine(cell.height as int),
        alpha as int,
        px,
        py,
    );
}

/// A quadrant glyph and the one with the other quadrants partition the cell.
pub proof fn law_opposite_quadrants_partition(
    ul: bool,
    ur: bool,
    ll: bool,
    lr: bool,
    cell: Cell,
    light: int,
    heavy: int,
    offsets: Seq<(i64, i64)>,
    px: int,
    py: int,
)
    ensures
        ({
            let here = geometry::covered(
                drawing::shape_areas(
                    Shape::Quadrants { ul, ur, ll, lr },
                    cell,
                    light,
                    heavy,
                    offsets,
                ),
                px,
                py,
            );
            let there = geometry::covered(
                drawing::shape_areas(
                    Shape::Quadrants { ul: !ul, ur: !ur, ll: !ll, lr: !lr },
                    cell,
                    light,
                    heavy,
                    offsets,
                ),
                px,
                py,
            );
            &&& !(here && there)
            &&& (here || there) <==> coverage::in_cell(cell, px, py)
        }),
{
    lemma_covered_quadrants(cell, ul, ur, ll, lr, px, py);
    lemma_covered_quadrants(cell, !ul, !ur, !ll, !lr, px, py);
}

/// What a quadrant glyph covers.
pub proof fn lemma_covered_quadrants(
    cell: Cell,
    ul: bool,
    ur: bool,
    ll: bool,
    lr: bool,
    px: int,
    py: int,
)
    ensures
        geometry::covered(
            drawing::quadrant(cell, ul, false, false) + drawing::quadrant(cell, ur, true, false)
                + drawing::quadrant(cell, ll, false, true) + drawing::quadrant(
                cell,
                lr,
                true,
                true,
            ),
            px,
            py,
        ) <==> {
            let left = cell.left_edge() <= px < cell.center_x();
            let right = cell.center_x() <= px < cell.right_edge();
            let upper = cell.top_edge() <= py < cell.center_y();
            let lower = cell.center_y() <= py < cell.bottom_edge();
            ||| ul && left && upper
            ||| ur && right && upper
            ||| ll && left && lower
            ||| lr && right && lower
        },
{
    let a = drawing::quadrant(cell, ul, false, false);
    let b = drawing::quadrant(cell, ur, true, false);
    let c = drawing::quadrant(cell, ll, false, true);
    let d = drawing::quadrant(cell, lr, true, true);
    coverage::lemma_covered_concat(a, b, px, py);
    coverage::lemma_covered_concat(a + b, c, px, py);
    coverage::lemma_covered_concat(a + b + c, d, px, py);
    let (w, h) = (geometry::half(cell.width as int), geometry::half(cell.height as int));
    let o = OPAQUE as int;
    coverage::lemma_covered_fill(cell.left_edge(), cell.top_edge(), w, h, o, px, py);
    coverage::lemma_covered_fill(cell.center_x(), cell.top_edge(), w, h, o, px, py);
    coverage::lemma_covered_fill(cell.left_edge(), cell.center_y(), w, h, o, px, py);
    coverage::lemma_covered_fill(cell.center_x(), cell.center_y(), w, h, o, px, py);
}

/// A part of a length and the rest up to a later mark.
proof fn lemma_split(a: int, b: int, len: int)
    by (nonlinear_arith)
    ensures
        a * len + (b - a) * len == b * len,
{
}

/// A multiple of the opposite length is the opposite of the multiple.
proof fn lemma_opposite(a: int, len: int)
    by (nonlinear_arith)
    ensures
        a * -len == -(a * len),
{
}

/// The eighths of a length come in order.
proof fn lemma_ordered(a: int, b: int, len: int)
    by (nonlinear_arith)
    requires
        0 <= a <= b <= 8,
        len >= 0,
    ensures
        0 <= a * len <= b * len <= 8 * len,
{
}

/// No positive number of lengths below zero adds up to a positive length.
proof fn lemma_nonpositive(a: int, b: int)
    by (nonlinear_arith)
    requires
        a > 0,
        b <= 0,
    ensures
        a * b <= 0,
{
}

/// Blocks, shades and quadrants stay within their cell.
pub proof fn law_blocks_inside_cell(
    shape: Shape,
    cell: Cell,
    light: int,
    heavy: int,
    offsets: Seq<(i64, i64)>,
)
    requires
        names::well_made(shape),
        !(shape is Lines),
    ensures
        extent::all_inside(drawing::shape_areas(shape, cell, light, heavy, offsets), cell),
{
    if let Shape::Rect { x0, y0, x1, y1 } = shape {
        lemma_split(x0 as int, x1 as int, cell.width as int);
        lemma_split(y0 as int, y1 as int, cell.height as int);
        if cell.width > 0 {
            lemma_ordered(x0 as int, x1 as int, cell.width as int);
        } else {
            lemma_nonpositive(x1 - x0, cell.width as int);
        }
        if cell.height > 0 {
            lemma_ordered(y0 as int, y1 as int, cell.height as int);
        } else {
            lemma_nonpositive(y1 - y0, cell.height as int);
        }
    }
}

} // verus!
