//! How glyphs meet across the edges of their cells.

use vstd::prelude::*;

use crate::coverage;
use crate::drawing;
use crate::geometry::{self, Cell};
use crate::glyph::{Shape, Spec, Weight};
use crate::names;

verus! {

/// Whether the vertical strokes of a glyph keep clear of the left and right
/// edges of the cell.
pub open spec fn clear_of_sides(s: Spec, cell: Cell, light: int, heavy: int) -> bool {
    if s.doubled() {
        s.vertical() ==> cell.left_edge() < drawing::vspan(s, cell, light).0 && drawing::vspan(
            s,
            cell,
            light,
        ).1 < cell.right_edge()
    } else {
        drawing::arm_thickness(s.up, light, heavy) < cell.width && drawing::arm_thickness(
            s.down,
            light,
            heavy,
        ) < cell.width
    }
}

/// Whether the horizontal strokes of a glyph keep clear of the top and bottom
/// edges of the cell.
pub open spec fn clear_of_ends(s: Spec, cell: Cell, light: int, heavy: int) -> bool {
    if s.doubled() {
        s.horizontal() ==> cell.top_edge() < drawing::hspan(s, cell, light).0 && drawing::hspan(
            s,
            cell,
            light,
        ).1 < cell.bottom_edge()
    } else {
        drawing::arm_thickness(s.left, light, heavy) < cell.height && drawing::arm_thickness(
            s.right,
            light,
            heavy,
        ) < cell.height
    }
}

/// Where an arm of the given weight crosses its edge of the cell: one band about
/// the axis, or two bands beside it for a double arm.
pub open spec fn edge_ink(
    arm: Option<Weight>,
    axis: int,
    light: int,
    heavy: int,
    p: int,
) -> bool {
    match arm {
        None => false,
        Some(Weight::Double) => {
            ||| coverage::in_band(p, axis - drawing::rail_offset(light), light)
            ||| coverage::in_band(p, axis + drawing::rail_offset(light), light)
        },
        Some(w) => coverage::in_band(p, axis, drawing::thickness(w, light, heavy)),
    }
}

/// The ink on the left edge of the cell depends on the arm there alone, where the
/// vertical strokes keep clear of the edge.
pub proof fn law_left_edge_ink(
    s: Spec,
    cell: Cell,
    light: int,
    heavy: int,
    offsets: Seq<(i64, i64)>,
    py: int,
)
    requires
        s.single_solid() || s.double_solid(),
        names::well_made(Shape::Lines(s)),
        cell.width > 0,
        clear_of_sides(s, cell, light, heavy),
    ensures
        geometry::covered(
            drawing::lines(s, cell, light, heavy, offsets),
            cell.left_edge(), py,
        ) <==> edge_ink(s.left, cell.center_y(), light, heavy, py),
{
    coverage::lemma_covered_solid(s, cell, light, heavy, offsets, cell.left_edge(), py);
}

/// The ink on the right edge of the cell depends on the arm there alone, where
/// the vertical strokes keep clear of the edge.
pub proof fn law_right_edge_ink(
    s: Spec,
    cell: Cell,
    light: int,
    heavy: int,
    offsets: Seq<(i64, i64)>,
    py: int,
)
    requires
        s.single_solid() || s.double_solid(),
        names::well_made(Shape::Lines(s)),
        cell.width > 0,
        clear_of_sides(s, cell, light, heavy),
    ensures
        geometry::covered(
            drawing::lines(s, cell, light, heavy, offsets),
            cell.right_edge() - 1, py,
        ) <==> edge_ink(s.right, cell.center_y(), light, heavy, py),
{
    coverage::lemma_covered_solid(s, cell, light, heavy, offsets, cell.right_edge() - 1, py);
}

/// The ink on the top edge of the cell depends on the arm there alone, where the
/// horizontal strokes keep clear of the edge.
pub proof fn law_top_edge_ink(
    s: Spec,
    cell: Cell,
    light: int,
    heavy: int,
    offsets: Seq<(i64, i64)>,
    px: int,
)
    requires
        s.single_solid() || s.double_solid(),
        names::well_made(Shape::Lines(s)),
        cell.height > 0,
        clear_of_ends(s, cell, light, heavy),
    ensures
        geometry::covered(
            drawing::lines(s, cell, light, heavy, offsets),
            px, cell.top_edge(),
        ) <==> edge_ink(s.up, cell.center_x(), light, heavy, px),
{
    coverage::lemma_covered_solid(s, cell, light, heavy, offsets, px, cell.top_edge());
}

/// The ink on the bottom edge of the cell depends on the arm there alone, where
/// the horizontal strokes keep clear of the edge.
pub proof fn law_bottom_edge_ink(
    s: Spec,
    cell: Cell,
    light: int,
    heavy: int,
    offsets: Seq<(i64, i64)>,
    px: int,
)
    requires
        s.single_solid() || s.double_solid(),
        names::well_made(Shape::Lines(s)),
        cell.height > 0,
        clear_of_ends(s, cell, light, heavy),
    ensures
        geometry::covered(
            drawing::lines(s, cell, light, heavy, offsets),
            px, cell.bottom_edge() - 1,
        ) <==> edge_ink(s.down, cell.center_x(), light, heavy, px),
{
    coverage::lemma_covered_solid(s, cell, light, heavy, offsets, px, cell.bottom_edge() - 1);
}

/// Lines tile into unbroken borders. Where two solid glyphs stand side by side
/// and the arms that face each other have the same weight, the ink on the two
/// sides of the seam is the same at every height: no gap, and no step. This
/// holds for cells of any size, as long as the vertical strokes of both glyphs
/// keep clear of the sides of their cells, so that no stroke along the seam hides
/// what crosses it.
pub proof fn law_seam_side_by_side(
    a: Spec,
    b: Spec,
    left: Cell,
    right: Cell,
    light: int,
    heavy: int,
    offsets: Seq<(i64, i64)>,
    py: int,
)
    requires
        a.single_solid() || a.double_solid(),
        b.single_solid() || b.double_solid(),
        names::well_made(Shape::Lines(a)),
        names::well_made(Shape::Lines(b)),
        a.right == b.left,
        left.width > 0,
        right.width > 0,
        right.x == left.x + left.width,
        right.y == left.y,
        right.height == left.height,
        clear_of_sides(a, left, light, heavy),
        clear_of_sides(b, right, light, heavy),
    ensures
        geometry::covered(
            drawing::lines(a, left, light, heavy, offsets),
            left.right_edge() - 1,
            py,
        ) <==> geometry::covered(
            drawing::lines(b, right, light, heavy, offsets),
            right.left_edge(),
            py,
        ),
{
    law_right_edge_ink(a, left, light, heavy, offsets, py);
    law_left_edge_ink(b, right, light, heavy, offsets, py);
}

/// Lines tile into unbroken borders from row to row as well: where two solid
/// glyphs stand one below the other and the arms that face each other have the
/// same weight, the ink on the two sides of the seam is the same all along it, as
/// long as the horizontal strokes of both keep clear of the ends of their cells.
pub proof fn law_seam_one_below_the_other(
    a: Spec,
    b: Spec,
    upper: Cell,
    lower: Cell,
    light: int,
    heavy: int,
    offsets: Seq<(i64, i64)>,
    px: int,
)
    requires
        a.single_solid() || a.double_solid(),
        b.single_solid() || b.double_solid(),
        names::well_made(Shape::Lines(a)),
        names::well_made(Shape::Lines(b)),
        a.down == b.up,
        upper.height > 0,
        lower.height > 0,
        lower.y == upper.y + upper.height,
        lower.x == upper.x,
        lower.width == upper.width,
        clear_of_ends(a, upper, light, heavy),
        clear_of_ends(b, lower, light, heavy),
    ensures
        geometry::covered(
            drawing::lines(a, upper, light, heavy, offsets),
            px,
            upper.bottom_edge() - 1,
        ) <==> geometry::covered(
            drawing::lines(b, lower, light, heavy, offsets),
            px,
            lower.top_edge(),
        ),
{
    law_bottom_edge_ink(a, upper, light, heavy, offsets, px);
    law_top_edge_ink(b, lower, light, heavy, offsets, px);
}

} // verus!
