//! How rounded corners meet the strokes around them, hold together and keep to
//! their cell.

use vstd::prelude::*;

use crate::coverage;
use crate::drawing;
use crate::geometry::{self, Cell, PIXEL};
use crate::glyph::{Shape, Spec};
use crate::laws::extent;
use crate::names;

verus! {

/// Whether `polar` is exact along the axes, for a circle in the given cell: one
/// quarter turn leads straight down or up, none or two lead straight right or
/// left.
pub open spec fn exact_on_axes<F: Fn(i64, i64, i64) -> (i64, i64)>(polar: F, cell: Cell) -> bool {
    let (radius, steps) = (drawing::arc_diameter(cell), drawing::arc_steps(cell));
    forall|angle: i64, at: (i64, i64)| #[trigger]
        call_ensures(polar, (radius as i64, angle, steps as i64), at) ==> {
            &&& angle == steps ==> at.0 == 0 && at.1 == radius
            &&& angle == -steps ==> at.0 == 0 && at.1 == -radius
            &&& angle == 0 ==> at.0 == radius && at.1 == 0
            &&& angle == 2 * steps || angle == -2 * steps ==> at.0 == -radius && at.1 == 0
        }
}

/// A rounded corner sweeps a quarter turn in equal steps, from straight above or
/// below the center of the circle to straight left or right of it: away from the
/// vertical arm and away from the horizontal arm.
pub proof fn law_arc_sweeps_quarter_turn(s: Spec, cell: Cell, i: int)
    requires
        0 <= i < drawing::arc_steps(cell),
    ensures
        ({
            let steps = drawing::arc_steps(cell);
            let first = drawing::arc_angle(s, cell, 0);
            let last = drawing::arc_angle(s, cell, steps);
            &&& s.down is Some ==> first == -steps
            &&& s.down is None ==> first == steps
            &&& s.right is Some ==> last == 2 * steps || last == -2 * steps
            &&& s.right is None ==> last == 0
            &&& last - first == steps || last - first == -steps
            &&& steps * (drawing::arc_angle(s, cell, i + 1) - drawing::arc_angle(s, cell, i))
                == last - first
        }),
{
    let steps = drawing::arc_steps(cell);
    assert(steps * 1 == steps && steps * -1 == -steps) by (nonlinear_arith);
}

/// Whether the first point of a sweep is the tangent point of the horizontal arm:
/// a radius straight above or below the center of the circle.
pub open spec fn starts_on_arm(s: Spec, cell: Cell, offsets: Seq<(i64, i64)>) -> bool {
    &&& offsets.len() > 0
    &&& offsets[0].0 == 0
    &&& offsets[0].1 == if s.down is Some {
        -drawing::arc_diameter(cell)
    } else {
        drawing::arc_diameter(cell)
    }
}

/// A rounded corner starts and ends where its straight arms would pass: with
/// points that are exact along the axes, the first square is centered where the
/// straight part of the horizontal arm ends, and the last square where that of
/// the vertical arm ends.
pub proof fn law_arc_joins_arms<F: Fn(i64, i64, i64) -> (i64, i64)>(
    polar: F,
    s: Spec,
    cell: Cell,
    t: int,
    offsets: Seq<(i64, i64)>,
)
    requires
        cell.width > 0,
        cell.height > 0,
        exact_on_axes(polar, cell),
        drawing::swept(polar, s, cell, offsets),
    ensures
        starts_on_arm(s, cell, offsets),
        ({
            let first = drawing::arc_square(s, cell, t, offsets[0]);
            let last = drawing::arc_square(s, cell, t, offsets[drawing::arc_steps(cell)]);
            let r = drawing::arc_radius(cell);
            &&& first.x + geometry::half(t) == cell.center_x() + if s.right is Some {
                r
            } else {
                -r
            }
            &&& first.y + geometry::half(t) == cell.center_y()
            &&& last.x + geometry::half(t) == cell.center_x()
            &&& last.y + geometry::half(t) == cell.center_y() + if s.down is Some {
                r
            } else {
                -r
            }
        }),
{
    lemma_arc_steps_bound(cell);
    let (d, steps) = (drawing::arc_diameter(cell), drawing::arc_steps(cell));
    let (first, last) = (drawing::arc_angle(s, cell, 0), drawing::arc_angle(s, cell, steps));
    assert(call_ensures(polar, (d as i64, first as i64, steps as i64), offsets[0]));
    assert(call_ensures(polar, (d as i64, last as i64, steps as i64), offsets[steps]));
}

/// The number of steps is small.
proof fn lemma_arc_steps_bound(cell: Cell)
    ensures
        1 <= drawing::arc_steps(cell) <= 0x2_0000_0000,
{
}

/// The outermost fine step of the cell on the side that the horizontal arm of a
/// rounded corner leaves through.
pub open spec fn hedge(s: Spec, cell: Cell) -> int {
    if s.right is Some {
        cell.right_edge() - 1
    } else {
        cell.left_edge()
    }
}

/// The same for the vertical arm.
pub open spec fn vedge(s: Spec, cell: Cell) -> int {
    if s.down is Some {
        cell.bottom_edge() - 1
    } else {
        cell.top_edge()
    }
}

/// The horizontal arm reaches its edge.
proof fn lemma_harm_reaches(s: Spec, cell: Cell, t: int, offsets: Seq<(i64, i64)>, p: int)
    requires
        cell.width > 0,
        cell.height > 0,
        cell.width <= cell.height ==> starts_on_arm(s, cell, offsets),
        coverage::in_band(p, cell.center_y(), t),
    ensures
        geometry::covered(drawing::arc(s, cell, t, offsets), hedge(s, cell), p),
{
    let (a, b) = (drawing::arc_hstub(s, cell, t), drawing::arc_vstub(s, cell, t));
    let squares = drawing::arc_squares(s, cell, t, offsets);
    let (r, x) = (drawing::arc_radius(cell), hedge(s, cell));
    let (cx, cy) = (cell.center_x(), cell.center_y());
    coverage::lemma_covered_concat(a, b, x, p);
    coverage::lemma_covered_concat(a + b, squares, x, p);
    coverage::lemma_covered_hbar(cx + r, cell.right_edge(), cy, t, x, p);
    coverage::lemma_covered_hbar(cell.left_edge(), cx - r, cy, t, x, p);
    if cell.width <= cell.height {
        assert(squares[0] == drawing::arc_square(s, cell, t, offsets[0]));
        assert(squares[0].contains(x, p));
    }
}

/// The vertical arm reaches its edge where it is longer than the radius.
proof fn lemma_varm_reaches(s: Spec, cell: Cell, t: int, offsets: Seq<(i64, i64)>, p: int)
    requires
        cell.width > 0,
        cell.height > cell.width,
        coverage::in_band(p, cell.center_x(), t),
    ensures
        geometry::covered(drawing::arc(s, cell, t, offsets), p, vedge(s, cell)),
{
    let (a, b) = (drawing::arc_hstub(s, cell, t), drawing::arc_vstub(s, cell, t));
    let squares = drawing::arc_squares(s, cell, t, offsets);
    let (r, y) = (drawing::arc_radius(cell), vedge(s, cell));
    let (cx, cy) = (cell.center_x(), cell.center_y());
    coverage::lemma_covered_concat(a, b, p, y);
    coverage::lemma_covered_concat(a + b, squares, p, y);
    coverage::lemma_covered_vbar(cx, cy + r, cell.bottom_edge(), t, p, y);
    coverage::lemma_covered_vbar(cx, cell.top_edge(), cy - r, t, p, y);
}

/// A rounded corner draws something.
pub proof fn lemma_arc_drawn(s: Spec, cell: Cell, t: int, offsets: Seq<(i64, i64)>)
    requires
        cell.width > 0,
        cell.height > 0,
        t > 0,
        cell.width == cell.height ==> starts_on_arm(s, cell, offsets),
    ensures
        geometry::cut_all(drawing::arc(s, cell, t, offsets), cell).len() > 0,
{
    let list = drawing::arc(s, cell, t, offsets);
    if cell.height > cell.width {
        lemma_varm_reaches(s, cell, t, offsets, cell.center_x());
        coverage::lemma_covered_cut_all(list, cell, cell.center_x(), vedge(s, cell));
    } else {
        lemma_harm_reaches(s, cell, t, offsets, cell.center_y());
        coverage::lemma_covered_cut_all(list, cell, hedge(s, cell), cell.center_y());
    }
}

/// A rounded corner is drawn within its cell, whatever points the sweep gave.
pub proof fn law_arc_inside_cell(
    c: char,
    cell: Cell,
    light: int,
    heavy: int,
    offsets: Seq<(i64, i64)>,
)
    requires
        drawing::is_arc(c),
    ensures
        extent::all_inside(drawing::drawing(c, cell, light, heavy, offsets), cell),
{
    if let Some(Shape::Lines(s)) = names::named(c) {
        extent::lemma_cut_all(drawing::lines(s, cell, light, heavy, offsets), cell);
    }
}

/// A rounded corner meets its neighbors: with points that are exact along the
/// axes, the corner is filled at the edge of the cell all across the band of the
/// arm that leaves the cell there.
pub proof fn law_arc_reaches_edges<F: Fn(i64, i64, i64) -> (i64, i64)>(
    polar: F,
    s: Spec,
    cell: Cell,
    light: int,
    heavy: int,
    offsets: Seq<(i64, i64)>,
    p: int,
)
    requires
        s.arc,
        cell.width > 0,
        cell.height > 0,
        exact_on_axes(polar, cell),
        drawing::swept(polar, s, cell, offsets),
    ensures
        cell.top_edge() <= p < cell.bottom_edge() && coverage::in_band(p, cell.center_y(), light)
            ==> geometry::covered(
            drawing::shape_areas(Shape::Lines(s), cell, light, heavy, offsets),
            hedge(s, cell),
            p,
        ),
        cell.left_edge() <= p < cell.right_edge() && coverage::in_band(p, cell.center_x(), light)
            ==> geometry::covered(
            drawing::shape_areas(Shape::Lines(s), cell, light, heavy, offsets),
            p,
            vedge(s, cell),
        ),
{
    law_arc_joins_arms(polar, s, cell, light, offsets);
    lemma_arc_steps_bound(cell);
    let list = drawing::arc(s, cell, light, offsets);
    if coverage::in_band(p, cell.center_y(), light) {
        lemma_harm_reaches(s, cell, light, offsets, p);
        coverage::lemma_covered_cut_all(list, cell, hedge(s, cell), p);
    }
    if coverage::in_band(p, cell.center_x(), light) {
        if cell.height > cell.width {
            lemma_varm_reaches(s, cell, light, offsets, p);
        } else {
            let steps = drawing::arc_steps(cell);
            let (a, b) = (drawing::arc_hstub(s, cell, light), drawing::arc_vstub(s, cell, light));
            let squares = drawing::arc_squares(s, cell, light, offsets);
            coverage::lemma_covered_concat(a + b, squares, p, vedge(s, cell));
            assert(squares[steps] == drawing::arc_square(s, cell, light, offsets[steps]));
            assert(squares[steps].contains(p, vedge(s, cell)));
        }
        coverage::lemma_covered_cut_all(list, cell, p, vedge(s, cell));
    }
}

/// Whether neighboring answers of `polar` lie close together, for a circle in the
/// given cell: no further apart than the arc between them is long, with 22/7 for
/// the half turn.
pub open spec fn steps_along_circle<F: Fn(i64, i64, i64) -> (i64, i64)>(
    polar: F,
    cell: Cell,
) -> bool {
    let (radius, steps) = (drawing::arc_diameter(cell), drawing::arc_steps(cell));
    forall|angle: i64, next: i64, at: (i64, i64), at_next: (i64, i64)|
        (next == angle + 1 || next == angle - 1) && #[trigger] call_ensures(
            polar,
            (radius as i64, angle, steps as i64),
            at,
        ) && #[trigger] call_ensures(polar, (radius as i64, next, steps as i64), at_next) ==> {
            let (dx, dy) = (at_next.0 - at.0, at_next.1 - at.1);
            49 * (steps * steps) * (dx * dx + dy * dy) <= 121 * (radius * radius)
        }
}

/// A rounded corner is unbroken between its two ends: with points that step along
/// the circle, each square overlaps the next one, for strokes of more than 11/14
/// of a pixel. [`crate::line_thickness`] gives no thinner ones.
pub proof fn law_arc_unbroken<F: Fn(i64, i64, i64) -> (i64, i64)>(
    polar: F,
    s: Spec,
    cell: Cell,
    t: int,
    offsets: Seq<(i64, i64)>,
    i: int,
)
    requires
        cell.width > 0,
        cell.height > 0,
        14 * t > 11 * PIXEL,
        steps_along_circle(polar, cell),
        drawing::swept(polar, s, cell, offsets),
        0 <= i < drawing::arc_steps(cell),
    ensures
        ({
            let squares = drawing::arc_squares(s, cell, t, offsets);
            let (here, next) = (squares[i], squares[i + 1]);
            &&& squares.len() == drawing::arc_steps(cell) + 1
            &&& -geometry::fine(t) < next.x - here.x < geometry::fine(t)
            &&& -geometry::fine(t) < next.y - here.y < geometry::fine(t)
            &&& here.x < next.x + next.width && next.x < here.x + here.width
            &&& here.y < next.y + next.height && next.y < here.y + here.height
        }),
{
    lemma_arc_steps_bound(cell);
    let (d, steps) = (drawing::arc_diameter(cell), drawing::arc_steps(cell));
    let (angle, next) = (drawing::arc_angle(s, cell, i), drawing::arc_angle(s, cell, i + 1));
    assert(call_ensures(polar, (d as i64, angle as i64, steps as i64), offsets[i]));
    assert(call_ensures(polar, (d as i64, next as i64, steps as i64), offsets[i + 1]));
    let (dx, dy) = (offsets[i + 1].0 - offsets[i].0, offsets[i + 1].1 - offsets[i].1);
    assert(49 * (steps * steps) * (dx * dx + dy * dy) <= 121 * (d * d));
    assert(dx * dx >= 0 && dy * dy >= 0) by (nonlinear_arith);
    assert(49 * (steps * steps) * (dx * dx) <= 121 * (d * d) && 49 * (steps * steps) * (dy * dy)
        <= 121 * (d * d)) by (nonlinear_arith)
        requires
            49 * (steps * steps) * (dx * dx + dy * dy) <= 121 * (d * d),
            dx * dx >= 0,
            dy * dy >= 0,
    ;
    lemma_short_step(dx, d, steps);
    lemma_short_step(dy, d, steps);
}

/// Neighboring points of a circle that has no more pixels of diameter than steps
/// to the quarter turn are at most 11/7 of a pixel apart.
proof fn lemma_short_step(dx: int, d: int, steps: int)
    requires
        0 < d <= steps * PIXEL,
        0 < steps,
        49 * (steps * steps) * (dx * dx) <= 121 * (d * d),
    ensures
        -11 * PIXEL <= 7 * dx <= 11 * PIXEL,
{
    let (a, b, p) = (7 * steps * dx, 11 * d, PIXEL as int);
    assert(a * a <= b * b) by (nonlinear_arith)
        requires
            a == 7 * steps * dx,
            b == 11 * d,
            49 * (steps * steps) * (dx * dx) <= 121 * (d * d),
    ;
    assert(-b <= a <= b) by (nonlinear_arith)
        requires
            a * a <= b * b,
            b > 0,
    ;
    assert(-11 * p <= 7 * dx <= 11 * p) by (nonlinear_arith)
        requires
            a == 7 * steps * dx,
            b == 11 * d,
            d <= steps * p,
            -b <= a <= b,
            steps > 0,
    ;
}

/// The same of what [`crate::render`] leaves of the corner in its cell: where two
/// neighboring squares both reach into the cell, what is left of them has a point
/// in common.
pub proof fn law_arc_unbroken_in_cell<F: Fn(i64, i64, i64) -> (i64, i64)>(
    polar: F,
    s: Spec,
    cell: Cell,
    t: int,
    offsets: Seq<(i64, i64)>,
    i: int,
)
    requires
        cell.width > 0,
        cell.height > 0,
        14 * t > 11 * PIXEL,
        steps_along_circle(polar, cell),
        drawing::swept(polar, s, cell, offsets),
        0 <= i < drawing::arc_steps(cell),
    ensures
        ({
            let squares = drawing::arc_squares(s, cell, t, offsets);
            let (here, next) = (squares[i], squares[i + 1]);
            let px = drawing::longer(drawing::longer(here.x, next.x), cell.left_edge());
            let py = drawing::longer(drawing::longer(here.y, next.y), cell.top_edge());
            geometry::cut(here, cell).len() > 0 && geometry::cut(next, cell).len() > 0 ==> {
                &&& geometry::covered(geometry::cut(here, cell), px, py)
                &&& geometry::covered(geometry::cut(next, cell), px, py)
            }
        }),
{
    law_arc_unbroken(polar, s, cell, t, offsets, i);
    let squares = drawing::arc_squares(s, cell, t, offsets);
    let (here, next) = (squares[i], squares[i + 1]);
    let px = drawing::longer(drawing::longer(here.x, next.x), cell.left_edge());
    let py = drawing::longer(drawing::longer(here.y, next.y), cell.top_edge());
    coverage::lemma_covered_cut(here, cell, px, py);
    coverage::lemma_covered_cut(next, cell, px, py);
}

} // verus!
