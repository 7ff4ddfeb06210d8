//! Which points the parts of a drawing cover.

use vstd::prelude::*;

use crate::drawing;
use crate::geometry::{self, Area, Cell, OPAQUE};
use crate::glyph::Spec;

verus! {

/// Membership in a concatenation.
pub proof fn lemma_covered_concat(a: Seq<Area>, b: Seq<Area>, px: int, py: int)
    ensures
        geometry::covered(a + b, px, py) <==> geometry::covered(a, px, py) || geometry::covered(
            b,
            px,
            py,
        ),
{
    if geometry::covered(a, px, py) {
        let i = choose|i: int| 0 <= i < a.len() && (#[trigger] a[i]).contains(px, py);
        assert((a + b)[i].contains(px, py));
    }
    if geometry::covered(b, px, py) {
        let i = choose|i: int| 0 <= i < b.len() && (#[trigger] b[i]).contains(px, py);
        assert((a + b)[a.len() + i].contains(px, py));
    }
    if geometry::covered(a + b, px, py) {
        let i = choose|i: int| 0 <= i < (a + b).len() && (#[trigger] (a + b)[i]).contains(px, py);
        if i < a.len() {
            assert(a[i].contains(px, py));
        } else {
            assert(b[i - a.len()].contains(px, py));
        }
    }
}

/// What a single fill covers.
pub proof fn lemma_covered_fill(x: int, y: int, width: int, height: int, alpha: int, px: int, py: int)
    ensures
        geometry::covered(geometry::fill(x, y, width, height, alpha), px, py) <==> x <= px < x
            + width && y <= py < y + height,
{
    let list = geometry::fill(x, y, width, height, alpha);
    if x <= px < x + width && y <= py < y + height {
        assert(list[0].contains(px, py));
    }
}

/// Whether a point lies in the cell.
pub open spec fn in_cell(cell: Cell, px: int, py: int) -> bool {
    cell.left_edge() <= px < cell.right_edge() && cell.top_edge() <= py < cell.bottom_edge()
}

/// What a rectangle that is cut to the cell covers.
pub proof fn lemma_covered_cut(a: Area, cell: Cell, px: int, py: int)
    ensures
        geometry::covered(geometry::cut(a, cell), px, py) <==> a.contains(px, py) && in_cell(
            cell,
            px,
            py,
        ),
{
    let (x0, x1) = (
        drawing::longer(a.x, cell.left_edge()),
        drawing::shorter(a.x + a.width, cell.right_edge()),
    );
    let (y0, y1) = (
        drawing::longer(a.y, cell.top_edge()),
        drawing::shorter(a.y + a.height, cell.bottom_edge()),
    );
    lemma_covered_fill(x0, y0, x1 - x0, y1 - y0, a.alpha, px, py);
}

/// A list that is cut to the cell covers those points of the cell that the list
/// covers.
pub proof fn lemma_covered_cut_all(list: Seq<Area>, cell: Cell, px: int, py: int)
    ensures
        geometry::covered(geometry::cut_all(list, cell), px, py) <==> geometry::covered(
            list,
            px,
            py,
        ) && in_cell(cell, px, py),
    decreases list.len(),
{
    if list.len() > 0 {
        let (rest, last) = (list.drop_last(), list.last());
        lemma_covered_cut_all(rest, cell, px, py);
        lemma_covered_cut(last, cell, px, py);
        lemma_covered_concat(
            geometry::cut_all(rest, cell),
            geometry::cut(last, cell),
            px,
            py,
        );
        lemma_covered_concat(rest, seq![last], px, py);
        assert(list =~= rest + seq![last]);
        assert(geometry::covered(seq![last], px, py) <==> last.contains(px, py)) by {
            if last.contains(px, py) {
                assert(seq![last][0].contains(px, py));
            }
        }
    }
}

/// What a horizontal bar covers.
pub proof fn lemma_covered_hbar(x0: int, x1: int, y: int, t: int, px: int, py: int)
    ensures
        geometry::covered(geometry::hbar(x0, x1, y, t), px, py) <==> x0 <= px < x1 && y
            - geometry::half(t) <= py < y + geometry::half(t),
{
    lemma_covered_fill(
        x0,
        y - geometry::half(t),
        x1 - x0,
        geometry::fine(t),
        OPAQUE as int,
        px,
        py,
    );
}

/// What a vertical bar covers.
pub proof fn lemma_covered_vbar(x: int, y0: int, y1: int, t: int, px: int, py: int)
    ensures
        geometry::covered(geometry::vbar(x, y0, y1, t), px, py) <==> y0 <= py < y1 && x
            - geometry::half(t) <= px < x + geometry::half(t),
{
    lemma_covered_fill(
        x - geometry::half(t),
        y0,
        geometry::fine(t),
        y1 - y0,
        OPAQUE as int,
        px,
        py,
    );
}

/// What single strokes fill: each arm that is there from its edge of the cell to
/// the center, and the junction.
pub open spec fn on_single(
    s: Spec,
    cell: Cell,
    light: int,
    heavy: int,
    px: int,
    py: int,
) -> bool {
    let (left, right) = (
        drawing::arm_thickness(s.left, light, heavy),
        drawing::arm_thickness(s.right, light, heavy),
    );
    let (up, down) = (
        drawing::arm_thickness(s.up, light, heavy),
        drawing::arm_thickness(s.down, light, heavy),
    );
    ||| cell.left_edge() <= px < cell.center_x() && in_band(py, cell.center_y(), left)
    ||| cell.center_x() <= px < cell.right_edge() && in_band(py, cell.center_y(), right)
    ||| cell.top_edge() <= py < cell.center_y() && in_band(px, cell.center_x(), up)
    ||| cell.center_y() <= py < cell.bottom_edge() && in_band(px, cell.center_x(), down)
    ||| in_band(px, cell.center_x(), drawing::longer(up, down)) && in_band(
        py,
        cell.center_y(),
        drawing::longer(left, right),
    )
}

/// What single strokes cover.
pub proof fn lemma_covered_single(s: Spec, cell: Cell, light: int, heavy: int, px: int, py: int)
    ensures
        geometry::covered(drawing::single(s, cell, light, heavy), px, py) <==> on_single(
            s,
            cell,
            light,
            heavy,
            px,
            py,
        ),
{
    let (left, right) = (
        drawing::arm_thickness(s.left, light, heavy),
        drawing::arm_thickness(s.right, light, heavy),
    );
    let (up, down) = (
        drawing::arm_thickness(s.up, light, heavy),
        drawing::arm_thickness(s.down, light, heavy),
    );
    let a = drawing::left_arm(s, cell, light, heavy);
    let b = drawing::right_arm(s, cell, light, heavy);
    let c = drawing::up_arm(s, cell, light, heavy);
    let d = drawing::down_arm(s, cell, light, heavy);
    let e = drawing::junction(s, cell, light, heavy);
    lemma_covered_concat(a, b, px, py);
    lemma_covered_concat(a + b, c, px, py);
    lemma_covered_concat(a + b + c, d, px, py);
    lemma_covered_concat(a + b + c + d, e, px, py);
    lemma_covered_hbar(cell.left_edge(), cell.center_x(), cell.center_y(), left, px, py);
    lemma_covered_hbar(cell.center_x(), cell.right_edge(), cell.center_y(), right, px, py);
    lemma_covered_vbar(cell.center_x(), cell.top_edge(), cell.center_y(), up, px, py);
    lemma_covered_vbar(cell.center_x(), cell.center_y(), cell.bottom_edge(), down, px, py);
    lemma_covered_fill(
        cell.center_x() - geometry::half(drawing::longer(up, down)),
        cell.center_y() - geometry::half(drawing::longer(left, right)),
        geometry::fine(drawing::longer(up, down)),
        geometry::fine(drawing::longer(left, right)),
        OPAQUE as int,
        px,
        py,
    );
}

/// Whether a coordinate lies in the band of a stroke, `t` units thick, on the
/// line `axis`.
pub open spec fn in_band(p: int, axis: int, t: int) -> bool {
    axis - geometry::half(t) <= p < axis + geometry::half(t)
}

/// What a horizontal rail fills.
pub open spec fn on_hrail(
    s: Spec,
    cell: Cell,
    t: int,
    y: int,
    broken: bool,
    px: int,
    py: int,
) -> bool {
    let (start, end) = drawing::hreach(s, cell, t);
    let (g0, g1) = drawing::vspan(s, cell, t);
    in_band(py, y, t) && if broken {
        start <= px < g0 || g1 <= px < end
    } else {
        start <= px < end
    }
}

/// What a vertical rail fills.
pub open spec fn on_vrail(
    s: Spec,
    cell: Cell,
    t: int,
    x: int,
    broken: bool,
    px: int,
    py: int,
) -> bool {
    let (start, end) = drawing::vreach(s, cell, t);
    let (g0, g1) = drawing::hspan(s, cell, t);
    in_band(px, x, t) && if broken {
        start <= py < g0 || g1 <= py < end
    } else {
        start <= py < end
    }
}

/// What a horizontal rail covers.
pub proof fn lemma_covered_hrail(
    s: Spec,
    cell: Cell,
    t: int,
    y: int,
    broken: bool,
    px: int,
    py: int,
)
    ensures
        geometry::covered(drawing::hrail(s, cell, t, y, broken), px, py) <==> on_hrail(
            s,
            cell,
            t,
            y,
            broken,
            px,
            py,
        ),
{
    let (start, end) = drawing::hreach(s, cell, t);
    let (g0, g1) = drawing::vspan(s, cell, t);
    lemma_covered_hbar(start, g0, y, t, px, py);
    lemma_covered_hbar(g1, end, y, t, px, py);
    lemma_covered_hbar(start, end, y, t, px, py);
    lemma_covered_concat(
        geometry::hbar(start, g0, y, t),
        geometry::hbar(g1, end, y, t),
        px,
        py,
    );
}

/// What a vertical rail covers.
pub proof fn lemma_covered_vrail(
    s: Spec,
    cell: Cell,
    t: int,
    x: int,
    broken: bool,
    px: int,
    py: int,
)
    ensures
        geometry::covered(drawing::vrail(s, cell, t, x, broken), px, py) <==> on_vrail(
            s,
            cell,
            t,
            x,
            broken,
            px,
            py,
        ),
{
    let (start, end) = drawing::vreach(s, cell, t);
    let (g0, g1) = drawing::hspan(s, cell, t);
    lemma_covered_vbar(x, start, g0, t, px, py);
    lemma_covered_vbar(x, g1, end, t, px, py);
    lemma_covered_vbar(x, start, end, t, px, py);
    lemma_covered_concat(
        geometry::vbar(x, start, g0, t),
        geometry::vbar(x, g1, end, t),
        px,
        py,
    );
}

/// Of a double glyph, whether the topmost horizontal rail is broken.
pub open spec fn first_hrail_broken(s: Spec) -> bool {
    s.h_double() && s.up is Some && s.down is None
}

/// Of a double glyph, whether the bottommost horizontal rail is broken.
pub open spec fn last_hrail_broken(s: Spec) -> bool {
    s.h_double() && s.down is Some && s.up is None
}

/// Of a double glyph, whether the leftmost vertical rail is broken.
pub open spec fn first_vrail_broken(s: Spec) -> bool {
    s.v_double() && s.left is Some && s.right is None
}

/// Of a double glyph, whether the rightmost vertical rail is broken.
pub open spec fn last_vrail_broken(s: Spec) -> bool {
    s.v_double() && s.right is Some && s.left is None
}

/// The horizontal rails fill what the topmost and the bottommost of them fill.
pub proof fn lemma_covered_hrails(s: Spec, cell: Cell, t: int, px: int, py: int)
    ensures
        geometry::covered(drawing::hrails(s, cell, t), px, py) <==> s.horizontal() && {
            ||| on_hrail(
                s,
                cell,
                t,
                drawing::first_hrail(s, cell, t),
                first_hrail_broken(s),
                px,
                py,
            )
            ||| on_hrail(s, cell, t, drawing::last_hrail(s, cell, t), last_hrail_broken(s), px, py)
        },
{
    let first = drawing::first_hrail(s, cell, t);
    let last = drawing::last_hrail(s, cell, t);
    lemma_covered_hrail(s, cell, t, first, first_hrail_broken(s), px, py);
    lemma_covered_hrail(s, cell, t, last, last_hrail_broken(s), px, py);
    lemma_covered_concat(
        drawing::hrail(s, cell, t, first, first_hrail_broken(s)),
        drawing::hrail(s, cell, t, last, last_hrail_broken(s)),
        px,
        py,
    );
}

/// The vertical rails fill what the leftmost and the rightmost of them fill.
pub proof fn lemma_covered_vrails(s: Spec, cell: Cell, t: int, px: int, py: int)
    ensures
        geometry::covered(drawing::vrails(s, cell, t), px, py) <==> s.vertical() && {
            ||| on_vrail(
                s,
                cell,
                t,
                drawing::first_vrail(s, cell, t),
                first_vrail_broken(s),
                px,
                py,
            )
            ||| on_vrail(s, cell, t, drawing::last_vrail(s, cell, t), last_vrail_broken(s), px, py)
        },
{
    let first = drawing::first_vrail(s, cell, t);
    let last = drawing::last_vrail(s, cell, t);
    lemma_covered_vrail(s, cell, t, first, first_vrail_broken(s), px, py);
    lemma_covered_vrail(s, cell, t, last, last_vrail_broken(s), px, py);
    lemma_covered_concat(
        drawing::vrail(s, cell, t, first, first_vrail_broken(s)),
        drawing::vrail(s, cell, t, last, last_vrail_broken(s)),
        px,
        py,
    );
}

/// What double strokes fill: the horizontal rails and the vertical rails.
pub open spec fn on_double(s: Spec, cell: Cell, t: int, px: int, py: int) -> bool {
    let (top, bottom) = (drawing::first_hrail(s, cell, t), drawing::last_hrail(s, cell, t));
    let (left, right) = (drawing::first_vrail(s, cell, t), drawing::last_vrail(s, cell, t));
    ||| s.horizontal() && on_hrail(s, cell, t, top, first_hrail_broken(s), px, py)
    ||| s.horizontal() && on_hrail(s, cell, t, bottom, last_hrail_broken(s), px, py)
    ||| s.vertical() && on_vrail(s, cell, t, left, first_vrail_broken(s), px, py)
    ||| s.vertical() && on_vrail(s, cell, t, right, last_vrail_broken(s), px, py)
}

/// What double strokes cover.
pub proof fn lemma_covered_double(s: Spec, cell: Cell, t: int, px: int, py: int)
    ensures
        geometry::covered(drawing::double(s, cell, t), px, py) <==> on_double(s, cell, t, px, py),
{
    lemma_covered_hrails(s, cell, t, px, py);
    lemma_covered_vrails(s, cell, t, px, py);
    lemma_covered_concat(drawing::hrails(s, cell, t), drawing::vrails(s, cell, t), px, py);
}

/// What solid strokes fill.
pub open spec fn on_solid(s: Spec, cell: Cell, light: int, heavy: int, px: int, py: int) -> bool {
    if s.doubled() {
        on_double(s, cell, light, px, py)
    } else {
        on_single(s, cell, light, heavy, px, py)
    }
}

/// What solid strokes cover.
pub proof fn lemma_covered_solid(
    s: Spec,
    cell: Cell,
    light: int,
    heavy: int,
    offsets: Seq<(i64, i64)>,
    px: int,
    py: int,
)
    requires
        s.single_solid() || s.double_solid(),
    ensures
        geometry::covered(drawing::lines(s, cell, light, heavy, offsets), px, py) <==> on_solid(
            s,
            cell,
            light,
            heavy,
            px,
            py,
        ),
{
    if s.doubled() {
        lemma_covered_double(s, cell, light, px, py);
    } else {
        lemma_covered_single(s, cell, light, heavy, px, py);
    }
}

} // verus!
