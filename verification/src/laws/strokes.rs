//! How single, double and dashed strokes run through their cell.

use vstd::arithmetic::div_mod::{
    lemma_fundamental_div_mod, lemma_hoist_over_denominator, lemma_mod_bound,
};
use vstd::prelude::*;

use crate::coverage;
use crate::drawing;
use crate::geometry::{self, Cell};
use crate::glyph::{Spec, Weight};
use crate::laws::{extent, motion};

verus! {

/// A stroke runs from the edge of the cell to the center: every point of each
/// arm of a glyph of single strokes is filled, over the full thickness of the
/// arm.
pub proof fn law_arms_reach_edges(
    s: Spec,
    cell: Cell,
    light: int,
    heavy: int,
    offsets: Seq<(i64, i64)>,
    px: int,
    py: int,
)
    requires
        s.single_solid(),
        ({
            let (cx, cy) = (cell.center_x(), cell.center_y());
            ||| s.left matches Some(w) && cell.left_edge() <= px < cx && coverage::in_band(
                py,
                cy,
                drawing::thickness(w, light, heavy),
            )
            ||| s.right matches Some(w) && cx <= px < cell.right_edge() && coverage::in_band(
                py,
                cy,
                drawing::thickness(w, light, heavy),
            )
            ||| s.up matches Some(w) && cell.top_edge() <= py < cy && coverage::in_band(
                px,
                cx,
                drawing::thickness(w, light, heavy),
            )
            ||| s.down matches Some(w) && cy <= py < cell.bottom_edge() && coverage::in_band(
                px,
                cx,
                drawing::thickness(w, light, heavy),
            )
        }),
    ensures
        geometry::covered(drawing::lines(s, cell, light, heavy, offsets), px, py),
{
    coverage::lemma_covered_solid(s, cell, light, heavy, offsets, px, py);
}

/// A vertical stroke spans the full cell height: where a glyph of single strokes
/// has both vertical arms, every point from the top of the cell to the bottom is
/// filled, as wide as the thinner of the two arms.
pub proof fn law_vertical_stroke_spans(
    s: Spec,
    cell: Cell,
    light: int,
    heavy: int,
    offsets: Seq<(i64, i64)>,
    px: int,
    py: int,
)
    requires
        s.single_solid(),
        s.up is Some,
        s.down is Some,
        cell.top_edge() <= py < cell.bottom_edge(),
        coverage::in_band(
            px,
            cell.center_x(),
            drawing::shorter(
                drawing::arm_thickness(s.up, light, heavy),
                drawing::arm_thickness(s.down, light, heavy),
            ),
        ),
    ensures
        geometry::covered(drawing::lines(s, cell, light, heavy, offsets), px, py),
{
    coverage::lemma_covered_solid(s, cell, light, heavy, offsets, px, py);
}

/// A horizontal stroke spans the full cell width: where a glyph of single
/// strokes has both horizontal arms, every point from the left of the cell to
/// the right is filled, as high as the thinner of the two arms.
pub proof fn law_horizontal_stroke_spans(
    s: Spec,
    cell: Cell,
    light: int,
    heavy: int,
    offsets: Seq<(i64, i64)>,
    px: int,
    py: int,
)
    requires
        s.single_solid(),
        s.left is Some,
        s.right is Some,
        cell.left_edge() <= px < cell.right_edge(),
        coverage::in_band(
            py,
            cell.center_y(),
            drawing::shorter(
                drawing::arm_thickness(s.left, light, heavy),
                drawing::arm_thickness(s.right, light, heavy),
            ),
        ),
    ensures
        geometry::covered(drawing::lines(s, cell, light, heavy, offsets), px, py),
{
    coverage::lemma_covered_solid(s, cell, light, heavy, offsets, px, py);
}

/// Corners fill without a notch: in a glyph of single strokes, the rectangle in
/// which the thickest arms of the two axes cross is filled.
pub proof fn law_junction_filled(
    s: Spec,
    cell: Cell,
    light: int,
    heavy: int,
    offsets: Seq<(i64, i64)>,
    px: int,
    py: int,
)
    requires
        s.single_solid(),
        coverage::in_band(
            px,
            cell.center_x(),
            drawing::longer(
                drawing::arm_thickness(s.up, light, heavy),
                drawing::arm_thickness(s.down, light, heavy),
            ),
        ),
        coverage::in_band(
            py,
            cell.center_y(),
            drawing::longer(
                drawing::arm_thickness(s.left, light, heavy),
                drawing::arm_thickness(s.right, light, heavy),
            ),
        ),
    ensures
        geometry::covered(drawing::lines(s, cell, light, heavy, offsets), px, py),
{
    coverage::lemma_covered_solid(s, cell, light, heavy, offsets, px, py);
}

/// A vertical double stroke spans the full cell height: where a glyph with
/// double arms has both vertical arms, each vertical rail that is not broken is
/// filled from the top of the cell to the bottom.
pub proof fn law_vertical_rail_spans(
    s: Spec,
    cell: Cell,
    light: int,
    heavy: int,
    offsets: Seq<(i64, i64)>,
    px: int,
    py: int,
)
    requires
        s.double_solid(),
        s.up is Some,
        s.down is Some,
        cell.top_edge() <= py < cell.bottom_edge(),
        ({
            let (left, right) = (
                drawing::first_vrail(s, cell, light),
                drawing::last_vrail(s, cell, light),
            );
            ||| coverage::in_band(px, left, light) && !coverage::first_vrail_broken(s)
            ||| coverage::in_band(px, right, light) && !coverage::last_vrail_broken(s)
        }),
    ensures
        geometry::covered(drawing::lines(s, cell, light, heavy, offsets), px, py),
{
    coverage::lemma_covered_solid(s, cell, light, heavy, offsets, px, py);
}

/// A horizontal double stroke spans the full cell width: where a glyph with
/// double arms has both horizontal arms, each horizontal rail that is not broken
/// is filled from the left of the cell to the right.
pub proof fn law_horizontal_rail_spans(
    s: Spec,
    cell: Cell,
    light: int,
    heavy: int,
    offsets: Seq<(i64, i64)>,
    px: int,
    py: int,
)
    requires
        s.double_solid(),
        s.left is Some,
        s.right is Some,
        cell.left_edge() <= px < cell.right_edge(),
        ({
            let (top, bottom) = (
                drawing::first_hrail(s, cell, light),
                drawing::last_hrail(s, cell, light),
            );
            ||| coverage::in_band(py, top, light) && !coverage::first_hrail_broken(s)
            ||| coverage::in_band(py, bottom, light) && !coverage::last_hrail_broken(s)
        }),
    ensures
        geometry::covered(drawing::lines(s, cell, light, heavy, offsets), px, py),
{
    coverage::lemma_covered_solid(s, cell, light, heavy, offsets, px, py);
}

/// A straight double line sprouts no stub: with arms on one axis only, a glyph
/// with double arms fills its two rails and nothing else.
pub proof fn law_straight_double_has_no_stub(
    s: Spec,
    cell: Cell,
    light: int,
    heavy: int,
    offsets: Seq<(i64, i64)>,
    px: int,
    py: int,
)
    requires
        s.double_solid(),
        s.horizontal() != s.vertical(),
        geometry::covered(drawing::lines(s, cell, light, heavy, offsets), px, py),
    ensures
        s.horizontal() ==> coverage::in_band(
            py,
            cell.center_y() - drawing::rail_offset(light),
            light,
        ) || coverage::in_band(py, cell.center_y() + drawing::rail_offset(light), light),
        s.vertical() ==> coverage::in_band(
            px,
            cell.center_x() - drawing::rail_offset(light),
            light,
        ) || coverage::in_band(px, cell.center_x() + drawing::rail_offset(light), light),
{
    coverage::lemma_covered_solid(s, cell, light, heavy, offsets, px, py);
}

/// The rail on the side of a lone vertical arm is interrupted across the span of
/// the vertical rails: in between, the horizontal rails leave it open.
pub proof fn law_horizontal_rail_opens(s: Spec, cell: Cell, t: int, px: int, py: int)
    requires
        s.h_double(),
        s.vertical(),
        drawing::vspan(s, cell, t).0 <= px < drawing::vspan(s, cell, t).1,
        ({
            ||| s.down is None && coverage::in_band(py, drawing::first_hrail(s, cell, t), t)
            ||| s.up is None && coverage::in_band(py, drawing::last_hrail(s, cell, t), t)
        }),
    ensures
        !geometry::covered(drawing::hrails(s, cell, t), px, py),
{
    coverage::lemma_covered_hrails(s, cell, t, px, py);
}

/// The rail on the side of a lone horizontal arm is interrupted across the span
/// of the horizontal rails: in between, the vertical rails leave it open.
pub proof fn law_vertical_rail_opens(s: Spec, cell: Cell, t: int, px: int, py: int)
    requires
        s.v_double(),
        s.horizontal(),
        drawing::hspan(s, cell, t).0 <= py < drawing::hspan(s, cell, t).1,
        ({
            ||| s.right is None && coverage::in_band(px, drawing::first_vrail(s, cell, t), t)
            ||| s.left is None && coverage::in_band(px, drawing::last_vrail(s, cell, t), t)
        }),
    ensures
        !geometry::covered(drawing::vrails(s, cell, t), px, py),
{
    coverage::lemma_covered_vrails(s, cell, t, px, py);
}

/// Double lines leave the center open: where both axes are doubled, nothing is
/// filled between the two rails of the one axis and the two rails of the other,
/// and neither is a broken rail between the rails that it is broken for.
pub proof fn law_open_center(
    s: Spec,
    cell: Cell,
    light: int,
    heavy: int,
    offsets: Seq<(i64, i64)>,
    px: int,
    py: int,
)
    requires
        s.double_solid(),
        s.h_double(),
        s.v_double(),
        ({
            let between_x = drawing::first_vrail(s, cell, light) + geometry::half(light) <= px
                < drawing::last_vrail(s, cell, light) - geometry::half(light);
            let between_y = drawing::first_hrail(s, cell, light) + geometry::half(light) <= py
                < drawing::last_hrail(s, cell, light) - geometry::half(light);
            ||| between_x && between_y
            ||| between_x && s.down is None && coverage::in_band(
                py,
                drawing::first_hrail(s, cell, light),
                light,
            )
            ||| between_x && s.up is None && coverage::in_band(
                py,
                drawing::last_hrail(s, cell, light),
                light,
            )
            ||| between_y && s.right is None && coverage::in_band(
                px,
                drawing::first_vrail(s, cell, light),
                light,
            )
            ||| between_y && s.left is None && coverage::in_band(
                px,
                drawing::last_vrail(s, cell, light),
                light,
            )
        }),
    ensures
        !geometry::covered(drawing::lines(s, cell, light, heavy, offsets), px, py),
{
    coverage::lemma_covered_solid(s, cell, light, heavy, offsets, px, py);
}

/// The rails of an arm run from the edge of the cell to the span of the crossing
/// rails at least, and each rail that is not broken runs on to the center.
pub proof fn law_rails_reach_edges(
    s: Spec,
    cell: Cell,
    light: int,
    heavy: int,
    offsets: Seq<(i64, i64)>,
    px: int,
    py: int,
)
    requires
        s.double_solid(),
        ({
            let (l, r) = drawing::vspan(s, cell, light);
            let (u, d) = drawing::hspan(s, cell, light);
            let on_first_h = coverage::in_band(py, drawing::first_hrail(s, cell, light), light);
            let on_last_h = coverage::in_band(py, drawing::last_hrail(s, cell, light), light);
            let on_first_v = coverage::in_band(px, drawing::first_vrail(s, cell, light), light);
            let on_last_v = coverage::in_band(px, drawing::last_vrail(s, cell, light), light);
            let whole_h = on_first_h && !coverage::first_hrail_broken(s) || on_last_h
                && !coverage::last_hrail_broken(s);
            let whole_v = on_first_v && !coverage::first_vrail_broken(s) || on_last_v
                && !coverage::last_vrail_broken(s);
            let (cx, cy) = (cell.center_x(), cell.center_y());
            ||| s.left is Some && cell.left_edge() <= px < cx && (px < l && (on_first_h
                || on_last_h) || whole_h)
            ||| s.right is Some && cx <= px < cell.right_edge() && (r <= px && (on_first_h
                || on_last_h) || whole_h)
            ||| s.up is Some && cell.top_edge() <= py < cy && (py < u && (on_first_v || on_last_v)
                || whole_v)
            ||| s.down is Some && cy <= py < cell.bottom_edge() && (d <= py && (on_first_v
                || on_last_v) || whole_v)
        }),
    ensures
        geometry::covered(drawing::lines(s, cell, light, heavy, offsets), px, py),
{
    coverage::lemma_covered_solid(s, cell, light, heavy, offsets, px, py);
}

/// The dashes of a line are evenly spaced, and the spacing carries on into the
/// next cell: each of the `n` dashes takes up three fifths of an `n`th of the
/// cell, dash follows dash at a distance of one `n`th of the cell, and the first
/// dash of the next cell follows the last dash of this one at that distance.
pub proof fn law_dashes_even(s: Spec, cell: Cell, next: Cell, t: int, i: int)
    requires
        2 <= s.dashes <= 4,
        s.horizontal() ==> cell.width > 0 && next.x == cell.x + cell.width && next.width
            == cell.width,
        !s.horizontal() ==> cell.height > 0 && next.y == cell.y + cell.height && next.height
            == cell.height,
        t > 0,
        0 <= i < s.dashes - 1,
    ensures
        ({
            let here = drawing::dashes(s, cell, t);
            let there = drawing::dashes(s, next, t);
            let n = s.dashes as int;
            &&& here.len() == n
            &&& there.len() == n
            &&& s.horizontal() ==> {
                &&& 5 * n * here[i].width == 3 * geometry::fine(cell.width as int)
                &&& n * (here[i + 1].x - here[i].x) == geometry::fine(cell.width as int)
                &&& there[0].x - here[n - 1].x == here[i + 1].x - here[i].x
            }
            &&& !s.horizontal() ==> {
                &&& 5 * n * here[i].height == 3 * geometry::fine(cell.height as int)
                &&& n * (here[i + 1].y - here[i].y) == geometry::fine(cell.height as int)
                &&& there[0].y - here[n - 1].y == here[i + 1].y - here[i].y
            }
        }),
{
    let n = s.dashes as int;
    let len = drawing::dash_line(s, cell);
    extent::lemma_dashes_listed(s, cell, t, s.dashes as nat);
    extent::lemma_dashes_listed(s, next, t, s.dashes as nat);
    extent::lemma_dash_exact(len, n, 5 * i + 1);
    extent::lemma_dash_exact(len, n, 5 * i + 4);
    extent::lemma_dash_exact(len, n, 5 * (i + 1) + 1);
    extent::lemma_dash_exact(len, n, 5 * (n - 1) + 1);
    let (a, b) = (drawing::dash_start(len, n, i), drawing::dash_end(len, n, i));
    let c = drawing::dash_start(len, n, i + 1);
    let (first, last) = (drawing::dash_start(len, n, 0), drawing::dash_start(len, n, n - 1));
    extent::lemma_dash_exact(len, n, 5 * 0int + 1);
    assert(5 * n * (b - a) == 3 * (120 * len) && n * (c - a) == 120 * len) by (nonlinear_arith)
        requires
            n * a == 24 * len * (5 * i + 1),
            n * b == 24 * len * (5 * i + 4),
            n * c == 24 * len * (5 * (i + 1) + 1),
    ;
    assert(n * (120 * len + first - last) == 120 * len) by (nonlinear_arith)
        requires
            n * first == 24 * len * (5 * 0 + 1),
            n * last == 24 * len * (5 * (n - 1) + 1),
    ;
    assert(120 * len + first - last == c - a) by (nonlinear_arith)
        requires
            n * (120 * len + first - last) == n * (c - a),
            n > 0,
    ;
}

/// Whatever the number of dashes, each edge of a dash is off by less than a fine
/// step from the exact fraction of the line, and the dashes of the next cell
/// carry on where those of this one leave off.
pub proof fn law_dashes_on_pitch(len: int, n: int, i: int)
    requires
        n > 0,
    ensures
        n * drawing::dash_start(len, n, i) <= 24 * len * (5 * i + 1) < n * drawing::dash_start(
            len,
            n,
            i,
        ) + n,
        n * drawing::dash_end(len, n, i) <= 24 * len * (5 * i + 4) < n * drawing::dash_end(
            len,
            n,
            i,
        ) + n,
        drawing::dash_start(len, n, i + n) == drawing::dash_start(len, n, i) + geometry::fine(len),
        drawing::dash_end(len, n, i + n) == drawing::dash_end(len, n, i) + geometry::fine(len),
{
    let (a, b) = (24 * len * (5 * i + 1), 24 * len * (5 * i + 4));
    lemma_fundamental_div_mod(a, n);
    lemma_fundamental_div_mod(b, n);
    lemma_mod_bound(a, n);
    lemma_mod_bound(b, n);
    assert(24 * len * (5 * (i + n) + 1) == a + (120 * len) * n) by (nonlinear_arith)
        requires
            a == 24 * len * (5 * i + 1),
    ;
    assert(24 * len * (5 * (i + n) + 4) == b + (120 * len) * n) by (nonlinear_arith)
        requires
            b == 24 * len * (5 * i + 4),
    ;
    lemma_hoist_over_denominator(a, 120 * len, n as nat);
    lemma_hoist_over_denominator(b, 120 * len, n as nat);
}

/// Lines are drawn by kind, whatever else the glyph says: a rounded corner as
/// [`crate::render::render_arc`] draws it, any other glyph with dashes as
/// [`crate::render::render_dashed`] does in the thickness of its weight, and any
/// other glyph with a double arm as [`crate::render::render_double`] does. So the
/// heavy thickness matters to none of them but heavy dashes. Two sweeps of one
/// corner agree where `polar` gives one answer to each question.
pub proof fn law_lines_by_kind<F: Fn(i64, i64, i64) -> (i64, i64)>(
    polar: F,
    s: Spec,
    cell: Cell,
    light: int,
    heavy: int,
    one: Seq<(i64, i64)>,
    other: Seq<(i64, i64)>,
)
    requires
        s.arc ==> {
            &&& motion::answers_alike(polar)
            &&& drawing::swept(polar, s, cell, one)
            &&& drawing::swept(polar, s, cell, other)
        },
    ensures
        s.arc ==> drawing::lines(s, cell, light, heavy, one) == drawing::arc(
            s,
            cell,
            light,
            other,
        ),
        !s.arc && s.dashes > 0 ==> drawing::lines(s, cell, light, heavy, one) == drawing::dashes(
            s,
            cell,
            if s.main_weight() == Weight::Heavy {
                heavy
            } else {
                light
            },
        ),
        s.double_solid() ==> drawing::lines(s, cell, light, heavy, one) == drawing::double(
            s,
            cell,
            light,
        ),
{
    if s.arc {
        motion::lemma_same_sweep(polar, s, cell, cell, 0, 0, one, other);
    }
}

} // verus!
