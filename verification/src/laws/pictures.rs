//! What is filled, point by point, in the coordinates of the cell.
//!
//! Edges and center lines are worked out below from the four numbers of the cell,
//! 120 fine steps to the unit, and strokes from the arms that a glyph has. The
//! laws about [`crate::render`] speak of the rectangles that it returns.

use vstd::arithmetic::div_mod::lemma_fundamental_div_mod_converse;
use vstd::prelude::*;

use crate::coverage;
use crate::drawing;
use crate::geometry::{self, Area, Cell, Rect, PIXEL};
use crate::glyph::{shape, Shape, Spec, Weight};
use crate::laws::{blocks, extent};
use crate::names;
use crate::render::render;

verus! {

/// A point is covered where one of the rectangles holds it, and the model of a
/// list of rectangles is faithful.
pub proof fn law_covered(out: Seq<Rect>, px: int, py: int)
    ensures
        geometry::covered(geometry::areas(out), px, py) <==> exists|k: int|
            0 <= k < out.len() && (#[trigger] out[k]).x <= px < out[k].x + out[k].width
                && out[k].y <= py < out[k].y + out[k].height,
        geometry::areas(out).len() == out.len(),
        forall|k: int|
            0 <= k < out.len() ==> (#[trigger] geometry::areas(out)[k]).alpha == out[k].alpha,
{
    let list = geometry::areas(out);
    if geometry::covered(list, px, py) {
        let k = choose|k: int| 0 <= k < list.len() && (#[trigger] list[k]).contains(px, py);
        assert(out[k].x <= px < out[k].x + out[k].width);
    }
    if exists|k: int|
        0 <= k < out.len() && (#[trigger] out[k]).x <= px < out[k].x + out[k].width && out[k].y
            <= py < out[k].y + out[k].height {
        let k = choose|k: int|
            0 <= k < out.len() && (#[trigger] out[k]).x <= px < out[k].x + out[k].width
                && out[k].y <= py < out[k].y + out[k].height;
        assert(list[k].contains(px, py));
    }
}

/// Lines are drawn by kind: rounded corners, else dashes, else double strokes
/// where an arm is doubled, else single strokes.
pub proof fn law_kinds_of_lines(
    s: Spec,
    cell: Cell,
    light: int,
    heavy: int,
    offsets: Seq<(i64, i64)>,
)
    ensures
        ({
            let list = drawing::lines(s, cell, light, heavy, offsets);
            let twice = Some(Weight::Double);
            let doubled = s.up == twice || s.down == twice || s.left == twice || s.right == twice;
            &&& s.arc ==> list == drawing::arc(s, cell, light, offsets)
            &&& !s.arc && s.dashes > 0 ==> {
                let first = if s.up is Some {
                    s.up
                } else if s.down is Some {
                    s.down
                } else if s.left is Some {
                    s.left
                } else {
                    s.right
                };
                list == drawing::dashes(
                    s,
                    cell,
                    if first == Some(Weight::Heavy) {
                        heavy
                    } else {
                        light
                    },
                )
            }
            &&& !s.arc && s.dashes == 0 && doubled ==> list == drawing::double(s, cell, light)
            &&& !s.arc && s.dashes == 0 && !doubled ==> list == drawing::single(
                s,
                cell,
                light,
                heavy,
            )
        }),
{
}

/// Single strokes fill each arm that is there, from its edge of the cell to the
/// center and in its own thickness, and the rectangle about the center in which
/// the arms of the two axes cross.
#[verifier::spinoff_prover]
pub proof fn law_single_strokes(s: Spec, cell: Cell, light: int, heavy: int, px: int, py: int)
    ensures
        geometry::covered(drawing::single(s, cell, light, heavy), px, py) <==> {
            let (l, r) = (120 * cell.x, 120 * (cell.x + cell.width));
            let (u, d) = (120 * cell.y, 120 * (cell.y + cell.height));
            let (cx, cy) = (60 * (2 * cell.x + cell.width), 60 * (2 * cell.y + cell.height));
            let (left, right) = (
                match s.left {
                    Some(Weight::Heavy) => heavy,
                    Some(_) => light,
                    None => 0,
                },
                match s.right {
                    Some(Weight::Heavy) => heavy,
                    Some(_) => light,
                    None => 0,
                },
            );
            let (up, down) = (
                match s.up {
                    Some(Weight::Heavy) => heavy,
                    Some(_) => light,
                    None => 0,
                },
                match s.down {
                    Some(Weight::Heavy) => heavy,
                    Some(_) => light,
                    None => 0,
                },
            );
            ||| l <= px < cx && cy - 60 * left <= py < cy + 60 * left
            ||| cx <= px < r && cy - 60 * right <= py < cy + 60 * right
            ||| u <= py < cy && cx - 60 * up <= px < cx + 60 * up
            ||| cy <= py < d && cx - 60 * down <= px < cx + 60 * down
            ||| {
                &&& cx - 60 * up <= px < cx + 60 * up || cx - 60 * down <= px < cx + 60 * down
                &&& cy - 60 * left <= py < cy + 60 * left || cy - 60 * right <= py < cy + 60
                    * right
            }
        },
{
    coverage::lemma_covered_single(s, cell, light, heavy, px, py);
    let (left, right) = (
        drawing::arm_thickness(s.left, light, heavy),
        drawing::arm_thickness(s.right, light, heavy),
    );
    let (up, down) = (
        drawing::arm_thickness(s.up, light, heavy),
        drawing::arm_thickness(s.down, light, heavy),
    );
    let (cx, cy) = (cell.center_x(), cell.center_y());
    assert(cx == 60 * (2 * cell.x + cell.width) && cy == 60 * (2 * cell.y + cell.height));
    assert(coverage::in_band(px, cx, drawing::longer(up, down)) <==> coverage::in_band(px, cx, up)
        || coverage::in_band(px, cx, down));
    assert(coverage::in_band(py, cy, drawing::longer(left, right)) <==> coverage::in_band(
        py,
        cy,
        left,
    ) || coverage::in_band(py, cy, right));
}

/// Double strokes fill their rails: one line of its own thickness to a single
/// axis, two to a doubled one, which lie a stroke apart from the axis on either
/// side but a pixel at least. A rail runs to the edge of the cell where there is
/// an arm, and otherwise to the outer side of the rails that it meets. Of a pair,
/// the rail on the side of a lone crossing arm is open between the outer sides
/// of the rails of that arm.
#[verifier::spinoff_prover]
pub proof fn law_double_strokes(s: Spec, cell: Cell, t: int, px: int, py: int)
    ensures
        geometry::covered(drawing::double(s, cell, t), px, py) <==> {
            let (l, r) = (120 * cell.x, 120 * (cell.x + cell.width));
            let (u, d) = (120 * cell.y, 120 * (cell.y + cell.height));
            let (cx, cy) = (60 * (2 * cell.x + cell.width), 60 * (2 * cell.y + cell.height));
            let off = if t >= PIXEL {
                120 * t
            } else {
                120 * PIXEL
            };
            let (level, upright) = (
                s.left is Some || s.right is Some,
                s.up is Some || s.down is Some,
            );
            // The outermost rails of each axis.
            let (dy, dx) = (
                if s.left == Some(Weight::Double) || s.right == Some(Weight::Double) {
                    off
                } else {
                    0
                },
                if s.up == Some(Weight::Double) || s.down == Some(Weight::Double) {
                    off
                } else {
                    0
                },
            );
            // The outer sides of the rails, and how far the rails run.
            let (x0, x1) = (cx - dx - 60 * t, cx + dx + 60 * t);
            let (y0, y1) = (cy - dy - 60 * t, cy + dy + 60 * t);
            let (from_x, to_x) = (
                if s.left is Some {
                    l
                } else if upright {
                    x0
                } else {
                    cx
                },
                if s.right is Some {
                    r
                } else if upright {
                    x1
                } else {
                    cx
                },
            );
            let (from_y, to_y) = (
                if s.up is Some {
                    u
                } else if level {
                    y0
                } else {
                    cy
                },
                if s.down is Some {
                    d
                } else if level {
                    y1
                } else {
                    cy
                },
            );
            let (whole_x, open_x) = (
                from_x <= px < to_x,
                from_x <= px < x0 || x1 <= px < to_x,
            );
            let (whole_y, open_y) = (
                from_y <= py < to_y,
                from_y <= py < y0 || y1 <= py < to_y,
            );
            let on_top = cy - dy - 60 * t <= py < cy - dy + 60 * t;
            let on_bottom = cy + dy - 60 * t <= py < cy + dy + 60 * t;
            let on_left = cx - dx - 60 * t <= px < cx - dx + 60 * t;
            let on_right = cx + dx - 60 * t <= px < cx + dx + 60 * t;
            ||| level && on_top && if dy > 0 && s.up is Some && s.down is None {
                open_x
            } else {
                whole_x
            }
            ||| level && on_bottom && if dy > 0 && s.down is Some && s.up is None {
                open_x
            } else {
                whole_x
            }
            ||| upright && on_left && if dx > 0 && s.left is Some && s.right is None {
                open_y
            } else {
                whole_y
            }
            ||| upright && on_right && if dx > 0 && s.right is Some && s.left is None {
                open_y
            } else {
                whole_y
            }
        },
{
    coverage::lemma_covered_double(s, cell, t, px, py);
    let (cx, cy) = (cell.center_x(), cell.center_y());
    assert(cx == 60 * (2 * cell.x + cell.width) && cy == 60 * (2 * cell.y + cell.height));
    let (top, bottom) = (drawing::first_hrail(s, cell, t), drawing::last_hrail(s, cell, t));
    let (left, right) = (drawing::first_vrail(s, cell, t), drawing::last_vrail(s, cell, t));
    assert(drawing::vspan(s, cell, t) == (left - 60 * t, right + 60 * t));
    assert(drawing::hspan(s, cell, t) == (top - 60 * t, bottom + 60 * t));
    assert(s.h_double() <==> bottom - cy > 0);
    assert(s.v_double() <==> right - cx > 0);
}

/// Double strokes are drawn in one rectangle to a rail and two to a rail that is
/// open in its middle, where the rails and their outer sides fit into the cell.
pub proof fn law_double_rectangles(s: Spec, cell: Cell, t: int)
    requires
        t > 0,
        ({
            let (l, r) = (120 * cell.x, 120 * (cell.x + cell.width));
            let (u, d) = (120 * cell.y, 120 * (cell.y + cell.height));
            let (cx, cy) = (60 * (2 * cell.x + cell.width), 60 * (2 * cell.y + cell.height));
            let off = if t >= PIXEL {
                120 * t
            } else {
                120 * PIXEL
            };
            &&& l < cx - off - 60 * t && cx + off + 60 * t < r
            &&& u < cy - off - 60 * t && cy + off + 60 * t < d
        }),
    ensures
        drawing::double(s, cell, t).len() == {
            let twice = Some(Weight::Double);
            let rows = if s.left == twice || s.right == twice {
                2int
            } else if s.left is Some || s.right is Some {
                1
            } else {
                0
            };
            let columns = if s.up == twice || s.down == twice {
                2int
            } else if s.up is Some || s.down is Some {
                1
            } else {
                0
            };
            let open_row = rows == 2 && s.left is Some && s.right is Some && (s.up is Some) != (
            s.down is Some);
            let open_column = columns == 2 && s.up is Some && s.down is Some && (s.left is Some)
                != (s.right is Some);
            rows + columns + if open_row || open_column {
                1int
            } else {
                0
            }
        },
{
}

/// Rails run on without a gap: where a glyph of double strokes has arms on both
/// axes, each rail that is not open is filled from the edge of the cell, on a
/// side with an arm, or from the outer side of the outermost rail that it
/// crosses, on a side without one.
pub proof fn law_whole_rails_run_through(s: Spec, cell: Cell, t: int, px: int, py: int)
    requires
        s.left is Some || s.right is Some,
        s.up is Some || s.down is Some,
        ({
            let (l, r) = (120 * cell.x, 120 * (cell.x + cell.width));
            let (u, d) = (120 * cell.y, 120 * (cell.y + cell.height));
            let (cx, cy) = (60 * (2 * cell.x + cell.width), 60 * (2 * cell.y + cell.height));
            let off = if t >= PIXEL {
                120 * t
            } else {
                120 * PIXEL
            };
            let (level, upright) = (
                s.left is Some || s.right is Some,
                s.up is Some || s.down is Some,
            );
            // The outermost rails of each axis.
            let (dy, dx) = (
                if s.left == Some(Weight::Double) || s.right == Some(Weight::Double) {
                    off
                } else {
                    0
                },
                if s.up == Some(Weight::Double) || s.down == Some(Weight::Double) {
                    off
                } else {
                    0
                },
            );
            let along_x = {
                &&& if s.left is Some {
                    l <= px
                } else {
                    cx - dx - 60 * t <= px
                }
                &&& if s.right is Some {
                    px < r
                } else {
                    px < cx + dx + 60 * t
                }
            };
            let along_y = {
                &&& if s.up is Some {
                    u <= py
                } else {
                    cy - dy - 60 * t <= py
                }
                &&& if s.down is Some {
                    py < d
                } else {
                    py < cy + dy + 60 * t
                }
            };
            ||| along_x && cy - dy - 60 * t <= py < cy - dy + 60 * t && (dy == 0 || s.down is Some
                || s.up is None)
            ||| along_x && cy + dy - 60 * t <= py < cy + dy + 60 * t && (dy == 0 || s.up is Some
                || s.down is None)
            ||| along_y && cx - dx - 60 * t <= px < cx - dx + 60 * t && (dx == 0 || s.right is Some
                || s.left is None)
            ||| along_y && cx + dx - 60 * t <= px < cx + dx + 60 * t && (dx == 0 || s.left is Some
                || s.right is None)
        }),
    ensures
        geometry::covered(drawing::double(s, cell, t), px, py),
{
    law_double_strokes(s, cell, t, px, py);
}

/// The outer rails of a corner meet: where a glyph of double strokes has one
/// horizontal and one vertical arm, the square in which the two rails on the far
/// sides of the arms cross is filled, and so is each of the two rails from there
/// to the edge of the cell.
pub proof fn law_double_corner_closed(s: Spec, cell: Cell, t: int, px: int, py: int)
    requires
        (s.left is Some) != (s.right is Some),
        (s.up is Some) != (s.down is Some),
        cell.width >= 0,
        cell.height >= 0,
        ({
            let (l, r) = (120 * cell.x, 120 * (cell.x + cell.width));
            let (u, d) = (120 * cell.y, 120 * (cell.y + cell.height));
            let (cx, cy) = (60 * (2 * cell.x + cell.width), 60 * (2 * cell.y + cell.height));
            let off = if t >= PIXEL {
                120 * t
            } else {
                120 * PIXEL
            };
            let (level, upright) = (
                s.left is Some || s.right is Some,
                s.up is Some || s.down is Some,
            );
            // The outermost rails of each axis.
            let (dy, dx) = (
                if s.left == Some(Weight::Double) || s.right == Some(Weight::Double) {
                    off
                } else {
                    0
                },
                if s.up == Some(Weight::Double) || s.down == Some(Weight::Double) {
                    off
                } else {
                    0
                },
            );
            // The corner, and the outer rails from there on.
            let (x, y) = (
                if s.right is Some {
                    cx - dx
                } else {
                    cx + dx
                },
                if s.down is Some {
                    cy - dy
                } else {
                    cy + dy
                },
            );
            let on_x = x - 60 * t <= px < x + 60 * t;
            let on_y = y - 60 * t <= py < y + 60 * t;
            ||| on_x && on_y && (dx > 0 || dy > 0)
            ||| on_y && if s.right is Some {
                x - 60 * t <= px < r
            } else {
                l <= px < x + 60 * t
            }
            ||| on_x && if s.down is Some {
                y - 60 * t <= py < d
            } else {
                u <= py < y + 60 * t
            }
        }),
    ensures
        geometry::covered(drawing::double(s, cell, t), px, py),
{
    law_double_strokes(s, cell, t, px, py);
}

/// Dashes fill the band of the stroke about the center line, and along it the
/// middle three fifths of each `n`th of the line, to the fine step.
pub proof fn law_dashed_strokes(s: Spec, cell: Cell, t: int, px: int, py: int)
    ensures
        geometry::covered(drawing::dashes(s, cell, t), px, py) <==> {
            let (l, r) = (120 * cell.x, 120 * (cell.x + cell.width));
            let (u, d) = (120 * cell.y, 120 * (cell.y + cell.height));
            let (cx, cy) = (60 * (2 * cell.x + cell.width), 60 * (2 * cell.y + cell.height));
            let (n, level) = (s.dashes as int, s.left is Some || s.right is Some);
            let (len, along, across) = if level {
                (cell.width as int, px - l, py - cy)
            } else {
                (cell.height as int, py - u, px - cx)
            };
            // How far into the line, in `n`ths of a fine step, the point ends.
            let end = n * (along + 1) - 1;
            &&& -60 * t <= across < 60 * t
            &&& len > 0
            &&& 0 <= end < n * (120 * len)
            &&& 24 * len <= end % (120 * len) < 96 * len
        },
{
    lemma_covered_dashes(s, cell, t, s.dashes as nat, px, py);
}

/// What the first dashes of a line cover.
proof fn lemma_covered_dashes(s: Spec, cell: Cell, t: int, k: nat, px: int, py: int)
    requires
        k <= s.dashes,
    ensures
        geometry::covered(drawing::first_dashes(s, cell, t, k), px, py) <==> {
            let (l, r) = (120 * cell.x, 120 * (cell.x + cell.width));
            let (u, d) = (120 * cell.y, 120 * (cell.y + cell.height));
            let (cx, cy) = (60 * (2 * cell.x + cell.width), 60 * (2 * cell.y + cell.height));
            let (n, level) = (s.dashes as int, s.left is Some || s.right is Some);
            let (len, along, across) = if level {
                (cell.width as int, px - l, py - cy)
            } else {
                (cell.height as int, py - u, px - cx)
            };
            // How far into the line, in `n`ths of a fine step, the point ends.
            let end = n * (along + 1) - 1;
            &&& -60 * t <= across < 60 * t
            &&& len > 0
            &&& 0 <= end < k * (120 * len)
            &&& 24 * len <= end % (120 * len) < 96 * len
        },
    decreases k,
{
    if k > 0 {
        let i = k - 1;
        lemma_covered_dashes(s, cell, t, i as nat, px, py);
        coverage::lemma_covered_concat(
            drawing::first_dashes(s, cell, t, i as nat),
            drawing::dash(s, cell, t, i),
            px,
            py,
        );
        let (n, len) = (s.dashes as int, drawing::dash_line(s, cell));
        let (start, end) = (drawing::dash_start(len, n, i), drawing::dash_end(len, n, i));
        coverage::lemma_covered_hbar(
            cell.left_edge() + start,
            cell.left_edge() + end,
            cell.center_y(),
            t,
            px,
            py,
        );
        coverage::lemma_covered_vbar(
            cell.center_x(),
            cell.top_edge() + start,
            cell.top_edge() + end,
            t,
            px,
            py,
        );
        let along = if s.horizontal() {
            px - cell.left_edge()
        } else {
            py - cell.top_edge()
        };
        lemma_past_share(along, 24 * len * (5 * i + 1), n);
        lemma_past_share(along, 24 * len * (5 * i + 4), n);
        lemma_pitch(n * (along + 1) - 1, len, i);
    } else {
        assert(0 * (120 * drawing::dash_line(s, cell)) == 0);
    }
}

/// The middle three fifths of pitch `i` of a line, and those of all pitches
/// before.
proof fn lemma_pitch(end: int, len: int, i: int)
    requires
        i >= 0,
    ensures
        24 * len * (5 * i + 1) <= end < 24 * len * (5 * i + 4) <==> {
            &&& len > 0
            &&& i * (120 * len) <= end < (i + 1) * (120 * len)
            &&& 24 * len <= end % (120 * len) < 96 * len
        },
        len > 0 ==> 0 <= i * (120 * len) <= (i + 1) * (120 * len),
{
    let pitch = 120 * len;
    assert(24 * len * (5 * i + 1) == i * pitch + 24 * len) by (nonlinear_arith)
        requires
            pitch == 120 * len,
    ;
    assert(24 * len * (5 * i + 4) == i * pitch + 96 * len) by (nonlinear_arith)
        requires
            pitch == 120 * len,
    ;
    assert((i + 1) * pitch == i * pitch + pitch) by (nonlinear_arith);
    if len > 0 {
        assert(0 <= i * pitch) by (nonlinear_arith)
            requires
                i >= 0,
                pitch > 0,
        ;
        if i * pitch <= end < (i + 1) * pitch {
            lemma_fundamental_div_mod_converse(end, pitch, i, end - i * pitch);
        }
    }
}

/// A step lies beyond a share where the share of its end is larger.
proof fn lemma_past_share(p: int, a: int, n: int)
    by (nonlinear_arith)
    requires
        n > 0,
    ensures
        a / n <= p <==> a < n * (p + 1),
{
}

/// A rounded corner fills, in the thickness of the stroke, what is left of each
/// arm between the quarter circle and the edge of the cell, and a square about
/// each point of the sweep. The circle touches both center lines, and its radius
/// is half the smaller side of the cell.
pub proof fn law_rounded_strokes(
    s: Spec,
    cell: Cell,
    t: int,
    offsets: Seq<(i64, i64)>,
    px: int,
    py: int,
)
    ensures
        geometry::covered(drawing::arc(s, cell, t, offsets), px, py) <==> {
            let (l, r) = (120 * cell.x, 120 * (cell.x + cell.width));
            let (u, d) = (120 * cell.y, 120 * (cell.y + cell.height));
            let (cx, cy) = (60 * (2 * cell.x + cell.width), 60 * (2 * cell.y + cell.height));
            let radius = if cell.width <= cell.height {
                60 * cell.width
            } else {
                60 * cell.height
            };
            let (ox, oy) = (
                if s.right is Some {
                    cx + radius
                } else {
                    cx - radius
                },
                if s.down is Some {
                    cy + radius
                } else {
                    cy - radius
                },
            );
            ||| {
                &&& cy - 60 * t <= py < cy + 60 * t
                &&& if s.right is Some {
                    ox <= px < r
                } else {
                    l <= px < ox
                }
            }
            ||| {
                &&& cx - 60 * t <= px < cx + 60 * t
                &&& if s.down is Some {
                    oy <= py < d
                } else {
                    u <= py < oy
                }
            }
            ||| exists|k: int|
                0 <= k < offsets.len() && {
                    let (x, y) = (ox + 60 * (#[trigger] offsets[k]).0, oy + 60 * offsets[k].1);
                    x - 60 * t <= px < x + 60 * t && y - 60 * t <= py < y + 60 * t
                }
        },
{
    let (a, b) = (drawing::arc_hstub(s, cell, t), drawing::arc_vstub(s, cell, t));
    let squares = drawing::arc_squares(s, cell, t, offsets);
    let (r, cx, cy) = (drawing::arc_radius(cell), cell.center_x(), cell.center_y());
    coverage::lemma_covered_concat(a, b, px, py);
    coverage::lemma_covered_concat(a + b, squares, px, py);
    coverage::lemma_covered_hbar(cx + r, cell.right_edge(), cy, t, px, py);
    coverage::lemma_covered_hbar(cell.left_edge(), cx - r, cy, t, px, py);
    coverage::lemma_covered_vbar(cx, cy + r, cell.bottom_edge(), t, px, py);
    coverage::lemma_covered_vbar(cx, cell.top_edge(), cy - r, t, px, py);
    lemma_covered_squares(s, cell, t, offsets, px, py);
}

/// What the squares of a rounded corner cover.
proof fn lemma_covered_squares(
    s: Spec,
    cell: Cell,
    t: int,
    offsets: Seq<(i64, i64)>,
    px: int,
    py: int,
)
    ensures
        geometry::covered(drawing::arc_squares(s, cell, t, offsets), px, py) <==> exists|k: int|
            0 <= k < offsets.len() && {
                let (ox, oy) = drawing::arc_center(s, cell);
                let (x, y) = (ox + 60 * (#[trigger] offsets[k]).0, oy + 60 * offsets[k].1);
                x - 60 * t <= px < x + 60 * t && y - 60 * t <= py < y + 60 * t
            },
{
    let squares = drawing::arc_squares(s, cell, t, offsets);
    let (ox, oy) = drawing::arc_center(s, cell);
    if geometry::covered(squares, px, py) {
        let k = choose|k: int| 0 <= k < squares.len() && (#[trigger] squares[k]).contains(px, py);
        let (x, y) = (ox + 60 * offsets[k].0, oy + 60 * offsets[k].1);
        assert(x - 60 * t <= px < x + 60 * t && y - 60 * t <= py < y + 60 * t);
    }
    assert forall|k: int|
        0 <= k < offsets.len() && {
            let (x, y) = (ox + 60 * (#[trigger] offsets[k]).0, oy + 60 * offsets[k].1);
            x - 60 * t <= px < x + 60 * t && y - 60 * t <= py < y + 60 * t
        } implies geometry::covered(squares, px, py) by {
        assert(squares[k].contains(px, py));
    }
}

/// A sweep asks for the points of the quarter circle, one more than there are
/// pixels to the diameter, in equal steps from straight above or below the
/// center to the other end. The radius counts in half units.
pub proof fn law_sweep<F: Fn(i64, i64, i64) -> (i64, i64)>(
    polar: F,
    s: Spec,
    cell: Cell,
    offsets: Seq<(i64, i64)>,
    i: int,
)
    requires
        drawing::swept(polar, s, cell, offsets),
        0 <= i < offsets.len(),
    ensures
        ({
            let radius = if cell.width <= cell.height {
                cell.width
            } else {
                cell.height
            };
            let n = offsets.len() - 1;
            let start = if s.down is Some {
                -n
            } else {
                n
            };
            let angle = if (s.right is Some) == (s.down is Some) {
                start - i
            } else {
                start + i
            };
            &&& n >= 1
            &&& radius <= n * PIXEL
            &&& n == 1 || (n - 1) * PIXEL < radius
            &&& call_ensures(polar, (radius, angle as i64, n as i64), offsets[i])
        }),
{
    let d = drawing::arc_diameter(cell);
    assert(call_ensures(
        polar,
        (d as i64, drawing::arc_angle(s, cell, i) as i64, drawing::arc_steps(cell) as i64),
        offsets[i],
    ));
}

/// What [`crate::render`] fills for a glyph of single strokes.
pub proof fn law_render_single<F: Fn(i64, i64, i64) -> (i64, i64)>(
    polar: F,
    c: char,
    cell: Cell,
    light: i64,
    heavy: i64,
    out: Vec<Rect>,
    s: Spec,
    px: int,
    py: int,
)
    requires
        call_ensures(render::<F>, (c, cell, light, heavy, polar), out),
        call_ensures(shape, (c,), Some(Shape::Lines(s))),
        !s.arc,
        s.dashes == 0,
        ({
            let twice = Some(Weight::Double);
            s.up != twice && s.down != twice && s.left != twice && s.right != twice
        }),
    ensures
        (exists|k: int|
            0 <= k < out.len() && (#[trigger] out@[k]).x <= px < out@[k].x + out@[k].width
                && out@[k].y <= py < out@[k].y + out@[k].height) <==> {
            let (l, r) = (120 * cell.x, 120 * (cell.x + cell.width));
            let (u, d) = (120 * cell.y, 120 * (cell.y + cell.height));
            let (cx, cy) = (60 * (2 * cell.x + cell.width), 60 * (2 * cell.y + cell.height));
            let (left, right) = (
                match s.left {
                    Some(Weight::Heavy) => heavy as int,
                    Some(_) => light as int,
                    None => 0,
                },
                match s.right {
                    Some(Weight::Heavy) => heavy as int,
                    Some(_) => light as int,
                    None => 0,
                },
            );
            let (up, down) = (
                match s.up {
                    Some(Weight::Heavy) => heavy as int,
                    Some(_) => light as int,
                    None => 0,
                },
                match s.down {
                    Some(Weight::Heavy) => heavy as int,
                    Some(_) => light as int,
                    None => 0,
                },
            );
            ||| l <= px < cx && cy - 60 * left <= py < cy + 60 * left
            ||| cx <= px < r && cy - 60 * right <= py < cy + 60 * right
            ||| u <= py < cy && cx - 60 * up <= px < cx + 60 * up
            ||| cy <= py < d && cx - 60 * down <= px < cx + 60 * down
            ||| {
                &&& cx - 60 * up <= px < cx + 60 * up || cx - 60 * down <= px < cx + 60 * down
                &&& cy - 60 * left <= py < cy + 60 * left || cy - 60 * right <= py < cy + 60
                    * right
            }
        },
        cell.width > 0 && cell.height > 0 && light > 0 && heavy > 0 ==> out.len() == {
            let across = if s.left is Some {
                1int
            } else {
                0
            } + if s.right is Some {
                1int
            } else {
                0
            };
            let along = if s.up is Some {
                1int
            } else {
                0
            } + if s.down is Some {
                1int
            } else {
                0
            };
            across + along + if across > 0 && along > 0 {
                1int
            } else {
                0
            }
        },
{
    law_covered(out@, px, py);
    law_single_strokes(s, cell, light as int, heavy as int, px, py);
}

/// What [`crate::render`] fills for a glyph with double strokes. The heavy
/// thickness has no part in it.
pub proof fn law_render_double<F: Fn(i64, i64, i64) -> (i64, i64)>(
    polar: F,
    c: char,
    cell: Cell,
    light: i64,
    heavy: i64,
    out: Vec<Rect>,
    s: Spec,
    px: int,
    py: int,
)
    requires
        call_ensures(render::<F>, (c, cell, light, heavy, polar), out),
        call_ensures(shape, (c,), Some(Shape::Lines(s))),
        !s.arc,
        s.dashes == 0,
        ({
            let twice = Some(Weight::Double);
            s.up == twice || s.down == twice || s.left == twice || s.right == twice
        }),
    ensures
        (exists|k: int|
            0 <= k < out.len() && (#[trigger] out@[k]).x <= px < out@[k].x + out@[k].width
                && out@[k].y <= py < out@[k].y + out@[k].height) <==> {
            let t = light as int;
            let (l, r) = (120 * cell.x, 120 * (cell.x + cell.width));
            let (u, d) = (120 * cell.y, 120 * (cell.y + cell.height));
            let (cx, cy) = (60 * (2 * cell.x + cell.width), 60 * (2 * cell.y + cell.height));
            let off = if t >= PIXEL {
                120 * t
            } else {
                120 * PIXEL
            };
            let (level, upright) = (
                s.left is Some || s.right is Some,
                s.up is Some || s.down is Some,
            );
            // The outermost rails of each axis.
            let (dy, dx) = (
                if s.left == Some(Weight::Double) || s.right == Some(Weight::Double) {
                    off
                } else {
                    0
                },
                if s.up == Some(Weight::Double) || s.down == Some(Weight::Double) {
                    off
                } else {
                    0
                },
            );
            // The outer sides of the rails, and how far the rails run.
            let (x0, x1) = (cx - dx - 60 * t, cx + dx + 60 * t);
            let (y0, y1) = (cy - dy - 60 * t, cy + dy + 60 * t);
            let (from_x, to_x) = (
                if s.left is Some {
                    l
                } else if upright {
                    x0
                } else {
                    cx
                },
                if s.right is Some {
                    r
                } else if upright {
                    x1
                } else {
                    cx
                },
            );
            let (from_y, to_y) = (
                if s.up is Some {
                    u
                } else if level {
                    y0
                } else {
                    cy
                },
                if s.down is Some {
                    d
                } else if level {
                    y1
                } else {
                    cy
                },
            );
            let (whole_x, open_x) = (
                from_x <= px < to_x,
                from_x <= px < x0 || x1 <= px < to_x,
            );
            let (whole_y, open_y) = (
                from_y <= py < to_y,
                from_y <= py < y0 || y1 <= py < to_y,
            );
            let on_top = cy - dy - 60 * t <= py < cy - dy + 60 * t;
            let on_bottom = cy + dy - 60 * t <= py < cy + dy + 60 * t;
            let on_left = cx - dx - 60 * t <= px < cx - dx + 60 * t;
            let on_right = cx + dx - 60 * t <= px < cx + dx + 60 * t;
            ||| level && on_top && if dy > 0 && s.up is Some && s.down is None {
                open_x
            } else {
                whole_x
            }
            ||| level && on_bottom && if dy > 0 && s.down is Some && s.up is None {
                open_x
            } else {
                whole_x
            }
            ||| upright && on_left && if dx > 0 && s.left is Some && s.right is None {
                open_y
            } else {
                whole_y
            }
            ||| upright && on_right && if dx > 0 && s.right is Some && s.left is None {
                open_y
            } else {
                whole_y
            }
        },
        out.len() <= 6,
{
    law_covered(out@, px, py);
    law_double_strokes(s, cell, light as int, px, py);
}

/// What [`crate::render`] fills for a dashed line.
pub proof fn law_render_dashed<F: Fn(i64, i64, i64) -> (i64, i64)>(
    polar: F,
    c: char,
    cell: Cell,
    light: i64,
    heavy: i64,
    out: Vec<Rect>,
    s: Spec,
    px: int,
    py: int,
)
    requires
        call_ensures(render::<F>, (c, cell, light, heavy, polar), out),
        call_ensures(shape, (c,), Some(Shape::Lines(s))),
        !s.arc,
        s.dashes > 0,
    ensures
        (exists|k: int|
            0 <= k < out.len() && (#[trigger] out@[k]).x <= px < out@[k].x + out@[k].width
                && out@[k].y <= py < out@[k].y + out@[k].height) <==> {
            let heavy_line = s.up == Some(Weight::Heavy) || s.left == Some(Weight::Heavy);
            let t = if heavy_line {
                heavy as int
            } else {
                light as int
            };
            let (l, r) = (120 * cell.x, 120 * (cell.x + cell.width));
            let (u, d) = (120 * cell.y, 120 * (cell.y + cell.height));
            let (cx, cy) = (60 * (2 * cell.x + cell.width), 60 * (2 * cell.y + cell.height));
            let (n, level) = (s.dashes as int, s.left is Some || s.right is Some);
            let (len, along, across) = if level {
                (cell.width as int, px - l, py - cy)
            } else {
                (cell.height as int, py - u, px - cx)
            };
            // How far into the line, in `n`ths of a fine step, the point ends.
            let end = n * (along + 1) - 1;
            &&& -60 * t <= across < 60 * t
            &&& len > 0
            &&& 0 <= end < n * (120 * len)
            &&& 24 * len <= end % (120 * len) < 96 * len
        },
        cell.width > 0 && cell.height > 0 && light > 0 && heavy > 0 ==> out.len() == s.dashes,
        forall|k: int|
            0 <= k < out.len() ==> {
                let t = if s.up == Some(Weight::Heavy) || s.left == Some(Weight::Heavy) {
                    heavy
                } else {
                    light
                };
                if s.left is Some {
                    (#[trigger] out@[k]).height == 120 * t && out@[k].y + 60 * t == 60 * (2
                        * cell.y + cell.height)
                } else {
                    out@[k].width == 120 * t && out@[k].x + 60 * t == 60 * (2 * cell.x
                        + cell.width)
                }
            },
{
    law_covered(out@, px, py);
    names::law_table(c);
    let t = if s.up == Some(Weight::Heavy) || s.left == Some(Weight::Heavy) {
        heavy as int
    } else {
        light as int
    };
    law_dashed_strokes(s, cell, t, px, py);
    lemma_dash_band(s, cell, t, s.dashes as nat);
    if cell.width > 0 && cell.height > 0 && t > 0 {
        extent::lemma_dashes_listed(s, cell, t, s.dashes as nat);
    }
    let list = geometry::areas(out@);
    assert forall|k: int| 0 <= k < out.len() implies (#[trigger] out@[k])@ == list[k] by {}
}

/// Dashes lie across the center line in the thickness of the stroke.
proof fn lemma_dash_band(s: Spec, cell: Cell, t: int, k: nat)
    ensures
        forall|i: int|
            0 <= i < drawing::first_dashes(s, cell, t, k).len() ==> {
                let a = #[trigger] drawing::first_dashes(s, cell, t, k)[i];
                if s.horizontal() {
                    a.height == 120 * t && a.y + 60 * t == cell.center_y()
                } else {
                    a.width == 120 * t && a.x + 60 * t == cell.center_x()
                }
            },
    decreases k,
{
    if k > 0 {
        let rest = drawing::first_dashes(s, cell, t, (k - 1) as nat);
        let last = drawing::dash(s, cell, t, k - 1);
        let list = drawing::first_dashes(s, cell, t, k);
        lemma_dash_band(s, cell, t, (k - 1) as nat);
        assert forall|i: int| 0 <= i < list.len() implies {
            let a = #[trigger] list[i];
            if s.horizontal() {
                a.height == 120 * t && a.y + 60 * t == cell.center_y()
            } else {
                a.width == 120 * t && a.x + 60 * t == cell.center_x()
            }
        } by {
            if i < rest.len() {
                assert(list[i] == rest[i]);
            } else {
                assert(list[i] == last[i - rest.len()]);
            }
        }
    }
}

/// Dashes lie on the line that the solid glyph of the same arms is drawn on: what
/// a dashed line fills, the solid line fills too.
pub proof fn law_dashes_on_solid_line<F: Fn(i64, i64, i64) -> (i64, i64)>(
    polar: F,
    c: char,
    solid: char,
    cell: Cell,
    light: i64,
    heavy: i64,
    out: Vec<Rect>,
    line: Vec<Rect>,
    s: Spec,
    px: int,
    py: int,
)
    requires
        call_ensures(render::<F>, (c, cell, light, heavy, polar), out),
        call_ensures(render::<F>, (solid, cell, light, heavy, polar), line),
        call_ensures(shape, (c,), Some(Shape::Lines(s))),
        call_ensures(shape, (solid,), Some(Shape::Lines(Spec { dashes: 0, ..s }))),
        s.dashes > 0,
        geometry::covered(geometry::areas(out@), px, py),
    ensures
        geometry::covered(geometry::areas(line@), px, py),
{
    names::law_table(c);
    law_covered(out@, px, py);
    law_covered(line@, px, py);
    law_render_dashed(polar, c, cell, light, heavy, out, s, px, py);
    law_render_single(
        polar,
        solid,
        cell,
        light,
        heavy,
        line,
        Spec { dashes: 0, ..s },
        px,
        py,
    );
    let n = s.dashes as int;
    let (len, along) = if s.left is Some {
        (cell.width as int, px - 120 * cell.x)
    } else {
        (cell.height as int, py - 120 * cell.y)
    };
    assert(0 <= along < 120 * len) by (nonlinear_arith)
        requires
            0 <= n * (along + 1) - 1 < n * (120 * len),
            n > 0,
    ;
}

/// What [`crate::render`] fills for a rounded corner: the part of it that lies in
/// the cell, for one sweep that `polar` answered.
pub proof fn law_render_rounded<F: Fn(i64, i64, i64) -> (i64, i64)>(
    polar: F,
    c: char,
    cell: Cell,
    light: i64,
    heavy: i64,
    out: Vec<Rect>,
    s: Spec,
) -> (offsets: Seq<(i64, i64)>)
    requires
        call_ensures(render::<F>, (c, cell, light, heavy, polar), out),
        call_ensures(shape, (c,), Some(Shape::Lines(s))),
        s.arc,
    ensures
        drawing::swept(polar, s, cell, offsets),
        out.len() <= offsets.len() + 2,
        forall|px: int, py: int| #[trigger]
            geometry::covered(geometry::areas(out@), px, py) <==> {
            let t = light as int;
            &&& 120 * cell.x <= px < 120 * (cell.x + cell.width)
            &&& 120 * cell.y <= py < 120 * (cell.y + cell.height)
            &&& {
                let (l, r) = (120 * cell.x, 120 * (cell.x + cell.width));
                let (u, d) = (120 * cell.y, 120 * (cell.y + cell.height));
                let (cx, cy) = (60 * (2 * cell.x + cell.width), 60 * (2 * cell.y + cell.height));
                let radius = if cell.width <= cell.height {
                    60 * cell.width
                } else {
                    60 * cell.height
                };
                let (ox, oy) = (
                    if s.right is Some {
                        cx + radius
                    } else {
                        cx - radius
                    },
                    if s.down is Some {
                        cy + radius
                    } else {
                        cy - radius
                    },
                );
                ||| {
                    &&& cy - 60 * t <= py < cy + 60 * t
                    &&& if s.right is Some {
                        ox <= px < r
                    } else {
                        l <= px < ox
                    }
                }
                ||| {
                    &&& cx - 60 * t <= px < cx + 60 * t
                    &&& if s.down is Some {
                        oy <= py < d
                    } else {
                        u <= py < oy
                    }
                }
                ||| exists|k: int|
                    0 <= k < offsets.len() && {
                        let (x, y) = (ox + 60 * (#[trigger] offsets[k]).0, oy + 60 * offsets[k].1);
                        x - 60 * t <= px < x + 60 * t && y - 60 * t <= py < y + 60 * t
                    }
            }
        },
{
    let list = geometry::areas(out@);
    let offsets = choose|offsets: Seq<(i64, i64)>|
        #![trigger drawing::swept(polar, s, cell, offsets)]
        drawing::swept(polar, s, cell, offsets) && list == drawing::drawing(
            c,
            cell,
            light as int,
            heavy as int,
            offsets,
        );
    assert forall|px: int, py: int| #[trigger] geometry::covered(list, px, py) <==> {
            let t = light as int;
            &&& 120 * cell.x <= px < 120 * (cell.x + cell.width)
            &&& 120 * cell.y <= py < 120 * (cell.y + cell.height)
            &&& {
                let (l, r) = (120 * cell.x, 120 * (cell.x + cell.width));
                let (u, d) = (120 * cell.y, 120 * (cell.y + cell.height));
                let (cx, cy) = (60 * (2 * cell.x + cell.width), 60 * (2 * cell.y + cell.height));
                let radius = if cell.width <= cell.height {
                    60 * cell.width
                } else {
                    60 * cell.height
                };
                let (ox, oy) = (
                    if s.right is Some {
                        cx + radius
                    } else {
                        cx - radius
                    },
                    if s.down is Some {
                        cy + radius
                    } else {
                        cy - radius
                    },
                );
                ||| {
                    &&& cy - 60 * t <= py < cy + 60 * t
                    &&& if s.right is Some {
                        ox <= px < r
                    } else {
                        l <= px < ox
                    }
                }
                ||| {
                    &&& cx - 60 * t <= px < cx + 60 * t
                    &&& if s.down is Some {
                        oy <= py < d
                    } else {
                        u <= py < oy
                    }
                }
                ||| exists|k: int|
                    0 <= k < offsets.len() && {
                        let (x, y) = (ox + 60 * (#[trigger] offsets[k]).0, oy + 60 * offsets[k].1);
                        x - 60 * t <= px < x + 60 * t && y - 60 * t <= py < y + 60 * t
                    }
            }
        } by {
        coverage::lemma_covered_cut_all(
            drawing::arc(s, cell, light as int, offsets),
            cell,
            px,
            py,
        );
        law_rounded_strokes(s, cell, light as int, offsets, px, py);
    }
    lemma_cut_no_longer(drawing::arc(s, cell, light as int, offsets), cell);
    offsets
}

/// Cutting a list to the cell makes it no longer.
proof fn lemma_cut_no_longer(list: Seq<Area>, cell: Cell)
    ensures
        geometry::cut_all(list, cell).len() <= list.len(),
    decreases list.len(),
{
    if list.len() > 0 {
        lemma_cut_no_longer(list.drop_last(), cell);
    }
}

/// A rounded corner is filled all along its arms beyond the quarter circle: each
/// point of the cell in the band of an arm, from where the circle touches the
/// center line to the edge that the arm leaves through.
pub proof fn law_rounded_arms_filled<F: Fn(i64, i64, i64) -> (i64, i64)>(
    polar: F,
    c: char,
    cell: Cell,
    light: i64,
    heavy: i64,
    out: Vec<Rect>,
    s: Spec,
    px: int,
    py: int,
)
    requires
        call_ensures(render::<F>, (c, cell, light, heavy, polar), out),
        call_ensures(shape, (c,), Some(Shape::Lines(s))),
        s.arc,
        120 * cell.x <= px < 120 * (cell.x + cell.width),
        120 * cell.y <= py < 120 * (cell.y + cell.height),
        ({
            let (cx, cy) = (60 * (2 * cell.x + cell.width), 60 * (2 * cell.y + cell.height));
            let radius = if cell.width <= cell.height {
                60 * cell.width
            } else {
                60 * cell.height
            };
            ||| cy - 60 * light <= py < cy + 60 * light && if s.right is Some {
                cx + radius <= px
            } else {
                px < cx - radius
            }
            ||| cx - 60 * light <= px < cx + 60 * light && if s.down is Some {
                cy + radius <= py
            } else {
                py < cy - radius
            }
        }),
    ensures
        (exists|k: int|
            0 <= k < out.len() && (#[trigger] out@[k]).x <= px < out@[k].x + out@[k].width
                && out@[k].y <= py < out@[k].y + out@[k].height),
{
    law_covered(out@, px, py);
    let offsets = law_render_rounded(polar, c, cell, light, heavy, out, s);
    assert(geometry::covered(geometry::areas(out@), px, py));
}

/// What [`crate::render`] fills for a block: the part of the cell between the
/// given eighths of its sides, counted from its upper left corner.
pub proof fn law_render_block<F: Fn(i64, i64, i64) -> (i64, i64)>(
    polar: F,
    c: char,
    cell: Cell,
    light: i64,
    heavy: i64,
    out: Vec<Rect>,
    x0: u8,
    y0: u8,
    x1: u8,
    y1: u8,
    px: int,
    py: int,
)
    requires
        call_ensures(render::<F>, (c, cell, light, heavy, polar), out),
        call_ensures(shape, (c,), Some(Shape::Rect { x0, y0, x1, y1 })),
    ensures
        (exists|k: int|
            0 <= k < out.len() && (#[trigger] out@[k]).x <= px < out@[k].x + out@[k].width
                && out@[k].y <= py < out@[k].y + out@[k].height) <==> {
            &&& 15 * (x0 * cell.width) <= px - 120 * cell.x < 15 * (x1 * cell.width)
            &&& 15 * (y0 * cell.height) <= py - 120 * cell.y < 15 * (y1 * cell.height)
        },
        out.len() <= 1,
{
    law_covered(out@, px, py);
    blocks::lemma_covered_eighths(
        cell,
        x0 as int,
        y0 as int,
        x1 as int,
        y1 as int,
        px,
        py,
    );
}

/// What [`crate::render`] fills for a shade: the cell, once, and as opaque as the
/// shade is.
pub proof fn law_render_shade<F: Fn(i64, i64, i64) -> (i64, i64)>(
    polar: F,
    c: char,
    cell: Cell,
    light: i64,
    heavy: i64,
    out: Vec<Rect>,
    alpha: u8,
    px: int,
    py: int,
)
    requires
        call_ensures(render::<F>, (c, cell, light, heavy, polar), out),
        call_ensures(shape, (c,), Some(Shape::Shade(alpha))),
    ensures
        (exists|k: int|
            0 <= k < out.len() && (#[trigger] out@[k]).x <= px < out@[k].x + out@[k].width
                && out@[k].y <= py < out@[k].y + out@[k].height) <==> {
            &&& 120 * cell.x <= px < 120 * (cell.x + cell.width)
            &&& 120 * cell.y <= py < 120 * (cell.y + cell.height)
        },
        out.len() <= 1,
        out.len() == 1 ==> out@[0].alpha == alpha,
{
    law_covered(out@, px, py);
    if out.len() == 1 {
        assert(geometry::areas(out@)[0].alpha == out@[0].alpha);
    }
    blocks::law_shade_fills_cell(
        alpha,
        cell,
        light as int,
        heavy as int,
        Seq::empty(),
        px,
        py,
    );
}

/// What [`crate::render`] fills for a quadrant glyph: the quarters of the cell
/// that it names.
pub proof fn law_render_quadrants<F: Fn(i64, i64, i64) -> (i64, i64)>(
    polar: F,
    c: char,
    cell: Cell,
    light: i64,
    heavy: i64,
    out: Vec<Rect>,
    ul: bool,
    ur: bool,
    ll: bool,
    lr: bool,
    px: int,
    py: int,
)
    requires
        call_ensures(render::<F>, (c, cell, light, heavy, polar), out),
        call_ensures(shape, (c,), Some(Shape::Quadrants { ul, ur, ll, lr })),
    ensures
        (exists|k: int|
            0 <= k < out.len() && (#[trigger] out@[k]).x <= px < out@[k].x + out@[k].width
                && out@[k].y <= py < out@[k].y + out@[k].height) <==> {
            let (l, r) = (120 * cell.x, 120 * (cell.x + cell.width));
            let (u, d) = (120 * cell.y, 120 * (cell.y + cell.height));
            let (cx, cy) = (60 * (2 * cell.x + cell.width), 60 * (2 * cell.y + cell.height));
            ||| ul && l <= px < cx && u <= py < cy
            ||| ur && cx <= px < r && u <= py < cy
            ||| ll && l <= px < cx && cy <= py < d
            ||| lr && cx <= px < r && cy <= py < d
        },
        out.len() <= 4,
{
    law_covered(out@, px, py);
    blocks::lemma_covered_quadrants(cell, ul, ur, ll, lr, px, py);
}

/// Everything but the shades is drawn fully opaque, in rectangles that are not
/// empty, and nothing is drawn for a character that is left to the font.
pub proof fn law_render_opaque<F: Fn(i64, i64, i64) -> (i64, i64)>(
    polar: F,
    c: char,
    cell: Cell,
    light: i64,
    heavy: i64,
    out: Vec<Rect>,
    k: int,
)
    requires
        call_ensures(render::<F>, (c, cell, light, heavy, polar), out),
        0 <= k < out.len(),
    ensures
        out@[k].width > 0 && out@[k].height > 0,
        0x2500 <= c as u32 <= 0x2570 || 0x2574 <= c as u32 <= 0x259F,
        !(0x2591 <= c as u32 <= 0x2593) ==> out@[k].alpha == 4,
{
    let list = geometry::areas(out@);
    assert(list[k] == out@[k]@);
    names::law_drawable_range(c);
    let (t, h) = (light as int, heavy as int);
    if let Some(made) = names::named(c) {
        let offsets = match made {
            Shape::Lines(s) if s.arc => choose|offsets: Seq<(i64, i64)>|
                #![trigger drawing::swept(polar, s, cell, offsets)]
                drawing::swept(polar, s, cell, offsets) && list == drawing::drawing(
                    c,
                    cell,
                    t,
                    h,
                    offsets,
                ),
            _ => Seq::empty(),
        };
        extent::law_no_empty_rect(made, cell, t, h, offsets);
        if !(made is Shade) {
            lemma_opaque(made, cell, t, h, offsets);
        }
    }
}

/// Whether every rectangle of the list is fully opaque.
spec fn opaque(list: Seq<Area>) -> bool {
    forall|i: int| 0 <= i < list.len() ==> (#[trigger] list[i]).alpha == 4
}

/// A concatenation of opaque lists is opaque.
proof fn lemma_opaque_concat(a: Seq<Area>, b: Seq<Area>)
    requires
        opaque(a),
        opaque(b),
    ensures
        opaque(a + b),
{
    assert forall|i: int| 0 <= i < (a + b).len() implies (#[trigger] (a + b)[i]).alpha == 4 by {
        if i < a.len() {
            assert((a + b)[i] == a[i]);
        } else {
            assert((a + b)[i] == b[i - a.len()]);
        }
    }
}

/// A line of dashes is opaque.
proof fn lemma_opaque_dashes(s: Spec, cell: Cell, t: int, k: nat)
    ensures
        opaque(drawing::first_dashes(s, cell, t, k)),
    decreases k,
{
    if k > 0 {
        lemma_opaque_dashes(s, cell, t, (k - 1) as nat);
        lemma_opaque_concat(
            drawing::first_dashes(s, cell, t, (k - 1) as nat),
            drawing::dash(s, cell, t, k - 1),
        );
    }
}

/// What is left of an opaque list in the cell is opaque.
proof fn lemma_opaque_cut(list: Seq<Area>, cell: Cell)
    requires
        opaque(list),
    ensures
        opaque(geometry::cut_all(list, cell)),
    decreases list.len(),
{
    if list.len() > 0 {
        let rest = list.drop_last();
        assert forall|i: int| 0 <= i < rest.len() implies (#[trigger] rest[i]).alpha == 4 by {
            assert(rest[i] == list[i]);
        }
        lemma_opaque_cut(rest, cell);
        lemma_opaque_concat(geometry::cut_all(rest, cell), geometry::cut(list.last(), cell));
    }
}

/// The rails of double strokes are opaque.
proof fn lemma_opaque_rails(s: Spec, cell: Cell, t: int)
    ensures
        opaque(drawing::double(s, cell, t)),
{
    let (a0, a1) = drawing::hreach(s, cell, t);
    let (b0, b1) = drawing::vreach(s, cell, t);
    let (x0, x1) = drawing::vspan(s, cell, t);
    let (y0, y1) = drawing::hspan(s, cell, t);
    let (top, bottom) = (drawing::first_hrail(s, cell, t), drawing::last_hrail(s, cell, t));
    let (left, right) = (drawing::first_vrail(s, cell, t), drawing::last_vrail(s, cell, t));
    lemma_opaque_concat(geometry::hbar(a0, x0, top, t), geometry::hbar(x1, a1, top, t));
    lemma_opaque_concat(geometry::hbar(a0, x0, bottom, t), geometry::hbar(x1, a1, bottom, t));
    lemma_opaque_concat(geometry::vbar(left, b0, y0, t), geometry::vbar(left, y1, b1, t));
    lemma_opaque_concat(geometry::vbar(right, b0, y0, t), geometry::vbar(right, y1, b1, t));
    let (u, d) = (coverage::first_hrail_broken(s), coverage::last_hrail_broken(s));
    let (l, r) = (coverage::first_vrail_broken(s), coverage::last_vrail_broken(s));
    lemma_opaque_concat(
        drawing::hrail(s, cell, t, top, u),
        drawing::hrail(s, cell, t, bottom, d),
    );
    lemma_opaque_concat(
        drawing::vrail(s, cell, t, left, l),
        drawing::vrail(s, cell, t, right, r),
    );
    lemma_opaque_concat(drawing::hrails(s, cell, t), drawing::vrails(s, cell, t));
}

/// Every shape but a shade is opaque.
proof fn lemma_opaque(
    made: Shape,
    cell: Cell,
    light: int,
    heavy: int,
    offsets: Seq<(i64, i64)>,
)
    requires
        !(made is Shade),
    ensures
        opaque(drawing::shape_areas(made, cell, light, heavy, offsets)),
{
    match made {
        Shape::Lines(s) => {
            if s.arc {
                let (a, b) = (
                    drawing::arc_hstub(s, cell, light),
                    drawing::arc_vstub(s, cell, light),
                );
                lemma_opaque_concat(a, b);
                lemma_opaque_concat(a + b, drawing::arc_squares(s, cell, light, offsets));
                lemma_opaque_cut(drawing::arc(s, cell, light, offsets), cell);
            } else if s.dashes > 0 {
                let t = drawing::thickness(s.main_weight(), light, heavy);
                lemma_opaque_dashes(s, cell, t, s.dashes as nat);
            } else if s.doubled() {
                lemma_opaque_rails(s, cell, light);
            } else {
                let a = drawing::left_arm(s, cell, light, heavy);
                let b = drawing::right_arm(s, cell, light, heavy);
                let c = drawing::up_arm(s, cell, light, heavy);
                let d = drawing::down_arm(s, cell, light, heavy);
                lemma_opaque_concat(a, b);
                lemma_opaque_concat(a + b, c);
                lemma_opaque_concat(a + b + c, d);
                lemma_opaque_concat(a + b + c + d, drawing::junction(s, cell, light, heavy));
            }
        },
        Shape::Quadrants { ul, ur, ll, lr } => {
            let a = drawing::quadrant(cell, ul, false, false);
            let b = drawing::quadrant(cell, ur, true, false);
            let c = drawing::quadrant(cell, ll, false, true);
            let d = drawing::quadrant(cell, lr, true, true);
            lemma_opaque_concat(a, b);
            lemma_opaque_concat(a + b, c);
            lemma_opaque_concat(a + b + c, d);
        },
        _ => {},
    }
}

} // verus!
