//! Rendering: from a character and a cell to the rectangles to fill.

use vstd::prelude::*;

use crate::drawing;
use crate::geometry::{
    self, cut_to_cell, half_to_fine, push, push_hbar, push_vbar, to_fine, Area, Cell, Rect, OPAQUE,
    PIXEL,
};
use crate::glyph::{self, Shape, Spec, Weight};
use crate::names;

verus! {

/// The thickness of a stroke of the given weight.
pub fn thick(weight: Weight, light: i64, heavy: i64) -> (r: i64)
    ensures
        r == drawing::thickness(weight, light as int, heavy as int),
        weight == Weight::Heavy ==> r == heavy,
        weight != Weight::Heavy ==> r == light,
{
    match weight {
        Weight::Light | Weight::Double => light,
        Weight::Heavy => heavy,
    }
}

/// The weight of a straight line: that of the first arm there is, and light for
/// a glyph without arms.
pub fn weight_of(spec: &Spec) -> (r: Weight)
    ensures
        r == spec.main_weight(),
        spec.up is Some ==> spec.up == Some(r),
        spec.up is None && spec.down is Some ==> spec.down == Some(r),
        spec.up is None && spec.down is None && spec.left is Some ==> spec.left == Some(r),
        spec.up is None && spec.down is None && spec.left is None ==> r == match spec.right {
            Some(weight) => weight,
            None => Weight::Light,
        },
{
    match spec.up {
        Some(weight) => weight,
        None => match spec.down {
            Some(weight) => weight,
            None => match spec.left {
                Some(weight) => weight,
                None => spec.right.unwrap_or(Weight::Light),
            },
        },
    }
}

/// The thickness of the thicker of two arms. An arm that is not there counts as
/// zero.
pub fn max_thick(a: Option<Weight>, b: Option<Weight>, light: i64, heavy: i64) -> (r: i64)
    ensures
        r == drawing::longer(
            drawing::arm_thickness(a, light as int, heavy as int),
            drawing::arm_thickness(b, light as int, heavy as int),
        ),
        ({
            let one = match a {
                Some(Weight::Heavy) => heavy,
                Some(_) => light,
                None => 0,
            };
            let other = match b {
                Some(Weight::Heavy) => heavy,
                Some(_) => light,
                None => 0,
            };
            one <= r && other <= r && (r == one || r == other)
        }),
{
    let ta: i64 = match a {
        Some(weight) => thick(weight, light, heavy),
        None => 0,
    };
    let tb: i64 = match b {
        Some(weight) => thick(weight, light, heavy),
        None => 0,
    };
    if ta >= tb {
        ta
    } else {
        tb
    }
}

/// Whether an arm is there and doubled.
fn is_double(arm: Option<Weight>) -> (r: bool)
    ensures
        r == (arm == Some(Weight::Double)),
{
    match arm {
        Some(Weight::Double) => true,
        _ => false,
    }
}

/// Appending is associative.
proof fn lemma_append_assoc(a: Seq<Area>, b: Seq<Area>, c: Seq<Area>)
    ensures
        (a + b) + c == a + (b + c),
{
    assert((a + b) + c =~= a + (b + c));
}

/// Appends a horizontal rail on the line `y` from `start` to `end`, interrupted
/// from `g0` to `g1` where it is broken.
fn push_hrail(
    out: &mut Vec<Rect>,
    start: i128,
    end: i128,
    g0: i128,
    g1: i128,
    y: i128,
    t: i64,
    broken: bool,
)
    requires
        geometry::within_reach(start as int),
        geometry::within_reach(end as int),
        geometry::within_reach(g0 as int),
        geometry::within_reach(g1 as int),
        geometry::within_reach(y as int),
    ensures
        geometry::areas(final(out)@) == geometry::areas(old(out)@) + if broken {
            geometry::hbar(start as int, g0 as int, y as int, t as int) + geometry::hbar(
                g1 as int,
                end as int,
                y as int,
                t as int,
            )
        } else {
            geometry::hbar(start as int, end as int, y as int, t as int)
        },
{
    if broken {
        push_hbar(out, start, g0, y, t);
        push_hbar(out, g1, end, y, t);
        proof {
            lemma_append_assoc(
                geometry::areas(old(out)@),
                geometry::hbar(start as int, g0 as int, y as int, t as int),
                geometry::hbar(g1 as int, end as int, y as int, t as int),
            );
        }
    } else {
        push_hbar(out, start, end, y, t);
    }
}

/// Appends a vertical rail on the line `x` from `start` to `end`, interrupted
/// from `g0` to `g1` where it is broken.
fn push_vrail(
    out: &mut Vec<Rect>,
    start: i128,
    end: i128,
    g0: i128,
    g1: i128,
    x: i128,
    t: i64,
    broken: bool,
)
    requires
        geometry::within_reach(start as int),
        geometry::within_reach(end as int),
        geometry::within_reach(g0 as int),
        geometry::within_reach(g1 as int),
        geometry::within_reach(x as int),
    ensures
        geometry::areas(final(out)@) == geometry::areas(old(out)@) + if broken {
            geometry::vbar(x as int, start as int, g0 as int, t as int) + geometry::vbar(
                x as int,
                g1 as int,
                end as int,
                t as int,
            )
        } else {
            geometry::vbar(x as int, start as int, end as int, t as int)
        },
{
    if broken {
        push_vbar(out, x, start, g0, t);
        push_vbar(out, x, g1, end, t);
        proof {
            lemma_append_assoc(
                geometry::areas(old(out)@),
                geometry::vbar(x as int, start as int, g0 as int, t as int),
                geometry::vbar(x as int, g1 as int, end as int, t as int),
            );
        }
    } else {
        push_vbar(out, x, start, end, t);
    }
}

/// Render a glyph that has at least one double-weight arm.
///
/// Double lines are drawn as two parallel light rails offset from each axis. At
/// a junction, a rail is interrupted across the perpendicular span when a
/// single perpendicular arm passes through it (e.g. the inner line of a corner,
/// or the broken rail of a tee), which produces the characteristic open center.
pub fn render_double(spec: &Spec, cell: Cell, t: i64, out: &mut Vec<Rect>)
    ensures
        geometry::areas(final(out)@) == geometry::areas(old(out)@) + drawing::double(
            *spec,
            cell,
            t as int,
        ),
{
    let (cx, cy) = (cell.cx(), cell.cy());
    let (left_edge, right_edge) = (to_fine(cell.x), to_fine(cell.x) + to_fine(cell.width));
    let (top_edge, bottom_edge) = (to_fine(cell.y), to_fine(cell.y) + to_fine(cell.height));
    let half = half_to_fine(t);
    let off = if t >= PIXEL {
        to_fine(t)
    } else {
        to_fine(PIXEL)
    };
    let (up, down, left, right) = (
        spec.up.is_some(),
        spec.down.is_some(),
        spec.left.is_some(),
        spec.right.is_some(),
    );
    let h_double = is_double(spec.left) || is_double(spec.right);
    let v_double = is_double(spec.up) || is_double(spec.down);
    let (vx_min, vx_max) = if v_double {
        (cx - off, cx + off)
    } else {
        (cx, cx)
    };
    let (hy_min, hy_max) = if h_double {
        (cy - off, cy + off)
    } else {
        (cy, cy)
    };

    // Horizontal rails exist only if there is a horizontal arm; likewise the
    // vertical rails. (Otherwise a straight ═ would sprout a vertical stub.)
    let ghost before = geometry::areas(out@);
    if left || right {
        let start = if left {
            left_edge
        } else if up || down {
            vx_min - half
        } else {
            cx
        };
        let end = if right {
            right_edge
        } else if up || down {
            vx_max + half
        } else {
            cx
        };
        let (g0, g1) = (vx_min - half, vx_max + half);
        if h_double {
            push_hrail(out, start, end, g0, g1, hy_min, t, up && !down);
            push_hrail(out, start, end, g0, g1, hy_max, t, down && !up);
            proof {
                lemma_append_assoc(
                    before,
                    drawing::hrail(*spec, cell, t as int, hy_min as int, up && !down),
                    drawing::hrail(*spec, cell, t as int, hy_max as int, down && !up),
                );
            }
        } else {
            push_hrail(out, start, end, g0, g1, cy, t, false);
        }
    } else {
        assert(geometry::areas(out@) =~= before + drawing::hrails(*spec, cell, t as int));
    }
    assert(geometry::areas(out@) == before + drawing::hrails(*spec, cell, t as int));

    // Vertical rails.
    let ghost between = geometry::areas(out@);
    if up || down {
        let start = if up {
            top_edge
        } else if left || right {
            hy_min - half
        } else {
            cy
        };
        let end = if down {
            bottom_edge
        } else if left || right {
            hy_max + half
        } else {
            cy
        };
        let (g0, g1) = (hy_min - half, hy_max + half);
        if v_double {
            push_vrail(out, start, end, g0, g1, vx_min, t, left && !right);
            push_vrail(out, start, end, g0, g1, vx_max, t, right && !left);
            proof {
                lemma_append_assoc(
                    between,
                    drawing::vrail(*spec, cell, t as int, vx_min as int, left && !right),
                    drawing::vrail(*spec, cell, t as int, vx_max as int, right && !left),
                );
            }
        } else {
            push_vrail(out, start, end, g0, g1, cx, t, false);
        }
    } else {
        assert(geometry::areas(out@) =~= between + drawing::vrails(*spec, cell, t as int));
    }
    assert(geometry::areas(out@) == between + drawing::vrails(*spec, cell, t as int));
    proof {
        lemma_append_assoc(
            before,
            drawing::hrails(*spec, cell, t as int),
            drawing::vrails(*spec, cell, t as int),
        );
    }
}

/// Render a dashed straight line (the only glyphs with `dashes > 0`).
pub fn render_dashed(spec: &Spec, cell: Cell, t: i64, out: &mut Vec<Rect>)
    ensures
        geometry::areas(final(out)@) == geometry::areas(old(out)@) + drawing::dashes(
            *spec,
            cell,
            t as int,
        ),
{
    let horizontal = spec.left.is_some() || spec.right.is_some();
    let length = if horizontal {
        cell.width
    } else {
        cell.height
    };
    let n = spec.dashes as i128;
    let (cx, cy) = (cell.cx(), cell.cy());
    let (left, top) = (to_fine(cell.x), to_fine(cell.y));
    let ghost before = geometry::areas(out@);
    assert(before =~= before + drawing::first_dashes(*spec, cell, t as int, 0));
    let mut i: u8 = 0;
    while i < spec.dashes
        invariant
            i <= spec.dashes,
            n == spec.dashes,
            horizontal == spec.horizontal(),
            length == drawing::dash_line(*spec, cell),
            cx == cell.center_x(),
            cy == cell.center_y(),
            left == cell.left_edge(),
            top == cell.top_edge(),
            geometry::areas(out@) == before + drawing::first_dashes(
                *spec,
                cell,
                t as int,
                i as nat,
            ),
        decreases spec.dashes - i,
    {
        let start = dash_edge(length, n, 5 * (i as i128) + 1);
        let end = dash_edge(length, n, 5 * (i as i128) + 4);
        if horizontal {
            push_hbar(out, left + start, left + end, cy, t);
        } else {
            push_vbar(out, cx, top + start, top + end, t);
        }
        proof {
            lemma_append_assoc(
                before,
                drawing::first_dashes(*spec, cell, t as int, i as nat),
                drawing::dash(*spec, cell, t as int, i as int),
            );
        }
        i += 1;
    }
}

/// The given number of fifths of an `n`th of `length`, in fine steps rounded
/// down.
fn dash_edge(length: i64, n: i128, fifths: i128) -> (r: i128)
    requires
        1 <= n <= 255,
        1 <= fifths <= 1280,
    ensures
        r == 24 * length * fifths / (n as int),
        -0x8000_0000_0000_0000 * 30720 <= r <= 0x8000_0000_0000_0000 * 30720,
{
    let ghost exact = 24 * length * fifths;
    assert(-0x8000_0000_0000_0000 * 30720 <= exact <= 0x8000_0000_0000_0000 * 30720)
        by (nonlinear_arith)
        requires
            exact == 24 * length * fifths,
            -0x8000_0000_0000_0000 <= length <= 0x7fff_ffff_ffff_ffff,
            1 <= fifths <= 1280,
    ;
    proof {
        lemma_share(exact, n as int);
        lemma_share(n - 1 - exact, n as int);
        lemma_rounded_down(exact, n as int);
    }
    let exact = 24 * (length as i128) * fifths;
    if exact >= 0 {
        exact / n
    } else {
        -((n - 1 - exact) / n)
    }
}

/// Rounding a number down is rounding its negative up.
proof fn lemma_rounded_down(a: int, n: int)
    by (nonlinear_arith)
    requires
        n >= 1,
    ensures
        a / n == -((n - 1 - a) / n),
{
}

/// A share of a length is no longer than the length.
proof fn lemma_share(len: int, n: int)
    by (nonlinear_arith)
    requires
        n >= 1,
    ensures
        len >= 0 ==> 0 <= len / n <= len,
        len < 0 ==> len <= len / n < 0,
{
}

/// The smaller side of a cell: the diameter of the circle that a rounded corner
/// is a quarter of.
fn arc_diameter(cell: Cell) -> (r: i64)
    ensures
        r == drawing::arc_diameter(cell),
{
    if cell.width <= cell.height {
        cell.width
    } else {
        cell.height
    }
}

/// Into how many steps the quarter turn of a rounded corner is divided.
pub fn arc_steps(cell: Cell) -> (r: i64)
    ensures
        r == drawing::arc_steps(cell),
        1 <= r <= 0x2_0000_0000,
        cell.width <= r * PIXEL || cell.height <= r * PIXEL,
        r > 1 ==> cell.width > (r - 1) * PIXEL && cell.height > (r - 1) * PIXEL,
{
    let diameter = arc_diameter(cell);
    if diameter <= PIXEL {
        1
    } else {
        (diameter - 1) / PIXEL + 1
    }
}

/// The square of a rounded corner about the point at `offset` from the center
/// of the circle, in half units.
pub fn arc_square(spec: &Spec, cell: Cell, t: i64, offset: (i64, i64)) -> (r: Rect)
    ensures
        r@ == drawing::arc_square(*spec, cell, t as int, offset),
        r.width == 120 * t && r.height == 120 * t && r.alpha == 4,
        ({
            let radius = if cell.width <= cell.height {
                cell.width as int
            } else {
                cell.height as int
            };
            &&& r.x + 60 * t == 60 * (2 * cell.x + cell.width + offset.0 + if spec.right is Some {
                radius
            } else {
                -radius
            })
            &&& r.y + 60 * t == 60 * (2 * cell.y + cell.height + offset.1 + if spec.down is Some {
                radius
            } else {
                -radius
            })
        }),
{
    let radius = half_to_fine(arc_diameter(cell));
    let ox = if spec.right.is_some() {
        cell.cx() + radius
    } else {
        cell.cx() - radius
    };
    let oy = if spec.down.is_some() {
        cell.cy() + radius
    } else {
        cell.cy() - radius
    };
    let half = half_to_fine(t);
    Rect {
        x: ox + half_to_fine(offset.0) - half,
        y: oy + half_to_fine(offset.1) - half,
        width: to_fine(t),
        height: to_fine(t),
        alpha: OPAQUE,
    }
}

/// Render a rounded corner (the arc characters ╭ ╮ ╯ ╰).
///
/// `polar(radius, angle, steps)` is the point at `radius` from the origin, in
/// the direction `angle / steps` of quarter turns, with x to the right and y
/// down. Both the radius and the point count in half units.
pub fn render_arc<F: Fn(i64, i64, i64) -> (i64, i64)>(
    spec: &Spec,
    cell: Cell,
    t: i64,
    polar: F,
    out: &mut Vec<Rect>,
)
    requires
        drawing::answers(polar),
    ensures
        exists|offsets: Seq<(i64, i64)>|
            #![trigger drawing::swept(polar, *spec, cell, offsets)]
            drawing::swept(polar, *spec, cell, offsets) && geometry::areas(final(out)@)
                == geometry::areas(old(out)@) + drawing::arc(*spec, cell, t as int, offsets),
{
    let (cx, cy) = (cell.cx(), cell.cy());
    let diameter = arc_diameter(cell);
    let radius = half_to_fine(diameter);
    let ghost before = geometry::areas(out@);

    // Straight remainder of each arm beyond the arc's tangent points.
    if spec.right.is_some() {
        push_hbar(out, cx + radius, to_fine(cell.x) + to_fine(cell.width), cy, t);
    } else {
        push_hbar(out, to_fine(cell.x), cx - radius, cy, t);
    }
    if spec.down.is_some() {
        push_vbar(out, cx, cy + radius, to_fine(cell.y) + to_fine(cell.height), t);
    } else {
        push_vbar(out, cx, to_fine(cell.y), cy - radius, t);
    }
    let ghost stubs = geometry::areas(out@);
    assert(stubs == before + drawing::arc_hstub(*spec, cell, t as int) + drawing::arc_vstub(
        *spec,
        cell,
        t as int,
    ));

    // Quarter arc as a sequence of small squares, sweeping the 90 degrees
    // between the two tangent directions from the center.
    let steps = arc_steps(cell);
    let start = if spec.down.is_some() {
        -steps
    } else {
        steps
    };
    let backwards = spec.right.is_some() == spec.down.is_some();
    let ghost mut offsets: Seq<(i64, i64)> = Seq::empty();
    let mut i: i64 = 0;
    while i <= steps
        invariant
            drawing::answers(polar),
            0 <= i <= steps + 1,
            1 <= steps <= 0x2_0000_0000,
            steps == drawing::arc_steps(cell),
            diameter == drawing::arc_diameter(cell),
            start == if spec.down is Some {
                -steps
            } else {
                steps as int
            },
            backwards == ((spec.right is Some) == (spec.down is Some)),
            offsets.len() == i,
            forall|k: int|
                0 <= k < i ==> call_ensures(
                    polar,
                    (diameter, drawing::arc_angle(*spec, cell, k) as i64, steps),
                    #[trigger] offsets[k],
                ),
            geometry::areas(out@) == stubs + drawing::arc_squares(
                *spec,
                cell,
                t as int,
                offsets,
            ),
        decreases steps + 1 - i,
    {
        let angle = if backwards {
            start - i
        } else {
            start + i
        };
        let offset = polar(diameter, angle, steps);
        let square = arc_square(spec, cell, t, offset);
        let ghost done = geometry::areas(out@);
        let ghost earlier = offsets;
        push(out, square.x, square.y, square.width, square.height, square.alpha);
        proof {
            offsets = offsets.push(offset);
            if t > 0 {
                assert(geometry::areas(out@) =~= done.push(square@));
                assert(drawing::arc_squares(*spec, cell, t as int, offsets)
                    =~= drawing::arc_squares(*spec, cell, t as int, earlier).push(square@));
            } else {
                assert(geometry::areas(out@) =~= done);
            }
            assert(geometry::areas(out@) =~= stubs + drawing::arc_squares(
                *spec,
                cell,
                t as int,
                offsets,
            ));
        }
        i += 1;
    }
    proof {
        assert(drawing::swept(polar, *spec, cell, offsets));
        assert(geometry::areas(out@) =~= before + drawing::arc(*spec, cell, t as int, offsets));
    }
}

/// Render lines, corners, junctions, dashes and arcs.
pub fn render_lines<F: Fn(i64, i64, i64) -> (i64, i64)>(
    spec: &Spec,
    cell: Cell,
    light: i64,
    heavy: i64,
    polar: F,
    out: &mut Vec<Rect>,
)
    requires
        drawing::answers(polar),
    ensures
        !spec.arc ==> geometry::areas(final(out)@) == geometry::areas(old(out)@)
            + drawing::lines(*spec, cell, light as int, heavy as int, Seq::empty()),
        spec.arc ==> exists|offsets: Seq<(i64, i64)>|
            #![trigger drawing::swept(polar, *spec, cell, offsets)]
            drawing::swept(polar, *spec, cell, offsets) && geometry::areas(final(out)@)
                == geometry::areas(old(out)@) + drawing::lines(
                *spec,
                cell,
                light as int,
                heavy as int,
                offsets,
            ),
{
    if spec.arc {
        render_arc(spec, cell, light, polar, out);
        return;
    }
    if spec.dashes > 0 {
        render_dashed(spec, cell, thick(weight_of(spec), light, heavy), out);
        return;
    }
    let doubled = is_double(spec.up) || is_double(spec.down) || is_double(spec.left) || is_double(
        spec.right,
    );
    if doubled {
        render_double(spec, cell, light, out);
        return;
    }
    // Single-rail regime: each arm is a half-bar from the cell edge to the
    // center with its own thickness, plus a central junction rectangle sized to
    // the thickest arms on each axis so corners fill without a notch.
    let (cx, cy) = (cell.cx(), cell.cy());
    let ghost before = geometry::areas(out@);
    if let Some(weight) = spec.left {
        push_hbar(out, to_fine(cell.x), cx, cy, thick(weight, light, heavy));
    }
    assert(geometry::areas(out@) =~= before + drawing::left_arm(
        *spec,
        cell,
        light as int,
        heavy as int,
    ));
    let ghost one = geometry::areas(out@);
    if let Some(weight) = spec.right {
        push_hbar(
            out,
            cx,
            to_fine(cell.x) + to_fine(cell.width),
            cy,
            thick(weight, light, heavy),
        );
    }
    assert(geometry::areas(out@) =~= one + drawing::right_arm(
        *spec,
        cell,
        light as int,
        heavy as int,
    ));
    let ghost two = geometry::areas(out@);
    if let Some(weight) = spec.up {
        push_vbar(out, cx, to_fine(cell.y), cy, thick(weight, light, heavy));
    }
    assert(geometry::areas(out@) =~= two + drawing::up_arm(
        *spec,
        cell,
        light as int,
        heavy as int,
    ));
    let ghost three = geometry::areas(out@);
    if let Some(weight) = spec.down {
        push_vbar(
            out,
            cx,
            cy,
            to_fine(cell.y) + to_fine(cell.height),
            thick(weight, light, heavy),
        );
    }
    assert(geometry::areas(out@) =~= three + drawing::down_arm(
        *spec,
        cell,
        light as int,
        heavy as int,
    ));
    let vmax = max_thick(spec.up, spec.down, light, heavy);
    let hmax = max_thick(spec.left, spec.right, light, heavy);
    push(
        out,
        cx - half_to_fine(vmax),
        cy - half_to_fine(hmax),
        to_fine(vmax),
        to_fine(hmax),
        OPAQUE,
    );
    proof {
        lemma_five(
            before,
            drawing::left_arm(*spec, cell, light as int, heavy as int),
            drawing::right_arm(*spec, cell, light as int, heavy as int),
            drawing::up_arm(*spec, cell, light as int, heavy as int),
            drawing::down_arm(*spec, cell, light as int, heavy as int),
            drawing::junction(*spec, cell, light as int, heavy as int),
        );
    }
}

/// Appending five lists one by one appends their concatenation.
proof fn lemma_five(
    base: Seq<Area>,
    a: Seq<Area>,
    b: Seq<Area>,
    c: Seq<Area>,
    d: Seq<Area>,
    e: Seq<Area>,
)
    ensures
        base + a + b + c + d + e == base + (a + b + c + d + e),
{
    assert(base + a + b + c + d + e =~= base + (a + b + c + d + e));
}

/// The rectangles that draw `c` within `cell`, using the given `light`/`heavy`
/// stroke thicknesses: none where `c` does not satisfy
/// [`crate::is_box_drawing`]. The cell and the thicknesses count in units, the
/// rectangles in fine steps. `polar` is asked for the points of a rounded
/// corner, see [`render_arc`]; what [`render_arc`] draws beyond the edges of the
/// cell is cut off.
pub fn render<F: Fn(i64, i64, i64) -> (i64, i64)>(
    c: char,
    cell: Cell,
    light: i64,
    heavy: i64,
    polar: F,
) -> (out: Vec<Rect>)
    requires
        drawing::answers(polar),
    ensures
        drawing::rendered(
            polar,
            c,
            cell,
            light as int,
            heavy as int,
            geometry::areas(out@),
        ),
{
    let mut out: Vec<Rect> = Vec::new();
    let ghost none = geometry::areas(out@);
    assert(none =~= Seq::empty());
    let shape = match glyph::shape(c) {
        Some(shape) => shape,
        None => {
            return out;
        },
    };
    let (x, y) = (to_fine(cell.x), to_fine(cell.y));
    match shape {
        Shape::Rect { x0, y0, x1, y1 } => {
            let (w, h) = (cell.width as i128, cell.height as i128);
            let (left, top) = (x0 as i128, y0 as i128);
            let (across, down) = (x1 as i128 - left, y1 as i128 - top);
            proof {
                lemma_product(left as int, w as int);
                lemma_product(top as int, h as int);
                lemma_product(across as int, w as int);
                lemma_product(down as int, h as int);
            }
            push(
                &mut out,
                x + 15 * (left * w),
                y + 15 * (top * h),
                15 * (across * w),
                15 * (down * h),
                OPAQUE,
            );
            proof {
                lemma_none(drawing::drawing(c, cell, light as int, heavy as int, Seq::empty()));
            }
        },
        Shape::Shade(alpha) => {
            push(&mut out, x, y, to_fine(cell.width), to_fine(cell.height), alpha);
            proof {
                lemma_none(drawing::drawing(c, cell, light as int, heavy as int, Seq::empty()));
            }
        },
        Shape::Quadrants { ul, ur, ll, lr } => {
            let (hw, hh) = (half_to_fine(cell.width), half_to_fine(cell.height));
            if ul {
                push(&mut out, x, y, hw, hh, OPAQUE);
            }
            assert(geometry::areas(out@) =~= drawing::quadrant(cell, ul, false, false));
            let ghost one = geometry::areas(out@);
            if ur {
                push(&mut out, x + hw, y, hw, hh, OPAQUE);
            }
            assert(geometry::areas(out@) =~= one + drawing::quadrant(cell, ur, true, false));
            let ghost two = geometry::areas(out@);
            if ll {
                push(&mut out, x, y + hh, hw, hh, OPAQUE);
            }
            assert(geometry::areas(out@) =~= two + drawing::quadrant(cell, ll, false, true));
            let ghost three = geometry::areas(out@);
            if lr {
                push(&mut out, x + hw, y + hh, hw, hh, OPAQUE);
            }
            assert(geometry::areas(out@) =~= three + drawing::quadrant(cell, lr, true, true));
        },
        Shape::Lines(spec) => {
            render_lines(&spec, cell, light, heavy, polar, &mut out);
            if spec.arc {
                // The squares about the ends of an arc stick out of the cell.
                let inside = cut_to_cell(&out, cell);
                proof {
                    let offsets = choose|offsets: Seq<(i64, i64)>|
                        #![trigger drawing::swept(polar, spec, cell, offsets)]
                        drawing::swept(polar, spec, cell, offsets) && geometry::areas(out@) == none
                            + drawing::lines(spec, cell, light as int, heavy as int, offsets);
                    lemma_none(drawing::lines(spec, cell, light as int, heavy as int, offsets));
                    assert(drawing::swept(polar, spec, cell, offsets));
                }
                return inside;
            }
            proof {
                lemma_none(drawing::lines(spec, cell, light as int, heavy as int, Seq::empty()));
            }
        },
    }
    out
}

/// Appending to nothing.
proof fn lemma_none(a: Seq<Area>)
    ensures
        Seq::empty() + a == a,
{
    assert(Seq::empty() + a =~= a);
}

/// The product of a small factor and a side of a cell leaves room in an `i128`.
proof fn lemma_product(a: int, b: int)
    by (nonlinear_arith)
    requires
        -255 <= a <= 255,
        -0x8000_0000_0000_0000 <= b <= 0x8000_0000_0000_0000,
    ensures
        -0x100_0000_0000_0000_0000 <= a * b <= 0x100_0000_0000_0000_0000,
{
}

/// The light stroke thickness for a font size, in whole pixels: a tenth of the
/// font size, rounded to the nearest pixel with halves up, but one at least.
pub open spec fn light_pixels(font_size: int) -> int {
    drawing::longer((font_size + 5 * PIXEL) / (10 * PIXEL), 1)
}

/// Light and heavy stroke thicknesses for the given font size, all in units.
///
/// Heavy is twice light; both are at least one pixel. Light is a whole number of
/// pixels, and for a font size of at least five pixels the one nearest to a tenth
/// of it, the larger one of two that are equally near.
pub fn line_thickness(font_size: i64) -> (r: (i64, i64))
    ensures
        r.0 == light_pixels(font_size as int) * PIXEL,
        r.1 == 2 * r.0,
        r.0 >= PIXEL,
        r.0 % PIXEL == 0,
        font_size >= 5 * PIXEL ==> -5 * PIXEL < 10 * r.0 - font_size <= 5 * PIXEL,
        font_size < 15 * PIXEL ==> r.0 == PIXEL,
{
    let tenth = (font_size as i128 + 5 * (PIXEL as i128)) / (10 * (PIXEL as i128));
    let light = if font_size > 0 && tenth > 1 {
        (tenth as i64) * PIXEL
    } else {
        PIXEL
    };
    (light, 2 * light)
}

/// The light thickness is a whole number of pixels within half a pixel of a tenth
/// of the font size, and one pixel for small fonts; the heavy thickness is twice
/// that. Larger fonts have no thinner strokes, and ten more pixels of font size
/// add one pixel of thickness.
pub proof fn law_line_thickness(font_size: i64, larger: i64, r: (i64, i64), q: (i64, i64))
    requires
        call_ensures(line_thickness, (font_size,), r),
        call_ensures(line_thickness, (larger,), q),
        font_size <= larger,
    ensures
        r.0 % PIXEL == 0,
        font_size >= 10 * PIXEL ==> -5 * PIXEL < 10 * r.0 - font_size <= 5 * PIXEL,
        font_size < 15 * PIXEL ==> r.0 == PIXEL,
        r.1 == 2 * r.0,
        r.0 <= q.0,
        font_size >= 5 * PIXEL && larger == font_size + 10 * PIXEL ==> q.0 == r.0 + PIXEL,
{
}

} // verus!
