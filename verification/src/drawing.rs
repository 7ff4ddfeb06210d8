//! What each glyph fills: the list of rectangles that makes up a drawing.

use vstd::prelude::*;

use crate::geometry::{self, Area, Cell, OPAQUE, PIXEL};
use crate::glyph::{Shape, Spec, Weight};
use crate::names;

verus! {

/// The thickness of a stroke of weight `w`, in units. A double stroke is a pair
/// of light rails.
pub open spec fn thickness(w: Weight, light: int, heavy: int) -> int {
    match w {
        Weight::Light | Weight::Double => light,
        Weight::Heavy => heavy,
    }
}

/// The thickness of an arm, zero for an arm that is not there.
pub open spec fn arm_thickness(arm: Option<Weight>, light: int, heavy: int) -> int {
    match arm {
        Some(w) => thickness(w, light, heavy),
        None => 0,
    }
}

/// The larger of two lengths.
pub open spec fn longer(a: int, b: int) -> int {
    if a >= b {
        a
    } else {
        b
    }
}

/// The smaller of two lengths.
pub open spec fn shorter(a: int, b: int) -> int {
    if a <= b {
        a
    } else {
        b
    }
}

impl Spec {
    /// Whether there is an arm to the left or to the right.
    pub open spec fn horizontal(self) -> bool {
        self.left is Some || self.right is Some
    }

    /// Whether there is an arm up or down.
    pub open spec fn vertical(self) -> bool {
        self.up is Some || self.down is Some
    }

    /// Whether the horizontal arms are doubled.
    pub open spec fn h_double(self) -> bool {
        self.left == Some(Weight::Double) || self.right == Some(Weight::Double)
    }

    /// Whether the vertical arms are doubled.
    pub open spec fn v_double(self) -> bool {
        self.up == Some(Weight::Double) || self.down == Some(Weight::Double)
    }

    /// Whether any arm is doubled.
    pub open spec fn doubled(self) -> bool {
        self.h_double() || self.v_double()
    }

    /// A glyph of single solid strokes.
    pub open spec fn single_solid(self) -> bool {
        !self.arc && self.dashes == 0 && !self.doubled()
    }

    /// A glyph of solid strokes with at least one double arm.
    pub open spec fn double_solid(self) -> bool {
        !self.arc && self.dashes == 0 && self.doubled()
    }

    /// The weight of the first arm there is, going up, down, left, right; light
    /// where there is none.
    pub open spec fn main_weight(self) -> Weight {
        if self.up is Some {
            self.up->0
        } else if self.down is Some {
            self.down->0
        } else if self.left is Some {
            self.left->0
        } else if self.right is Some {
            self.right->0
        } else {
            Weight::Light
        }
    }
}

/// The arm from the left edge to the center.
pub open spec fn left_arm(s: Spec, cell: Cell, light: int, heavy: int) -> Seq<Area> {
    match s.left {
        Some(w) => geometry::hbar(
            cell.left_edge(),
            cell.center_x(),
            cell.center_y(),
            thickness(w, light, heavy),
        ),
        None => Seq::empty(),
    }
}

/// The arm from the center to the right edge.
pub open spec fn right_arm(s: Spec, cell: Cell, light: int, heavy: int) -> Seq<Area> {
    match s.right {
        Some(w) => geometry::hbar(
            cell.center_x(),
            cell.right_edge(),
            cell.center_y(),
            thickness(w, light, heavy),
        ),
        None => Seq::empty(),
    }
}

/// The arm from the top edge to the center.
pub open spec fn up_arm(s: Spec, cell: Cell, light: int, heavy: int) -> Seq<Area> {
    match s.up {
        Some(w) => geometry::vbar(
            cell.center_x(),
            cell.top_edge(),
            cell.center_y(),
            thickness(w, light, heavy),
        ),
        None => Seq::empty(),
    }
}

/// The arm from the center to the bottom edge.
pub open spec fn down_arm(s: Spec, cell: Cell, light: int, heavy: int) -> Seq<Area> {
    match s.down {
        Some(w) => geometry::vbar(
            cell.center_x(),
            cell.center_y(),
            cell.bottom_edge(),
            thickness(w, light, heavy),
        ),
        None => Seq::empty(),
    }
}

/// The rectangle about the center that is as wide as the thickest vertical arm
/// and as high as the thickest horizontal arm.
pub open spec fn junction(s: Spec, cell: Cell, light: int, heavy: int) -> Seq<Area> {
    let v = longer(arm_thickness(s.up, light, heavy), arm_thickness(s.down, light, heavy));
    let h = longer(arm_thickness(s.left, light, heavy), arm_thickness(s.right, light, heavy));
    geometry::fill(
        cell.center_x() - geometry::half(v),
        cell.center_y() - geometry::half(h),
        geometry::fine(v),
        geometry::fine(h),
        OPAQUE as int,
    )
}

/// Single solid strokes: the arms that are there and the junction.
pub open spec fn single(s: Spec, cell: Cell, light: int, heavy: int) -> Seq<Area> {
    left_arm(s, cell, light, heavy) + right_arm(s, cell, light, heavy) + up_arm(
        s,
        cell,
        light,
        heavy,
    ) + down_arm(s, cell, light, heavy) + junction(s, cell, light, heavy)
}

/// How far the rails of a double stroke lie from its axis, in fine steps: one
/// stroke thickness, but a pixel at least.
pub open spec fn rail_offset(t: int) -> int {
    geometry::fine(longer(t, PIXEL as int))
}

/// The center line of the leftmost vertical rail.
pub open spec fn first_vrail(s: Spec, cell: Cell, t: int) -> int {
    if s.v_double() {
        cell.center_x() - rail_offset(t)
    } else {
        cell.center_x()
    }
}

/// The center line of the rightmost vertical rail.
pub open spec fn last_vrail(s: Spec, cell: Cell, t: int) -> int {
    if s.v_double() {
        cell.center_x() + rail_offset(t)
    } else {
        cell.center_x()
    }
}

/// The center line of the topmost horizontal rail.
pub open spec fn first_hrail(s: Spec, cell: Cell, t: int) -> int {
    if s.h_double() {
        cell.center_y() - rail_offset(t)
    } else {
        cell.center_y()
    }
}

/// The center line of the bottommost horizontal rail.
pub open spec fn last_hrail(s: Spec, cell: Cell, t: int) -> int {
    if s.h_double() {
        cell.center_y() + rail_offset(t)
    } else {
        cell.center_y()
    }
}

/// The left and right edges of the span that the vertical rails take up.
pub open spec fn vspan(s: Spec, cell: Cell, t: int) -> (int, int) {
    (first_vrail(s, cell, t) - geometry::half(t), last_vrail(s, cell, t) + geometry::half(t))
}

/// The top and bottom edges of the span that the horizontal rails take up.
pub open spec fn hspan(s: Spec, cell: Cell, t: int) -> (int, int) {
    (first_hrail(s, cell, t) - geometry::half(t), last_hrail(s, cell, t) + geometry::half(t))
}

/// Where horizontal rails start and end: at the edge of the cell on a side with
/// an arm, otherwise at the far side of the vertical rails, or in the center
/// where there are none.
pub open spec fn hreach(s: Spec, cell: Cell, t: int) -> (int, int) {
    (
        if s.left is Some {
            cell.left_edge()
        } else if s.vertical() {
            vspan(s, cell, t).0
        } else {
            cell.center_x()
        },
        if s.right is Some {
            cell.right_edge()
        } else if s.vertical() {
            vspan(s, cell, t).1
        } else {
            cell.center_x()
        },
    )
}

/// Where vertical rails start and end.
pub open spec fn vreach(s: Spec, cell: Cell, t: int) -> (int, int) {
    (
        if s.up is Some {
            cell.top_edge()
        } else if s.horizontal() {
            hspan(s, cell, t).0
        } else {
            cell.center_y()
        },
        if s.down is Some {
            cell.bottom_edge()
        } else if s.horizontal() {
            hspan(s, cell, t).1
        } else {
            cell.center_y()
        },
    )
}

/// One horizontal rail on the line `y`, interrupted across the span of the
/// vertical rails where it is broken.
pub open spec fn hrail(s: Spec, cell: Cell, t: int, y: int, broken: bool) -> Seq<Area> {
    let (start, end) = hreach(s, cell, t);
    let (g0, g1) = vspan(s, cell, t);
    if broken {
        geometry::hbar(start, g0, y, t) + geometry::hbar(g1, end, y, t)
    } else {
        geometry::hbar(start, end, y, t)
    }
}

/// One vertical rail on the line `x`, interrupted across the span of the
/// horizontal rails where it is broken.
pub open spec fn vrail(s: Spec, cell: Cell, t: int, x: int, broken: bool) -> Seq<Area> {
    let (start, end) = vreach(s, cell, t);
    let (g0, g1) = hspan(s, cell, t);
    if broken {
        geometry::vbar(x, start, g0, t) + geometry::vbar(x, g1, end, t)
    } else {
        geometry::vbar(x, start, end, t)
    }
}

/// The horizontal rails. Of a pair, the one on the side of a lone vertical arm
/// is broken.
pub open spec fn hrails(s: Spec, cell: Cell, t: int) -> Seq<Area> {
    if !s.horizontal() {
        Seq::empty()
    } else if s.h_double() {
        hrail(s, cell, t, first_hrail(s, cell, t), s.up is Some && s.down is None) + hrail(
            s,
            cell,
            t,
            last_hrail(s, cell, t),
            s.down is Some && s.up is None,
        )
    } else {
        hrail(s, cell, t, cell.center_y(), false)
    }
}

/// The vertical rails. Of a pair, the one on the side of a lone horizontal arm
/// is broken.
pub open spec fn vrails(s: Spec, cell: Cell, t: int) -> Seq<Area> {
    if !s.vertical() {
        Seq::empty()
    } else if s.v_double() {
        vrail(s, cell, t, first_vrail(s, cell, t), s.left is Some && s.right is None) + vrail(
            s,
            cell,
            t,
            last_vrail(s, cell, t),
            s.right is Some && s.left is None,
        )
    } else {
        vrail(s, cell, t, cell.center_x(), false)
    }
}

/// Double strokes: the horizontal rails, then the vertical ones.
pub open spec fn double(s: Spec, cell: Cell, t: int) -> Seq<Area> {
    hrails(s, cell, t) + vrails(s, cell, t)
}

/// Where dash `i` of `n` starts, measured in fine steps from the start of a line
/// of `len` units. Each dash takes the middle three fifths of its `n`th of the
/// line.
pub open spec fn dash_start(len: int, n: int, i: int) -> int {
    24 * len * (5 * i + 1) / n
}

/// Where dash `i` of `n` ends.
pub open spec fn dash_end(len: int, n: int, i: int) -> int {
    24 * len * (5 * i + 4) / n
}

/// The side of the cell that a line of dashes runs along.
pub open spec fn dash_line(s: Spec, cell: Cell) -> int {
    if s.horizontal() {
        cell.width as int
    } else {
        cell.height as int
    }
}

/// Dash `i` of a line of dashes, `t` units thick: horizontal where there is a
/// horizontal arm, otherwise vertical.
pub open spec fn dash(s: Spec, cell: Cell, t: int, i: int) -> Seq<Area> {
    let start = dash_start(dash_line(s, cell), s.dashes as int, i);
    let end = dash_end(dash_line(s, cell), s.dashes as int, i);
    if s.horizontal() {
        geometry::hbar(cell.left_edge() + start, cell.left_edge() + end, cell.center_y(), t)
    } else {
        geometry::vbar(cell.center_x(), cell.top_edge() + start, cell.top_edge() + end, t)
    }
}

/// The first `k` dashes of a line of dashes.
pub open spec fn first_dashes(s: Spec, cell: Cell, t: int, k: nat) -> Seq<Area>
    decreases k,
{
    if k == 0 {
        Seq::empty()
    } else {
        first_dashes(s, cell, t, (k - 1) as nat) + dash(s, cell, t, k - 1)
    }
}

/// A line of dashes.
pub open spec fn dashes(s: Spec, cell: Cell, t: int) -> Seq<Area> {
    first_dashes(s, cell, t, s.dashes as nat)
}

/// The diameter of the circle that a rounded corner is a quarter of, in units.
/// It is also the radius in half units.
pub open spec fn arc_diameter(cell: Cell) -> int {
    shorter(cell.width as int, cell.height as int)
}

/// The radius of that circle, in fine steps.
pub open spec fn arc_radius(cell: Cell) -> int {
    geometry::half(arc_diameter(cell))
}

/// The center of that circle, in fine steps.
pub open spec fn arc_center(s: Spec, cell: Cell) -> (int, int) {
    (
        if s.right is Some {
            cell.center_x() + arc_radius(cell)
        } else {
            cell.center_x() - arc_radius(cell)
        },
        if s.down is Some {
            cell.center_y() + arc_radius(cell)
        } else {
            cell.center_y() - arc_radius(cell)
        },
    )
}

/// Into how many steps the quarter turn is divided: one per pixel of the
/// diameter, rounded up, but one at least.
pub open spec fn arc_steps(cell: Cell) -> int {
    longer((arc_diameter(cell) + PIXEL - 1) / (PIXEL as int), 1)
}

/// The direction of step `i` seen from the center of the circle, as an angle in
/// quarter turns times [`arc_steps`]. Angles grow from the positive x axis
/// towards the positive y axis. The sweep starts at the tangent point of the
/// horizontal arm, straight above or below the center, and ends at that of the
/// vertical arm.
pub open spec fn arc_angle(s: Spec, cell: Cell, i: int) -> int {
    let start = if s.down is Some {
        -arc_steps(cell)
    } else {
        arc_steps(cell)
    };
    if (s.right is Some) == (s.down is Some) {
        start - i
    } else {
        start + i
    }
}

/// The square of a rounded corner about the point at `offset` from the center of
/// the circle. Offsets count in half units.
pub open spec fn arc_square(s: Spec, cell: Cell, t: int, offset: (i64, i64)) -> Area {
    let (ox, oy) = arc_center(s, cell);
    Area {
        x: ox + geometry::half(offset.0 as int) - geometry::half(t),
        y: oy + geometry::half(offset.1 as int) - geometry::half(t),
        width: geometry::fine(t),
        height: geometry::fine(t),
        alpha: OPAQUE as int,
    }
}

/// The straight remainder of the horizontal arm beyond the tangent point.
pub open spec fn arc_hstub(s: Spec, cell: Cell, t: int) -> Seq<Area> {
    if s.right is Some {
        geometry::hbar(
            cell.center_x() + arc_radius(cell),
            cell.right_edge(),
            cell.center_y(),
            t,
        )
    } else {
        geometry::hbar(
            cell.left_edge(),
            cell.center_x() - arc_radius(cell),
            cell.center_y(),
            t,
        )
    }
}

/// The straight remainder of the vertical arm beyond the tangent point.
pub open spec fn arc_vstub(s: Spec, cell: Cell, t: int) -> Seq<Area> {
    if s.down is Some {
        geometry::vbar(
            cell.center_x(),
            cell.center_y() + arc_radius(cell),
            cell.bottom_edge(),
            t,
        )
    } else {
        geometry::vbar(
            cell.center_x(),
            cell.top_edge(),
            cell.center_y() - arc_radius(cell),
            t,
        )
    }
}

/// A rounded corner: the straight remainders of its arms, then one square for
/// each point of the quarter circle.
pub open spec fn arc(s: Spec, cell: Cell, t: int, offsets: Seq<(i64, i64)>) -> Seq<Area> {
    arc_hstub(s, cell, t) + arc_vstub(s, cell, t) + arc_squares(s, cell, t, offsets)
}

/// The squares of a rounded corner.
pub open spec fn arc_squares(
    s: Spec,
    cell: Cell,
    t: int,
    offsets: Seq<(i64, i64)>,
) -> Seq<Area> {
    if t > 0 {
        Seq::new(offsets.len(), |i: int| arc_square(s, cell, t, offsets[i]))
    } else {
        Seq::empty()
    }
}

/// Lines, corners, junctions, dashes and arcs. `offsets` matters to arcs only.
pub open spec fn lines(
    s: Spec,
    cell: Cell,
    light: int,
    heavy: int,
    offsets: Seq<(i64, i64)>,
) -> Seq<Area> {
    if s.arc {
        arc(s, cell, light, offsets)
    } else if s.dashes > 0 {
        dashes(s, cell, thickness(s.main_weight(), light, heavy))
    } else if s.doubled() {
        double(s, cell, light)
    } else {
        single(s, cell, light, heavy)
    }
}

/// The part of the cell between the given eighths of its width and height.
pub open spec fn eighths(cell: Cell, x0: int, y0: int, x1: int, y1: int) -> Seq<Area> {
    geometry::fill(
        cell.left_edge() + 15 * (x0 * cell.width),
        cell.top_edge() + 15 * (y0 * cell.height),
        15 * ((x1 - x0) * cell.width),
        15 * ((y1 - y0) * cell.height),
        OPAQUE as int,
    )
}

/// The whole cell at the given alpha.
pub open spec fn whole(cell: Cell, alpha: int) -> Seq<Area> {
    geometry::fill(
        cell.left_edge(),
        cell.top_edge(),
        geometry::fine(cell.width as int),
        geometry::fine(cell.height as int),
        alpha,
    )
}

/// The quarter of the cell on the given sides of its center lines, where it is
/// wanted.
pub open spec fn quadrant(cell: Cell, wanted: bool, right: bool, lower: bool) -> Seq<Area> {
    if wanted {
        geometry::fill(
            if right {
                cell.center_x()
            } else {
                cell.left_edge()
            },
            if lower {
                cell.center_y()
            } else {
                cell.top_edge()
            },
            geometry::half(cell.width as int),
            geometry::half(cell.height as int),
            OPAQUE as int,
        )
    } else {
        Seq::empty()
    }
}

/// What a shape fills. A rounded corner is cut to the cell.
pub open spec fn shape_areas(
    shape: Shape,
    cell: Cell,
    light: int,
    heavy: int,
    offsets: Seq<(i64, i64)>,
) -> Seq<Area> {
    match shape {
        Shape::Lines(s) => if s.arc {
            geometry::cut_all(lines(s, cell, light, heavy, offsets), cell)
        } else {
            lines(s, cell, light, heavy, offsets)
        },
        Shape::Rect { x0, y0, x1, y1 } => eighths(
            cell,
            x0 as int,
            y0 as int,
            x1 as int,
            y1 as int,
        ),
        Shape::Shade(alpha) => whole(cell, alpha as int),
        Shape::Quadrants { ul, ur, ll, lr } => quadrant(cell, ul, false, false) + quadrant(
            cell,
            ur,
            true,
            false,
        ) + quadrant(cell, ll, false, true) + quadrant(cell, lr, true, true),
    }
}

/// What the character `c` fills; nothing where it is left to the font.
pub open spec fn drawing(
    c: char,
    cell: Cell,
    light: int,
    heavy: int,
    offsets: Seq<(i64, i64)>,
) -> Seq<Area> {
    match names::named(c) {
        Some(shape) => shape_areas(shape, cell, light, heavy, offsets),
        None => Seq::empty(),
    }
}

/// Whether `c` is one of the rounded corners.
pub open spec fn is_arc(c: char) -> bool {
    names::named(c) matches Some(Shape::Lines(s)) && s.arc
}

/// Whether `polar` can be asked for every point of a sweep: any radius, and any
/// angle within half a turn, given as a fraction `angle / steps` of quarter turns.
pub open spec fn answers<F: Fn(i64, i64, i64) -> (i64, i64)>(polar: F) -> bool {
    forall|radius: i64, angle: i64, steps: i64|
        1 <= steps && -2 * steps <= angle <= 2 * steps ==> #[trigger] call_requires(
            polar,
            (radius, angle, steps),
        )
}

/// Whether `offsets` is what `polar` may have answered in a sweep of the rounded
/// corner `s`: one offset for each step, from the first tangent point to the
/// last.
pub open spec fn swept<F: Fn(i64, i64, i64) -> (i64, i64)>(
    polar: F,
    s: Spec,
    cell: Cell,
    offsets: Seq<(i64, i64)>,
) -> bool {
    &&& offsets.len() == arc_steps(cell) + 1
    &&& forall|i: int|
        0 <= i <= arc_steps(cell) ==> call_ensures(
            polar,
            (arc_diameter(cell) as i64, arc_angle(s, cell, i) as i64, arc_steps(cell) as i64),
            #[trigger] offsets[i],
        )
}

/// Whether `list` is what `c` may fill when `polar` is asked for the points of
/// rounded corners.
pub open spec fn rendered<F: Fn(i64, i64, i64) -> (i64, i64)>(
    polar: F,
    c: char,
    cell: Cell,
    light: int,
    heavy: int,
    list: Seq<Area>,
) -> bool {
    match names::named(c) {
        Some(Shape::Lines(s)) if s.arc => exists|offsets: Seq<(i64, i64)>|
            #![trigger swept(polar, s, cell, offsets)]
            swept(polar, s, cell, offsets) && list == drawing(c, cell, light, heavy, offsets),
        _ => list == drawing(c, cell, light, heavy, Seq::empty()),
    }
}

} // verus!
