//! What is drawn at all, and where it lies.

use vstd::prelude::*;

use crate::coverage;
use crate::drawing;
use crate::geometry::{self, Area, Cell};
use crate::glyph::{Shape, Spec};
use crate::laws::arcs;
use crate::names;

verus! {

/// Rendering and [`crate::is_box_drawing`] agree: in a cell and with strokes
/// that have a size, a drawable character draws something and any other
/// character draws nothing. Of a rounded corner in a square cell, nothing but
/// its arc is left, so there the arc has to start at the end of an arm.
pub proof fn law_drawn_iff_drawable(
    c: char,
    cell: Cell,
    light: int,
    heavy: int,
    offsets: Seq<(i64, i64)>,
)
    requires
        cell.width > 0,
        cell.height > 0,
        light > 0,
        heavy > 0,
        names::named(c) matches Some(Shape::Lines(s)) ==> s.arc && cell.width == cell.height
            ==> arcs::starts_on_arm(s, cell, offsets),
    ensures
        drawing::drawing(c, cell, light, heavy, offsets).len() > 0 <==> names::drawable(c),
{
    names::law_drawable_range(c);
    names::law_table(c);
    match names::named(c) {
        Some(Shape::Lines(s)) => {
            if s.arc {
                arcs::lemma_arc_drawn(s, cell, light, offsets);
            } else if s.dashes > 0 {
                let t = drawing::thickness(s.main_weight(), light, heavy);
                lemma_dashes_listed(s, cell, t, s.dashes as nat);
            } else if s.doubled() {
                lemma_rails_start_before_end(s, cell, light);
                if s.horizontal() {
                    assert(drawing::hrails(s, cell, light).len() > 0);
                }
            } else {
                assert(drawing::single(s, cell, light, heavy).len() > 0);
            }
        },
        Some(Shape::Rect { x0, y0, x1, y1 }) => {
            lemma_positive(x1 - x0, cell.width as int);
            lemma_positive(y1 - y0, cell.height as int);
        },
        _ => {},
    }
}

/// The same of what [`crate::render`] returns. For a rounded corner in a square
/// cell the points have to be exact along the axes.
pub proof fn law_rendered_iff_drawable<F: Fn(i64, i64, i64) -> (i64, i64)>(
    polar: F,
    c: char,
    cell: Cell,
    light: int,
    heavy: int,
    list: Seq<Area>,
)
    requires
        cell.width > 0,
        cell.height > 0,
        light > 0,
        heavy > 0,
        drawing::is_arc(c) && cell.width == cell.height ==> arcs::exact_on_axes(polar, cell),
        drawing::rendered(polar, c, cell, light, heavy, list),
    ensures
        list.len() > 0 <==> names::drawable(c),
{
    match names::named(c) {
        Some(Shape::Lines(s)) if s.arc => {
            let offsets = choose|offsets: Seq<(i64, i64)>|
                #![trigger drawing::swept(polar, s, cell, offsets)]
                drawing::swept(polar, s, cell, offsets) && list == drawing::drawing(
                    c,
                    cell,
                    light,
                    heavy,
                    offsets,
                );
            if cell.width == cell.height {
                arcs::law_arc_joins_arms(polar, s, cell, light, offsets);
            }
            law_drawn_iff_drawable(c, cell, light, heavy, offsets);
        },
        _ => {
            law_drawn_iff_drawable(c, cell, light, heavy, Seq::empty());
        },
    }
}

/// The dashes of a glyph of the table, one by one.
pub proof fn lemma_dashes_listed(s: Spec, cell: Cell, t: int, k: nat)
    requires
        t > 0,
        drawing::dash_line(s, cell) > 0,
        1 <= s.dashes <= 4,
        k <= s.dashes,
    ensures
        drawing::first_dashes(s, cell, t, k).len() == k,
        forall|i: int|
            0 <= i < k ==> #[trigger] drawing::first_dashes(s, cell, t, k)[i] == drawing::dash(
                s,
                cell,
                t,
                i,
            )[0],
        forall|i: int| 0 <= i < k ==> (#[trigger] drawing::dash(s, cell, t, i)).len() == 1,
    decreases k,
{
    if k > 0 {
        lemma_dashes_listed(s, cell, t, (k - 1) as nat);
        let (len, n) = (drawing::dash_line(s, cell), s.dashes as int);
        lemma_dash_exact(len, n, 5 * (k - 1) + 1);
        lemma_dash_exact(len, n, 5 * (k - 1) + 4);
        let (start, end) = (drawing::dash_start(len, n, k - 1), drawing::dash_end(len, n, k - 1));
        assert(start < end) by (nonlinear_arith)
            requires
                n * start == 24 * len * (5 * (k - 1) + 1),
                n * end == 24 * len * (5 * (k - 1) + 4),
                len > 0,
                n > 0,
        ;
        assert(drawing::dash(s, cell, t, k - 1).len() == 1);
    }
}

/// The dash counts of the table divide a line into whole fine steps.
pub proof fn lemma_dash_exact(len: int, n: int, fifths: int)
    requires
        1 <= n <= 4,
    ensures
        n * (24 * len * fifths / n) == 24 * len * fifths,
{
    let p = len * fifths;
    assert(24 * len * fifths == 24 * p) by (nonlinear_arith)
        requires
            p == len * fifths,
    ;
    if n == 1 {
        assert(24 * p / 1 == 24 * p);
    } else if n == 2 {
        assert(24 * p / 2 == 12 * p);
    } else if n == 3 {
        assert(24 * p / 3 == 8 * p);
    } else {
        assert(24 * p / 4 == 6 * p);
    }
}

/// The product of positive numbers is positive.
proof fn lemma_positive(a: int, b: int)
    by (nonlinear_arith)
    requires
        a > 0,
        b > 0,
    ensures
        a * b > 0,
{
}

/// Rails have a length.
proof fn lemma_rails_start_before_end(s: Spec, cell: Cell, t: int)
    requires
        cell.width > 0,
        cell.height > 0,
        t > 0,
    ensures
        s.horizontal() ==> drawing::hreach(s, cell, t).0 < drawing::hreach(s, cell, t).1,
        s.vertical() ==> drawing::vreach(s, cell, t).0 < drawing::vreach(s, cell, t).1,
{
}

/// Whether every rectangle of the list has a size.
pub open spec fn none_empty(list: Seq<Area>) -> bool {
    forall|i: int| 0 <= i < list.len() ==> (#[trigger] list[i]).width > 0 && list[i].height > 0
}

/// A concatenation of lists without empty rectangles has none.
proof fn lemma_none_empty_concat(a: Seq<Area>, b: Seq<Area>)
    requires
        none_empty(a),
        none_empty(b),
    ensures
        none_empty(a + b),
{
    assert forall|i: int| 0 <= i < (a + b).len() implies (#[trigger] (a + b)[i]).width > 0 && (a
        + b)[i].height > 0 by {
        if i < a.len() {
            assert((a + b)[i] == a[i]);
        } else {
            assert((a + b)[i] == b[i - a.len()]);
        }
    }
}

/// A rail holds no empty rectangle.
proof fn lemma_none_empty_rails(s: Spec, cell: Cell, t: int, at: int, broken: bool)
    ensures
        none_empty(drawing::hrail(s, cell, t, at, broken)),
        none_empty(drawing::vrail(s, cell, t, at, broken)),
{
    let (x0, x1) = drawing::hreach(s, cell, t);
    let (y0, y1) = drawing::vreach(s, cell, t);
    let (l, r) = drawing::vspan(s, cell, t);
    let (u, d) = drawing::hspan(s, cell, t);
    lemma_none_empty_concat(geometry::hbar(x0, l, at, t), geometry::hbar(r, x1, at, t));
    lemma_none_empty_concat(geometry::vbar(at, y0, u, t), geometry::vbar(at, d, y1, t));
}

/// A line of dashes holds no empty rectangle.
proof fn lemma_none_empty_dashes(s: Spec, cell: Cell, t: int, k: nat)
    ensures
        none_empty(drawing::first_dashes(s, cell, t, k)),
    decreases k,
{
    if k > 0 {
        lemma_none_empty_dashes(s, cell, t, (k - 1) as nat);
        lemma_none_empty_concat(
            drawing::first_dashes(s, cell, t, (k - 1) as nat),
            drawing::dash(s, cell, t, k - 1),
        );
    }
}

/// A list that is cut to the cell holds no empty rectangle and lies within the
/// cell.
pub proof fn lemma_cut_all(list: Seq<Area>, cell: Cell)
    ensures
        none_empty(geometry::cut_all(list, cell)),
        all_inside(geometry::cut_all(list, cell), cell),
    decreases list.len(),
{
    if list.len() > 0 {
        let (rest, last) = (list.drop_last(), list.last());
        lemma_cut_all(rest, cell);
        lemma_none_empty_concat(geometry::cut_all(rest, cell), geometry::cut(last, cell));
        lemma_inside_concat(geometry::cut_all(rest, cell), geometry::cut(last, cell), cell);
    }
}

/// No drawing holds an empty rectangle.
pub proof fn law_no_empty_rect(
    shape: Shape,
    cell: Cell,
    light: int,
    heavy: int,
    offsets: Seq<(i64, i64)>,
)
    ensures
        none_empty(drawing::shape_areas(shape, cell, light, heavy, offsets)),
{
    match shape {
        Shape::Lines(s) => {
            if s.arc {
                lemma_cut_all(drawing::lines(s, cell, light, heavy, offsets), cell);
            } else if s.dashes > 0 {
                let t = drawing::thickness(s.main_weight(), light, heavy);
                lemma_none_empty_dashes(s, cell, t, s.dashes as nat);
            } else if s.doubled() {
                let t = light;
                let (y0, y1) = (drawing::first_hrail(s, cell, t), drawing::last_hrail(s, cell, t));
                let (x0, x1) = (drawing::first_vrail(s, cell, t), drawing::last_vrail(s, cell, t));
                let (u, d) = (coverage::first_hrail_broken(s), coverage::last_hrail_broken(s));
                let (l, r) = (coverage::first_vrail_broken(s), coverage::last_vrail_broken(s));
                lemma_none_empty_rails(s, cell, t, y0, u);
                lemma_none_empty_rails(s, cell, t, y1, d);
                lemma_none_empty_rails(s, cell, t, x0, l);
                lemma_none_empty_rails(s, cell, t, x1, r);
                lemma_none_empty_concat(
                    drawing::hrail(s, cell, t, y0, u),
                    drawing::hrail(s, cell, t, y1, d),
                );
                lemma_none_empty_concat(
                    drawing::vrail(s, cell, t, x0, l),
                    drawing::vrail(s, cell, t, x1, r),
                );
                lemma_none_empty_concat(
                    drawing::hrails(s, cell, t),
                    drawing::vrails(s, cell, t),
                );
            } else {
                let a = drawing::left_arm(s, cell, light, heavy);
                let b = drawing::right_arm(s, cell, light, heavy);
                let c = drawing::up_arm(s, cell, light, heavy);
                let d = drawing::down_arm(s, cell, light, heavy);
                lemma_none_empty_concat(a, b);
                lemma_none_empty_concat(a + b, c);
                lemma_none_empty_concat(a + b + c, d);
                lemma_none_empty_concat(
                    a + b + c + d,
                    drawing::junction(s, cell, light, heavy),
                );
            }
        },
        Shape::Quadrants { ul, ur, ll, lr } => {
            let a = drawing::quadrant(cell, ul, false, false);
            let b = drawing::quadrant(cell, ur, true, false);
            let c = drawing::quadrant(cell, ll, false, true);
            lemma_none_empty_concat(a, b);
            lemma_none_empty_concat(a + b, c);
            lemma_none_empty_concat(a + b + c, drawing::quadrant(cell, lr, true, true));
        },
        _ => {},
    }
}

/// Whether a rectangle lies within the cell.
pub open spec fn inside(area: Area, cell: Cell) -> bool {
    &&& cell.left_edge() <= area.x && area.x + area.width <= cell.right_edge()
    &&& cell.top_edge() <= area.y && area.y + area.height <= cell.bottom_edge()
}

/// Whether every rectangle of the list lies within the cell.
pub open spec fn all_inside(list: Seq<Area>, cell: Cell) -> bool {
    forall|i: int| 0 <= i < list.len() ==> inside(#[trigger] list[i], cell)
}

/// Whether the strokes of a glyph are no thicker than the cell.
pub open spec fn fits(s: Spec, cell: Cell, light: int, heavy: int) -> bool {
    if s.doubled() {
        &&& s.vertical() ==> cell.left_edge() <= drawing::vspan(s, cell, light).0 && drawing::vspan(
            s,
            cell,
            light,
        ).1 <= cell.right_edge()
        &&& s.horizontal() ==> cell.top_edge() <= drawing::hspan(s, cell, light).0
            && drawing::hspan(s, cell, light).1 <= cell.bottom_edge()
    } else {
        &&& drawing::arm_thickness(s.up, light, heavy) <= cell.width
        &&& drawing::arm_thickness(s.down, light, heavy) <= cell.width
        &&& drawing::arm_thickness(s.left, light, heavy) <= cell.height
        &&& drawing::arm_thickness(s.right, light, heavy) <= cell.height
    }
}

/// Line drawings of straight strokes that are no thicker than the cell stay
/// within it. Rounded corners always do, see [`arcs::law_arc_inside_cell`].
pub proof fn law_lines_inside_cell(
    s: Spec,
    cell: Cell,
    light: int,
    heavy: int,
    offsets: Seq<(i64, i64)>,
)
    requires
        names::well_made(Shape::Lines(s)),
        !s.arc,
        fits(s, cell, light, heavy),
    ensures
        all_inside(drawing::lines(s, cell, light, heavy, offsets), cell),
{
    if s.dashes > 0 {
        let t = drawing::thickness(s.main_weight(), light, heavy);
        lemma_dashes_inside(s, cell, t, s.dashes as nat);
    } else if s.doubled() {
        let t = light;
        let (y0, y1) = (drawing::first_hrail(s, cell, t), drawing::last_hrail(s, cell, t));
        let (x0, x1) = (drawing::first_vrail(s, cell, t), drawing::last_vrail(s, cell, t));
        let (u, d) = (coverage::first_hrail_broken(s), coverage::last_hrail_broken(s));
        let (l, r) = (coverage::first_vrail_broken(s), coverage::last_vrail_broken(s));
        if s.horizontal() {
            lemma_hrail_inside(s, cell, light, heavy, y0, u);
            lemma_hrail_inside(s, cell, light, heavy, y1, d);
            lemma_inside_concat(
                drawing::hrail(s, cell, t, y0, u),
                drawing::hrail(s, cell, t, y1, d),
                cell,
            );
        }
        if s.vertical() {
            lemma_vrail_inside(s, cell, light, heavy, x0, l);
            lemma_vrail_inside(s, cell, light, heavy, x1, r);
            lemma_inside_concat(
                drawing::vrail(s, cell, t, x0, l),
                drawing::vrail(s, cell, t, x1, r),
                cell,
            );
        }
        lemma_inside_concat(drawing::hrails(s, cell, t), drawing::vrails(s, cell, t), cell);
    } else {
        let a = drawing::left_arm(s, cell, light, heavy);
        let b = drawing::right_arm(s, cell, light, heavy);
        let c = drawing::up_arm(s, cell, light, heavy);
        let d = drawing::down_arm(s, cell, light, heavy);
        lemma_inside_concat(a, b, cell);
        lemma_inside_concat(a + b, c, cell);
        lemma_inside_concat(a + b + c, d, cell);
        lemma_inside_concat(a + b + c + d, drawing::junction(s, cell, light, heavy), cell);
    }
}

/// A concatenation of lists that lie within the cell lies within it.
proof fn lemma_inside_concat(a: Seq<Area>, b: Seq<Area>, cell: Cell)
    requires
        all_inside(a, cell),
        all_inside(b, cell),
    ensures
        all_inside(a + b, cell),
{
    assert forall|i: int| 0 <= i < (a + b).len() implies inside(#[trigger] (a + b)[i], cell) by {
        if i < a.len() {
            assert((a + b)[i] == a[i]);
        } else {
            assert((a + b)[i] == b[i - a.len()]);
        }
    }
}

/// A horizontal rail of a glyph that fits lies within the cell.
proof fn lemma_hrail_inside(s: Spec, cell: Cell, light: int, heavy: int, y: int, broken: bool)
    requires
        s.doubled(),
        s.horizontal(),
        fits(s, cell, light, heavy),
        y == drawing::first_hrail(s, cell, light) || y == drawing::last_hrail(s, cell, light),
        broken ==> s.vertical(),
    ensures
        all_inside(drawing::hrail(s, cell, light, y, broken), cell),
{
    let (x0, x1) = drawing::hreach(s, cell, light);
    let (l, r) = drawing::vspan(s, cell, light);
    lemma_inside_concat(
        geometry::hbar(x0, l, y, light),
        geometry::hbar(r, x1, y, light),
        cell,
    );
}

/// A vertical rail of a glyph that fits lies within the cell.
proof fn lemma_vrail_inside(s: Spec, cell: Cell, light: int, heavy: int, x: int, broken: bool)
    requires
        s.doubled(),
        s.vertical(),
        fits(s, cell, light, heavy),
        x == drawing::first_vrail(s, cell, light) || x == drawing::last_vrail(s, cell, light),
        broken ==> s.horizontal(),
    ensures
        all_inside(drawing::vrail(s, cell, light, x, broken), cell),
{
    let (y0, y1) = drawing::vreach(s, cell, light);
    let (u, d) = drawing::hspan(s, cell, light);
    lemma_inside_concat(
        geometry::vbar(x, y0, u, light),
        geometry::vbar(x, d, y1, light),
        cell,
    );
}

/// Dashes that are no thicker than the cell lie within it.
proof fn lemma_dashes_inside(s: Spec, cell: Cell, t: int, k: nat)
    requires
        k <= s.dashes,
        s.horizontal() ==> t <= cell.height,
        !s.horizontal() ==> t <= cell.width,
    ensures
        all_inside(drawing::first_dashes(s, cell, t, k), cell),
    decreases k,
{
    if k > 0 {
        lemma_dashes_inside(s, cell, t, (k - 1) as nat);
        lemma_dash_within(drawing::dash_line(s, cell), s.dashes as int, k - 1);
        lemma_inside_concat(
            drawing::first_dashes(s, cell, t, (k - 1) as nat),
            drawing::dash(s, cell, t, k - 1),
            cell,
        );
    }
}

/// A dash lies between the ends of its line, and is empty on a line that is.
proof fn lemma_dash_within(len: int, n: int, i: int)
    requires
        0 <= i < n,
    ensures
        len > 0 ==> 0 <= drawing::dash_start(len, n, i),
        len > 0 ==> drawing::dash_end(len, n, i) <= geometry::fine(len),
        len <= 0 ==> drawing::dash_end(len, n, i) <= drawing::dash_start(len, n, i),
{
    let (a, b) = (24 * len * (5 * i + 1), 24 * len * (5 * i + 4));
    if len > 0 {
        assert(0 <= a && b <= (120 * len) * n) by (nonlinear_arith)
            requires
                a == 24 * len * (5 * i + 1),
                b == 24 * len * (5 * i + 4),
                0 <= i <= n - 1,
                len > 0,
        ;
        lemma_share_ordered(0, a, n);
        lemma_share_ordered(b, (120 * len) * n, n);
        assert((120 * len) * n / n == 120 * len) by (nonlinear_arith)
            requires
                n > 0,
        ;
        assert(0int / n == 0) by (nonlinear_arith)
            requires
                n > 0,
        ;
    } else {
        assert(b <= a) by (nonlinear_arith)
            requires
                a == 24 * len * (5 * i + 1),
                b == 24 * len * (5 * i + 4),
                len <= 0,
        ;
        lemma_share_ordered(b, a, n);
    }
}

/// Shares of lengths are in the order of the lengths.
proof fn lemma_share_ordered(a: int, b: int, n: int)
    by (nonlinear_arith)
    requires
        a <= b,
        n > 0,
    ensures
        a / n <= b / n,
{
}

} // verus!
