//! What becomes of a drawing when its cell moves.

use vstd::prelude::*;

use crate::coverage;
use crate::drawing;
use crate::geometry::{self, Area, Cell, OPAQUE};
use crate::glyph::{Shape, Spec};
use crate::names;

verus! {

/// A list of rectangles, each moved by (`dx`, `dy`) fine steps.
pub open spec fn moved(list: Seq<Area>, dx: int, dy: int) -> Seq<Area> {
    list.map_values(|a: Area| Area { x: a.x + dx, y: a.y + dy, ..a })
}

/// Moving a concatenation moves both parts.
proof fn lemma_moved_concat(a: Seq<Area>, b: Seq<Area>, dx: int, dy: int)
    ensures
        moved(a + b, dx, dy) == moved(a, dx, dy) + moved(b, dx, dy),
{
    assert(moved(a + b, dx, dy) =~= moved(a, dx, dy) + moved(b, dx, dy));
}

/// Moving a rectangle.
proof fn lemma_moved_fill(
    x: int,
    y: int,
    width: int,
    height: int,
    alpha: int,
    dx: int,
    dy: int,
)
    ensures
        moved(geometry::fill(x, y, width, height, alpha), dx, dy) == geometry::fill(
            x + dx,
            y + dy,
            width,
            height,
            alpha,
        ),
{
    assert(moved(geometry::fill(x, y, width, height, alpha), dx, dy) =~= geometry::fill(
        x + dx,
        y + dy,
        width,
        height,
        alpha,
    ));
}

/// Moving a horizontal bar.
proof fn lemma_moved_hbar(x0: int, x1: int, y: int, t: int, dx: int, dy: int)
    ensures
        moved(geometry::hbar(x0, x1, y, t), dx, dy) == geometry::hbar(
            x0 + dx,
            x1 + dx,
            y + dy,
            t,
        ),
{
    lemma_moved_fill(
        x0,
        y - geometry::half(t),
        x1 - x0,
        geometry::fine(t),
        OPAQUE as int,
        dx,
        dy,
    );
}

/// Moving a vertical bar.
proof fn lemma_moved_vbar(x: int, y0: int, y1: int, t: int, dx: int, dy: int)
    ensures
        moved(geometry::vbar(x, y0, y1, t), dx, dy) == geometry::vbar(
            x + dx,
            y0 + dy,
            y1 + dy,
            t,
        ),
{
    lemma_moved_fill(
        x - geometry::half(t),
        y0,
        geometry::fine(t),
        y1 - y0,
        OPAQUE as int,
        dx,
        dy,
    );
}

/// Moving nothing.
proof fn lemma_moved_nothing(dx: int, dy: int)
    ensures
        moved(Seq::empty(), dx, dy) == Seq::<Area>::empty(),
{
    assert(moved(Seq::empty(), dx, dy) =~= Seq::<Area>::empty());
}

/// Whether `to` is the cell `from`, moved by (`dx`, `dy`) units.
pub open spec fn moved_by(from: Cell, to: Cell, dx: int, dy: int) -> bool {
    &&& to.width == from.width && to.height == from.height
    &&& to.x == from.x + dx && to.y == from.y + dy
}

/// Moving the rails of a double glyph.
proof fn lemma_moved_rails(
    s: Spec,
    from: Cell,
    to: Cell,
    dx: int,
    dy: int,
    t: int,
    x: int,
    y: int,
    broken: bool,
)
    requires
        moved_by(from, to, dx, dy),
    ensures
        moved(drawing::hrail(s, from, t, y, broken), geometry::fine(dx), geometry::fine(dy))
            == drawing::hrail(s, to, t, y + geometry::fine(dy), broken),
        moved(drawing::vrail(s, from, t, x, broken), geometry::fine(dx), geometry::fine(dy))
            == drawing::vrail(s, to, t, x + geometry::fine(dx), broken),
{
    let (fx, fy) = (geometry::fine(dx), geometry::fine(dy));
    let (x0, x1) = drawing::hreach(s, from, t);
    let (y0, y1) = drawing::vreach(s, from, t);
    let (l, r) = drawing::vspan(s, from, t);
    let (u, d) = drawing::hspan(s, from, t);
    lemma_moved_hbar(x0, x1, y, t, fx, fy);
    lemma_moved_hbar(x0, l, y, t, fx, fy);
    lemma_moved_hbar(r, x1, y, t, fx, fy);
    lemma_moved_vbar(x, y0, y1, t, fx, fy);
    lemma_moved_vbar(x, y0, u, t, fx, fy);
    lemma_moved_vbar(x, d, y1, t, fx, fy);
    lemma_moved_concat(geometry::hbar(x0, l, y, t), geometry::hbar(r, x1, y, t), fx, fy);
    lemma_moved_concat(geometry::vbar(x, y0, u, t), geometry::vbar(x, d, y1, t), fx, fy);
}

/// Moving a glyph with double arms.
proof fn lemma_moved_double(s: Spec, from: Cell, to: Cell, dx: int, dy: int, t: int)
    requires
        moved_by(from, to, dx, dy),
    ensures
        moved(drawing::double(s, from, t), geometry::fine(dx), geometry::fine(dy))
            == drawing::double(s, to, t),
{
    let (fx, fy) = (geometry::fine(dx), geometry::fine(dy));
    let (y0, y1) = (drawing::first_hrail(s, from, t), drawing::last_hrail(s, from, t));
    let (x0, x1) = (drawing::first_vrail(s, from, t), drawing::last_vrail(s, from, t));
    let (u, d) = (coverage::first_hrail_broken(s), coverage::last_hrail_broken(s));
    let (l, r) = (coverage::first_vrail_broken(s), coverage::last_vrail_broken(s));
    lemma_moved_nothing(fx, fy);
    lemma_moved_rails(s, from, to, dx, dy, t, x0, y0, u);
    lemma_moved_rails(s, from, to, dx, dy, t, x0, y1, d);
    lemma_moved_rails(s, from, to, dx, dy, t, x0, y0, l);
    lemma_moved_rails(s, from, to, dx, dy, t, x1, y0, r);
    lemma_moved_concat(
        drawing::hrail(s, from, t, y0, u),
        drawing::hrail(s, from, t, y1, d),
        fx,
        fy,
    );
    lemma_moved_concat(
        drawing::vrail(s, from, t, x0, l),
        drawing::vrail(s, from, t, x1, r),
        fx,
        fy,
    );
    lemma_moved_concat(drawing::hrails(s, from, t), drawing::vrails(s, from, t), fx, fy);
    assert(moved(drawing::hrails(s, from, t), fx, fy) == drawing::hrails(s, to, t));
    assert(moved(drawing::vrails(s, from, t), fx, fy) == drawing::vrails(s, to, t));
}

/// Moving a glyph of single strokes.
proof fn lemma_moved_single(
    s: Spec,
    from: Cell,
    to: Cell,
    dx: int,
    dy: int,
    light: int,
    heavy: int,
)
    requires
        moved_by(from, to, dx, dy),
    ensures
        moved(drawing::single(s, from, light, heavy), geometry::fine(dx), geometry::fine(dy))
            == drawing::single(s, to, light, heavy),
{
    let (fx, fy) = (geometry::fine(dx), geometry::fine(dy));
    let (cx, cy) = (from.center_x(), from.center_y());
    let (left, right) = (
        drawing::arm_thickness(s.left, light, heavy),
        drawing::arm_thickness(s.right, light, heavy),
    );
    let (up, down) = (
        drawing::arm_thickness(s.up, light, heavy),
        drawing::arm_thickness(s.down, light, heavy),
    );
    let (v, h) = (drawing::longer(up, down), drawing::longer(left, right));
    lemma_moved_nothing(fx, fy);
    lemma_moved_hbar(from.left_edge(), cx, cy, left, fx, fy);
    lemma_moved_hbar(cx, from.right_edge(), cy, right, fx, fy);
    lemma_moved_vbar(cx, from.top_edge(), cy, up, fx, fy);
    lemma_moved_vbar(cx, cy, from.bottom_edge(), down, fx, fy);
    lemma_moved_fill(
        cx - geometry::half(v),
        cy - geometry::half(h),
        geometry::fine(v),
        geometry::fine(h),
        OPAQUE as int,
        fx,
        fy,
    );
    let a = drawing::left_arm(s, from, light, heavy);
    let b = drawing::right_arm(s, from, light, heavy);
    let c = drawing::up_arm(s, from, light, heavy);
    let d = drawing::down_arm(s, from, light, heavy);
    lemma_moved_concat(a, b, fx, fy);
    lemma_moved_concat(a + b, c, fx, fy);
    lemma_moved_concat(a + b + c, d, fx, fy);
    lemma_moved_concat(a + b + c + d, drawing::junction(s, from, light, heavy), fx, fy);
    assert(moved(a, fx, fy) == drawing::left_arm(s, to, light, heavy));
    assert(moved(b, fx, fy) == drawing::right_arm(s, to, light, heavy));
    assert(moved(c, fx, fy) == drawing::up_arm(s, to, light, heavy));
    assert(moved(d, fx, fy) == drawing::down_arm(s, to, light, heavy));
    assert(moved(drawing::junction(s, from, light, heavy), fx, fy) == drawing::junction(
        s,
        to,
        light,
        heavy,
    ));
}

/// Moving a rounded corner.
proof fn lemma_moved_arc(
    s: Spec,
    from: Cell,
    to: Cell,
    dx: int,
    dy: int,
    t: int,
    offsets: Seq<(i64, i64)>,
)
    requires
        moved_by(from, to, dx, dy),
    ensures
        moved(drawing::arc(s, from, t, offsets), geometry::fine(dx), geometry::fine(dy))
            == drawing::arc(s, to, t, offsets),
{
    let (fx, fy) = (geometry::fine(dx), geometry::fine(dy));
    let (cx, cy) = (from.center_x(), from.center_y());
    let r = drawing::arc_radius(from);
    lemma_moved_hbar(cx + r, from.right_edge(), cy, t, fx, fy);
    lemma_moved_hbar(from.left_edge(), cx - r, cy, t, fx, fy);
    lemma_moved_vbar(cx, cy + r, from.bottom_edge(), t, fx, fy);
    lemma_moved_vbar(cx, from.top_edge(), cy - r, t, fx, fy);
    let (a, b) = (drawing::arc_hstub(s, from, t), drawing::arc_vstub(s, from, t));
    let c = drawing::arc_squares(s, from, t, offsets);
    lemma_moved_concat(a, b, fx, fy);
    lemma_moved_concat(a + b, c, fx, fy);
    assert(moved(a, fx, fy) == drawing::arc_hstub(s, to, t));
    assert(moved(b, fx, fy) == drawing::arc_vstub(s, to, t));
    assert(moved(c, fx, fy) =~= drawing::arc_squares(s, to, t, offsets));
}

/// Moving a line of dashes.
proof fn lemma_moved_dashes(s: Spec, from: Cell, to: Cell, dx: int, dy: int, t: int, k: nat)
    requires
        moved_by(from, to, dx, dy),
    ensures
        moved(drawing::first_dashes(s, from, t, k), geometry::fine(dx), geometry::fine(dy))
            == drawing::first_dashes(s, to, t, k),
    decreases k,
{
    let (fx, fy) = (geometry::fine(dx), geometry::fine(dy));
    if k == 0 {
        lemma_moved_nothing(fx, fy);
    } else {
        lemma_moved_dashes(s, from, to, dx, dy, t, (k - 1) as nat);
        let (len, n) = (drawing::dash_line(s, from), s.dashes as int);
        let (start, end) = (drawing::dash_start(len, n, k - 1), drawing::dash_end(len, n, k - 1));
        let (x, y) = (from.left_edge(), from.top_edge());
        lemma_moved_hbar(x + start, x + end, from.center_y(), t, fx, fy);
        lemma_moved_vbar(from.center_x(), y + start, y + end, t, fx, fy);
        lemma_moved_concat(
            drawing::first_dashes(s, from, t, (k - 1) as nat),
            drawing::dash(s, from, t, k - 1),
            fx,
            fy,
        );
    }
}

/// Moving a list along with the cell that it is cut to.
proof fn lemma_moved_cut_all(list: Seq<Area>, from: Cell, to: Cell, dx: int, dy: int)
    requires
        moved_by(from, to, dx, dy),
    ensures
        moved(geometry::cut_all(list, from), geometry::fine(dx), geometry::fine(dy))
            == geometry::cut_all(moved(list, geometry::fine(dx), geometry::fine(dy)), to),
    decreases list.len(),
{
    let (fx, fy) = (geometry::fine(dx), geometry::fine(dy));
    if list.len() == 0 {
        lemma_moved_nothing(fx, fy);
    } else {
        let (rest, a) = (list.drop_last(), list.last());
        lemma_moved_cut_all(rest, from, to, dx, dy);
        assert(moved(list, fx, fy).drop_last() =~= moved(rest, fx, fy));
        let (x0, x1) = (
            drawing::longer(a.x, from.left_edge()),
            drawing::shorter(a.x + a.width, from.right_edge()),
        );
        let (y0, y1) = (
            drawing::longer(a.y, from.top_edge()),
            drawing::shorter(a.y + a.height, from.bottom_edge()),
        );
        lemma_moved_fill(x0, y0, x1 - x0, y1 - y0, a.alpha, fx, fy);
        lemma_moved_concat(geometry::cut_all(rest, from), geometry::cut(a, from), fx, fy);
        assert(moved(geometry::cut(a, from), fx, fy) == geometry::cut(
            moved(list, fx, fy).last(),
            to,
        ));
    }
}

/// A shape looks the same wherever its cell stands: for one and the same sweep,
/// moving the cell moves every rectangle along and changes nothing else.
pub proof fn law_moves_with_cell(
    shape: Shape,
    from: Cell,
    to: Cell,
    dx: int,
    dy: int,
    light: int,
    heavy: int,
    offsets: Seq<(i64, i64)>,
)
    requires
        moved_by(from, to, dx, dy),
    ensures
        drawing::shape_areas(shape, to, light, heavy, offsets) == moved(
            drawing::shape_areas(shape, from, light, heavy, offsets),
            geometry::fine(dx),
            geometry::fine(dy),
        ),
{
    let (fx, fy) = (geometry::fine(dx), geometry::fine(dy));
    match shape {
        Shape::Lines(s) => {
            if s.arc {
                lemma_moved_arc(s, from, to, dx, dy, light, offsets);
                lemma_moved_cut_all(drawing::arc(s, from, light, offsets), from, to, dx, dy);
            } else if s.dashes > 0 {
                let t = drawing::thickness(s.main_weight(), light, heavy);
                lemma_moved_dashes(s, from, to, dx, dy, t, s.dashes as nat);
            } else if s.doubled() {
                lemma_moved_double(s, from, to, dx, dy, light);
            } else {
                lemma_moved_single(s, from, to, dx, dy, light, heavy);
            }
        },
        Shape::Rect { x0, y0, x1, y1 } => {
            lemma_moved_fill(
                from.left_edge() + 15 * (x0 * from.width),
                from.top_edge() + 15 * (y0 * from.height),
                15 * ((x1 - x0) * from.width),
                15 * ((y1 - y0) * from.height),
                OPAQUE as int,
                fx,
                fy,
            );
        },
        Shape::Shade(alpha) => {
            lemma_moved_fill(
                from.left_edge(),
                from.top_edge(),
                geometry::fine(from.width as int),
                geometry::fine(from.height as int),
                alpha as int,
                fx,
                fy,
            );
        },
        Shape::Quadrants { ul, ur, ll, lr } => {
            let a = drawing::quadrant(from, ul, false, false);
            let b = drawing::quadrant(from, ur, true, false);
            let c = drawing::quadrant(from, ll, false, true);
            let d = drawing::quadrant(from, lr, true, true);
            lemma_moved_concat(a, b, fx, fy);
            lemma_moved_concat(a + b, c, fx, fy);
            lemma_moved_concat(a + b + c, d, fx, fy);
            assert(moved(a, fx, fy) =~= drawing::quadrant(to, ul, false, false));
            assert(moved(b, fx, fy) =~= drawing::quadrant(to, ur, true, false));
            assert(moved(c, fx, fy) =~= drawing::quadrant(to, ll, false, true));
            assert(moved(d, fx, fy) =~= drawing::quadrant(to, lr, true, true));
        },
    }
}

/// Whether `polar` has one answer to each question.
pub open spec fn answers_alike<F: Fn(i64, i64, i64) -> (i64, i64)>(polar: F) -> bool {
    forall|radius: i64, angle: i64, steps: i64, one: (i64, i64), other: (i64, i64)|
        #[trigger] call_ensures(polar, (radius, angle, steps), one) && #[trigger] call_ensures(
            polar,
            (radius, angle, steps),
            other,
        ) ==> one == other
}

/// A `polar` with one answer to each question gives the same sweep to a rounded
/// corner wherever its cell stands.
pub proof fn lemma_same_sweep<F: Fn(i64, i64, i64) -> (i64, i64)>(
    polar: F,
    s: Spec,
    from: Cell,
    to: Cell,
    dx: int,
    dy: int,
    one: Seq<(i64, i64)>,
    other: Seq<(i64, i64)>,
)
    requires
        moved_by(from, to, dx, dy),
        answers_alike(polar),
        drawing::swept(polar, s, from, one),
        drawing::swept(polar, s, to, other),
    ensures
        one == other,
{
    assert forall|i: int| 0 <= i < one.len() implies one[i] == other[i] by {
        let question = (
            drawing::arc_diameter(from) as i64,
            drawing::arc_angle(s, from, i) as i64,
            drawing::arc_steps(from) as i64,
        );
        assert(call_ensures(polar, question, one[i]));
        assert(call_ensures(polar, question, other[i]));
    }
    assert(one =~= other);
}

/// What [`crate::render`] returns moves with the cell: for a moved cell it returns
/// as many rectangles in the same order, each moved along and changed in nothing
/// else. For a rounded corner, `polar` has to give one answer to each question.
pub proof fn law_render_moves_with_cell<F: Fn(i64, i64, i64) -> (i64, i64)>(
    polar: F,
    c: char,
    from: Cell,
    to: Cell,
    dx: int,
    dy: int,
    light: int,
    heavy: int,
    here: Seq<Area>,
    there: Seq<Area>,
)
    requires
        moved_by(from, to, dx, dy),
        drawing::is_arc(c) ==> answers_alike(polar),
        drawing::rendered(polar, c, from, light, heavy, here),
        drawing::rendered(polar, c, to, light, heavy, there),
    ensures
        there == moved(here, geometry::fine(dx), geometry::fine(dy)),
{
    match names::named(c) {
        Some(Shape::Lines(s)) if s.arc => {
            let one = choose|one: Seq<(i64, i64)>|
                #![trigger drawing::swept(polar, s, from, one)]
                drawing::swept(polar, s, from, one) && here == drawing::drawing(
                    c,
                    from,
                    light,
                    heavy,
                    one,
                );
            let other = choose|other: Seq<(i64, i64)>|
                #![trigger drawing::swept(polar, s, to, other)]
                drawing::swept(polar, s, to, other) && there == drawing::drawing(
                    c,
                    to,
                    light,
                    heavy,
                    other,
                );
            lemma_same_sweep(polar, s, from, to, dx, dy, one, other);
            law_moves_with_cell(Shape::Lines(s), from, to, dx, dy, light, heavy, one);
        },
        Some(shape) => {
            law_moves_with_cell(shape, from, to, dx, dy, light, heavy, Seq::empty());
        },
        None => {
            lemma_moved_nothing(geometry::fine(dx), geometry::fine(dy));
        },
    }
}

} // verus!
