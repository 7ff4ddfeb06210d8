//! Cells, rectangles and the bars that strokes are made of.
//!
//! All lengths are integers, so every position below is exact. Two scales are
//! in use:
//!
//! - a *unit* is the input scale, [`PIXEL`] units to the pixel. Cells, stroke
//!   thicknesses and font sizes are given in units.
//! - a *fine step* is the output scale, [`FINE`] steps to the unit. Rectangles
//!   are emitted in fine steps. The halves and eighths of a cell
//!   and the lengths of its dashes are all whole numbers of fine steps.

use vstd::prelude::*;

use crate::drawing;

verus! {

/// Units per pixel.
pub const PIXEL: i64 = 1073741824;

/// Fine steps per unit.
pub const FINE: i128 = 120;

/// The alpha of a fully opaque rectangle. Alpha counts in quarters.
pub const OPAQUE: u8 = 4;

/// `v` units in fine steps.
pub open spec fn fine(v: int) -> int {
    120 * v
}

/// Half of `v` units in fine steps.
pub open spec fn half(v: int) -> int {
    60 * v
}

/// `v` units in fine steps.
pub fn to_fine(v: i64) -> (r: i128)
    ensures
        r == fine(v as int),
        r == 120 * v,
{
    FINE * (v as i128)
}

/// Half of `v` units in fine steps.
pub fn half_to_fine(v: i64) -> (r: i128)
    ensures
        r == half(v as int),
        2 * r == 120 * v,
{
    FINE / 2 * (v as i128)
}

/// A terminal cell's rectangle, in absolute coordinates, counted in units.
#[derive(Clone, Copy, PartialEq, Eq, Debug)]
pub struct Cell {
    pub x: i64,
    pub y: i64,
    pub width: i64,
    pub height: i64,
}

impl Cell {
    /// The left edge, in fine steps.
    pub open spec fn left_edge(self) -> int {
        fine(self.x as int)
    }

    /// The right edge, in fine steps.
    pub open spec fn right_edge(self) -> int {
        fine(self.x + self.width)
    }

    /// The top edge, in fine steps.
    pub open spec fn top_edge(self) -> int {
        fine(self.y as int)
    }

    /// The bottom edge, in fine steps.
    pub open spec fn bottom_edge(self) -> int {
        fine(self.y + self.height)
    }

    /// The vertical center line, in fine steps.
    pub open spec fn center_x(self) -> int {
        self.left_edge() + half(self.width as int)
    }

    /// The horizontal center line, in fine steps.
    pub open spec fn center_y(self) -> int {
        self.top_edge() + half(self.height as int)
    }

    /// The vertical center line, in fine steps.
    pub fn cx(&self) -> (r: i128)
        ensures
            r == self.center_x(),
            r - 120 * self.x == 120 * (self.x + self.width) - r,
    {
        to_fine(self.x) + half_to_fine(self.width)
    }

    /// The horizontal center line, in fine steps.
    pub fn cy(&self) -> (r: i128)
        ensures
            r == self.center_y(),
            r - 120 * self.y == 120 * (self.y + self.height) - r,
    {
        to_fine(self.y) + half_to_fine(self.height)
    }
}

/// A rectangle to fill, in absolute coordinates counted in fine steps, plus an
/// alpha multiplier in quarters.
#[derive(Clone, Copy, PartialEq, Eq, Debug)]
pub struct Rect {
    pub x: i128,
    pub y: i128,
    pub width: i128,
    pub height: i128,
    pub alpha: u8,
}

/// A rectangle over the mathematical integers.
pub ghost struct Area {
    pub x: int,
    pub y: int,
    pub width: int,
    pub height: int,
    pub alpha: int,
}

impl Area {
    /// Whether the point (`px`, `py`) lies in the rectangle. Left and top edges
    /// belong to it, right and bottom edges do not, so that two rectangles that
    /// share an edge share no point.
    pub open spec fn contains(self, px: int, py: int) -> bool {
        self.x <= px < self.x + self.width && self.y <= py < self.y + self.height
    }
}

impl View for Rect {
    type V = Area;

    open spec fn view(&self) -> Area {
        Area {
            x: self.x as int,
            y: self.y as int,
            width: self.width as int,
            height: self.height as int,
            alpha: self.alpha as int,
        }
    }
}

/// What a list of rectangles fills, in the order of the list.
pub open spec fn areas(rects: Seq<Rect>) -> Seq<Area> {
    rects.map_values(|r: Rect| r@)
}

/// Whether some rectangle of the list holds the point.
pub open spec fn covered(list: Seq<Area>, px: int, py: int) -> bool {
    exists|i: int| 0 <= i < list.len() && (#[trigger] list[i]).contains(px, py)
}

/// One rectangle, or nothing where it would be empty.
pub open spec fn fill(x: int, y: int, width: int, height: int, alpha: int) -> Seq<Area> {
    if width > 0 && height > 0 {
        seq![Area { x, y, width, height, alpha }]
    } else {
        Seq::empty()
    }
}

/// The part of a rectangle that lies within the cell, or nothing where there is
/// none.
pub open spec fn cut(a: Area, cell: Cell) -> Seq<Area> {
    let (x0, x1) = (
        drawing::longer(a.x, cell.left_edge()),
        drawing::shorter(a.x + a.width, cell.right_edge()),
    );
    let (y0, y1) = (
        drawing::longer(a.y, cell.top_edge()),
        drawing::shorter(a.y + a.height, cell.bottom_edge()),
    );
    fill(x0, y0, x1 - x0, y1 - y0, a.alpha)
}

/// The parts of the rectangles of a list that lie within the cell, in the order
/// of the list.
pub open spec fn cut_all(list: Seq<Area>, cell: Cell) -> Seq<Area>
    decreases list.len(),
{
    if list.len() == 0 {
        Seq::empty()
    } else {
        cut_all(list.drop_last(), cell) + cut(list.last(), cell)
    }
}

/// A horizontal bar from `x0` to `x1`, `t` units thick, centered on the line `y`.
pub open spec fn hbar(x0: int, x1: int, y: int, t: int) -> Seq<Area> {
    fill(x0, y - half(t), x1 - x0, fine(t), OPAQUE as int)
}

/// A vertical bar from `y0` to `y1`, `t` units thick, centered on the line `x`.
pub open spec fn vbar(x: int, y0: int, y1: int, t: int) -> Seq<Area> {
    fill(x - half(t), y0, fine(t), y1 - y0, OPAQUE as int)
}

/// Appends one rectangle, unless it is empty.
pub(crate) fn push(out: &mut Vec<Rect>, x: i128, y: i128, width: i128, height: i128, alpha: u8)
    ensures
        areas(final(out)@) == areas(old(out)@) + fill(
            x as int,
            y as int,
            width as int,
            height as int,
            alpha as int,
        ),
{
    if width > 0 && height > 0 {
        out.push(Rect { x, y, width, height, alpha });
    }
    assert(areas(out@) =~= areas(old(out)@) + fill(
        x as int,
        y as int,
        width as int,
        height as int,
        alpha as int,
    ));
}

/// Appends a horizontal bar from `x0` to `x1`, `t` units thick, centered on the
/// line `y`.
pub(crate) fn push_hbar(out: &mut Vec<Rect>, x0: i128, x1: i128, y: i128, t: i64)
    requires
        within_reach(x0 as int),
        within_reach(x1 as int),
        within_reach(y as int),
    ensures
        areas(final(out)@) == areas(old(out)@) + hbar(x0 as int, x1 as int, y as int, t as int),
{
    push(out, x0, y - half_to_fine(t), x1 - x0, to_fine(t), OPAQUE);
}

/// Appends a vertical bar from `y0` to `y1`, `t` units thick, centered on the
/// line `x`.
pub(crate) fn push_vbar(out: &mut Vec<Rect>, x: i128, y0: i128, y1: i128, t: i64)
    requires
        within_reach(x as int),
        within_reach(y0 as int),
        within_reach(y1 as int),
    ensures
        areas(final(out)@) == areas(old(out)@) + vbar(x as int, y0 as int, y1 as int, t as int),
{
    push(out, x - half_to_fine(t), y0, to_fine(t), y1 - y0, OPAQUE);
}

/// Where the span of `len` fine steps from `start` ends, but no further than
/// `limit`.
fn end_within(start: i128, len: i128, limit: i128) -> (r: i128)
    requires
        len > 0,
    ensures
        r == drawing::shorter(start + len, limit as int),
{
    match start.checked_add(len) {
        Some(end) => if end <= limit {
            end
        } else {
            limit
        },
        None => limit,
    }
}

/// Appends the part of a rectangle that lies within the cell, if there is any.
pub(crate) fn push_cut(out: &mut Vec<Rect>, rect: Rect, cell: Cell)
    ensures
        areas(final(out)@) == areas(old(out)@) + cut(rect@, cell),
{
    let (left, right) = (to_fine(cell.x), to_fine(cell.x) + to_fine(cell.width));
    let (top, bottom) = (to_fine(cell.y), to_fine(cell.y) + to_fine(cell.height));
    if rect.width > 0 && rect.height > 0 {
        let x0 = if rect.x >= left {
            rect.x
        } else {
            left
        };
        let y0 = if rect.y >= top {
            rect.y
        } else {
            top
        };
        let x1 = end_within(rect.x, rect.width, right);
        let y1 = end_within(rect.y, rect.height, bottom);
        if x0 < x1 && y0 < y1 {
            push(out, x0, y0, x1 - x0, y1 - y0, rect.alpha);
            return;
        }
    }
    assert(areas(out@) =~= areas(old(out)@) + cut(rect@, cell));
}

/// Cuts every rectangle of a list to the cell and drops those that lie outside.
pub(crate) fn cut_to_cell(rects: &Vec<Rect>, cell: Cell) -> (out: Vec<Rect>)
    ensures
        areas(out@) == cut_all(areas(rects@), cell),
{
    let mut out: Vec<Rect> = Vec::new();
    let ghost all = areas(rects@);
    let mut i: usize = 0;
    assert(areas(out@) =~= cut_all(all.take(0), cell));
    while i < rects.len()
        invariant
            i <= rects.len(),
            all == areas(rects@),
            areas(out@) == cut_all(all.take(i as int), cell),
        decreases rects.len() - i,
    {
        push_cut(&mut out, rects[i], cell);
        proof {
            assert(all.take(i + 1).drop_last() =~= all.take(i as int));
            assert(all.take(i + 1).last() == rects@[i as int]@);
        }
        i += 1;
    }
    assert(all.take(i as int) =~= all);
    out
}

/// A position that leaves room for sums and differences in an `i128`. Every
/// position in or around a cell is one: a coordinate of a cell is below 2^71
/// fine steps.
pub open spec fn within_reach(v: int) -> bool {
    -0x1_0000_0000_0000_0000_0000 <= v <= 0x1_0000_0000_0000_0000_0000
}

} // verus!
