//! The rectangles that glyphs are drawn with.

use box_drawing::render::{
    arc_square, arc_steps, render_arc, render_dashed, render_double, render_lines,
};
use box_drawing::{
    render, shape, weight_of, Cell, Rect, Shape, Spec, Weight, FINE, OPAQUE, PIXEL,
};

/// Fine steps per pixel.
const STEP: i128 = FINE * PIXEL as i128;

/// A cell given in pixels.
fn cell(x: i64, y: i64, width: i64, height: i64) -> Cell {
    Cell { x: x * PIXEL, y: y * PIXEL, width: width * PIXEL, height: height * PIXEL }
}

/// The point at the given radius and angle.
fn polar(radius: i64, angle: i64, steps: i64) -> (i64, i64) {
    let a = std::f64::consts::FRAC_PI_2 * (angle as f64 / steps as f64);
    ((radius as f64 * a.cos()).round() as i64, (radius as f64 * a.sin()).round() as i64)
}

fn pixels(v: i128) -> f32 {
    (v as f64 / STEP as f64) as f32
}

/// The rectangles of `c` in half pixels, with light strokes of two pixels and
/// heavy ones of four: x, y, width, height, alpha.
fn halves(c: char, cell: Cell) -> Vec<(i128, i128, i128, i128, u8)> {
    render(c, cell, 2 * PIXEL, 4 * PIXEL, polar)
        .iter()
        .map(|r| {
            for v in [r.x, r.y, r.width, r.height] {
                assert_eq!(v % (STEP / 2), 0);
            }
            let h = STEP / 2;
            (r.x / h, r.y / h, r.width / h, r.height / h, r.alpha)
        })
        .collect()
}

fn lines(c: char) -> Spec {
    match shape(c) {
        Some(Shape::Lines(s)) => s,
        _ => panic!("{} is not a line drawing", c),
    }
}

#[test]
fn cross_covers_center() {
    // A light cross should produce strokes that reach all four edges.
    let mut min_x = f32::MAX;
    let mut max_x = f32::MIN;
    let mut min_y = f32::MAX;
    let mut max_y = f32::MIN;
    let cell = cell(0, 0, 10, 20);
    for r in render('┼', cell, PIXEL, 2 * PIXEL, polar) {
        min_x = min_x.min(pixels(r.x));
        max_x = max_x.max(pixels(r.x + r.width));
        min_y = min_y.min(pixels(r.y));
        max_y = max_y.max(pixels(r.y + r.height));
    }
    assert_eq!(min_x, 0.0);
    assert_eq!(max_x, 10.0);
    assert_eq!(min_y, 0.0);
    assert_eq!(max_y, 20.0);
}

#[test]
fn vertical_spans_full_height() {
    // The key property for seamless tiling: a vertical bar fills the cell
    // top to bottom so it meets its neighbors above and below.
    let mut min_y = f32::MAX;
    let mut max_y = f32::MIN;
    let cell = cell(5, 7, 10, 20);
    for r in render('│', cell, PIXEL, 2 * PIXEL, polar) {
        min_y = min_y.min(pixels(r.y));
        max_y = max_y.max(pixels(r.y + r.height));
    }
    assert_eq!(min_y, 7.0);
    assert_eq!(max_y, 27.0);
}

#[test]
fn centers_of_a_cell() {
    let c = Cell { x: 3, y: -5, width: 7, height: 4 };
    assert_eq!(c.cx(), 780);
    assert_eq!(c.cy(), -360);
}

#[test]
fn single_strokes() {
    // The cell is 20 by 40 half pixels.
    let at = cell(0, 0, 10, 20);
    assert_eq!(halves('─', at), vec![(0, 18, 10, 4, 4), (10, 18, 10, 4, 4)]);
    assert_eq!(halves('│', at), vec![(8, 0, 4, 20, 4), (8, 20, 4, 20, 4)]);
    assert_eq!(
        halves('┌', at),
        vec![(10, 18, 10, 4, 4), (8, 20, 4, 20, 4), (8, 18, 4, 4, 4)]
    );
    // Left heavy and right light: each arm has its own thickness, and with no
    // vertical arm there is no junction.
    assert_eq!(halves('╾', at), vec![(0, 16, 10, 8, 4), (10, 18, 10, 4, 4)]);
    // The junction is as thick as the thickest arm of each axis.
    assert_eq!(
        halves('╃', at),
        vec![
            (0, 16, 10, 8, 4),
            (10, 18, 10, 4, 4),
            (6, 0, 8, 20, 4),
            (8, 20, 4, 20, 4),
            (6, 16, 8, 8, 4),
        ]
    );
    assert_eq!(halves('╷', at), vec![(8, 20, 4, 20, 4)]);
}

#[test]
fn straight_double_has_no_stub() {
    // The rails lie two pixels off the axis.
    let at = cell(0, 0, 10, 20);
    assert_eq!(halves('═', at), vec![(0, 14, 20, 4, 4), (0, 22, 20, 4, 4)]);
    assert_eq!(halves('║', at), vec![(4, 0, 4, 40, 4), (12, 0, 4, 40, 4)]);
}

#[test]
fn double_corner_opens_its_inner_line() {
    let at = cell(0, 0, 10, 20);
    assert_eq!(
        halves('╔', at),
        vec![
            (4, 14, 16, 4, 4), // outer horizontal
            (16, 22, 4, 4, 4), // inner horizontal, from the inner vertical on
            (4, 14, 4, 26, 4), // outer vertical
            (12, 26, 4, 14, 4), // inner vertical
        ]
    );
}

#[test]
fn double_tee_breaks_one_rail() {
    let at = cell(0, 0, 10, 20);
    assert_eq!(
        halves('╩', at),
        vec![
            (0, 14, 4, 4, 4),
            (16, 14, 4, 4, 4),
            (0, 22, 20, 4, 4),
            (4, 0, 4, 26, 4),
            (12, 0, 4, 26, 4),
        ]
    );
    // A single stem meets a double bar.
    assert_eq!(
        halves('╤', at),
        vec![(0, 14, 20, 4, 4), (0, 22, 8, 4, 4), (12, 22, 8, 4, 4), (8, 14, 4, 26, 4)]
    );
    // A double stem meets a single bar.
    assert_eq!(
        halves('╟', at),
        vec![(4, 18, 16, 4, 4), (4, 0, 4, 40, 4), (12, 0, 4, 18, 4), (12, 22, 4, 18, 4)]
    );
    assert_eq!(
        halves('╬', at),
        vec![(0, 14, 20, 4, 4), (0, 22, 20, 4, 4), (4, 0, 4, 40, 4), (12, 0, 4, 40, 4)]
    );
}

#[test]
fn thin_rails_keep_a_pixel_off_the_axis() {
    let rails = render('═', cell(0, 0, 10, 20), PIXEL / 4, PIXEL, polar);
    assert_eq!(rails.len(), 2);
    assert_eq!(rails[0].y, 9 * STEP - STEP / 8);
    assert_eq!(rails[1].y, 11 * STEP - STEP / 8);
    assert_eq!(rails[0].height, STEP / 4);
}

#[test]
fn dashes_are_even_across_cells() {
    let (here, next) = (cell(5, 0, 15, 20), cell(20, 0, 15, 20));
    let a = render('┄', here, PIXEL, 2 * PIXEL, polar);
    let b = render('┄', next, PIXEL, 2 * PIXEL, polar);
    assert_eq!(a.len(), 3);
    // Each dash takes the middle three of its five pixels.
    let starts: Vec<i128> = a.iter().map(|r| r.x / STEP).collect();
    assert_eq!(starts, vec![6, 11, 16]);
    for r in &a {
        assert_eq!(r.width, 3 * STEP);
        assert_eq!(r.height, STEP);
        assert_eq!(r.y, 10 * STEP - STEP / 2);
    }
    assert_eq!(b[0].x - a[2].x, a[1].x - a[0].x);
    // A heavy vertical one, and one of two dashes.
    let v = render('┋', here, PIXEL, 2 * PIXEL, polar);
    assert_eq!(v.len(), 4);
    assert_eq!((v[3].y, v[3].height, v[3].width), (16 * STEP, 3 * STEP, 2 * STEP));
    assert_eq!(render('╎', here, PIXEL, 2 * PIXEL, polar).len(), 2);
}

#[test]
fn blocks_fill_eighths() {
    let at = cell(0, 0, 16, 32);
    assert_eq!(halves('█', at), vec![(0, 0, 32, 64, 4)]);
    assert_eq!(halves('▀', at), vec![(0, 0, 32, 32, 4)]);
    assert_eq!(halves('▁', at), vec![(0, 56, 32, 8, 4)]);
    assert_eq!(halves('▏', at), vec![(0, 0, 4, 64, 4)]);
    assert_eq!(halves('▕', at), vec![(28, 0, 4, 64, 4)]);
    assert_eq!(halves('▓', at), vec![(0, 0, 32, 64, 3)]);
    assert_eq!(halves('░', at), vec![(0, 0, 32, 64, 1)]);
    assert_eq!(halves('▚', at), vec![(0, 0, 16, 32, 4), (16, 32, 16, 32, 4)]);
    assert_eq!(
        halves('▟', at),
        vec![(16, 0, 16, 32, 4), (0, 32, 16, 32, 4), (16, 32, 16, 32, 4)]
    );
}

fn contains(list: &[Rect], px: i128, py: i128) -> bool {
    list.iter().any(|r| r.x <= px && px < r.x + r.width && r.y <= py && py < r.y + r.height)
}

#[test]
fn opposite_parts_partition_the_cell() {
    let at = Cell { x: -3, y: 2, width: 7, height: 9 };
    for (one, other) in [('▀', '▄'), ('▌', '▐'), ('▔', '▇'), ('▉', '▕'), ('▙', '▝'), ('▚', '▞')] {
        let a = render(one, at, 1, 2, polar);
        let b = render(other, at, 1, 2, polar);
        for px in (-3 * 120 - 10)..(4 * 120 + 10) {
            for py in (2 * 120 - 10)..(11 * 120 + 10) {
                let inside = -360 <= px && px < 480 && 240 <= py && py < 1320;
                let (here, there) = (contains(&a, px, py), contains(&b, px, py));
                assert_eq!(here || there, inside);
                assert!(!(here && there));
            }
        }
    }
}

#[test]
fn rounded_corner_steps() {
    assert_eq!(arc_steps(cell(0, 0, 10, 20)), 10);
    assert_eq!(arc_steps(cell(0, 0, 20, 10)), 10);
    assert_eq!(arc_steps(Cell { x: 0, y: 0, width: 10 * PIXEL + 1, height: 20 * PIXEL }), 11);
    assert_eq!(arc_steps(Cell { x: 0, y: 0, width: 1, height: 1 }), 1);
    assert_eq!(arc_steps(Cell { x: 0, y: 0, width: -5, height: 8 }), 1);
    assert_eq!(arc_steps(Cell { x: 0, y: 0, width: i64::MAX, height: i64::MAX }), 1 << 33);
}

#[test]
fn rounded_corner_asks_for_the_quarter_circle() {
    let asked = std::cell::RefCell::new(Vec::new());
    for c in ['╭', '╮', '╯', '╰'] {
        render(c, cell(0, 0, 2, 3), PIXEL, PIXEL, |radius, angle, steps| {
            asked.borrow_mut().push((c, radius, angle, steps));
            (0, 0)
        });
    }
    let r = 2 * PIXEL;
    assert_eq!(
        asked.into_inner(),
        vec![
            ('╭', r, -2, 2),
            ('╭', r, -3, 2),
            ('╭', r, -4, 2),
            ('╮', r, -2, 2),
            ('╮', r, -1, 2),
            ('╮', r, 0, 2),
            ('╯', r, 2, 2),
            ('╯', r, 1, 2),
            ('╯', r, 0, 2),
            ('╰', r, 2, 2),
            ('╰', r, 3, 2),
            ('╰', r, 4, 2),
        ]
    );
}

#[test]
fn rounded_corner_joins_its_arms() {
    let at = cell(0, 0, 10, 20);
    let out = render('╭', at, 2 * PIXEL, 4 * PIXEL, polar);
    // One straight remainder, eleven squares.
    assert_eq!(out.len(), 12);
    assert_eq!((out[0].x, out[0].y), (4 * STEP, 15 * STEP));
    assert_eq!((out[0].width, out[0].height), (2 * STEP, 5 * STEP));
    // The first square is centered on the right edge, the last one where the
    // straight remainder starts.
    assert_eq!((out[1].x, out[1].y), (9 * STEP, 9 * STEP));
    assert_eq!((out[11].x, out[11].y), (4 * STEP, 14 * STEP));
    // The first two squares reach over the right edge and are cut there.
    assert_eq!((out[1].width, out[1].height, out[1].alpha), (STEP, 2 * STEP, OPAQUE));
    assert_eq!(out[2].x + out[2].width, 10 * STEP);
    assert_eq!(out[2].height, 2 * STEP);
    for r in &out[3..] {
        assert_eq!((r.width, r.height, r.alpha), (2 * STEP, 2 * STEP, OPAQUE));
    }
    let wide = render('╯', cell(0, 0, 20, 10), 2 * PIXEL, 4 * PIXEL, polar);
    assert_eq!(wide.len(), 12);
    assert_eq!((wide[0].x, wide[0].width), (0, 5 * STEP));
    assert_eq!(
        (wide[11].x, wide[11].y, wide[11].width, wide[11].height),
        (9 * STEP, 0, 2 * STEP, STEP)
    );
    let square = arc_square(&lines('╭'), at, 2 * PIXEL, (-6 * PIXEL, 0));
    assert_eq!((square.x, square.y), (6 * STEP, 14 * STEP));
}

#[test]
fn parts_append_to_what_is_there() {
    let at = cell(0, 0, 10, 20);
    let first = Rect { x: 1, y: 2, width: 3, height: 4, alpha: 1 };
    let mut out = vec![first];
    render_double(&lines('═'), at, PIXEL, &mut out);
    assert_eq!(out.len(), 3);
    render_dashed(&lines('╌'), at, PIXEL, &mut out);
    assert_eq!(out.len(), 5);
    render_arc(&lines('╰'), at, PIXEL, polar, &mut out);
    assert_eq!(out.len(), 17);
    assert_eq!(out[0], first);
}

#[test]
fn nothing_is_drawn_for_the_font() {
    for c in ['A', ' ', '╱', '╲', '╳', '\u{24FF}', '\u{25A0}'] {
        assert!(render(c, cell(0, 0, 10, 20), PIXEL, 2 * PIXEL, polar).is_empty());
    }
}

#[test]
fn something_is_drawn_for_every_glyph() {
    for c in ('\u{2500}'..='\u{259F}').filter(|c| !('╱'..='╳').contains(c)) {
        let out = render(c, Cell { x: 0, y: 0, width: 1, height: 1 }, 1, 1, polar);
        assert!(!out.is_empty());
        for r in out {
            assert!(r.width > 0 && r.height > 0);
        }
    }
}

#[test]
fn empty_rectangles_are_dropped() {
    for c in '\u{2500}'..='\u{259F}' {
        let flat = cell(0, 0, 10, 0);
        for r in render(c, flat, PIXEL, 2 * PIXEL, polar) {
            assert!(r.width > 0 && r.height > 0);
        }
        if let Some(Shape::Lines(_)) = shape(c) {
            assert!(render(c, cell(0, 0, 10, 20), 0, 0, polar).is_empty());
            assert!(render(c, cell(0, 0, 10, 20), -PIXEL, -PIXEL, polar).is_empty());
        } else {
            assert!(render(c, flat, PIXEL, PIXEL, polar).is_empty());
        }
    }
}

#[test]
fn lines_stay_inside_their_cell() {
    let at = cell(3, 4, 10, 20);
    for c in '\u{2500}'..='\u{259F}' {
        for r in render(c, at, PIXEL, 2 * PIXEL, polar) {
            assert!(3 * STEP <= r.x && r.x + r.width <= 13 * STEP);
            assert!(4 * STEP <= r.y && r.y + r.height <= 24 * STEP);
        }
    }
}

#[test]
fn rounded_corners_are_cut_to_their_cell() {
    let at = cell(0, 0, 10, 20);
    let inside = |r: &Rect| {
        0 <= r.x && r.x + r.width <= 10 * STEP && 0 <= r.y && r.y + r.height <= 20 * STEP
    };
    for c in ['╭', '╮', '╯', '╰'] {
        assert!(render(c, at, PIXEL, 2 * PIXEL, polar).iter().all(inside));
        // A stroke thicker than the cell covers it, and no more.
        let thick = render(c, at, 50 * PIXEL, 50 * PIXEL, polar);
        assert!(thick.iter().all(inside));
        assert!(contains(&thick, 0, 0) && contains(&thick, 10 * STEP - 1, 20 * STEP - 1));
        // Points far from the circle leave nothing but the straight remainder.
        assert_eq!(render(c, at, PIXEL, PIXEL, |_, _, _| (90 * PIXEL, 0)).len(), 1);
        // The corner as such reaches over the edge that its arc starts on.
        let mut whole = Vec::new();
        render_arc(&lines(c), at, PIXEL, polar, &mut whole);
        assert!(!whole.iter().all(inside));
    }
}

#[test]
fn many_dashes_keep_to_their_fractions() {
    // A line of ten units has 1200 fine steps, enough for 255 dashes.
    let many = Spec { dashes: 255, ..lines('╌') };
    let mut out = Vec::new();
    render_dashed(&many, Cell { x: 0, y: 0, width: 10, height: 10 }, 1, &mut out);
    assert_eq!(out.len(), 255);
    assert_eq!((out[0].x, out[0].width), (0, 3));
    assert_eq!((out[254].x, out[254].x + out[254].width), (1196, 1199));

    // Sevenths of a unit, rounded down, and the same rhythm in the next cell.
    let seven = Spec { dashes: 7, ..lines('╌') };
    let mut out = Vec::new();
    render_dashed(&seven, Cell { x: 0, y: 0, width: 1, height: 1 }, 1, &mut out);
    render_dashed(&seven, Cell { x: 1, y: 0, width: 1, height: 1 }, 1, &mut out);
    let edges: Vec<(i128, i128)> = out.iter().map(|r| (r.x, r.x + r.width)).collect();
    let here = [(3, 13), (20, 30), (37, 48), (54, 65), (72, 82), (89, 99), (106, 116)];
    assert_eq!(edges[..7], here);
    assert_eq!(edges[7..], here.map(|(start, end)| (start + 120, end + 120)));

    let mut none = Vec::new();
    render_dashed(&seven, Cell { x: 0, y: 0, width: 0, height: 1 }, 1, &mut none);
    render_dashed(&seven, Cell { x: 0, y: 0, width: -5, height: 1 }, 1, &mut none);
    assert!(none.is_empty());
}

#[test]
fn glyphs_move_with_their_cell() {
    let (from, to) = (cell(0, 0, 7, 12), cell(-30, 41, 7, 12));
    for c in '\u{2500}'..='\u{259F}' {
        let a = render(c, from, PIXEL, 2 * PIXEL, polar);
        let b = render(c, to, PIXEL, 2 * PIXEL, polar);
        let moved: Vec<Rect> = a
            .iter()
            .map(|r| Rect { x: r.x - 30 * STEP, y: r.y + 41 * STEP, ..*r })
            .collect();
        assert_eq!(b, moved);
    }
}

/// Where a glyph has ink on a vertical line, sampled every quarter pixel.
fn column(c: char, at: Cell, px: i128) -> Vec<bool> {
    let out = render(c, at, PIXEL, 2 * PIXEL, polar);
    (0..80).map(|i| contains(&out, px, i * STEP / 4)).collect()
}

/// Where a glyph has ink on a horizontal line, sampled every quarter pixel.
fn row(c: char, at: Cell, py: i128) -> Vec<bool> {
    let out = render(c, at, PIXEL, 2 * PIXEL, polar);
    (0..80).map(|i| contains(&out, i * STEP / 4, py)).collect()
}

#[test]
fn facing_arms_meet_at_the_seam() {
    let solid: Vec<(char, Spec)> = ('\u{2500}'..='\u{257F}')
        .filter_map(|c| match shape(c) {
            Some(Shape::Lines(s)) if s.dashes == 0 && !s.arc => Some((c, s)),
            _ => None,
        })
        .collect();
    let (left, right) = (cell(0, 0, 9, 20), cell(9, 0, 12, 20));
    let (upper, lower) = (cell(0, 0, 20, 9), cell(0, 9, 20, 13));
    for (a, s) in &solid {
        let east = column(*a, left, 9 * STEP - 1);
        let south = row(*a, upper, 9 * STEP - 1);
        for (b, t) in &solid {
            if s.right == t.left {
                assert_eq!(east, column(*b, right, 9 * STEP));
            }
            if s.down == t.up {
                assert_eq!(south, row(*b, lower, 9 * STEP));
            }
        }
    }
}

#[test]
fn rounded_corners_meet_their_neighbors() {
    for at in [cell(0, 0, 9, 20), cell(0, 0, 20, 9), cell(0, 0, 10, 10)] {
        for c in ['╭', '╮', '╯', '╰'] {
            let s = lines(c);
            let out = render(c, at, 2 * PIXEL, 4 * PIXEL, polar);
            let (width, height) = (FINE * at.width as i128, FINE * at.height as i128);
            let x = if s.right.is_some() { width - 1 } else { 0 };
            let y = if s.down.is_some() { height - 1 } else { 0 };
            for p in [-STEP, -STEP / 2, 0, STEP - 1] {
                assert!(contains(&out, x, height / 2 + p));
                assert!(contains(&out, width / 2 + p, y));
            }
        }
    }
}

#[test]
fn rounded_corners_are_unbroken() {
    let overlap = |a: &Rect, b: &Rect| {
        a.x < b.x + b.width && b.x < a.x + a.width && a.y < b.y + b.height && b.y < a.y + a.height
    };
    let small = Cell { x: 0, y: 0, width: PIXEL / 3, height: PIXEL / 2 };
    for at in [cell(0, 0, 10, 20), cell(3, 5, 31, 17), cell(0, 0, 1, 1), cell(0, 0, 2, 2), small] {
        let steps = arc_steps(at);
        // Neighboring points are no further apart than the arc between them.
        let radius = at.width.min(at.height);
        for angle in -2 * steps..2 * steps {
            let (a, b) = (polar(radius, angle, steps), polar(radius, angle + 1, steps));
            let (dx, dy) = ((b.0 - a.0) as i128, (b.1 - a.1) as i128);
            let (n, r) = (steps as i128, radius as i128);
            assert!(49 * n * n * (dx * dx + dy * dy) <= 121 * r * r);
        }
        for c in ['╭', '╮', '╯', '╰'] {
            let mut out = Vec::new();
            render_arc(&lines(c), at, PIXEL, polar, &mut out);
            let squares = &out[out.len() - steps as usize - 1..];
            for pair in squares.windows(2) {
                assert!(overlap(&pair[0], &pair[1]));
                assert!((pair[1].x - pair[0].x).abs() < STEP);
                assert!((pair[1].y - pair[0].y).abs() < STEP);
            }
            let drawn = render(c, at, PIXEL, 2 * PIXEL, polar);
            for pair in drawn[drawn.len() - steps as usize - 1..].windows(2) {
                assert!(overlap(&pair[0], &pair[1]));
            }
        }
    }
}

#[test]
fn lines_are_drawn_by_kind() {
    let at = cell(1, 2, 10, 20);
    let (light, heavy) = (PIXEL, 3 * PIXEL);
    for c in ('\u{2500}'..='\u{257F}').filter(|c| !('╱'..='╳').contains(c)) {
        let s = lines(c);
        let (mut found, mut part) = (Vec::new(), Vec::new());
        render_lines(&s, at, light, heavy, polar, &mut found);
        if s.arc {
            render_arc(&s, at, light, polar, &mut part);
        } else if s.dashes > 0 {
            let t = if weight_of(&s) == Weight::Heavy { heavy } else { light };
            render_dashed(&s, at, t, &mut part);
        } else if [s.up, s.down, s.left, s.right].contains(&Some(Weight::Double)) {
            render_double(&s, at, light, &mut part);
        } else {
            continue;
        }
        assert_eq!(found, part);
    }
}

#[test]
fn strokes_fill_their_junction() {
    let at = cell(0, 0, 10, 20);
    for c in '\u{250C}'..='\u{254B}' {
        let out = render(c, at, 2 * PIXEL, 2 * PIXEL, polar);
        for (px, py) in [(-1, -1), (-1, 0), (0, -1), (0, 0)] {
            let (x, y) = (5 * STEP + px * (STEP - 1), 10 * STEP + py * (STEP - 1));
            assert!(contains(&out, x, y));
        }
    }
}

#[test]
fn double_lines_leave_the_center_open() {
    let at = cell(0, 0, 10, 20);
    for c in ['╔', '╗', '╚', '╝', '╠', '╣', '╦', '╩', '╬'] {
        let out = render(c, at, PIXEL, 2 * PIXEL, polar);
        assert!(!contains(&out, 5 * STEP, 10 * STEP));
    }
    // The rail of a tee is open between the rails of its stem.
    let tee = render('╦', at, PIXEL, 2 * PIXEL, polar);
    assert!(!contains(&tee, 5 * STEP, 11 * STEP));
    assert!(contains(&tee, 5 * STEP, 9 * STEP));
}

#[test]
fn sample_sheet_has_unbroken_borders() {
    let rows = [
        "┌───┬───┐  ┏━━━┳━━━┓  ╔═══╦═══╗  ╭───┬───╮",
        "│   │   │  ┃   ┃   ┃  ║   ║   ║  │   │   │",
        "├───┼───┤  ┣━━━╋━━━┫  ╠═══╬═══╣  ├───┼───┤",
        "│   │   │  ┃   ┃   ┃  ║   ║   ║  │   │   │",
        "└───┴───┘  ┗━━━┻━━━┛  ╚═══╩═══╝  ╰───┴───╯",
    ];
    let (cw, ch) = (16usize, 28usize);
    let cols = rows.iter().map(|r| r.chars().count()).max().unwrap();
    let (iw, ih) = (cols * cw, rows.len() * ch);
    let mut buf = vec![0u8; iw * ih];
    let (light, heavy) = box_drawing::line_thickness(20 * PIXEL);
    for (ry, row) in rows.iter().enumerate() {
        for (cx, c) in row.chars().enumerate() {
            let at = cell((cx * cw) as i64, (ry * ch) as i64, cw as i64, ch as i64);
            for r in render(c, at, light, heavy, polar) {
                // Snap to pixels and blend white at the rectangle's alpha.
                let x0 = pixels(r.x).round().max(0.0) as usize;
                let y0 = pixels(r.y).round().max(0.0) as usize;
                let x1 = (pixels(r.x + r.width).round() as usize).min(iw);
                let y1 = (pixels(r.y + r.height).round() as usize).min(ih);
                for py in y0..y1 {
                    for px in x0..x1 {
                        buf[py * iw + px] = buf[py * iw + px].max(255 / OPAQUE * r.alpha);
                    }
                }
            }
        }
    }
    // The outer verticals and the top border of the light, heavy and rounded
    // frames, and the middle line of each.
    for frame in [0usize, 11, 33] {
        let (x0, x1) = (frame * cw + cw / 2, (frame + 8) * cw + cw / 2);
        for py in (ch / 2 + 8)..(ih - ch / 2 - 8) {
            assert!(buf[py * iw + x0] > 0 && buf[py * iw + x1] > 0);
        }
        for px in (x0 + 8)..(x1 - 8) {
            assert!(buf[(ch / 2) * iw + px] > 0);
            assert!(buf[(2 * ch + ch / 2) * iw + px] > 0);
        }
    }
    // Every rail of the double frame, two pixels off the axis, outside the
    // corners and the broken rails of the tees.
    for px in (22 * cw + cw)..(26 * cw) {
        assert!(buf[(ch / 2 - 2) * iw + px] > 0);
        assert!(buf[(ch / 2 + 2) * iw + px] > 0);
        assert_eq!(buf[(ch / 2) * iw + px], 0);
    }
}
