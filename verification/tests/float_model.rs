//! The geometry once more, in single-precision pixels, against the library.

use box_drawing::{render, shape, Cell, Rect, Shape, Spec, Weight, FINE, PIXEL};

/// x, y, width, height, alpha.
type Quad = [f32; 5];

/// x, y, width, height of a cell.
type Frame = [f32; 4];

fn push(out: &mut Vec<Quad>, x: f32, y: f32, width: f32, height: f32, alpha: f32) {
    if width > 0.0 && height > 0.0 {
        out.push([x, y, width, height, alpha]);
    }
}

fn single(s: &Spec, [x, y, w, h]: Frame, light: f32, heavy: f32, out: &mut Vec<Quad>) {
    let (cx, cy) = (x + w / 2.0, y + h / 2.0);
    let thick = |arm: Option<Weight>| match arm {
        Some(Weight::Heavy) => heavy,
        Some(_) => light,
        None => 0.0,
    };
    let (l, r, u, d) = (thick(s.left), thick(s.right), thick(s.up), thick(s.down));
    push(out, x, cy - l / 2.0, cx - x, l, 1.0);
    push(out, cx, cy - r / 2.0, x + w - cx, r, 1.0);
    push(out, cx - u / 2.0, y, u, cy - y, 1.0);
    push(out, cx - d / 2.0, cy, d, y + h - cy, 1.0);
    let (v, k) = (u.max(d), l.max(r));
    push(out, cx - v / 2.0, cy - k / 2.0, v, k, 1.0);
}

fn double(s: &Spec, [x, y, w, h]: Frame, t: f32, out: &mut Vec<Quad>) {
    let (cx, cy) = (x + w / 2.0, y + h / 2.0);
    let off = t.max(1.0);
    let (up, down) = (s.up.is_some(), s.down.is_some());
    let (left, right) = (s.left.is_some(), s.right.is_some());
    let twice = Some(Weight::Double);
    let hy = if s.left == twice || s.right == twice { vec![cy - off, cy + off] } else { vec![cy] };
    let vx = if s.up == twice || s.down == twice { vec![cx - off, cx + off] } else { vec![cx] };
    let (x0, x1) = (vx[0] - t / 2.0, vx[vx.len() - 1] + t / 2.0);
    let (y0, y1) = (hy[0] - t / 2.0, hy[hy.len() - 1] + t / 2.0);
    if left || right {
        for (i, ry) in hy.iter().enumerate() {
            let from = if left { x } else if up || down { x0 } else { cx };
            let to = if right { x + w } else if up || down { x1 } else { cx };
            let open = hy.len() == 2 && if i == 0 { up && !down } else { down && !up };
            if open {
                push(out, from, ry - t / 2.0, x0 - from, t, 1.0);
                push(out, x1, ry - t / 2.0, to - x1, t, 1.0);
            } else {
                push(out, from, ry - t / 2.0, to - from, t, 1.0);
            }
        }
    }
    if up || down {
        for (i, rx) in vx.iter().enumerate() {
            let from = if up { y } else if left || right { y0 } else { cy };
            let to = if down { y + h } else if left || right { y1 } else { cy };
            let open = vx.len() == 2 && if i == 0 { left && !right } else { right && !left };
            if open {
                push(out, rx - t / 2.0, from, t, y0 - from, 1.0);
                push(out, rx - t / 2.0, y1, t, to - y1, 1.0);
            } else {
                push(out, rx - t / 2.0, from, t, to - from, 1.0);
            }
        }
    }
}

fn dashed(s: &Spec, [x, y, w, h]: Frame, light: f32, heavy: f32, out: &mut Vec<Quad>) {
    let (cx, cy) = (x + w / 2.0, y + h / 2.0);
    let weight = s.up.or(s.down).or(s.left).or(s.right);
    let t = if weight == Some(Weight::Heavy) { heavy } else { light };
    let horizontal = s.left.is_some() || s.right.is_some();
    let seg = if horizontal { w } else { h } / s.dashes as f32;
    let dash = seg * 0.6;
    let gap = (seg - dash) / 2.0;
    for i in 0..s.dashes {
        let offset = i as f32 * seg + gap;
        if horizontal {
            push(out, x + offset, cy - t / 2.0, dash, t, 1.0);
        } else {
            push(out, cx - t / 2.0, y + offset, t, dash, 1.0);
        }
    }
}

/// Appends the part of a rectangle that lies within the cell.
fn push_cut(out: &mut Vec<Quad>, [qx, qy, qw, qh, alpha]: Quad, [x, y, w, h]: Frame) {
    let (x0, x1) = (qx.max(x), (qx + qw).min(x + w));
    let (y0, y1) = (qy.max(y), (qy + qh).min(y + h));
    push(out, x0, y0, x1 - x0, y1 - y0, alpha);
}

fn rounded(s: &Spec, [x, y, w, h]: Frame, t: f32, out: &mut Vec<Quad>) {
    let (cx, cy) = (x + w / 2.0, y + h / 2.0);
    let sh = if s.right.is_some() { 1.0f32 } else { -1.0 };
    let sv = if s.down.is_some() { 1.0f32 } else { -1.0 };
    let r = (w / 2.0).min(h / 2.0);
    if sh > 0.0 {
        push(out, cx + r, cy - t / 2.0, x + w - (cx + r), t, 1.0);
    } else {
        push(out, x, cy - t / 2.0, cx - r - x, t, 1.0);
    }
    if sv > 0.0 {
        push(out, cx - t / 2.0, cy + r, t, y + h - (cy + r), 1.0);
    } else {
        push(out, cx - t / 2.0, y, t, cy - r - y, 1.0);
    }
    let turn = std::f32::consts::FRAC_PI_2 * if sh * sv > 0.0 { -1.0 } else { 1.0 };
    let steps = (r * 2.0).ceil().max(1.0) as usize;
    for i in 0..=steps {
        let a = (-sv).atan2(0.0) + turn * (i as f32 / steps as f32);
        let (px, py) = (cx + sh * r + r * a.cos(), cy + sv * r + r * a.sin());
        push(out, px - t / 2.0, py - t / 2.0, t, t, 1.0);
    }
}

fn model(c: char, frame: Frame, light: f32, heavy: f32) -> Vec<Quad> {
    let [x, y, w, h] = frame;
    let mut out = Vec::new();
    match shape(c) {
        None => {}
        Some(Shape::Rect { x0, y0, x1, y1 }) => {
            let [x0, y0, x1, y1] = [x0, y0, x1, y1].map(|e| e as f32 / 8.0);
            push(&mut out, x + x0 * w, y + y0 * h, (x1 - x0) * w, (y1 - y0) * h, 1.0);
        }
        Some(Shape::Shade(quarters)) => push(&mut out, x, y, w, h, quarters as f32 / 4.0),
        Some(Shape::Quadrants { ul, ur, ll, lr }) => {
            let (hw, hh) = (w / 2.0, h / 2.0);
            for (on, qx, qy) in
                [(ul, x, y), (ur, x + hw, y), (ll, x, y + hh), (lr, x + hw, y + hh)]
            {
                if on {
                    push(&mut out, qx, qy, hw, hh, 1.0);
                }
            }
        }
        Some(Shape::Lines(s)) if s.arc => {
            let mut whole = Vec::new();
            rounded(&s, frame, light, &mut whole);
            for q in whole {
                push_cut(&mut out, q, frame);
            }
        }
        Some(Shape::Lines(s)) if s.dashes > 0 => dashed(&s, frame, light, heavy, &mut out),
        Some(Shape::Lines(s)) => {
            if [s.up, s.down, s.left, s.right].contains(&Some(Weight::Double)) {
                double(&s, frame, light, &mut out)
            } else {
                single(&s, frame, light, heavy, &mut out)
            }
        }
    }
    out
}

fn units(v: f32) -> i64 {
    (v as f64 * PIXEL as f64) as i64
}

fn polar(radius: i64, angle: i64, steps: i64) -> (i64, i64) {
    let a = std::f64::consts::FRAC_PI_2 * (angle as f64 / steps as f64);
    ((radius as f64 * a.cos()).round() as i64, (radius as f64 * a.sin()).round() as i64)
}

fn quad(r: &Rect) -> Quad {
    let step = FINE as f64 * PIXEL as f64;
    let px = |v: i128| (v as f64 / step) as f32;
    [px(r.x), px(r.y), px(r.width), px(r.height), r.alpha as f32 / 4.0]
}

fn compare(frame: Frame, light: f32, heavy: f32) {
    let [x, y, width, height] = frame.map(units);
    for c in '\u{24F0}'..='\u{25B0}' {
        let expected = model(c, frame, light, heavy);
        let found =
            render(c, Cell { x, y, width, height }, units(light), units(heavy), polar);
        assert_eq!(found.len(), expected.len(), "{}", c);
        for (f, e) in found.iter().map(quad).zip(&expected) {
            for k in 0..5 {
                assert!((f[k] - e[k]).abs() < 1e-3, "{}: {:?} {:?}", c, f, e);
            }
        }
    }
}

#[test]
fn agrees_with_pixels_in_a_plain_cell() {
    compare([0.0, 0.0, 10.0, 20.0], 1.0, 2.0);
    compare([5.0, 7.0, 10.0, 20.0], 2.0, 4.0);
}

#[test]
fn agrees_with_pixels_in_a_fractional_cell() {
    compare([33.5, 12.25, 8.4375, 17.75], 1.0, 2.0);
    compare([1201.75, 644.5, 13.0625, 27.125], 1.5, 3.0);
}

#[test]
fn agrees_with_pixels_for_thin_strokes() {
    compare([-16.0, -8.0, 12.0, 9.5], 0.5, 1.0);
    compare([0.0, 0.0, 0.25, 0.5], 0.125, 0.25);
}

#[test]
fn agrees_with_pixels_for_strokes_that_crowd_the_cell() {
    compare([0.0, 0.0, 4.0, 5.0], 3.0, 6.0);
    compare([0.0, 0.0, 2.0, 2.0], 8.0, 16.0);
}

#[test]
fn agrees_with_pixels_without_a_size() {
    compare([0.0, 0.0, 0.0, 20.0], 1.0, 2.0);
    compare([0.0, 0.0, 10.0, 0.0], 1.0, 2.0);
    compare([0.0, 0.0, 10.0, 20.0], 0.0, 0.0);
    compare([3.0, 4.0, -10.0, 20.0], 1.0, 2.0);
    compare([3.0, 4.0, 10.0, 20.0], 1.0, -2.0);
    compare([3.0, 4.0, 10.0, 20.0], -1.0, 2.0);
}
