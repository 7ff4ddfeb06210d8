//! The table of glyphs and the stroke thicknesses.

use box_drawing::render::{max_thick, thick, weight_of};
use box_drawing::{is_box_drawing, line_thickness, shape, Shape, Spec, Weight, PIXEL};

const NONE: Spec = Spec { up: None, down: None, left: None, right: None, dashes: 0, arc: false };

#[test]
fn predicate_matches_table() {
    // Everything in the Box Drawing + Block Elements range that we draw must
    // report as box drawing, and diagonals must not.
    assert!(is_box_drawing('┼'));
    assert!(is_box_drawing('╬'));
    assert!(is_box_drawing('█'));
    assert!(is_box_drawing('░'));
    assert!(!is_box_drawing('╱')); // diagonal: left to the font
    assert!(!is_box_drawing('A'));
}

#[test]
fn predicate_covers_both_blocks_but_the_diagonals() {
    let drawn: Vec<char> = ('\0'..=char::MAX).filter(|c| is_box_drawing(*c)).collect();
    let expected: Vec<char> =
        ('\u{2500}'..='\u{259F}').filter(|c| !('╱'..='╳').contains(c)).collect();
    assert_eq!(drawn, expected);
    assert_eq!(drawn.len(), 157);
}

#[test]
fn names_give_the_arms() {
    // UP HEAVY AND RIGHT DOWN LIGHT
    assert_eq!(
        shape('┞'),
        Some(Shape::Lines(Spec {
            up: Some(Weight::Heavy),
            down: Some(Weight::Light),
            right: Some(Weight::Light),
            ..NONE
        }))
    );
    // LIGHT QUADRUPLE DASH VERTICAL
    assert_eq!(
        shape('┊'),
        Some(Shape::Lines(Spec {
            up: Some(Weight::Light),
            down: Some(Weight::Light),
            dashes: 4,
            ..NONE
        }))
    );
    // UP DOUBLE AND HORIZONTAL SINGLE
    assert_eq!(
        shape('╨'),
        Some(Shape::Lines(Spec {
            up: Some(Weight::Double),
            left: Some(Weight::Light),
            right: Some(Weight::Light),
            ..NONE
        }))
    );
    // LIGHT ARC UP AND LEFT
    assert_eq!(
        shape('╯'),
        Some(Shape::Lines(Spec {
            up: Some(Weight::Light),
            left: Some(Weight::Light),
            arc: true,
            ..NONE
        }))
    );
}

#[test]
fn names_give_the_blocks() {
    assert_eq!(shape('▁'), Some(Shape::Rect { x0: 0, y0: 7, x1: 8, y1: 8 }));
    assert_eq!(shape('▊'), Some(Shape::Rect { x0: 0, y0: 0, x1: 6, y1: 8 }));
    assert_eq!(shape('▐'), Some(Shape::Rect { x0: 4, y0: 0, x1: 8, y1: 8 }));
    assert_eq!(shape('▒'), Some(Shape::Shade(2)));
    assert_eq!(
        shape('▙'),
        Some(Shape::Quadrants { ul: true, ur: false, ll: true, lr: true })
    );
    assert_eq!(shape('╳'), None);
    assert_eq!(shape('\u{25A0}'), None);
}

#[test]
fn glyphs_are_well_made() {
    for c in '\u{2500}'..='\u{259F}' {
        match shape(c) {
            Some(Shape::Lines(s)) => {
                let arms = [s.up, s.down, s.left, s.right];
                assert!(arms.iter().any(|a| a.is_some()));
                if s.dashes > 0 {
                    assert!((2..=4).contains(&s.dashes));
                    assert!(s.left == s.right && s.up == s.down);
                }
                if s.arc {
                    assert!(arms.iter().flatten().all(|w| *w == Weight::Light));
                    assert_eq!(arms.iter().flatten().count(), 2);
                }
                if arms.contains(&Some(Weight::Double)) {
                    assert!(!arms.contains(&Some(Weight::Heavy)));
                }
            }
            Some(Shape::Rect { x0, y0, x1, y1 }) => {
                assert!(x0 < x1 && x1 <= 8 && y0 < y1 && y1 <= 8)
            }
            Some(Shape::Shade(alpha)) => assert!(0 < alpha && alpha < 4),
            Some(Shape::Quadrants { ul, ur, ll, lr }) => assert!(ul || ur || ll || lr),
            None => assert!(('╱'..='╳').contains(&c)),
        }
    }
}

#[test]
fn thickness_follows_the_font_size() {
    assert_eq!(line_thickness(20 * PIXEL), (2 * PIXEL, 4 * PIXEL));
    assert_eq!(line_thickness(14 * PIXEL), (PIXEL, 2 * PIXEL));
    // Halves round up.
    assert_eq!(line_thickness(25 * PIXEL), (3 * PIXEL, 6 * PIXEL));
    assert_eq!(line_thickness(25 * PIXEL - 1), (2 * PIXEL, 4 * PIXEL));
    // A pixel at least.
    assert_eq!(line_thickness(3 * PIXEL), (PIXEL, 2 * PIXEL));
    assert_eq!(line_thickness(0), (PIXEL, 2 * PIXEL));
    assert_eq!(line_thickness(-40 * PIXEL), (PIXEL, 2 * PIXEL));
    assert_eq!(line_thickness(i64::MIN), (PIXEL, 2 * PIXEL));
    let (light, heavy) = line_thickness(i64::MAX);
    assert_eq!(light, 858_993_459 * PIXEL);
    assert_eq!(heavy, 2 * light);
}

#[test]
fn weight_of_a_line() {
    assert_eq!(weight_of(&NONE), Weight::Light);
    assert_eq!(weight_of(&Spec { right: Some(Weight::Heavy), ..NONE }), Weight::Heavy);
    let s = Spec { left: Some(Weight::Double), right: Some(Weight::Heavy), ..NONE };
    assert_eq!(weight_of(&s), Weight::Double);
    assert_eq!(weight_of(&Spec { down: Some(Weight::Heavy), ..s }), Weight::Heavy);
    assert_eq!(
        weight_of(&Spec { up: Some(Weight::Light), down: Some(Weight::Heavy), ..s }),
        Weight::Light
    );
}

#[test]
fn thickness_of_arms() {
    assert_eq!(thick(Weight::Light, 3, 7), 3);
    assert_eq!(thick(Weight::Double, 3, 7), 3);
    assert_eq!(thick(Weight::Heavy, 3, 7), 7);
    assert_eq!(max_thick(None, None, 3, 7), 0);
    assert_eq!(max_thick(Some(Weight::Light), None, 3, 7), 3);
    assert_eq!(max_thick(Some(Weight::Light), Some(Weight::Heavy), 3, 7), 7);
    assert_eq!(max_thick(Some(Weight::Heavy), Some(Weight::Light), 3, 7), 7);
    assert_eq!(max_thick(Some(Weight::Light), None, -3, 7), 0);
}
