//! How the shapes of the glyphs follow from their place in the code charts.
//!
//! The two blocks are laid out by rule: corners come in fours, tees in eights,
//! double glyphs in threes, and the place in a group tells which arms are
//! emphasized. The laws below read the shape off the code point.

use vstd::prelude::*;

use crate::glyph::{is_box_drawing, shape, Shape, Weight};

verus! {

/// The drawable characters are those of U+2500..U+259F without the diagonals
/// U+2571..U+2573, and just these have a shape.
pub proof fn law_drawable_code_points(c: char, drawable: bool, r: Option<Shape>)
    requires
        call_ensures(is_box_drawing, (c,), drawable),
        call_ensures(shape, (c,), r),
    ensures
        drawable <==> 0x2500 <= c as u32 <= 0x2570 || 0x2574 <= c as u32 <= 0x259F,
        r is Some <==> drawable,
{
}

/// Straight lines, U+2500..U+250B and U+254C..U+254F: light and heavy take
/// turns, two horizontal lines precede two vertical ones. The first four are
/// solid, the next ones have three dashes, then four; those of the second group
/// have two.
pub proof fn law_straight_lines(c: char, r: Option<Shape>)
    requires
        call_ensures(shape, (c,), r),
        0x2500 <= c as u32 <= 0x250B || 0x254C <= c as u32 <= 0x254F,
    ensures
        ({
            let n = c as u32 % 4;
            let arm = Some(if n % 2 == 1 {
                Weight::Heavy
            } else {
                Weight::Light
            });
            &&& r matches Some(Shape::Lines(s))
            &&& n < 2 ==> s.left == arm && s.right == arm && s.up is None && s.down is None
            &&& n >= 2 ==> s.up == arm && s.down == arm && s.left is None && s.right is None
            &&& s.dashes == if c as u32 <= 0x2503 {
                0int
            } else if c as u32 <= 0x2507 {
                3
            } else if c as u32 <= 0x250B {
                4
            } else {
                2
            }
            &&& !s.arc
        }),
{
}

/// Corners, U+250C..U+251B: four groups that open to the right and down, to the
/// left and down, to the right and up, to the left and up. In each group the
/// horizontal arm is heavy in every other glyph, and the vertical arm in the
/// second half.
pub proof fn law_corners(c: char, r: Option<Shape>)
    requires
        call_ensures(shape, (c,), r),
        0x250C <= c as u32 <= 0x251B,
    ensures
        ({
            let (group, n) = ((c as u32 - 0x250C) / 4, c as u32 % 4);
            let across = Some(if n % 2 == 1 {
                Weight::Heavy
            } else {
                Weight::Light
            });
            let along = Some(if n >= 2 {
                Weight::Heavy
            } else {
                Weight::Light
            });
            &&& r matches Some(Shape::Lines(s))
            &&& group % 2 == 0 ==> s.right == across && s.left is None
            &&& group % 2 == 1 ==> s.left == across && s.right is None
            &&& group < 2 ==> s.down == along && s.up is None
            &&& group >= 2 ==> s.up == along && s.down is None
            &&& s.dashes == 0 && !s.arc
        }),
{
}

/// Tees on a vertical line, U+251C..U+252B: eight with an arm to the right and
/// none to the left, then eight the other way round. In each group, the heavy
/// arms are none, the side arm, the upper, the lower, both upright ones, the side
/// and the upper, the side and the lower, all.
pub proof fn law_upright_tees(c: char, r: Option<Shape>)
    requires
        call_ensures(shape, (c,), r),
        0x251C <= c as u32 <= 0x252B,
    ensures
        ({
            let n = (c as u32 - 0x251C) % 8;
            let (light, heavy) = (Some(Weight::Light), Some(Weight::Heavy));
            let side = if n == 1 || n >= 5 {
                heavy
            } else {
                light
            };
            &&& r matches Some(Shape::Lines(s))
            &&& c as u32 <= 0x2523 ==> s.right == side && s.left is None
            &&& c as u32 >= 0x2524 ==> s.left == side && s.right is None
            &&& s.up == if n == 2 || n == 4 || n == 5 || n == 7 {
                heavy
            } else {
                light
            }
            &&& s.down == if n == 3 || n == 4 || n == 6 || n == 7 {
                heavy
            } else {
                light
            }
            &&& s.dashes == 0 && !s.arc
        }),
{
}

/// Tees on a horizontal line, U+252C..U+253B: eight with an arm down and none
/// up, then eight the other way round. In each group, the left arm is heavy in
/// every other glyph, the right arm in every other pair, the stem in the second
/// half.
pub proof fn law_level_tees(c: char, r: Option<Shape>)
    requires
        call_ensures(shape, (c,), r),
        0x252C <= c as u32 <= 0x253B,
    ensures
        ({
            let n = (c as u32 - 0x252C) % 8;
            let (light, heavy) = (Some(Weight::Light), Some(Weight::Heavy));
            let stem = if n >= 4 {
                heavy
            } else {
                light
            };
            &&& r matches Some(Shape::Lines(s))
            &&& c as u32 <= 0x2533 ==> s.down == stem && s.up is None
            &&& c as u32 >= 0x2534 ==> s.up == stem && s.down is None
            &&& s.left == if n % 2 == 1 {
                heavy
            } else {
                light
            }
            &&& s.right == if n % 4 >= 2 {
                heavy
            } else {
                light
            }
            &&& s.dashes == 0 && !s.arc
        }),
{
}

/// Crosses, U+253C..U+254B: all four arms are there. The heavy ones are none;
/// the left, the right, both; the upper, the lower, both; the four ways to turn a
/// corner; the four ways to leave one arm light; all.
pub proof fn law_crosses(c: char, r: Option<Shape>)
    requires
        call_ensures(shape, (c,), r),
        0x253C <= c as u32 <= 0x254B,
    ensures
        ({
            let n = c as u32 - 0x253C;
            let (light, heavy) = (Some(Weight::Light), Some(Weight::Heavy));
            let corner = 7 <= n <= 10;
            &&& r matches Some(Shape::Lines(s))
            &&& s.left == if n == 1 || n == 3 || corner && n % 2 == 1 || n >= 11 && n != 14 {
                heavy
            } else {
                light
            }
            &&& s.right == if n == 2 || n == 3 || corner && n % 2 == 0 || n >= 11 && n != 13 {
                heavy
            } else {
                light
            }
            &&& s.up == if n == 4 || n == 6 || corner && n <= 8 || n >= 11 && n != 12 {
                heavy
            } else {
                light
            }
            &&& s.down == if n == 5 || n == 6 || corner && n >= 9 || n >= 12 {
                heavy
            } else {
                light
            }
            &&& s.dashes == 0 && !s.arc
        }),
{
}

/// Double glyphs, U+2550..U+256C: the two straight ones, then groups of three:
/// with the horizontal axis doubled, the vertical one, both. The groups are the
/// corners, in the order of the single ones; the tees to the right, to the left,
/// down and up; the crosses.
pub proof fn law_double_glyphs(c: char, r: Option<Shape>)
    requires
        call_ensures(shape, (c,), r),
        0x2550 <= c as u32 <= 0x256C,
    ensures
        ({
            let (n, twice) = (c as u32 - 0x2552, Some(Weight::Double));
            let (group, level, upright) = (
                n / 3,
                if n % 3 == 1 {
                    Some(Weight::Light)
                } else {
                    twice
                },
                if n % 3 == 0 {
                    Some(Weight::Light)
                } else {
                    twice
                },
            );
            &&& r matches Some(Shape::Lines(s))
            &&& c as u32 == 0x2550 ==> {
                s.left == twice && s.right == twice && s.up is None && s.down is None
            }
            &&& c as u32 == 0x2551 ==> {
                s.up == twice && s.down == twice && s.left is None && s.right is None
            }
            &&& n >= 0 ==> {
                &&& s.right == if group == 1 || group == 3 || group == 5 {
                    None
                } else {
                    level
                }
                &&& s.left == if group == 0 || group == 2 || group == 4 {
                    None
                } else {
                    level
                }
                &&& s.down == if group == 2 || group == 3 || group == 7 {
                    None
                } else {
                    upright
                }
                &&& s.up == if group == 0 || group == 1 || group == 6 {
                    None
                } else {
                    upright
                }
            }
            &&& s.dashes == 0 && !s.arc
        }),
{
}

/// Rounded corners, U+256D..U+2570, clockwise from the upper left corner of a
/// frame: they open to the right and down, to the left and down, to the left and
/// up, to the right and up.
pub proof fn law_rounded_corners(c: char, r: Option<Shape>)
    requires
        call_ensures(shape, (c,), r),
        0x256D <= c as u32 <= 0x2570,
    ensures
        ({
            let (n, light) = (c as u32 - 0x256D, Some(Weight::Light));
            &&& r matches Some(Shape::Lines(s))
            &&& n == 0 || n == 3 ==> s.right == light && s.left is None
            &&& n == 1 || n == 2 ==> s.left == light && s.right is None
            &&& n <= 1 ==> s.down == light && s.up is None
            &&& n >= 2 ==> s.up == light && s.down is None
            &&& s.dashes == 0 && s.arc
        }),
{
}

/// Half lines, U+2574..U+257F: a single arm to the left, up, to the right, down,
/// four light ones and four heavy ones; then lines that change their weight in
/// the center.
pub proof fn law_half_lines(c: char, r: Option<Shape>)
    requires
        call_ensures(shape, (c,), r),
        0x2574 <= c as u32 <= 0x257F,
    ensures
        ({
            let n = c as u32 - 0x2574;
            let (light, heavy) = (Some(Weight::Light), Some(Weight::Heavy));
            let lone = if n >= 4 {
                heavy
            } else {
                light
            };
            let (one, other) = if n < 10 {
                (light, heavy)
            } else {
                (heavy, light)
            };
            &&& r matches Some(Shape::Lines(s))
            &&& n < 8 ==> {
                &&& s.left == if n % 4 == 0 {
                    lone
                } else {
                    None
                }
                &&& s.up == if n % 4 == 1 {
                    lone
                } else {
                    None
                }
                &&& s.right == if n % 4 == 2 {
                    lone
                } else {
                    None
                }
                &&& s.down == if n % 4 == 3 {
                    lone
                } else {
                    None
                }
            }
            &&& n == 8 || n == 10 ==> {
                s.left == one && s.right == other && s.up is None && s.down is None
            }
            &&& n == 9 || n == 11 ==> {
                s.up == one && s.down == other && s.left is None && s.right is None
            }
            &&& s.dashes == 0 && !s.arc
        }),
{
}

/// Blocks and shades, U+2580..U+2595: the lower blocks grow by an eighth from
/// U+2581 to the full block, from there the left blocks shrink by an eighth. The
/// shades grow by a quarter. The others fill a half or an eighth from the top or
/// from the right.
pub proof fn law_blocks_and_shades(c: char, r: Option<Shape>)
    requires
        call_ensures(shape, (c,), r),
        0x2580 <= c as u32 <= 0x2595,
    ensures
        0x2591 <= c as u32 <= 0x2593 ==> {
            &&& r matches Some(Shape::Shade(alpha))
            &&& alpha == c as u32 - 0x2590
        },
        !(0x2591 <= c as u32 <= 0x2593) ==> {
            let n = c as u32;
            &&& r matches Some(Shape::Rect { x0, y0, x1, y1 })
            &&& 0x2581 <= n <= 0x2588 ==> x0 == 0 && x1 == 8 && y1 == 8 && 8 - y0 == n - 0x2580
            &&& 0x2588 <= n <= 0x258F ==> x0 == 0 && y0 == 0 && y1 == 8 && x1 == 0x2590 - n
            &&& n == 0x2580 || n == 0x2594 ==> x0 == 0 && y0 == 0 && x1 == 8
            &&& n == 0x2590 || n == 0x2595 ==> y0 == 0 && x1 == 8 && y1 == 8
            &&& n == 0x2580 ==> y1 == 4
            &&& n == 0x2594 ==> y1 == 1
            &&& n == 0x2590 ==> x0 == 4
            &&& n == 0x2595 ==> x0 == 7
        },
{
}

/// Quadrants, U+2596..U+259F: three single quadrants, then the glyphs with the
/// upper left quadrant and others, then those with the upper right and without
/// the upper left.
pub proof fn law_quadrants(c: char, r: Option<Shape>)
    requires
        call_ensures(shape, (c,), r),
        0x2596 <= c as u32 <= 0x259F,
    ensures
        ({
            let n = c as u32 - 0x2596;
            &&& r matches Some(Shape::Quadrants { ul, ur, ll, lr })
            &&& ul <==> 2 <= n <= 6
            &&& ur <==> 5 <= n
            &&& ll <==> n == 0 || n == 3 || n == 5 || n >= 8
            &&& lr <==> n == 1 || n == 3 || n == 4 || n == 6 || n == 9
        }),
{
}

/// Mirrored glyphs have mirrored arms: the corners that open to the right and
/// those that open to the left, the tees to the right and to the left, single
/// and double, have left and right exchanged and all else the same.
pub proof fn law_mirrored_sideways(c: char, d: char, r: Option<Shape>, q: Option<Shape>)
    requires
        call_ensures(shape, (c,), r),
        call_ensures(shape, (d,), q),
        ({
            let n = c as u32;
            ||| (0x250C <= n <= 0x250F || 0x2514 <= n <= 0x2517) && d as u32 == n + 4
            ||| 0x251C <= n <= 0x2523 && d as u32 == n + 8
            ||| (0x2552 <= n <= 0x2554 || 0x2558 <= n <= 0x255A || 0x255E <= n <= 0x2560)
                && d as u32 == n + 3
            ||| n == 0x256D && d as u32 == 0x256E
            ||| n == 0x2570 && d as u32 == 0x256F
            ||| (n == 0x2574 || n == 0x2578 || n == 0x257C) && d as u32 == n + 2
        }),
    ensures
        r matches Some(Shape::Lines(s)) && q matches Some(Shape::Lines(t)) && {
            &&& t.left == s.right && t.right == s.left
            &&& t.up == s.up && t.down == s.down
            &&& t.dashes == s.dashes && t.arc == s.arc
        },
{
}

/// The same upside down.
pub proof fn law_mirrored_upside_down(c: char, d: char, r: Option<Shape>, q: Option<Shape>)
    requires
        call_ensures(shape, (c,), r),
        call_ensures(shape, (d,), q),
        ({
            let n = c as u32;
            ||| (0x250C <= n <= 0x2513 || 0x252C <= n <= 0x2533) && d as u32 == n + 8
            ||| 0x2552 <= n <= 0x2557 && d as u32 == n + 6
            ||| 0x2564 <= n <= 0x2566 && d as u32 == n + 3
            ||| n == 0x256D && d as u32 == 0x2570
            ||| n == 0x256E && d as u32 == 0x256F
            ||| (n == 0x2575 || n == 0x2579 || n == 0x257D) && d as u32 == n + 2
        }),
    ensures
        r matches Some(Shape::Lines(s)) && q matches Some(Shape::Lines(t)) && {
            &&& t.up == s.down && t.down == s.up
            &&& t.left == s.left && t.right == s.right
            &&& t.dashes == s.dashes && t.arc == s.arc
        },
{
}

/// No two characters share a shape.
pub proof fn law_shapes_differ(c: char, d: char, r: Option<Shape>, q: Option<Shape>)
    requires
        call_ensures(shape, (c,), r),
        call_ensures(shape, (d,), q),
        c != d,
        r is Some,
    ensures
        r != q,
{
}

} // verus!
