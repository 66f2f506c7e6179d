//! The tray icon, drawn in code so no image asset is needed.
use vstd::prelude::*;

verus! {

/// Width and height of the tray icon, in pixels.
pub const ICON_SIZE: u32 = 22;

/// An RGBA image: four bytes per pixel, row by row.
#[derive(Debug)]
pub struct IconImage {
    pub rgba: Vec<u8>,
    pub width: u32,
    pub height: u32,
}

/// The monitor glyph: a screen bezel (a two-pixel rectangle outline), a
/// two-pixel neck below it and a foot below that.
pub open spec fn icon_glyph(x: int, y: int) -> bool {
    ||| 2 <= x < 20 && (y == 2 || y == 3 || y == 13 || y == 14)
    ||| 2 <= y < 15 && (x == 2 || x == 3 || x == 18 || x == 19)
    ||| 15 <= y < 18 && (x == 10 || x == 11)
    ||| 7 <= x < 15 && (y == 18 || y == 19)
}

/// Byte `c` (0 red, 1 green, 2 blue, 3 alpha) of pixel (x, y) of the icon:
/// opaque black on the glyph, transparent black elsewhere.
pub open spec fn icon_byte(x: int, y: int, c: int) -> u8 {
    if c == 3 && icon_glyph(x, y) {
        255
    } else {
        0
    }
}

/// The glyph is symmetric left to right and keeps a two-pixel transparent
/// margin at the left, right and top and at least two transparent rows at
/// the bottom.
pub proof fn lemma_icon_symmetric_with_margin(x: int, y: int, c: int)
    requires
        0 <= x < 22,
        0 <= y < 22,
        0 <= c < 4,
    ensures
        icon_byte(x, y, c) == icon_byte(21 - x, y, c),
        (x < 2 || x >= 20 || y < 2 || y >= 20) ==> icon_byte(x, y, c) == 0,
        c < 3 ==> icon_byte(x, y, c) == 0,
{
}

pub open spec fn byte_index(x: int, y: int, c: int) -> int {
    4 * (22 * y + x) + c
}

/// What the drawing has covered after `stage` loops are done and `k` steps of
/// the running loop.
spec fn painted(stage: int, k: int, x: int, y: int) -> bool {
    ||| (stage == 0 && 2 <= x < k || stage > 0 && 2 <= x < 20) && (y == 2 || y == 3 || y == 13
        || y == 14)
    ||| (stage == 1 && 2 <= y < k || stage > 1 && 2 <= y < 15) && (x == 2 || x == 3 || x == 18
        || x == 19)
    ||| (stage == 2 && 15 <= y < k || stage > 2 && 15 <= y < 18) && (x == 10 || x == 11)
    ||| (stage == 3 && 7 <= x < k || stage > 3 && 7 <= x < 15) && (y == 18 || y == 19)
}

spec fn drawn(s: Seq<u8>, stage: int, k: int) -> bool {
    &&& s.len() == 1936
    &&& forall|x: int, y: int, c: int|
        0 <= x < 22 && 0 <= y < 22 && 0 <= c < 4 ==> #[trigger] s[byte_index(x, y, c)] == (if c
            == 3 && painted(stage, k, x, y) {
            255u8
        } else {
            0u8
        })
}

/// Paints pixel (x, y) opaque black; points outside the icon are left alone.
fn set_pixel(rgba: &mut Vec<u8>, x: i32, y: i32)
    requires
        old(rgba)@.len() == 1936,
    ensures
        final(rgba)@.len() == 1936,
        forall|px: int, py: int, c: int|
            0 <= px < 22 && 0 <= py < 22 && 0 <= c < 4 ==> #[trigger] final(rgba)@[byte_index(
                px,
                py,
                c,
            )] == if px == x && py == y {
                if c == 3 {
                    255u8
                } else {
                    0u8
                }
            } else {
                old(rgba)@[byte_index(px, py, c)]
            },
{
    if x < 0 || y < 0 || x as u32 >= ICON_SIZE || y as u32 >= ICON_SIZE {
        return;
    }
    let i = ((y as u32 * ICON_SIZE + x as u32) * 4) as usize;
    rgba.set(i, 0);
    rgba.set(i + 1, 0);
    rgba.set(i + 2, 0);
    rgba.set(i + 3, 255);
}

proof fn lemma_drawn_step(
    before: Seq<u8>,
    after: Seq<u8>,
    stage: int,
    k: int,
    points: Set<(int, int)>,
)
    requires
        drawn(before, stage, k),
        after.len() == 1936,
        forall|x: int, y: int|
            0 <= x < 22 && 0 <= y < 22 ==> (painted(stage, k + 1, x, y) == (painted(stage, k, x, y)
                || #[trigger] points.contains((x, y)))),
        forall|x: int, y: int, c: int|
            0 <= x < 22 && 0 <= y < 22 && 0 <= c < 4 ==> #[trigger] after[byte_index(x, y, c)] == if points.contains((x, y)) {
                if c == 3 {
                    255u8
                } else {
                    0u8
                }
            } else {
                before[byte_index(x, y, c)]
            },
    ensures
        drawn(after, stage, k + 1),
{
    assert forall|x: int, y: int, c: int|
        0 <= x < 22 && 0 <= y < 22 && 0 <= c < 4 implies #[trigger] after[byte_index(x, y, c)] == (
    if c == 3 && painted(stage, k + 1, x, y) {
        255u8
    } else {
        0u8
    }) by {
        assert(before[byte_index(x, y, c)] == (if c == 3 && painted(stage, k, x, y) {
            255u8
        } else {
            0u8
        }));
        assert(points.contains((x, y)) ==> painted(stage, k + 1, x, y));
    }
}

/// Draws a small monochrome monitor glyph, 22 by 22 pixels: opaque black on
/// the glyph and fully transparent elsewhere, so that it works as a macOS
/// template image and as a plain black-on-transparent icon elsewhere.
pub fn tray_icon() -> (img: IconImage)
    ensures
        img.width == 22,
        img.height == 22,
        img.rgba@.len() == img.width * img.height * 4,
        forall|x: int, y: int, c: int|
            0 <= x < 22 && 0 <= y < 22 && 0 <= c < 4 ==> #[trigger] img.rgba@[byte_index(x, y, c)]
                == icon_byte(x, y, c),
{
    let mut rgba: Vec<u8> = vec![0u8; 1936];
    assert(drawn(rgba@, 0, 2)) by {
        assert forall|x: int, y: int, c: int|
            0 <= x < 22 && 0 <= y < 22 && 0 <= c < 4 implies #[trigger] rgba@[byte_index(
            x,
            y,
            c,
        )] == 0u8 by {
            assert(rgba@[byte_index(x, y, c)] == 0u8);
        }
    }

    // Screen bezel (rectangle outline).
    let mut x: i32 = 2;
    while x < 20
        invariant
            2 <= x <= 20,
            drawn(rgba@, 0, x as int),
        decreases 20 - x,
    {
        let ghost before = rgba@;
        set_pixel(&mut rgba, x, 2);
        set_pixel(&mut rgba, x, 3);
        set_pixel(&mut rgba, x, 13);
        set_pixel(&mut rgba, x, 14);
        proof {
            let pts = set![(x as int, 2int), (x as int, 3int), (x as int, 13int), (x as int, 14int)];
            lemma_drawn_step(before, rgba@, 0, x as int, pts);
        }
        x = x + 1;
    }
    assert(drawn(rgba@, 1, 2)) by {
        assert forall|x: int, y: int| painted(0, 20, x, y) == painted(1, 2, x, y) by {}
    }
    let mut y: i32 = 2;
    while y < 15
        invariant
            2 <= y <= 15,
            drawn(rgba@, 1, y as int),
        decreases 15 - y,
    {
        let ghost before = rgba@;
        set_pixel(&mut rgba, 2, y);
        set_pixel(&mut rgba, 3, y);
        set_pixel(&mut rgba, 18, y);
        set_pixel(&mut rgba, 19, y);
        proof {
            let pts = set![(2int, y as int), (3int, y as int), (18int, y as int), (19int, y as int)];
            lemma_drawn_step(before, rgba@, 1, y as int, pts);
        }
        y = y + 1;
    }
    assert(drawn(rgba@, 2, 15)) by {
        assert forall|x: int, y: int| painted(1, 15, x, y) == painted(2, 15, x, y) by {}
    }

    // Stand.
    let mut y: i32 = 15;
    while y < 18
        invariant
            15 <= y <= 18,
            drawn(rgba@, 2, y as int),
        decreases 18 - y,
    {
        let ghost before = rgba@;
        set_pixel(&mut rgba, 10, y);
        set_pixel(&mut rgba, 11, y);
        proof {
            let pts = set![(10int, y as int), (11int, y as int)];
            lemma_drawn_step(before, rgba@, 2, y as int, pts);
        }
        y = y + 1;
    }
    assert(drawn(rgba@, 3, 7)) by {
        assert forall|x: int, y: int| painted(2, 18, x, y) == painted(3, 7, x, y) by {}
    }
    let mut x: i32 = 7;
    while x < 15
        invariant
            7 <= x <= 15,
            drawn(rgba@, 3, x as int),
        decreases 15 - x,
    {
        let ghost before = rgba@;
        set_pixel(&mut rgba, x, 18);
        set_pixel(&mut rgba, x, 19);
        proof {
            let pts = set![(x as int, 18int), (x as int, 19int)];
            lemma_drawn_step(before, rgba@, 3, x as int, pts);
        }
        x = x + 1;
    }
    assert forall|x: int, y: int, c: int|
        0 <= x < 22 && 0 <= y < 22 && 0 <= c < 4 implies #[trigger] rgba@[byte_index(x, y, c)]
        == icon_byte(x, y, c) by {
        assert(painted(3, 15, x, y) == icon_glyph(x, y));
    }
    IconImage { rgba, width: ICON_SIZE, height: ICON_SIZE }
}

} // verus!
