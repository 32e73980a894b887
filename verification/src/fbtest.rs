//! The kei framebuffer test screen: a 640x480 browser-like mock-up in BGRX.

use vstd::prelude::*;

verus! {

/// Width of the test screen in pixels.
pub const FB_WIDTH: usize = 640;

/// Height of the test screen in pixels.
pub const FB_HEIGHT: usize = 480;

/// A BGRX colour.
pub type Bgrx = (u8, u8, u8, u8);

/// Background of row `y`: blue header, address bar, three cards, dark page.
pub open spec fn fb_background(y: int) -> Bgrx {
    if y < 50 {
        (0xEF, 0xAF, 0x61, 0xFF)
    } else if 58 <= y < 86 {
        (0x23, 0x1F, 0x1B, 0xFF)
    } else if (100 <= y < 180) || (195 <= y < 275) || (290 <= y < 370) {
        (0x2B, 0x25, 0x21, 0xFF)
    } else {
        (0x34, 0x2C, 0x28, 0xFF)
    }
}

/// The title's dot pattern.
pub open spec fn fb_dot(x: int, y: int) -> bool {
    20 <= x < 280 && 18 <= y < 38 && x % 10 < 5 && y % 8 < 4
}

/// The indicator line through `(x, y)`, if any, and its colour.
pub open spec fn fb_line(x: int, y: int) -> Option<Bgrx> {
    let green: Bgrx = (0x79, 0xC3, 0x98, 0xFF);
    let text: Bgrx = (0xBF, 0xB2, 0xAB, 0xFF);
    let accent: Bgrx = (0x75, 0x6C, 0xE0, 0xFF);
    if (y == 130 || y == 132) && 30 <= x < 200 {
        Some(green)
    } else if (y == 150 || y == 152 || y == 247 || y == 249 || y == 320 || y == 322 || y == 342
        || y == 344) && 30 <= x < 250 {
        Some(text)
    } else if (y == 225 || y == 227) && 30 <= x < 150 {
        Some(accent)
    } else if (y == 400 || y == 402) && 20 <= x < 280 {
        Some(text)
    } else if (y == 425 || y == 427) && 20 <= x < 200 {
        Some(accent)
    } else {
        None
    }
}

/// Colour of the test screen at `(x, y)`: lines over the dot pattern over the
/// background.
pub open spec fn fb_color(x: int, y: int) -> Bgrx {
    match fb_line(x, y) {
        Some(c) => c,
        None => if fb_dot(x, y) {
            (0xFF, 0xFF, 0xFF, 0xFF)
        } else {
            fb_background(y)
        },
    }
}

/// Byte `k` of a BGRX colour.
pub open spec fn bgrx_component(c: Bgrx, k: int) -> u8 {
    if k == 0 {
        c.0
    } else if k == 1 {
        c.1
    } else if k == 2 {
        c.2
    } else {
        c.3
    }
}

/// The test screen's bytes, row by row.
pub open spec fn fbtest_spec() -> Seq<u8> {
    Seq::new(
        (FB_WIDTH * FB_HEIGHT * 4) as nat,
        |j: int| bgrx_component(fb_color((j / 4) % 640, (j / 4) / 640), j % 4),
    )
}

proof fn lemma_pixel_index(j: int, x: int, y: int)
    requires
        0 <= x < 640,
        0 <= y,
        2560 * y + 4 * x <= j < 2560 * y + 4 * x + 4,
    ensures
        (j / 4) % 640 == x,
        (j / 4) / 640 == y,
        j % 4 == j - (2560 * y + 4 * x),
{
    let p = 640 * y + x;
    assert(j / 4 == p) by (nonlinear_arith)
        requires
            p == 640 * y + x,
            2560 * y + 4 * x <= j < 2560 * y + 4 * x + 4,
    ;
    assert(p % 640 == x && p / 640 == y) by (nonlinear_arith)
        requires
            p == 640 * y + x,
            0 <= x < 640,
            0 <= y,
    ;
}

fn fb_color_exec(x: usize, y: usize) -> (c: Bgrx)
    ensures
        c == fb_color(x as int, y as int),
{
    let green: Bgrx = (0x79, 0xC3, 0x98, 0xFF);
    let text: Bgrx = (0xBF, 0xB2, 0xAB, 0xFF);
    let accent: Bgrx = (0x75, 0x6C, 0xE0, 0xFF);
    if (y == 130 || y == 132) && 30 <= x && x < 200 {
        green
    } else if (y == 150 || y == 152 || y == 247 || y == 249 || y == 320 || y == 322 || y == 342
        || y == 344) && 30 <= x && x < 250 {
        text
    } else if (y == 225 || y == 227) && 30 <= x && x < 150 {
        accent
    } else if (y == 400 || y == 402) && 20 <= x && x < 280 {
        text
    } else if (y == 425 || y == 427) && 20 <= x && x < 200 {
        accent
    } else if 20 <= x && x < 280 && 18 <= y && y < 38 && x % 10 < 5 && y % 8 < 4 {
        (0xFF, 0xFF, 0xFF, 0xFF)
    } else if y < 50 {
        (0xEF, 0xAF, 0x61, 0xFF)
    } else if 58 <= y && y < 86 {
        (0x23, 0x1F, 0x1B, 0xFF)
    } else if (100 <= y && y < 180) || (195 <= y && y < 275) || (290 <= y && y < 370) {
        (0x2B, 0x25, 0x21, 0xFF)
    } else {
        (0x34, 0x2C, 0x28, 0xFF)
    }
}

/// The framebuffer test screen, 640x480 BGRX.
pub fn fbtest_frame() -> (buf: Vec<u8>)
    ensures
        buf@ == fbtest_spec(),
{
    let mut buf: Vec<u8> = Vec::new();
    let mut y: usize = 0;
    while y < FB_HEIGHT
        invariant
            y <= FB_HEIGHT,
            buf@.len() == 2560 * y,
            forall|j: int|
                0 <= j < buf@.len() ==> #[trigger] buf@[j] == bgrx_component(
                    fb_color((j / 4) % 640, (j / 4) / 640),
                    j % 4,
                ),
        decreases FB_HEIGHT - y,
    {
        let mut x: usize = 0;
        while x < FB_WIDTH
            invariant
                y < FB_HEIGHT,
                x <= FB_WIDTH,
                buf@.len() == 2560 * y + 4 * x,
                forall|j: int|
                    0 <= j < buf@.len() ==> #[trigger] buf@[j] == bgrx_component(
                        fb_color((j / 4) % 640, (j / 4) / 640),
                        j % 4,
                    ),
            decreases FB_WIDTH - x,
        {
            let c = fb_color_exec(x, y);
            let ghost base = buf@.len() as int;
            buf.push(c.0);
            buf.push(c.1);
            buf.push(c.2);
            buf.push(c.3);
            assert forall|j: int| base <= j < base + 4 implies #[trigger] buf@[j] == bgrx_component(
                fb_color((j / 4) % 640, (j / 4) / 640),
                j % 4,
            ) by {
                lemma_pixel_index(j, x as int, y as int);
            }
            x = x + 1;
        }
        y = y + 1;
    }
    assert(buf@ =~= fbtest_spec());
    buf
}

} // verus!
