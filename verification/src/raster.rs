//! Pixel operations on the window's XRGB8888 buffer (`u32` per pixel, row-major
//! with `buf_w` pixels per row) and on RGBA8 byte buffers.
//!
//! A position `(px, py)` of the buffer is the index `py * buf_w + px` with
//! `0 <= px < buf_w`; positions outside the buffer are skipped.

use vstd::prelude::*;

verus! {

/// Column of buffer index `j`.
pub open spec fn col(j: int, bw: int) -> int {
    j % bw
}

/// Row of buffer index `j`.
pub open spec fn row(j: int, bw: int) -> int {
    j / bw
}

/// Index `j` and the position `(px, py)` name the same pixel.
pub proof fn lemma_same_pixel(j: int, bw: int, px: int, py: int)
    requires
        bw > 0,
        0 <= j,
        0 <= px < bw,
        0 <= py,
    ensures
        (j == py * bw + px) <==> (row(j, bw) == py && col(j, bw) == px),
{
    vstd::arithmetic::div_mod::lemma_fundamental_div_mod(j, bw);
    vstd::arithmetic::mul::lemma_mul_is_commutative(bw, j / bw);
    if j == py * bw + px {
        vstd::arithmetic::div_mod::lemma_fundamental_div_mod_converse(j, bw, py, px);
    }
}

/// Every index of a buffer has a row and column inside it.
pub proof fn lemma_pixel_bounds(j: int, bw: int)
    requires
        bw > 0,
        0 <= j,
    ensures
        0 <= col(j, bw) < bw,
        0 <= row(j, bw),
        j == row(j, bw) * bw + col(j, bw),
{
    vstd::arithmetic::div_mod::lemma_fundamental_div_mod(j, bw);
    vstd::arithmetic::mul::lemma_mul_is_commutative(bw, j / bw);
    vstd::arithmetic::div_mod::lemma_div_pos_is_pos(j, bw);
}

/// Index of `(px, py)` when that position lies in a buffer of `len` pixels.
pub open spec fn in_buffer(len: int, bw: int, px: int, py: int) -> bool {
    0 <= px < bw && 0 <= py && py * bw + px < len
}

/// Whether `(px, py)` lies in a buffer of `len` pixels with rows of `bw`, and its index.
fn buffer_index(len: usize, bw: usize, px: i64, py: i64) -> (r: Option<usize>)
    ensures
        r is Some <==> in_buffer(len as int, bw as int, px as int, py as int),
        r matches Some(i) ==> i == py * bw + px,
{
    if px < 0 || py < 0 || px as u128 >= bw as u128 {
        return None;
    }
    let pxu = px as u128;
    let pyu = py as u128;
    let bwu = bw as u128;
    assert(pyu * bwu <= 0xFFFF_FFFF_FFFF_FFFF * 0xFFFF_FFFF_FFFF_FFFF) by (nonlinear_arith)
        requires
            pyu <= 0xFFFF_FFFF_FFFF_FFFF,
            bwu <= 0xFFFF_FFFF_FFFF_FFFF,
    ;
    let idx = pyu * bwu + pxu;
    if idx < len as u128 {
        Some(idx as usize)
    } else {
        None
    }
}

/// Index of the position `(px, py)` when it lies in the buffer.
fn buffer_index_u(len: usize, bw: usize, px: usize, py: usize) -> (r: Option<usize>)
    ensures
        r is Some <==> in_buffer(len as int, bw as int, px as int, py as int),
        r matches Some(i) ==> i == py * bw + px,
{
    if px >= bw {
        return None;
    }
    let pxu = px as u128;
    let pyu = py as u128;
    let bwu = bw as u128;
    assert(pyu * bwu <= 0xFFFF_FFFF_FFFF_FFFF * 0xFFFF_FFFF_FFFF_FFFF) by (nonlinear_arith)
        requires
            pyu <= 0xFFFF_FFFF_FFFF_FFFF,
            bwu <= 0xFFFF_FFFF_FFFF_FFFF,
    ;
    let idx = pyu * bwu + pxu;
    if idx < len as u128 {
        Some(idx as usize)
    } else {
        None
    }
}

/// Sets the pixel at `(x, y)` when it lies in the buffer.
pub fn plot(buffer: &mut [u32], buf_w: usize, x: usize, y: usize, color: u32)
    ensures
        final(buffer)@ == if in_buffer(old(buffer)@.len() as int, buf_w as int, x as int, y as int) {
            old(buffer)@.update(y * buf_w + x, color)
        } else {
            old(buffer)@
        },
{
    if x as u128 >= buf_w as u128 {
        return ;
    }
    let xu = x as u128;
    let yu = y as u128;
    let bwu = buf_w as u128;
    assert(yu * bwu <= 0xFFFF_FFFF_FFFF_FFFF * 0xFFFF_FFFF_FFFF_FFFF) by (nonlinear_arith)
        requires
            yu <= 0xFFFF_FFFF_FFFF_FFFF,
            bwu <= 0xFFFF_FFFF_FFFF_FFFF,
    ;
    let idx = yu * bwu + xu;
    if idx < buffer.len() as u128 {
        buffer[idx as usize] = color;
    }
}

// ── Rounded rectangle ───────────────────────────────────────

/// Corner radius actually used: at most half the width and half the height.
pub open spec fn rr_radius(w: int, h: int, radius: int) -> int {
    let a = if radius < w / 2 {
        radius
    } else {
        w / 2
    };
    if a < h / 2 {
        a
    } else {
        h / 2
    }
}

/// Squared distance between two points.
pub open spec fn dist2(ax: int, ay: int, bx: int, by: int) -> int {
    (ax - bx) * (ax - bx) + (ay - by) * (ay - by)
}

/// Whether the point `(cx, cy)` of a `w` x `h` rounded rectangle of radius `r` is
/// filled: points outside the four `r` x `r` corner squares always are; a point in a
/// corner square is filled when it lies within `r` of that corner's circle centre.
pub open spec fn rr_inside(cx: int, cy: int, w: int, h: int, r: int) -> bool {
    let zone = (cx < r || cx > w - r - 1) && (cy < r || cy > h - r - 1);
    let ccx = if cx < r {
        r
    } else {
        w - r - 1
    };
    let ccy = if cy < r {
        r
    } else {
        h - r - 1
    };
    !zone || dist2(cx, cy, ccx, ccy) <= r * r
}

/// Whether the buffer position `(px, py)` is painted by the rounded rectangle at
/// `(x, y)` of size `w` x `h` and radius `r`.
pub open spec fn rr_covers(px: int, py: int, x: int, y: int, w: int, h: int, r: int) -> bool {
    x <= px < x + w && y <= py < y + h && rr_inside(px - x, py - y, w, h, r)
}

fn rr_inside_exec(cx: i64, cy: i64, w: i64, h: i64, r: i64) -> (b: bool)
    requires
        0 <= cx < w <= i32::MAX,
        0 <= cy < h <= i32::MAX,
        r <= i32::MAX,
        r >= i32::MIN,
    ensures
        b == rr_inside(cx as int, cy as int, w as int, h as int, r as int),
{
    let zone = (cx < r || cx > w - r - 1) && (cy < r || cy > h - r - 1);
    if !zone {
        return true;
    }
    let ri = r as i128;
    assert(0 <= ri * ri <= 0x1_0000_0000 * 0x1_0000_0000) by (nonlinear_arith)
        requires
            -0x8000_0000 <= ri <= 0x7FFF_FFFF,
    ;
    let rr: i128 = ri * ri;
    let d = |ax: i64, ay: i64, bx: i64, by: i64| -> (v: i128)
        requires
            -0x1_0000_0000 <= ax <= 0x1_0000_0000,
            -0x1_0000_0000 <= ay <= 0x1_0000_0000,
            -0x1_0000_0000 <= bx <= 0x1_0000_0000,
            -0x1_0000_0000 <= by <= 0x1_0000_0000,
        ensures
            v == dist2(ax as int, ay as int, bx as int, by as int),
        {
            let dx = ax as i128 - bx as i128;
            let dy = ay as i128 - by as i128;
            assert(0 <= dx * dx <= 0x4_0000_0000 * 0x4_0000_0000) by (nonlinear_arith)
                requires
                    -0x2_0000_0000 <= dx <= 0x2_0000_0000,
            ;
            assert(0 <= dy * dy <= 0x4_0000_0000 * 0x4_0000_0000) by (nonlinear_arith)
                requires
                    -0x2_0000_0000 <= dy <= 0x2_0000_0000,
            ;
            dx * dx + dy * dy
        };
    let ccx = if cx < r {
        r
    } else {
        w - r - 1
    };
    let ccy = if cy < r {
        r
    } else {
        h - r - 1
    };
    d(cx, cy, ccx, ccy) <= rr
}

/// Fills a rounded rectangle with `color`.
pub fn fill_rounded_rect(
    buffer: &mut [u32],
    buf_w: usize,
    x: i32,
    y: i32,
    w: i32,
    h: i32,
    radius: i32,
    color: u32,
)
    ensures
        final(buffer)@.len() == old(buffer)@.len(),
        forall|j: int|
            0 <= j < old(buffer)@.len() ==> #[trigger] final(buffer)@[j] == if buf_w > 0
                && rr_covers(
                col(j, buf_w as int),
                row(j, buf_w as int),
                x as int,
                y as int,
                w as int,
                h as int,
                rr_radius(w as int, h as int, radius as int),
            ) {
                color
            } else {
                old(buffer)@[j]
            },
{
    let r: i32 = if radius < w / 2 {
        radius
    } else {
        w / 2
    };
    let r: i32 = if r < h / 2 {
        r
    } else {
        h / 2
    };
    let ghost rs = rr_radius(w as int, h as int, radius as int);
    let ghost bw = buf_w as int;
    if w <= 0 || h <= 0 {
        assert forall|j: int| 0 <= j < old(buffer)@.len() implies !rr_covers(
            col(j, bw),
            row(j, bw),
            x as int,
            y as int,
            w as int,
            h as int,
            rs,
        ) by {}
        return ;
    }
    assert(r == rs);
    let ghost old_buf = buffer@;
    let len = buffer.len();
    let mut ry: i32 = 0;
    while ry < h
        invariant
            0 <= ry <= h,
            0 < w,
            r == rs,
            len == buffer@.len(),
            buffer@.len() == old_buf.len(),
            bw == buf_w as int,
            forall|j: int|
                0 <= j < len ==> #[trigger] buffer@[j] == if bw > 0 && rr_covers(
                    col(j, bw),
                    row(j, bw),
                    x as int,
                    y as int,
                    w as int,
                    h as int,
                    rs,
                ) && row(j, bw) - y < ry {
                    color
                } else {
                    old_buf[j]
                },
        decreases h - ry,
    {
        let mut rx: i32 = 0;
        while rx < w
            invariant
                0 <= ry < h,
                0 <= rx <= w,
                r == rs,
                len == buffer@.len(),
                buffer@.len() == old_buf.len(),
                bw == buf_w as int,
                forall|j: int|
                    0 <= j < len ==> #[trigger] buffer@[j] == if bw > 0 && rr_covers(
                        col(j, bw),
                        row(j, bw),
                        x as int,
                        y as int,
                        w as int,
                        h as int,
                        rs,
                    ) && (row(j, bw) - y < ry || (row(j, bw) - y == ry && col(j, bw) - x
                        < rx)) {
                        color
                    } else {
                        old_buf[j]
                    },
            decreases w - rx,
        {
            let inside = rr_inside_exec(rx as i64, ry as i64, w as i64, h as i64, r as i64);
            let px = x as i64 + rx as i64;
            let py = y as i64 + ry as i64;
            let ghost before = buffer@;
            let target = if inside {
                buffer_index(len, buf_w, px, py)
            } else {
                None
            };
            if let Some(idx) = target {
                buffer[idx] = color;
            }
            assert forall|j: int| 0 <= j < len implies #[trigger] buffer@[j] == if bw > 0
                && rr_covers(col(j, bw), row(j, bw), x as int, y as int, w as int, h as int, rs)
                && (row(j, bw) - y < ry || (row(j, bw) - y == ry && col(j, bw) - x < rx + 1)) {
                color
            } else {
                old_buf[j]
            } by {
                if bw > 0 {
                    lemma_pixel_bounds(j, bw);
                    let here = row(j, bw) == py && col(j, bw) == px;
                    if px >= 0 && px < bw && py >= 0 {
                        lemma_same_pixel(j, bw, px as int, py as int);
                    }
                    if here {
                        assert(rr_inside(col(j, bw) - x, row(j, bw) - y, w as int, h as int, rs)
                            == inside);
                    }
                }
            }
            rx = rx + 1;
        }
        ry = ry + 1;
    }
}

// ── Text strips ─────────────────────────────────────────────

/// A rendered line of text: RGBA8 pixels, `width` pixels per row.
pub struct TextStrip {
    pub rgba: Vec<u8>,
    pub width: usize,
    pub height: usize,
}

/// Source-over blend of the colour `(tr, tg, tb)` with alpha `a` onto the XRGB
/// pixel `dst`, per channel `(t * a + d * (255 - a)) / 255`.
pub open spec fn blend_spec(dst: u32, tr: u32, tg: u32, tb: u32, a: u32) -> u32 {
    let dr = (dst >> 16u32) & 0xFFu32;
    let dg = (dst >> 8u32) & 0xFFu32;
    let db = dst & 0xFFu32;
    let nr = ((tr * a + dr * (255 - a)) / 255) as u32;
    let ng = ((tg * a + dg * (255 - a)) / 255) as u32;
    let nb = ((tb * a + db * (255 - a)) / 255) as u32;
    (nr << 16u32) | (ng << 8u32) | nb
}

/// Blends a colour with alpha onto an XRGB pixel.
pub fn blend(dst: u32, tr: u32, tg: u32, tb: u32, a: u32) -> (r: u32)
    requires
        tr <= 255,
        tg <= 255,
        tb <= 255,
        a <= 255,
    ensures
        r == blend_spec(dst, tr, tg, tb, a),
{
    let dr = (dst >> 16u32) & 0xFFu32;
    let dg = (dst >> 8u32) & 0xFFu32;
    let db = dst & 0xFFu32;
    assert(dr <= 255 && dg <= 255 && db <= 255) by (bit_vector)
        requires
            dr == (dst >> 16u32) & 0xFFu32,
            dg == (dst >> 8u32) & 0xFFu32,
            db == dst & 0xFFu32,
    ;
    assert(tr * a <= 255 * 255 && dr * (255 - a) <= 255 * 255) by (nonlinear_arith)
        requires
            tr <= 255,
            a <= 255,
            dr <= 255,
    ;
    assert(tg * a <= 255 * 255 && dg * (255 - a) <= 255 * 255) by (nonlinear_arith)
        requires
            tg <= 255,
            a <= 255,
            dg <= 255,
    ;
    assert(tb * a <= 255 * 255 && db * (255 - a) <= 255 * 255) by (nonlinear_arith)
        requires
            tb <= 255,
            a <= 255,
            db <= 255,
    ;
    let nr = (tr * a + dr * (255 - a)) / 255;
    let ng = (tg * a + dg * (255 - a)) / 255;
    let nb = (tb * a + db * (255 - a)) / 255;
    (nr << 16u32) | (ng << 8u32) | nb
}

/// Number of whole rows of a strip's pixels.
pub open spec fn strip_rows(rgba: Seq<u8>, sw: int) -> int {
    (rgba.len() as int) / (4 * sw)
}

/// Byte offset of the strip pixel in row `r`, column `c`.
pub open spec fn strip_base(sw: int, r: int, c: int) -> int {
    4 * (r * sw + c)
}

/// Whether buffer index `j` receives a strip pixel when the strip's top-left corner
/// is put at `(tx, ty)`: the pixel exists, lies above row `buf_h`, and is not fully
/// transparent.
pub open spec fn blit_covers(
    j: int,
    bw: int,
    bh: int,
    rgba: Seq<u8>,
    sw: int,
    tx: int,
    ty: int,
) -> bool {
    let r = row(j, bw) - ty;
    let c = col(j, bw) - tx;
    &&& 0 <= r < strip_rows(rgba, sw)
    &&& row(j, bw) < bh
    &&& 0 <= c < sw
    &&& rgba[strip_base(sw, r, c) + 3] != 0
}

/// The pixel a blit leaves at a covered index.
pub open spec fn blit_value(j: int, bw: int, rgba: Seq<u8>, sw: int, tx: int, ty: int, dst: u32) -> u32 {
    let b = strip_base(sw, row(j, bw) - ty, col(j, bw) - tx);
    blend_spec(dst, rgba[b] as u32, rgba[b + 1] as u32, rgba[b + 2] as u32, rgba[b + 3] as u32)
}

/// Alpha-blends the text strip onto the buffer with its top-left corner at
/// `(tx, ty)`, clipped to `buf_w` x `buf_h` and to the buffer's length.
pub fn blit_strip(
    buffer: &mut [u32],
    buf_w: usize,
    buf_h: usize,
    strip: &TextStrip,
    tx: usize,
    ty: usize,
)
    requires
        strip.width > 0,
    ensures
        final(buffer)@.len() == old(buffer)@.len(),
        forall|j: int|
            0 <= j < old(buffer)@.len() ==> #[trigger] final(buffer)@[j] == if buf_w > 0
                && blit_covers(
                j,
                buf_w as int,
                buf_h as int,
                strip.rgba@,
                strip.width as int,
                tx as int,
                ty as int,
            ) {
                blit_value(
                    j,
                    buf_w as int,
                    strip.rgba@,
                    strip.width as int,
                    tx as int,
                    ty as int,
                    old(buffer)@[j],
                )
            } else {
                old(buffer)@[j]
            },
{
    let ghost old_buf = buffer@;
    let ghost bw = buf_w as int;
    let ghost rgba = strip.rgba@;
    let sw = strip.width;
    let n = strip.rgba.len();
    let len = buffer.len();
    let rows: usize = if sw > n / 4 {
        0
    } else {
        n / (4 * sw)
    };
    proof {
        let ni = n as int;
        let d = 4 * (sw as int);
        if sw > n / 4 {
            assert(ni < d);
            vstd::arithmetic::div_mod::lemma_basic_div(ni, d);
        }
        assert(rows == strip_rows(rgba, sw as int));
        vstd::arithmetic::div_mod::lemma_fundamental_div_mod(ni, d);
        vstd::arithmetic::div_mod::lemma_mod_pos_bound(ni, d);
        let q = ni / d;
        let m = ni % d;
        assert(q * d <= ni) by (nonlinear_arith)
            requires
                ni == d * q + m,
                m >= 0,
        ;
        assert(rows * (4 * sw) <= n);
    }
    let mut r: usize = 0;
    let mut base_row: usize = 0;
    while r < rows
        invariant
            r <= rows,
            sw > 0,
            n == rgba.len(),
            rgba == strip.rgba@,
            sw == strip.width,
            rows == strip_rows(rgba, sw as int),
            rows * (4 * sw) <= n,
            base_row == 4 * sw * r,
            len == buffer@.len(),
            buffer@.len() == old_buf.len(),
            bw == buf_w as int,
            forall|j: int|
                0 <= j < len ==> #[trigger] buffer@[j] == if bw > 0 && blit_covers(
                    j,
                    bw,
                    buf_h as int,
                    rgba,
                    sw as int,
                    tx as int,
                    ty as int,
                ) && row(j, bw) - ty < r {
                    blit_value(j, bw, rgba, sw as int, tx as int, ty as int, old_buf[j])
                } else {
                    old_buf[j]
                },
        decreases rows - r,
    {
        proof {
            assert(base_row + 4 * sw <= n) by (nonlinear_arith)
                requires
                    base_row == 4 * sw * r,
                    r < rows,
                    rows * (4 * sw) <= n,
            ;
        }
        let row_visible = ty < buf_h && r < buf_h - ty;
        let mut c: usize = 0;
        while c < sw
            invariant
                r < rows,
                c <= sw,
                sw > 0,
                n == rgba.len(),
                rgba == strip.rgba@,
                sw == strip.width,
                rows == strip_rows(rgba, sw as int),
                base_row == 4 * sw * r,
                base_row + 4 * sw <= n,
                row_visible == (ty + r < buf_h),
                len == buffer@.len(),
                buffer@.len() == old_buf.len(),
                bw == buf_w as int,
                forall|j: int|
                    0 <= j < len ==> #[trigger] buffer@[j] == if bw > 0 && blit_covers(
                        j,
                        bw,
                        buf_h as int,
                        rgba,
                        sw as int,
                        tx as int,
                        ty as int,
                    ) && (row(j, bw) - ty < r || (row(j, bw) - ty == r && col(j, bw) - tx < c)) {
                        blit_value(j, bw, rgba, sw as int, tx as int, ty as int, old_buf[j])
                    } else {
                        old_buf[j]
                    },
            decreases sw - c,
        {
            let b = base_row + 4 * c;
            assert(b == strip_base(sw as int, r as int, c as int)) by (nonlinear_arith)
                requires
                    base_row == 4 * sw * r,
                    b == base_row + 4 * c,
            ;
            let a = strip.rgba[b + 3];
            let ghost before = buffer@;
            let target = if a != 0 && row_visible && (tx as u128) + (c as u128) < (buf_w as u128) {
                buffer_index_u(len, buf_w, tx + c, ty + r)
            } else {
                None
            };
            let ghost px = tx + c;
            let ghost py = ty + r;
            if let Some(idx) = target {
                let v = blend(
                    buffer[idx],
                    strip.rgba[b] as u32,
                    strip.rgba[b + 1] as u32,
                    strip.rgba[b + 2] as u32,
                    a as u32,
                );
                buffer[idx] = v;
            }
            assert forall|j: int| 0 <= j < len implies #[trigger] buffer@[j] == if bw > 0
                && blit_covers(j, bw, buf_h as int, rgba, sw as int, tx as int, ty as int) && (row(
                j,
                bw,
            ) - ty < r || (row(j, bw) - ty == r && col(j, bw) - tx < c + 1)) {
                blit_value(j, bw, rgba, sw as int, tx as int, ty as int, old_buf[j])
            } else {
                old_buf[j]
            } by {
                if bw > 0 {
                    lemma_pixel_bounds(j, bw);
                    if px < bw {
                        lemma_same_pixel(j, bw, px, py);
                    }
                    let here = row(j, bw) == py && col(j, bw) == px;
                    if here {
                        assert(row(j, bw) - ty == r && col(j, bw) - tx == c);
                        if target is Some {
                            assert(j == target->0);
                            assert(before[j] == old_buf[j]);
                            assert(blit_covers(j, bw, buf_h as int, rgba, sw as int, tx as int, ty as int));
                        } else {
                            assert(!blit_covers(j, bw, buf_h as int, rgba, sw as int, tx as int, ty as int));
                        }
                    } else {
                        if target is Some {
                            assert(j != target->0);
                        }
                        assert(buffer@[j] == before[j]);
                    }
                }
            }
            c = c + 1;
        }
        proof {
            assert(base_row + 4 * sw == 4 * sw * (r + 1)) by (nonlinear_arith)
                requires
                    base_row == 4 * sw * r,
            ;
        }
        r = r + 1;
        base_row = base_row + 4 * sw;
    }
    assert forall|j: int| 0 <= j < len implies #[trigger] buffer@[j] == if bw > 0 && blit_covers(
        j,
        bw,
        buf_h as int,
        rgba,
        sw as int,
        tx as int,
        ty as int,
    ) {
        blit_value(j, bw, rgba, sw as int, tx as int, ty as int, old_buf[j])
    } else {
        old_buf[j]
    } by {}
}

// ── Whole-buffer conversions ────────────────────────────────

/// The XRGB pixel of RGBA bytes `r, g, b`.
pub open spec fn xrgb_of(r: u8, g: u8, b: u8) -> u32 {
    ((r as u32) << 16u32) | ((g as u32) << 8u32) | (b as u32)
}

/// Pixel `i` of an RGBA buffer as XRGB, or 0 when its colour bytes are missing.
pub open spec fn xrgb_pixel(rgba: Seq<u8>, i: int) -> u32 {
    if 4 * i + 2 < rgba.len() {
        xrgb_of(rgba[4 * i], rgba[4 * i + 1], rgba[4 * i + 2])
    } else {
        0
    }
}

/// The first `count` pixels of an RGBA buffer as XRGB words.
pub fn rgba_to_xrgb(rgba: &[u8], count: usize) -> (out: Vec<u32>)
    ensures
        out@.len() == count,
        forall|i: int| 0 <= i < count ==> #[trigger] out@[i] == xrgb_pixel(rgba@, i),
{
    let mut out: Vec<u32> = Vec::new();
    let mut i: usize = 0;
    while i < count
        invariant
            i <= count,
            out@.len() == i,
            forall|k: int| 0 <= k < i ==> #[trigger] out@[k] == xrgb_pixel(rgba@, k),
        decreases count - i,
    {
        let v = if i <= (usize::MAX - 2) / 4 && i * 4 + 2 < rgba.len() {
            let s = i * 4;
            let v = ((rgba[s] as u32) << 16u32) | ((rgba[s + 1] as u32) << 8u32) | (rgba[s + 2]
                as u32);
            assert(v == xrgb_pixel(rgba@, i as int));
            v
        } else {
            assert(rgba@.len() == rgba.len());
            assert(!(4 * i + 2 < rgba@.len()));
            0
        };
        out.push(v);
        i = i + 1;
    }
    out
}

/// RGB bytes of XRGB words: red, green, blue per pixel.
pub open spec fn rgb_bytes_spec(px: Seq<u32>) -> Seq<u8> {
    Seq::new(
        3 * px.len(),
        |j: int|
            {
                let p = px[j / 3];
                let c = j % 3;
                if c == 0 {
                    ((p >> 16u32) & 0xFFu32) as u8
                } else if c == 1 {
                    ((p >> 8u32) & 0xFFu32) as u8
                } else {
                    (p & 0xFFu32) as u8
                }
            },
    )
}

/// The RGB bytes (three per pixel) of an XRGB buffer, for PNG encoding.
pub fn xrgb_to_rgb(buf: &[u32]) -> (out: Vec<u8>)
    ensures
        out@ == rgb_bytes_spec(buf@),
{
    let mut out: Vec<u8> = Vec::new();
    let mut i: usize = 0;
    while i < buf.len()
        invariant
            i <= buf@.len(),
            out@.len() == 3 * i,
            forall|j: int| 0 <= j < 3 * i ==> #[trigger] out@[j] == rgb_bytes_spec(buf@)[j],
        decreases buf@.len() - i,
    {
        let p = buf[i];
        out.push(((p >> 16u32) & 0xFFu32) as u8);
        out.push(((p >> 8u32) & 0xFFu32) as u8);
        out.push((p & 0xFFu32) as u8);
        assert forall|j: int| 3 * i <= j < 3 * i + 3 implies #[trigger] out@[j] == rgb_bytes_spec(
            buf@,
        )[j] by {
            assert(j / 3 == i as int);
        }
        i = i + 1;
    }
    assert(out@ =~= rgb_bytes_spec(buf@));
    out
}

/// Alpha for a rendered text pixel: opaque where any colour byte is lit.
pub open spec fn recovered_alpha(rgba: Seq<u8>, p: int) -> u8 {
    if rgba[4 * p] != 0 || rgba[4 * p + 1] != 0 || rgba[4 * p + 2] != 0 {
        255
    } else {
        0
    }
}

/// Turns a text rendering on black into a transparent strip: each whole pixel's
/// alpha becomes 255 where its colour is not black and 0 where it is.
pub fn recover_alpha(rgba: &mut Vec<u8>)
    ensures
        final(rgba)@.len() == old(rgba)@.len(),
        forall|j: int|
            0 <= j < old(rgba)@.len() ==> #[trigger] final(rgba)@[j] == if j % 4 == 3 && j < 4 * (
            old(rgba)@.len() / 4) {
                recovered_alpha(old(rgba)@, j / 4)
            } else {
                old(rgba)@[j]
            },
{
    let ghost orig = rgba@;
    let n = rgba.len() / 4;
    let mut p: usize = 0;
    while p < n
        invariant
            p <= n,
            n == orig.len() / 4,
            rgba@.len() == orig.len(),
            rgba.len() == orig.len(),
            forall|j: int|
                0 <= j < orig.len() ==> #[trigger] rgba@[j] == if j % 4 == 3 && j < 4 * p {
                    recovered_alpha(orig, j / 4)
                } else {
                    orig[j]
                },
        decreases n - p,
    {
        let s = p * 4;
        let lit = rgba[s] != 0 || rgba[s + 1] != 0 || rgba[s + 2] != 0;
        assert(rgba@[s as int] == orig[s as int] && rgba@[s + 1] == orig[s + 1] && rgba@[s + 2]
            == orig[s + 2]);
        rgba.set(s + 3, if lit {
            255u8
        } else {
            0u8
        });
        assert forall|j: int| 0 <= j < orig.len() implies #[trigger] rgba@[j] == if j % 4 == 3
            && j < 4 * (p + 1) {
            recovered_alpha(orig, j / 4)
        } else {
            orig[j]
        } by {
            if j == s + 3 {
                assert(j / 4 == p as int);
            }
        }
        p = p + 1;
    }
}

// ── Solid spans ─────────────────────────────────────────────

/// `min(y * buf_w, len)`.
fn row_start_index(len: usize, buf_w: usize, y: usize) -> (r: usize)
    ensures
        r == (if y * buf_w < len {
            y * buf_w
        } else {
            len as int
        }),
{
    let yu = y as u128;
    let bwu = buf_w as u128;
    assert(yu * bwu <= 0xFFFF_FFFF_FFFF_FFFF * 0xFFFF_FFFF_FFFF_FFFF) by (nonlinear_arith)
        requires
            yu <= 0xFFFF_FFFF_FFFF_FFFF,
            bwu <= 0xFFFF_FFFF_FFFF_FFFF,
    ;
    let v = yu * bwu;
    if v < len as u128 {
        v as usize
    } else {
        len
    }
}

/// Fills the full-width rows `y0 .. y0 + rows` (indices `y0 * buf_w` up to
/// `(y0 + rows) * buf_w`, within the buffer) with `color`.
pub fn fill_rows(buffer: &mut [u32], buf_w: usize, y0: usize, rows: usize, color: u32)
    ensures
        final(buffer)@.len() == old(buffer)@.len(),
        forall|j: int|
            0 <= j < old(buffer)@.len() ==> #[trigger] final(buffer)@[j] == if y0 * buf_w <= j < (
            y0 + rows) * buf_w {
                color
            } else {
                old(buffer)@[j]
            },
{
    let ghost orig = buffer@;
    let len = buffer.len();
    let start = row_start_index(len, buf_w, y0);
    assert(y0 * buf_w <= (y0 + rows) * buf_w) by (nonlinear_arith)
        requires
            rows >= 0,
            buf_w >= 0,
    ;
    let end: usize = if (y0 as u128) + (rows as u128) > len as u128 {
        if buf_w == 0 {
            0
        } else {
            assert((y0 + rows) * buf_w >= y0 + rows) by (nonlinear_arith)
                requires
                    buf_w >= 1,
                    y0 + rows >= 0,
            ;
            len
        }
    } else {
        row_start_index(len, buf_w, y0 + rows)
    };
    let mut j = start;
    while j < end
        invariant
            start <= j <= len,
            end <= len,
            len == buffer@.len(),
            buffer@.len() == orig.len(),
            start == (if y0 * buf_w < len {
                y0 * buf_w
            } else {
                len as int
            }),
            end == (if (y0 + rows) * buf_w < len {
                (y0 + rows) * buf_w
            } else {
                len as int
            }),
            start <= j <= end,
            forall|k: int|
                0 <= k < len ==> #[trigger] buffer@[k] == if start <= k < j {
                    color
                } else {
                    orig[k]
                },
        decreases end - j,
    {
        buffer[j] = color;
        j = j + 1;
    }
}

// ── Boxes on buffer indices ─────────────────────────────────

/// How a box paints its pixels.
#[derive(Clone, Copy, Debug)]
pub enum BoxPaint {
    /// Every pixel the same colour.
    Solid(u32),
    /// A one-pixel frame in `border` around `fill`.
    Bordered { border: u32, fill: u32 },
}

/// Colour of the box pixel at `(rx, ry)` of a `w` x `h` box.
pub open spec fn box_pixel(p: BoxPaint, rx: int, ry: int, w: int, h: int) -> u32 {
    match p {
        BoxPaint::Solid(c) => c,
        BoxPaint::Bordered { border, fill } => if rx == 0 || rx == w - 1 || ry == 0 || ry == h
            - 1 {
            border
        } else {
            fill
        },
    }
}

/// Row `ry` of a box painted over `s`: indices `(y0 + ry) * bw + x0 + rx` for
/// `rx < w` (a row longer than the buffer's rows runs on into the next row), when
/// the row `y0 + ry` is below `max_row`.
pub open spec fn box_row(
    s: Seq<u32>,
    bw: int,
    x0: int,
    y0: int,
    w: int,
    h: int,
    max_row: int,
    p: BoxPaint,
    ry: int,
    upto: int,
) -> Seq<u32> {
    let start = (y0 + ry) * bw + x0;
    Seq::new(
        s.len(),
        |j: int|
            if y0 + ry < max_row && start <= j < start + upto {
                box_pixel(p, j - start, ry, w, h)
            } else {
                s[j]
            },
    )
}

/// The first `k` rows of a box painted over `s`, row after row.
pub open spec fn box_rows(
    s: Seq<u32>,
    bw: int,
    x0: int,
    y0: int,
    w: int,
    h: int,
    max_row: int,
    p: BoxPaint,
    k: nat,
) -> Seq<u32>
    decreases k,
{
    if k == 0 {
        s
    } else {
        box_row(box_rows(s, bw, x0, y0, w, h, max_row, p, (k - 1) as nat), bw, x0, y0, w, h, max_row, p, k - 1, w)
    }
}

fn box_pixel_exec(p: BoxPaint, rx: usize, ry: usize, w: usize, h: usize) -> (c: u32)
    ensures
        c == box_pixel(p, rx as int, ry as int, w as int, h as int),
{
    match p {
        BoxPaint::Solid(c) => c,
        BoxPaint::Bordered { border, fill } => if rx == 0 || rx as u128 + 1 == w as u128 || ry
            == 0 || ry as u128 + 1 == h as u128 {
            border
        } else {
            fill
        },
    }
}

/// Index `y * bw + x` when it is below `len`.
fn span_index(len: usize, bw: usize, x: u128, y: u128) -> (r: Option<usize>)
    requires
        x < 0x4_0000_0000_0000_0000,
        y < 0x4_0000_0000_0000_0000,
    ensures
        r is Some <==> y * bw + x < len,
        r matches Some(i) ==> i == y * bw + x,
{
    if x >= len as u128 {
        assert(y * bw >= 0) by (nonlinear_arith)
            requires
                y >= 0,
                bw >= 0,
        ;
        return None;
    }
    if bw == 0 {
        return Some(x as usize);
    }
    if y > len as u128 {
        assert(y * bw >= y) by (nonlinear_arith)
            requires
                bw >= 1,
                y >= 0,
        ;
        return None;
    }
    let bwu = bw as u128;
    assert(y * bwu <= 0xFFFF_FFFF_FFFF_FFFF * 0xFFFF_FFFF_FFFF_FFFF) by (nonlinear_arith)
        requires
            y <= 0xFFFF_FFFF_FFFF_FFFF,
            bwu <= 0xFFFF_FFFF_FFFF_FFFF,
    ;
    let idx = y * bwu + x;
    if idx < len as u128 {
        Some(idx as usize)
    } else {
        None
    }
}

/// Paints a `w` x `h` box whose top-left index is `y0 * buf_w + x0`, row by row, on
/// rows below `max_row`; only indices inside the buffer are written.
pub fn paint_box(
    buffer: &mut [u32],
    buf_w: usize,
    x0: usize,
    y0: usize,
    w: usize,
    h: usize,
    max_row: usize,
    p: BoxPaint,
)
    ensures
        final(buffer)@ == box_rows(
            old(buffer)@,
            buf_w as int,
            x0 as int,
            y0 as int,
            w as int,
            h as int,
            max_row as int,
            p,
            h as nat,
        ),
{
    let ghost orig = buffer@;
    let ghost bw = buf_w as int;
    let len = buffer.len();
    let mut ry: usize = 0;
    while ry < h
        invariant
            ry <= h,
            len == buffer@.len(),
            buffer@ == box_rows(orig, bw, x0 as int, y0 as int, w as int, h as int, max_row as int, p, ry as nat),
            bw == buf_w as int,
        decreases h - ry,
    {
        let ghost prev = buffer@;
        let y = y0 as u128 + ry as u128;
        let row_ok = y < max_row as u128;
        let mut rx: usize = 0;
        assert(buffer@ =~= box_row(prev, bw, x0 as int, y0 as int, w as int, h as int, max_row as int, p, ry as int, 0));
        while rx < w
            invariant
                ry < h,
                rx <= w,
                len == buffer@.len(),
                prev.len() == len,
                y == y0 + ry,
                row_ok == (y0 + ry < max_row),
                bw == buf_w as int,
                buffer@ == box_row(prev, bw, x0 as int, y0 as int, w as int, h as int, max_row as int, p, ry as int, rx as int),
            decreases w - rx,
        {
            let ghost before = buffer@;
            if row_ok {
                if let Some(idx) = span_index(len, buf_w, x0 as u128 + rx as u128, y) {
                    let v = box_pixel_exec(p, rx, ry, w, h);
                    buffer[idx] = v;
                }
            }
            proof {
                let start = (y0 + ry) * bw + x0;
                assert forall|j: int| 0 <= j < len implies #[trigger] buffer@[j] == box_row(
                    prev, bw, x0 as int, y0 as int, w as int, h as int, max_row as int, p, ry as int, rx + 1,
                )[j] by {
                    if row_ok && j == start + rx {
                        assert(j - start == rx);
                    }
                }
                assert(buffer@ =~= box_row(prev, bw, x0 as int, y0 as int, w as int, h as int, max_row as int, p, ry as int, rx + 1));
            }
            rx = rx + 1;
        }
        ry = ry + 1;
    }
}

// ── Clipped rectangles ──────────────────────────────────────

/// How a clipped rectangle changes the pixels it covers.
#[derive(Clone, Copy, Debug)]
pub enum Shade {
    /// Overwrite with a colour.
    Solid(u32),
    /// A one-pixel frame in `border` around `fill`.
    Bordered { border: u32, fill: u32 },
    /// A two-pixel frame in yellow, inside lightened 22% towards white.
    Highlight,
    /// Blend `120/255` of the colour over the pixel.
    Tint(u32),
}

/// A channel moved 22% of the way towards 255.
pub open spec fn lighten_channel(c: u32) -> u32 {
    (c + (255 - c) * 22 / 100) as u32
}

/// A channel `s` blended `120/255` over `d`.
pub open spec fn tint_channel(s: u32, d: u32) -> u32 {
    ((s * 120 + d * 135) / 255) as u32
}

/// The new value of the pixel `dst` at `(rx, ry)` of a `w` x `h` shaded rectangle.
pub open spec fn shade_pixel(sh: Shade, dst: u32, rx: int, ry: int, w: int, h: int) -> u32 {
    let dr = (dst >> 16u32) & 0xFFu32;
    let dg = (dst >> 8u32) & 0xFFu32;
    let db = dst & 0xFFu32;
    match sh {
        Shade::Solid(c) => c,
        Shade::Bordered { border, fill } => if rx == 0 || rx == w - 1 || ry == 0 || ry == h - 1 {
            border
        } else {
            fill
        },
        Shade::Highlight => if ry < 2 || rx < 2 || ry >= h - 2 || rx >= w - 2 {
            0x00FFFF00u32
        } else {
            (lighten_channel(dr) << 16u32) | (lighten_channel(dg) << 8u32) | lighten_channel(db)
        },
        Shade::Tint(c) => {
            let sr = (c >> 16u32) & 0xFFu32;
            let sg = (c >> 8u32) & 0xFFu32;
            let sb = c & 0xFFu32;
            (tint_channel(sr, dr) << 16u32) | (tint_channel(sg, dg) << 8u32) | tint_channel(sb, db)
        },
    }
}

fn channels(p: u32) -> (r: (u32, u32, u32))
    ensures
        r.0 == (p >> 16u32) & 0xFFu32,
        r.1 == (p >> 8u32) & 0xFFu32,
        r.2 == p & 0xFFu32,
        r.0 <= 255,
        r.1 <= 255,
        r.2 <= 255,
{
    let a = (p >> 16u32) & 0xFFu32;
    let b = (p >> 8u32) & 0xFFu32;
    let c = p & 0xFFu32;
    assert(a <= 255 && b <= 255 && c <= 255) by (bit_vector)
        requires
            a == (p >> 16u32) & 0xFFu32,
            b == (p >> 8u32) & 0xFFu32,
            c == p & 0xFFu32,
    ;
    (a, b, c)
}

fn shade_pixel_exec(sh: Shade, dst: u32, rx: i64, ry: i64, w: i64, h: i64) -> (v: u32)
    requires
        0 <= rx < w <= i32::MAX,
        0 <= ry < h <= i32::MAX,
    ensures
        v == shade_pixel(sh, dst, rx as int, ry as int, w as int, h as int),
{
    let (dr, dg, db) = channels(dst);
    match sh {
        Shade::Solid(c) => c,
        Shade::Bordered { border, fill } => if rx == 0 || rx == w - 1 || ry == 0 || ry == h - 1 {
            border
        } else {
            fill
        },
        Shade::Highlight => if ry < 2 || rx < 2 || ry >= h - 2 || rx >= w - 2 {
            0x00FFFF00u32
        } else {
            let nr = dr + (255 - dr) * 22 / 100;
            let ng = dg + (255 - dg) * 22 / 100;
            let nb = db + (255 - db) * 22 / 100;
            (nr << 16u32) | (ng << 8u32) | nb
        },
        Shade::Tint(c) => {
            let (sr, sg, sb) = channels(c);
            let nr = (sr * 120 + dr * 135) / 255;
            let ng = (sg * 120 + dg * 135) / 255;
            let nb = (sb * 120 + db * 135) / 255;
            (nr << 16u32) | (ng << 8u32) | nb
        },
    }
}

/// Whether buffer index `j` lies in the `w` x `h` rectangle at `(x, y)` and inside
/// the `bw` x `bh` window.
pub open spec fn rect_covers(j: int, bw: int, bh: int, x: int, y: int, w: int, h: int) -> bool {
    x <= col(j, bw) < x + w && y <= row(j, bw) < y + h && row(j, bw) < bh
}

/// Shades the `w` x `h` rectangle at `(x, y)`, clipped to the `buf_w` x `buf_h`
/// window and to the buffer.
pub fn shade_rect(
    buffer: &mut [u32],
    buf_w: usize,
    buf_h: usize,
    x: i32,
    y: i32,
    w: i32,
    h: i32,
    sh: Shade,
)
    ensures
        final(buffer)@.len() == old(buffer)@.len(),
        forall|j: int|
            0 <= j < old(buffer)@.len() ==> #[trigger] final(buffer)@[j] == if buf_w > 0
                && rect_covers(j, buf_w as int, buf_h as int, x as int, y as int, w as int, h as int) {
                shade_pixel(
                    sh,
                    old(buffer)@[j],
                    col(j, buf_w as int) - x,
                    row(j, buf_w as int) - y,
                    w as int,
                    h as int,
                )
            } else {
                old(buffer)@[j]
            },
{
    let ghost orig = buffer@;
    let ghost bw = buf_w as int;
    let len = buffer.len();
    if w <= 0 || h <= 0 {
        return ;
    }
    let mut ry: i32 = 0;
    while ry < h
        invariant
            0 <= ry <= h,
            0 < w,
            len == buffer@.len(),
            buffer@.len() == orig.len(),
            bw == buf_w as int,
            forall|j: int|
                0 <= j < len ==> #[trigger] buffer@[j] == if bw > 0 && rect_covers(
                    j,
                    bw,
                    buf_h as int,
                    x as int,
                    y as int,
                    w as int,
                    h as int,
                ) && row(j, bw) - y < ry {
                    shade_pixel(sh, orig[j], col(j, bw) - x, row(j, bw) - y, w as int, h as int)
                } else {
                    orig[j]
                },
        decreases h - ry,
    {
        let mut rx: i32 = 0;
        while rx < w
            invariant
                0 <= ry < h,
                0 <= rx <= w,
                len == buffer@.len(),
                buffer@.len() == orig.len(),
                bw == buf_w as int,
                forall|j: int|
                    0 <= j < len ==> #[trigger] buffer@[j] == if bw > 0 && rect_covers(
                        j,
                        bw,
                        buf_h as int,
                        x as int,
                        y as int,
                        w as int,
                        h as int,
                    ) && (row(j, bw) - y < ry || (row(j, bw) - y == ry && col(j, bw) - x < rx)) {
                        shade_pixel(sh, orig[j], col(j, bw) - x, row(j, bw) - y, w as int, h as int)
                    } else {
                        orig[j]
                    },
            decreases w - rx,
        {
            let px = x as i64 + rx as i64;
            let py = y as i64 + ry as i64;
            let ghost before = buffer@;
            let target = if py >= 0 && (py as u128) < (buf_h as u128) {
                buffer_index(len, buf_w, px, py)
            } else {
                None
            };
            if let Some(idx) = target {
                let v = shade_pixel_exec(sh, buffer[idx], rx as i64, ry as i64, w as i64, h as i64);
                buffer[idx] = v;
            }
            assert forall|j: int| 0 <= j < len implies #[trigger] buffer@[j] == if bw > 0
                && rect_covers(j, bw, buf_h as int, x as int, y as int, w as int, h as int) && (row(
                j,
                bw,
            ) - y < ry || (row(j, bw) - y == ry && col(j, bw) - x < rx + 1)) {
                shade_pixel(sh, orig[j], col(j, bw) - x, row(j, bw) - y, w as int, h as int)
            } else {
                orig[j]
            } by {
                if bw > 0 {
                    lemma_pixel_bounds(j, bw);
                    if px >= 0 && px < bw && py >= 0 {
                        lemma_same_pixel(j, bw, px as int, py as int);
                    }
                    let here = row(j, bw) == py && col(j, bw) == px;
                    if here {
                        if target is Some {
                            assert(j == target->0);
                            assert(before[j] == orig[j]);
                        }
                    } else {
                        if target is Some {
                            assert(j != target->0);
                        }
                        assert(buffer@[j] == before[j]);
                    }
                }
            }
            rx = rx + 1;
        }
        ry = ry + 1;
    }
}

// ── Page frame under the chrome ─────────────────────────────

/// Width of a page frame of `src_len` pixels spread over `page_h` rows (0 when
/// there are no rows).
pub open spec fn page_width(src_len: int, page_h: int) -> int {
    if page_h > 0 {
        src_len / page_h
    } else {
        0
    }
}

/// What buffer index `j` holds after the page frame `src` is copied below a chrome
/// bar of `chrome` rows, in a buffer of `buf_h` rows of `bw` pixels. Page row `y`
/// goes to buffer row `y + chrome`; each row copies `min(bw, page width)` pixels,
/// and only rows whose pixels fit both in the buffer and in `src` are copied.
pub open spec fn page_copy_value(
    old: Seq<u32>,
    src: Seq<u32>,
    bw: int,
    buf_h: int,
    chrome: int,
    j: int,
) -> u32 {
    let page_h = if buf_h > chrome {
        buf_h - chrome
    } else {
        0
    };
    let xw = page_width(src.len() as int, page_h);
    let n = if bw < xw {
        bw
    } else {
        xw
    };
    let y = row(j, bw) - chrome;
    let x = col(j, bw);
    if bw > 0 && xw > 0 && 0 <= y < page_h && x < n && (y + chrome) * bw + n <= old.len() && y
        * xw + n <= src.len() {
        src[y * xw + x]
    } else {
        old[j]
    }
}

proof fn lemma_page_rows_fit(y: int, page_h: int, xw: int, len: int)
    requires
        0 <= y < page_h,
        xw == len / page_h,
        0 <= len,
    ensures
        y * xw + xw <= len,
{
    assert(y * xw + xw <= page_h * xw) by (nonlinear_arith)
        requires
            0 <= y < page_h,
            0 <= xw,
    ;
    vstd::arithmetic::div_mod::lemma_fundamental_div_mod(len, page_h);
    vstd::arithmetic::mul::lemma_mul_is_commutative(page_h, xw);
}

/// Copies the page frame `src` into the buffer below the chrome bar.
pub fn copy_page(buffer: &mut [u32], buf_w: usize, buf_h: usize, chrome: usize, src: &[u32])
    ensures
        final(buffer)@.len() == old(buffer)@.len(),
        forall|j: int|
            0 <= j < old(buffer)@.len() ==> #[trigger] final(buffer)@[j] == page_copy_value(
                old(buffer)@,
                src@,
                buf_w as int,
                buf_h as int,
                chrome as int,
                j,
            ),
{
    let ghost orig = buffer@;
    let len = buffer.len();
    let page_h = buf_h.saturating_sub(chrome);
    if src.len() == 0 || page_h == 0 || buf_w == 0 {
        return;
    }
    let xw = src.len() / page_h;
    if xw == 0 {
        return;
    }
    let n = if buf_w < xw {
        buf_w
    } else {
        xw
    };
    let ghost bw = buf_w as int;
    let slen = src.len();
    let mut y: usize = 0;
    while y < page_h
        invariant
            slen == src@.len(),
            n == (if buf_w < xw { buf_w } else { xw }),
            0 < n <= buf_w,
            n <= xw,
            page_h == buf_h - chrome,
            0 < page_h,
            xw == (src@.len() as int) / (page_h as int),
            len == buffer@.len(),
            orig.len() == len,
            bw == buf_w,
            y <= page_h,
            forall|j: int|
                0 <= j < len ==> #[trigger] buffer@[j] == if row(j, bw) - chrome < y {
                    page_copy_value(orig, src@, bw, buf_h as int, chrome as int, j)
                } else {
                    orig[j]
                },
        decreases page_h - y,
    {
        let yc = y + chrome;
        proof {
            lemma_page_rows_fit(y as int, page_h as int, xw as int, src@.len() as int);
            assert((yc as u128) * (buf_w as u128) <= 0xFFFF_FFFF_FFFF_FFFF * 0xFFFF_FFFF_FFFF_FFFF)
                by (nonlinear_arith)
                requires
                    yc <= 0xFFFF_FFFF_FFFF_FFFF,
                    buf_w <= 0xFFFF_FFFF_FFFF_FFFF,
            ;
        }
        let rowu = (yc as u128) * (buf_w as u128);
        let srow = y * xw;
        let fits = rowu + (n as u128) <= len as u128;
        if fits {
            let row_start = rowu as usize;
            let mut x: usize = 0;
            while x < n
                invariant
                    slen == src@.len(),
                    n == (if buf_w < xw { buf_w } else { xw }),
                    0 < n <= buf_w,
                    n <= xw,
                    page_h == buf_h - chrome,
                    0 < page_h,
                    xw == (src@.len() as int) / (page_h as int),
                    len == buffer@.len(),
                    orig.len() == len,
                    bw == buf_w,
                    y < page_h,
                    yc == y + chrome,
                    row_start == yc * bw,
                    row_start + n <= len,
                    srow == y * xw,
                    srow + n <= src@.len(),
                    x <= n,
                    forall|j: int|
                        0 <= j < len ==> #[trigger] buffer@[j] == if row(j, bw) - chrome < y || (
                        row(j, bw) - chrome == y && col(j, bw) < x) {
                            page_copy_value(orig, src@, bw, buf_h as int, chrome as int, j)
                        } else {
                            orig[j]
                        },
                decreases n - x,
            {
                let ghost before = buffer@;
                buffer[row_start + x] = src[srow + x];
                proof {
                    let k = row_start + x;
                    assert(buffer@ == before.update(k, src@[srow + x]));
                    assert(row(k, bw) == yc && col(k, bw) == x) by {
                        lemma_same_pixel(k, bw, x as int, yc as int);
                    }
                    assert forall|j: int| 0 <= j < len implies #[trigger] buffer@[j] == if row(j, bw)
                        - chrome < y || (row(j, bw) - chrome == y && col(j, bw) < x + 1) {
                        page_copy_value(orig, src@, bw, buf_h as int, chrome as int, j)
                    } else {
                        orig[j]
                    } by {
                        lemma_pixel_bounds(j, bw);
                        if j == k {
                            assert(page_copy_value(orig, src@, bw, buf_h as int, chrome as int, j)
                                == src@[srow + x]);
                        } else {
                            assert(buffer@[j] == before[j]);
                            if row(j, bw) - chrome == y && col(j, bw) == x {
                                lemma_same_pixel(j, bw, x as int, yc as int);
                            }
                        }
                    }
                }
                x = x + 1;
            }
            proof {
                assert forall|j: int| 0 <= j < len implies #[trigger] buffer@[j] == if row(j, bw)
                    - chrome < y + 1 {
                    page_copy_value(orig, src@, bw, buf_h as int, chrome as int, j)
                } else {
                    orig[j]
                } by {
                    lemma_pixel_bounds(j, bw);
                }
            }
        } else {
            proof {
                assert forall|j: int| 0 <= j < len implies #[trigger] buffer@[j] == if row(j, bw)
                    - chrome < y + 1 {
                    page_copy_value(orig, src@, bw, buf_h as int, chrome as int, j)
                } else {
                    orig[j]
                } by {
                    lemma_pixel_bounds(j, bw);
                    if row(j, bw) - chrome == y {
                        assert(rowu == (y + chrome) * bw);
                        assert((y + chrome) * bw + n > orig.len());
                    }
                }
            }
        }
        y = y + 1;
    }
    proof {
        assert forall|j: int| 0 <= j < len implies #[trigger] buffer@[j] == page_copy_value(
            orig,
            src@,
            bw,
            buf_h as int,
            chrome as int,
            j,
        ) by {
            lemma_pixel_bounds(j, bw);
        }
    }
}

/// Copying the page never touches the chrome rows above it.
pub proof fn lemma_copy_page_spares_chrome(
    old: Seq<u32>,
    src: Seq<u32>,
    bw: int,
    buf_h: int,
    chrome: int,
    j: int,
)
    requires
        bw > 0,
        0 <= j < old.len(),
        row(j, bw) < chrome,
    ensures
        page_copy_value(old, src, bw, buf_h, chrome, j) == old[j],
{
}

/// Packing RGBA pixels into XRGB words and unpacking those to RGB bytes keeps each
/// pixel's red, green and blue.
pub proof fn lemma_xrgb_rgb_round_trip(rgba: Seq<u8>, i: int, k: int)
    requires
        0 <= i,
        4 * i + 2 < rgba.len(),
        0 <= k < 3,
    ensures
        rgb_bytes_spec(seq![xrgb_pixel(rgba, i)])[k] == rgba[4 * i + k],
{
    let r = rgba[4 * i];
    let g = rgba[4 * i + 1];
    let b = rgba[4 * i + 2];
    let p = xrgb_of(r, g, b);
    assert(((p >> 16u32) & 0xFFu32) as u8 == r && ((p >> 8u32) & 0xFFu32) as u8 == g && (p
        & 0xFFu32) as u8 == b) by (bit_vector)
        requires
            p == ((r as u32) << 16u32) | ((g as u32) << 8u32) | (b as u32),
    ;
}

/// A bordered shade is a frame of equal width on all four sides: mirroring a pixel
/// left to right or top to bottom inside the rectangle keeps its colour, and with
/// distinct colours a pixel gets the border exactly on the first or last column or
/// row.
pub proof fn lemma_bordered_shade_frame(
    border: u32,
    fill: u32,
    dst: u32,
    rx: int,
    ry: int,
    w: int,
    h: int,
)
    requires
        0 <= rx < w,
        0 <= ry < h,
    ensures
        ({
            let sh = Shade::Bordered { border, fill };
            &&& shade_pixel(sh, dst, rx, ry, w, h) == shade_pixel(sh, dst, w - 1 - rx, ry, w, h)
            &&& shade_pixel(sh, dst, rx, ry, w, h) == shade_pixel(sh, dst, rx, h - 1 - ry, w, h)
            &&& border != fill ==> (shade_pixel(sh, dst, rx, ry, w, h) == border <==> (rx == 0
                || rx == w - 1 || ry == 0 || ry == h - 1))
            &&& border != fill ==> (shade_pixel(sh, dst, rx, ry, w, h) == fill <==> !(rx == 0
                || rx == w - 1 || ry == 0 || ry == h - 1))
        }),
{
}

/// The hover highlight's two-pixel frame is the same on all four sides: mirroring
/// a pixel left to right or top to bottom keeps its colour.
pub proof fn lemma_highlight_frame_symmetric(dst: u32, rx: int, ry: int, w: int, h: int)
    requires
        0 <= rx < w,
        0 <= ry < h,
    ensures
        shade_pixel(Shade::Highlight, dst, rx, ry, w, h) == shade_pixel(
            Shade::Highlight,
            dst,
            w - 1 - rx,
            ry,
            w,
            h,
        ),
        shade_pixel(Shade::Highlight, dst, rx, ry, w, h) == shade_pixel(
            Shade::Highlight,
            dst,
            rx,
            h - 1 - ry,
            w,
            h,
        ),
{
}

/// A bordered box is a one-pixel frame on all four sides: mirroring keeps a pixel's
/// colour, and with distinct colours the border lies exactly on the edges.
pub proof fn lemma_bordered_box_frame(border: u32, fill: u32, rx: int, ry: int, w: int, h: int)
    requires
        0 <= rx < w,
        0 <= ry < h,
    ensures
        ({
            let p = BoxPaint::Bordered { border, fill };
            &&& box_pixel(p, rx, ry, w, h) == box_pixel(p, w - 1 - rx, ry, w, h)
            &&& box_pixel(p, rx, ry, w, h) == box_pixel(p, rx, h - 1 - ry, w, h)
            &&& border != fill ==> (box_pixel(p, rx, ry, w, h) == border <==> (rx == 0 || rx
                == w - 1 || ry == 0 || ry == h - 1))
        }),
{
}
} // verus!
