//! Favicons: the fallback colour slot (hashed from the URL's host), the URL a
//! favicon is fetched from, decoding, and drawing it scaled into its slot.

use vstd::prelude::*;
use vstd::string::StrSliceExecFns;
use vstd::string::StringExecFns;
use vstd::string::StringSliceAdditionalSpecFns;

use crate::raster::{col, in_buffer, lemma_pixel_bounds, lemma_same_pixel, plot, row, xrgb_of};
use crate::text::{chars_of, occurs_at, occurs_at_exec, str_eq, string_from_chars, trim, trim_bounds};

verus! {

// ── Host hash ───────────────────────────────────────────────

/// First position at or after `i` where `needle` occurs in `hay`.
pub open spec fn find_from(hay: Seq<char>, needle: Seq<char>, i: int) -> Option<int>
    decreases hay.len() + 1 - i,
{
    if i < 0 || i + needle.len() > hay.len() {
        None
    } else if occurs_at(hay, needle, i) {
        Some(i)
    } else {
        find_from(hay, needle, i + 1)
    }
}

/// Position of the first `c` in `s`, or `s.len()`.
pub open spec fn first_char_or_end(s: Seq<char>, c: char, i: int) -> int
    decreases s.len() - i,
{
    if i >= s.len() {
        s.len() as int
    } else if s[i] == c {
        i
    } else {
        first_char_or_end(s, c, i + 1)
    }
}

/// The part of `url` after its first `"://"` up to the next `"://"` (the whole URL
/// when it has none), cut before its first `'/'`.
pub open spec fn url_host_spec(url: Seq<char>) -> Seq<char> {
    let sep = "://"@;
    let after = match find_from(url, sep, 0) {
        Some(i) => {
            let rest = url.skip(i + sep.len());
            match find_from(rest, sep, 0) {
                Some(k) => rest.take(k),
                None => rest,
            }
        },
        None => url,
    };
    after.take(first_char_or_end(after, '/', 0))
}

/// A found position is an occurrence at or after the start.
pub proof fn lemma_find_from_some(hay: Seq<char>, needle: Seq<char>, i: int)
    ensures
        find_from(hay, needle, i) matches Some(k) ==> k >= i && occurs_at(hay, needle, k),
    decreases hay.len() + 1 - i,
{
    if i >= 0 && i + needle.len() <= hay.len() && !occurs_at(hay, needle, i) {
        lemma_find_from_some(hay, needle, i + 1);
    }
}

fn find_from_exec(hay: &Vec<char>, needle: &Vec<char>, i: usize) -> (r: Option<usize>)
    requires
        i <= hay@.len(),
    ensures
        match r {
            Some(k) => find_from(hay@, needle@, i as int) == Some(k as int),
            None => find_from(hay@, needle@, i as int) is None,
        },
{
    let mut k = i;
    loop
        invariant
            i <= k <= hay@.len(),
            find_from(hay@, needle@, i as int) == find_from(hay@, needle@, k as int),
        decreases hay@.len() - k,
    {
        if needle.len() > hay.len() || k > hay.len() - needle.len() {
            return None;
        }
        if occurs_at_exec(hay, needle, k) {
            return Some(k);
        }
        if needle.len() == 0 {
            assert(hay@.subrange(k as int, k as int) =~= needle@);
        }
        k = k + 1;
    }
}

fn first_char_or_end_exec(s: &Vec<char>, c: char, from: usize, to: usize) -> (r: usize)
    requires
        from <= to <= s@.len(),
    ensures
        from <= r <= to,
        r - from == first_char_or_end(s@.subrange(from as int, to as int), c, 0),
{
    let ghost t = s@.subrange(from as int, to as int);
    let mut i = from;
    while i < to && s[i] != c
        invariant
            from <= i <= to,
            to <= s@.len(),
            t == s@.subrange(from as int, to as int),
            first_char_or_end(t, c, 0) == first_char_or_end(t, c, i - from),
        decreases to - i,
    {
        assert(t[i - from] == s@[i as int]);
        i = i + 1;
    }
    if i < to {
        assert(t[i - from] == s@[i as int]);
    }
    i
}

/// The host part of a URL as the favicon colour uses it.
pub fn url_host(url: &str) -> (r: String)
    ensures
        r@ == url_host_spec(url@),
{
    let v = chars_of(url);
    let sep = chars_of("://");
    proof {
        reveal_strlit("://");
        assert(sep@.len() == 3);
    }
    let (a, b) = match find_from_exec(&v, &sep, 0) {
        Some(i) => {
            proof {
                lemma_find_from_some(v@, sep@, 0);
                assert(occurs_at(v@, sep@, i as int));
                assert(i + 3 <= v@.len());
                assert(v@.len() == v.len());
            }
            let start = i + 3;
            let ghost rest = v@.skip(start as int);
            let rv: Vec<char> = {
                let s = string_from_chars(&v, start, v.len());
                chars_of(s.as_str())
            };
            assert(rv@ =~= rest);
            proof {
                lemma_find_from_some(rv@, sep@, 0);
            }
            match find_from_exec(&rv, &sep, 0) {
                Some(k) => (start, start + k),
                None => (start, v.len()),
            }
        },
        None => (0, v.len()),
    };
    let ghost after = v@.subrange(a as int, b as int);
    proof {
        match find_from(url@, "://"@, 0) {
            Some(i) => {
                let rest = url@.skip(i + 3);
                match find_from(rest, "://"@, 0) {
                    Some(k) => {
                        assert(after =~= rest.take(k));
                    },
                    None => {
                        assert(after =~= rest);
                    },
                }
            },
            None => {
                assert(after =~= url@);
            },
        }
    }
    let e = first_char_or_end_exec(&v, '/', a, b);
    let r = string_from_chars(&v, a, e);
    assert(r@ =~= after.take(e - a));
    r
}

/// FNV-1a (32-bit) of the bytes `b[0..n]`.
pub open spec fn fnv1a_prefix(b: Seq<u8>, n: nat) -> u32
    decreases n,
{
    if n == 0 {
        2166136261u32
    } else {
        (fnv1a_prefix(b, (n - 1) as nat) ^ (b[n - 1] as u32)).wrapping_mul(16777619u32)
    }
}

/// FNV-1a (32-bit) of a byte string.
pub open spec fn fnv1a_spec(b: Seq<u8>) -> u32 {
    fnv1a_prefix(b, b.len())
}

/// FNV-1a (32-bit) of `bytes`.
pub fn fnv1a32(bytes: &[u8]) -> (h: u32)
    ensures
        h == fnv1a_spec(bytes@),
{
    let mut h: u32 = 2166136261u32;
    let mut i: usize = 0;
    while i < bytes.len()
        invariant
            i <= bytes@.len(),
            h == fnv1a_prefix(bytes@, i as nat),
        decreases bytes@.len() - i,
    {
        h = (h ^ (bytes[i] as u32)).wrapping_mul(16777619u32);
        i = i + 1;
    }
    h
}

/// The hue (degrees) of the favicon slot's fallback colour: the FNV-1a hash of the
/// UTF-8 bytes of the URL's host, modulo 360. `None` for empty (or blank) input and
/// for local input, whose host is empty (a `file:` URL or a path); those get the
/// neutral grey slot.
pub open spec fn favicon_hue_spec(url: Seq<char>) -> Option<u32> {
    if trim(url).len() == 0 || url_host_spec(url).len() == 0 {
        None
    } else {
        Some(fnv1a_spec(vstd::utf8::encode_utf8(url_host_spec(url))) % 360)
    }
}

/// The hue of the favicon fallback colour for `url`.
pub fn favicon_hue(url: &str) -> (r: Option<u32>)
    ensures
        r == favicon_hue_spec(url@),
{
    let v = chars_of(url);
    let (a, b) = trim_bounds(&v, 0, v.len());
    assert(v@.subrange(0, v@.len() as int) =~= url@);
    if a == b {
        return None;
    }
    let host = url_host(url);
    if host.as_str().unicode_len() == 0 {
        return None;
    }
    let h = fnv1a32(host.as_str().as_bytes());
    Some(h % 360)
}

// ── Fetching and decoding ───────────────────────────────────

/// What `url::Url::join` gives for a base URL and a reference: the joined URL's
/// serialization and scheme.
pub uninterp spec fn url_joined(base: Seq<char>, href: Seq<char>) -> Option<(Seq<char>, Seq<char>)>;

/// Parses `base` with `url::Url::parse` and resolves `href` against it with
/// `Url::join`; the serialization and scheme of the result. Named; `None` for
/// any parse error.
#[verifier::external_body]
fn url_join(base: &str, href: &str) -> (r: Option<(String, String)>)
    ensures
        match r {
            Some((s, scheme)) => url_joined(base@, href@) == Some((s@, scheme@)),
            None => url_joined(base@, href@) is None,
        },
{
    let b = url::Url::parse(base).ok()?;
    let j = b.join(href).ok()?;
    Some((j.as_str().to_string(), j.scheme().to_string()))
}

/// The URL to fetch the page's favicon from: `href` resolved against the page URL,
/// when that resolves to an `http` or `https` URL.
pub open spec fn favicon_fetch_url_spec(base: Seq<char>, href: Seq<char>) -> Option<Seq<char>> {
    match url_joined(base, href) {
        Some((s, scheme)) => if scheme == "http"@ || scheme == "https"@ {
            Some(s)
        } else {
            None
        },
        None => None,
    }
}

/// The spec of a joined URL, as the views of its parts.
pub open spec fn joined_view(j: Option<(String, String)>) -> Option<(Seq<char>, Seq<char>)> {
    match j {
        Some((s, scheme)) => Some((s@, scheme@)),
        None => None,
    }
}

/// The favicon URL given what joining the page URL with `href` gave: the joined URL
/// when its scheme is `http` or `https`.
pub fn favicon_url_from_join(joined: Option<(String, String)>) -> (r: Option<String>)
    ensures
        match joined_view(joined) {
            Some((s, scheme)) => if scheme == "http"@ || scheme == "https"@ {
                r matches Some(t) && t@ == s
            } else {
                r is None
            },
            None => r is None,
        },
{
    match joined {
        Some((s, scheme)) => {
            if str_eq(scheme.as_str(), "http") || str_eq(scheme.as_str(), "https") {
                Some(s)
            } else {
                None
            }
        },
        None => None,
    }
}

/// The favicon URL for a page at `base` whose document names `href`.
pub fn favicon_fetch_url(base: &str, href: &str) -> (r: Option<String>)
    ensures
        match r {
            Some(s) => favicon_fetch_url_spec(base@, href@) == Some(s@),
            None => favicon_fetch_url_spec(base@, href@) is None,
        },
{
    favicon_url_from_join(url_join(base, href))
}

/// The URL shown for a hovered link: `href` resolved against the page URL when there
/// is one and it resolves, else `href` as written.
pub open spec fn link_display_spec(base: Option<Seq<char>>, href: Seq<char>) -> Seq<char> {
    match base {
        Some(b) => match url_joined(b, href) {
            Some((s, _)) => s,
            None => href,
        },
        None => href,
    }
}

/// The URL shown for a hovered link given what joining the page URL with `href`
/// gave: the joined URL, else `href` as written.
pub fn link_display_from_join(joined: Option<(String, String)>, href: &str) -> (r: String)
    ensures
        r@ == match joined_view(joined) {
            Some((s, _)) => s,
            None => href@,
        },
{
    match joined {
        Some((s, _)) => s,
        None => String::from_str(href),
    }
}

/// The URL shown for a hovered link.
pub fn link_display_url(base: Option<&str>, href: &str) -> (r: String)
    ensures
        r@ == link_display_spec(match base {
            Some(b) => Some(b@),
            None => None,
        }, href@),
{
    match base {
        Some(b) => link_display_from_join(url_join(b, href), href),
        None => String::from_str(href),
    }
}

/// A decoded favicon: RGBA8 pixels and size.
pub struct Favicon {
    pub rgba: Vec<u8>,
    pub width: u32,
    pub height: u32,
}

/// What `image::load_from_memory(..).to_rgba8()` gives for the bytes: pixels, width,
/// height.
pub uninterp spec fn image_decoded(bytes: Seq<u8>) -> Option<(Seq<u8>, u32, u32)>;

/// Decodes fetched favicon bytes with `image::load_from_memory` (format guessed from
/// the bytes) and converts to RGBA8. Named; `None` for any decoding error. The RGBA8
/// buffer `to_rgba8` builds holds four bytes for each of the `width * height` pixels.
#[verifier::external_body]
pub(crate) fn decode_image_rgba(bytes: &[u8]) -> (r: Option<Favicon>)
    ensures
        match r {
            Some(f) => image_decoded(bytes@) == Some((f.rgba@, f.width, f.height)) && f.rgba@.len()
                == 4 * f.width * f.height,
            None => image_decoded(bytes@) is None,
        },
{
    let img = image::load_from_memory(bytes).ok()?;
    let rgba = img.to_rgba8();
    Some(Favicon { rgba: rgba.as_raw().to_vec(), width: rgba.width(), height: rgba.height() })
}

/// The favicon decoded from fetched bytes.
pub fn decode_favicon(bytes: &[u8]) -> (r: Option<Favicon>)
    ensures
        match r {
            Some(f) => image_decoded(bytes@) == Some((f.rgba@, f.width, f.height)) && f.rgba@.len()
                == 4 * f.width * f.height,
            None => image_decoded(bytes@) is None,
        },
{
    decode_image_rgba(bytes)
}

// ── Drawing ─────────────────────────────────────────────────

/// Byte offset of the source pixel that the slot pixel `(tx, ty)` samples when a
/// `fw` x `fh` slot shows the image scaled by nearest neighbour.
pub open spec fn favicon_sample(f_w: int, f_h: int, fw: int, fh: int, tx: int, ty: int) -> int {
    let sx = (tx * f_w) / fw;
    let sy = (ty * f_h) / fh;
    (sy * f_w + sx) * 4
}

/// Whether buffer index `j` shows a favicon pixel when the image is drawn into the
/// `fw` x `fh` slot at `(fx, fy)`: in the slot, and its source pixel exists.
pub open spec fn favicon_covers(
    j: int,
    bw: int,
    fav: Seq<u8>,
    f_w: int,
    f_h: int,
    fx: int,
    fy: int,
    fw: int,
    fh: int,
) -> bool {
    let tx = col(j, bw) - fx;
    let ty = row(j, bw) - fy;
    0 <= tx < fw && 0 <= ty < fh && favicon_sample(f_w, f_h, fw, fh, tx, ty) + 2 < fav.len()
}

/// Draws the favicon scaled (nearest neighbour) into the `fw` x `fh` slot at
/// `(fx, fy)`.
pub fn draw_favicon(
    buffer: &mut [u32],
    buf_w: usize,
    fx: usize,
    fy: usize,
    fw: usize,
    fh: usize,
    fav: &Favicon,
)
    requires
        fw <= u32::MAX,
        fh <= u32::MAX,
        fw * fav.width <= u32::MAX,
        fh * fav.height <= u32::MAX,
        4 * fav.width * fav.height <= u32::MAX,
    ensures
        final(buffer)@.len() == old(buffer)@.len(),
        forall|j: int|
            0 <= j < old(buffer)@.len() ==> #[trigger] final(buffer)@[j] == if buf_w > 0
                && favicon_covers(
                j,
                buf_w as int,
                fav.rgba@,
                fav.width as int,
                fav.height as int,
                fx as int,
                fy as int,
                fw as int,
                fh as int,
            ) {
                {
                    let s = favicon_sample(
                        fav.width as int,
                        fav.height as int,
                        fw as int,
                        fh as int,
                        col(j, buf_w as int) - fx,
                        row(j, buf_w as int) - fy,
                    );
                    xrgb_of(fav.rgba@[s], fav.rgba@[s + 1], fav.rgba@[s + 2])
                }
            } else {
                old(buffer)@[j]
            },
{
    let ghost orig = buffer@;
    let ghost bw = buf_w as int;
    let ghost rgba = fav.rgba@;
    let len = buffer.len();
    let f_w = fav.width;
    let f_h = fav.height;
    let mut ty: usize = 0;
    while ty < fh
        invariant
            ty <= fh,
            fw <= u32::MAX,
            fh <= u32::MAX,
            fw * f_w <= u32::MAX,
            fh * f_h <= u32::MAX,
            4 * f_w * f_h <= u32::MAX,
            f_w == fav.width,
            f_h == fav.height,
            rgba == fav.rgba@,
            len == buffer@.len(),
            buffer@.len() == orig.len(),
            bw == buf_w as int,
            forall|j: int|
                0 <= j < len ==> #[trigger] buffer@[j] == if bw > 0 && favicon_covers(
                    j,
                    bw,
                    rgba,
                    f_w as int,
                    f_h as int,
                    fx as int,
                    fy as int,
                    fw as int,
                    fh as int,
                ) && row(j, bw) - fy < ty {
                    {
                        let s = favicon_sample(f_w as int, f_h as int, fw as int, fh as int, col(j, bw) - fx, row(j, bw) - fy);
                        xrgb_of(rgba[s], rgba[s + 1], rgba[s + 2])
                    }
                } else {
                    orig[j]
                },
        decreases fh - ty,
    {
        let mut tx: usize = 0;
        while tx < fw
            invariant
                ty < fh,
                tx <= fw,
                fw <= u32::MAX,
                fh <= u32::MAX,
                fw * f_w <= u32::MAX,
                fh * f_h <= u32::MAX,
                4 * f_w * f_h <= u32::MAX,
                f_w == fav.width,
                f_h == fav.height,
                rgba == fav.rgba@,
                len == buffer@.len(),
                buffer@.len() == orig.len(),
                bw == buf_w as int,
                forall|j: int|
                    0 <= j < len ==> #[trigger] buffer@[j] == if bw > 0 && favicon_covers(
                        j,
                        bw,
                        rgba,
                        f_w as int,
                        f_h as int,
                        fx as int,
                        fy as int,
                        fw as int,
                        fh as int,
                    ) && (row(j, bw) - fy < ty || (row(j, bw) - fy == ty && col(j, bw) - fx < tx)) {
                        {
                            let s = favicon_sample(f_w as int, f_h as int, fw as int, fh as int, col(j, bw) - fx, row(j, bw) - fy);
                            xrgb_of(rgba[s], rgba[s + 1], rgba[s + 2])
                        }
                    } else {
                        orig[j]
                    },
            decreases fw - tx,
        {
            let txu = tx as u32;
            let tyu = ty as u32;
            assert(txu * f_w <= fw * f_w) by (nonlinear_arith)
                requires
                    txu < fw,
            ;
            assert(tyu * f_h <= fh * f_h) by (nonlinear_arith)
                requires
                    tyu < fh,
            ;
            let sx = (txu * f_w) / (fw as u32);
            let sy = (tyu * f_h) / (fh as u32);
            assert(sx <= f_w && sy <= f_h) by (nonlinear_arith)
                requires
                    sx == (txu * f_w) / (fw as int),
                    sy == (tyu * f_h) / (fh as int),
                    txu < fw,
                    tyu < fh,
            ;
            assert((sy * f_w + sx) * 4 <= 4 * f_w * f_h + 4 * f_w) by (nonlinear_arith)
                requires
                    sx <= f_w,
                    sy <= f_h,
            ;
            let ghost before = buffer@;
            let base: u64 = ((sy as u64) * (f_w as u64) + (sx as u64)) * 4;
            let px = fx as u128 + tx as u128;
            let py = fy as u128 + ty as u128;
            let ok = base + 2 < fav.rgba.len() as u64 && px < buf_w as u128 && py <= usize::MAX as u128;
            let mut wrote = false;
            if ok {
                let b = base as usize;
                let color = ((fav.rgba[b] as u32) << 16u32) | ((fav.rgba[b + 1] as u32) << 8u32)
                    | (fav.rgba[b + 2] as u32);
                plot(buffer, buf_w, px as usize, py as usize, color);
            }
            assert forall|j: int| 0 <= j < len implies #[trigger] buffer@[j] == if bw > 0
                && favicon_covers(j, bw, rgba, f_w as int, f_h as int, fx as int, fy as int, fw as int, fh as int)
                && (row(j, bw) - fy < ty || (row(j, bw) - fy == ty && col(j, bw) - fx < tx + 1)) {
                {
                    let s = favicon_sample(f_w as int, f_h as int, fw as int, fh as int, col(j, bw) - fx, row(j, bw) - fy);
                    xrgb_of(rgba[s], rgba[s + 1], rgba[s + 2])
                }
            } else {
                orig[j]
            } by {
                if bw > 0 {
                    lemma_pixel_bounds(j, bw);
                    if px < bw {
                        lemma_same_pixel(j, bw, px as int, py as int);
                    }
                    let here = row(j, bw) == py && col(j, bw) == px;
                    if here {
                        assert(row(j, bw) - fy == ty && col(j, bw) - fx == tx);
                        assert(favicon_sample(f_w as int, f_h as int, fw as int, fh as int, tx as int, ty as int) == base);
                        if ok && in_buffer(len as int, bw, px as int, py as int) {
                            assert(before[j] == orig[j]);
                        }
                    } else {
                        if ok && in_buffer(len as int, bw, px as int, py as int) {
                            assert(j != py * bw + px);
                        }
                        assert(buffer@[j] == before[j]);
                    }
                }
            }
            tx = tx + 1;
        }
        ty = ty + 1;
    }
}

} // verus!
