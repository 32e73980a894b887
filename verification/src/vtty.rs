//! The kei vtty console: its HTML document, and turning the pre-rendered PNG
//! frame into the BGRX pixels the framebuffer takes.

use vstd::prelude::*;
use vstd::string::StringExecFns;

verus! {

// ── Console document ────────────────────────────────────────

/// One boot-log line of the console.
pub open spec fn log_line_spec(ts: Seq<char>, sub: Seq<char>, msg: Seq<char>) -> Seq<char> {
    "<div class=\"line\"><span class=\"ts\">["@ + ts + "]</span> <span class=\"sub\">"@ + sub
        + ":</span> "@ + msg + "</div>\n"@
}

fn push_log_line(body: &mut String, ts: &str, sub: &str, msg: &str)
    ensures
        final(body)@ == old(body)@ + log_line_spec(ts@, sub@, msg@),
{
    body.append("<div class=\"line\"><span class=\"ts\">[");
    body.append(ts);
    body.append("]</span> <span class=\"sub\">");
    body.append(sub);
    body.append(":</span> ");
    body.append(msg);
    body.append("</div>\n");
}

/// The boot-log lines, in order.
pub open spec fn console_body_spec() -> Seq<char> {
    log_line_spec("    0.000000"@, "kei"@, "booting kernel 0.1.0 (asterinas fork) on qemu-virt aarch64"@)
        + log_line_spec("    0.000000"@, "kei"@, "machine: linux,dummy-virt — cortex-a72, 1 cpu, 2048 MiB"@)
        + log_line_spec("    0.000214"@, "ostd"@, "memory: buddy allocator online, 2048 MiB managed"@)
        + log_line_spec("    0.000391"@, "ostd"@, "trap: exception vectors installed (VBAR_EL1)"@)
        + log_line_spec("    0.000522"@, "gicv3"@, "distributor + redistributor online, 256 INTIDs"@)
        + log_line_spec("    0.000846"@, "timer"@, "arch timer PPI 30 armed @ 62.5 MHz"@)
        + log_line_spec("    0.001208"@, "virtio-mmio"@, "probing 8 device slots"@)
        + log_line_spec("    0.001355"@, "virtio-net"@, "eth0 up — 10.0.2.15/24 gw 10.0.2.2"@)
        + log_line_spec("    0.001402"@, "virtio-gpu"@, "scanout 0 → 1280x800, registered as /dev/fb0"@)
        + log_line_spec("    0.002108"@, "smp"@, "1 processor online (BSP)"@)
        + log_line_spec("    0.002544"@, "initramfs"@, "unpacked cpio archive, /init found"@)
        + log_line_spec("    0.003012"@, "kei"@, "syscall table ready — 318 syscalls wired"@)
        + log_line_spec("    0.003290"@, "kei"@, "gateway mode — ws json-rpc listening on 0.0.0.0:8423"@)
        + log_line_spec("    0.003311"@, "vtty"@, "aris-render console active on /dev/fb0 (1280x800)"@)
        + log_line_spec("    0.003402"@, "kei"@, "boot complete in 3.40 ms"@)
}

/// Document head and style sheet, up to the opening of the body.
pub open spec fn console_head_spec() -> Seq<char> {
    "<!DOCTYPE html><html><head><style>\n* { margin:0; padding:0; }\nhtml, body { background:#000000; }\nbody { padding:20px 24px; color:#d6d6d6;\n        font-family:\"DejaVu Sans Mono\", monospace; font-size:16px; }\n.line { line-height:1.5; }\n.ts { color:#6e6e6e; }\n.sub { color:#a8a8a8; }\n.dim { color:#8a8a8a; }\n.gap { height:20px; }\n.prompt { color:#e8e8e8; }\n.cursor { color:#e8e8e8; }\n</style></head><body>\n"@
}

/// The status footer and prompt that close the document.
pub open spec fn console_tail_spec() -> Seq<char> {
    "\n<div class=\"gap\"></div>\n<div class=\"line dim\">kei tty0 — gateway mode (headless HMI via ws json-rpc :8423)</div>\n<div class=\"gap\"></div>\n<div class=\"line prompt\">root@kei:~# <span class=\"cursor\">&#9608;</span></div>\n</body></html>"@
}

/// The whole console document.
pub open spec fn vtty_console_spec() -> Seq<char> {
    console_head_spec() + console_body_spec() + console_tail_spec()
}

/// The kei vtty console document: a kernel boot-log style status screen.
pub fn vtty_console_html() -> (html: String)
    ensures
        html@ == vtty_console_spec(),
{
    let mut body = String::new();
    push_log_line(&mut body, "    0.000000", "kei", "booting kernel 0.1.0 (asterinas fork) on qemu-virt aarch64");
    push_log_line(&mut body, "    0.000000", "kei", "machine: linux,dummy-virt — cortex-a72, 1 cpu, 2048 MiB");
    push_log_line(&mut body, "    0.000214", "ostd", "memory: buddy allocator online, 2048 MiB managed");
    push_log_line(&mut body, "    0.000391", "ostd", "trap: exception vectors installed (VBAR_EL1)");
    push_log_line(&mut body, "    0.000522", "gicv3", "distributor + redistributor online, 256 INTIDs");
    push_log_line(&mut body, "    0.000846", "timer", "arch timer PPI 30 armed @ 62.5 MHz");
    push_log_line(&mut body, "    0.001208", "virtio-mmio", "probing 8 device slots");
    push_log_line(&mut body, "    0.001355", "virtio-net", "eth0 up — 10.0.2.15/24 gw 10.0.2.2");
    push_log_line(&mut body, "    0.001402", "virtio-gpu", "scanout 0 → 1280x800, registered as /dev/fb0");
    push_log_line(&mut body, "    0.002108", "smp", "1 processor online (BSP)");
    push_log_line(&mut body, "    0.002544", "initramfs", "unpacked cpio archive, /init found");
    push_log_line(&mut body, "    0.003012", "kei", "syscall table ready — 318 syscalls wired");
    push_log_line(&mut body, "    0.003290", "kei", "gateway mode — ws json-rpc listening on 0.0.0.0:8423");
    push_log_line(&mut body, "    0.003311", "vtty", "aris-render console active on /dev/fb0 (1280x800)");
    push_log_line(&mut body, "    0.003402", "kei", "boot complete in 3.40 ms");
    let mut html = String::from_str(
        "<!DOCTYPE html><html><head><style>\n* { margin:0; padding:0; }\nhtml, body { background:#000000; }\nbody { padding:20px 24px; color:#d6d6d6;\n        font-family:\"DejaVu Sans Mono\", monospace; font-size:16px; }\n.line { line-height:1.5; }\n.ts { color:#6e6e6e; }\n.sub { color:#a8a8a8; }\n.dim { color:#8a8a8a; }\n.gap { height:20px; }\n.prompt { color:#e8e8e8; }\n.cursor { color:#e8e8e8; }\n</style></head><body>\n",
    );
    html.append(body.as_str());
    html.append(
        "\n<div class=\"gap\"></div>\n<div class=\"line dim\">kei tty0 — gateway mode (headless HMI via ws json-rpc :8423)</div>\n<div class=\"gap\"></div>\n<div class=\"line prompt\">root@kei:~# <span class=\"cursor\">&#9608;</span></div>\n</body></html>",
    );
    html
}

// ── Framebuffer pixels ──────────────────────────────────────

/// Byte `j` of the BGRX image made from RGBA pixels: blue, green, red, then `0xFF`.
pub open spec fn bgrx_byte(rgba: Seq<u8>, j: int) -> u8 {
    let p = j / 4;
    let c = j % 4;
    if c == 0 {
        rgba[4 * p + 2]
    } else if c == 1 {
        rgba[4 * p + 1]
    } else if c == 2 {
        rgba[4 * p]
    } else {
        0xFFu8
    }
}

/// The first `npix` RGBA pixels of `rgba` as BGRX bytes.
pub open spec fn bgrx_spec(rgba: Seq<u8>, npix: nat) -> Seq<u8> {
    Seq::new(4 * npix, |j: int| bgrx_byte(rgba, j))
}

/// Converts the first `npix` RGBA pixels to the BGRX order of the kei framebuffer.
pub fn rgba_to_bgrx(rgba: &[u8], npix: usize) -> (out: Vec<u8>)
    requires
        4 * npix <= rgba@.len(),
    ensures
        out@ == bgrx_spec(rgba@, npix as nat),
{
    let mut out: Vec<u8> = Vec::new();
    let mut i: usize = 0;
    while i < npix
        invariant
            i <= npix,
            4 * npix <= rgba@.len(),
            4 * npix <= rgba.len(),
            out@.len() == 4 * i,
            forall|j: int| 0 <= j < 4 * i ==> #[trigger] out@[j] == bgrx_byte(rgba@, j),
        decreases npix - i,
    {
        let s = i * 4;
        out.push(rgba[s + 2]);
        out.push(rgba[s + 1]);
        out.push(rgba[s]);
        out.push(0xFFu8);
        assert forall|j: int| 4 * i <= j < 4 * i + 4 implies #[trigger] out@[j] == bgrx_byte(
            rgba@,
            j,
        ) by {
            assert(j / 4 == i as int);
        }
        i = i + 1;
    }
    assert(out@ =~= bgrx_spec(rgba@, npix as nat));
    out
}

/// What the PNG decoder (`png` crate, 8-bit samples, palette expanded with alpha)
/// produces for an encoded image: width, height and the frame's bytes.
pub uninterp spec fn png_decoded(data: Seq<u8>) -> Option<(usize, usize, Seq<u8>)>;

/// Decodes a PNG image with the `png` crate: `png::Decoder` on the bytes, 16-bit
/// samples stripped to 8 and palettes expanded with alpha, then the first frame.
/// The result is named; `None` stands for any decoding error.
#[verifier::external_body]
fn decode_png_rgba(data: &[u8]) -> (r: Option<(usize, usize, Vec<u8>)>)
    ensures
        match r {
            Some((w, h, buf)) => png_decoded(data@) == Some((w, h, buf@)),
            None => png_decoded(data@) is None,
        },
{
    let mut decoder = png::Decoder::new(std::io::Cursor::new(data));
    decoder.set_transformations(png::Transformations::ALPHA | png::Transformations::STRIP_16);
    let mut reader = decoder.read_info().ok()?;
    let mut buf = vec![0u8; reader.output_buffer_size()?];
    let info = reader.next_frame(&mut buf).ok()?;
    buf.truncate(info.buffer_size());
    Some((info.width as usize, info.height as usize, buf))
}

/// Why a console frame could not be produced.
#[derive(Debug)]
pub enum FrameError {
    /// The PNG did not decode.
    Decode,
    /// The decoded frame holds fewer than four bytes per pixel.
    ShortPixels,
}

/// The console frame from what the PNG decoder gave: width, height and BGRX bytes.
pub fn frame_from_decoded(decoded: Option<(usize, usize, Vec<u8>)>) -> (r: Result<
    (usize, usize, Vec<u8>),
    FrameError,
>)
    ensures
        match r {
            Ok((w, h, bgrx)) => decoded matches Some((w2, h2, px)) && w == w2 && h == h2 && 4 * (w
                * h) <= px@.len() && bgrx@ == bgrx_spec(px@, (w * h) as nat),
            Err(FrameError::Decode) => decoded is None,
            Err(FrameError::ShortPixels) => decoded matches Some((w2, h2, px)) && 4 * (w2 * h2)
                > px@.len(),
        },
{
    match decoded {
        None => Err(FrameError::Decode),
        Some((w, h, px)) => {
            let npix = match w.checked_mul(h) {
                Some(n) => n,
                None => {
                    assert(px@.len() == px.len());
                    assert(w * h > usize::MAX);
                    return Err(FrameError::ShortPixels);
                },
            };
            if npix > px.len() / 4 {
                return Err(FrameError::ShortPixels);
            }
            let bgrx = rgba_to_bgrx(px.as_slice(), npix);
            Ok((w, h, bgrx))
        },
    }
}

/// The console frame, ready for the framebuffer: width, height and BGRX bytes.
pub fn console_frame(png: &[u8]) -> (r: Result<(usize, usize, Vec<u8>), FrameError>)
    ensures
        match r {
            Ok((w, h, bgrx)) => png_decoded(png@) matches Some((w2, h2, px)) && w == w2 && h == h2
                && 4 * (w * h) <= px.len() && bgrx@ == bgrx_spec(px, (w * h) as nat),
            Err(FrameError::Decode) => png_decoded(png@) is None,
            Err(FrameError::ShortPixels) => png_decoded(png@) matches Some((w2, h2, px)) && 4 * (
            w2 * h2) > px.len(),
        },
{
    frame_from_decoded(decode_png_rgba(png))
}

} // verus!
