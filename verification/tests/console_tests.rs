use aris_render::fbtest::fbtest_frame;
use aris_render::vtty::{console_frame, frame_from_decoded, rgba_to_bgrx, vtty_console_html, FrameError};

fn png_rgba(w: u32, h: u32, px: &[u8]) -> Vec<u8> {
    let mut out = Vec::new();
    {
        let mut enc = png::Encoder::new(&mut out, w, h);
        enc.set_color(png::ColorType::Rgba);
        enc.set_depth(png::BitDepth::Eight);
        let mut wr = enc.write_header().unwrap();
        wr.write_image_data(px).unwrap();
        wr.finish().unwrap();
    }
    out
}

#[test]
fn console_document_shape() {
    let html = vtty_console_html();
    assert!(html.starts_with("<!DOCTYPE html><html><head><style>\n* { margin:0; padding:0; }"));
    assert!(html.ends_with("</body></html>"));
    assert_eq!(html.matches("<div class=\"line\">").count(), 15);
    assert!(html.contains(
        "<div class=\"line\"><span class=\"ts\">[    0.000000]</span> <span class=\"sub\">kei:</span> booting kernel 0.1.0 (asterinas fork) on qemu-virt aarch64</div>\n"
    ));
    assert!(html.contains("<span class=\"sub\">kei:</span> boot complete in 3.40 ms</div>\n\n<div class=\"gap\">"));
    assert!(html.contains("root@kei:~# <span class=\"cursor\">&#9608;</span>"));
}

#[test]
fn console_lines_are_in_boot_order() {
    let html = vtty_console_html();
    let a = html.find("booting kernel").unwrap();
    let b = html.find("virtio-gpu:").unwrap();
    let c = html.find("boot complete").unwrap();
    assert!(a < b && b < c);
}

#[test]
fn bgrx_swaps_red_and_blue_and_fills_x() {
    let rgba = [1u8, 2, 3, 4, 5, 6, 7, 8];
    assert_eq!(rgba_to_bgrx(&rgba, 2), vec![3, 2, 1, 255, 7, 6, 5, 255]);
    assert_eq!(rgba_to_bgrx(&rgba, 1), vec![3, 2, 1, 255]);
    assert_eq!(rgba_to_bgrx(&rgba, 0), Vec::<u8>::new());
}

#[test]
fn console_frame_from_png() {
    let png = png_rgba(2, 1, &[10, 20, 30, 255, 40, 50, 60, 128]);
    let (w, h, bgrx) = console_frame(&png).unwrap();
    assert_eq!((w, h), (2, 1));
    assert_eq!(bgrx, vec![30, 20, 10, 255, 60, 50, 40, 255]);
}

#[test]
fn console_frame_rejects_garbage() {
    assert!(matches!(console_frame(b"not a png"), Err(FrameError::Decode)));
    assert!(matches!(console_frame(b""), Err(FrameError::Decode)));
}

#[test]
fn frame_from_decoded_cases() {
    assert!(matches!(frame_from_decoded(None), Err(FrameError::Decode)));
    assert!(matches!(frame_from_decoded(Some((2, 2, vec![0u8; 12]))), Err(FrameError::ShortPixels)));
    assert!(matches!(
        frame_from_decoded(Some((usize::MAX, 2, vec![0u8; 4]))),
        Err(FrameError::ShortPixels)
    ));
    let (w, h, px) = frame_from_decoded(Some((1, 1, vec![1, 2, 3, 4, 9]))).unwrap();
    assert_eq!((w, h), (1, 1));
    assert_eq!(px, vec![3, 2, 1, 255]);
}

fn fb_px(buf: &[u8], x: usize, y: usize) -> [u8; 4] {
    let i = (y * 640 + x) * 4;
    [buf[i], buf[i + 1], buf[i + 2], buf[i + 3]]
}

#[test]
fn fbtest_screen_layout() {
    let buf = fbtest_frame();
    assert_eq!(buf.len(), 640 * 480 * 4);
    assert_eq!(fb_px(&buf, 600, 10), [0xEF, 0xAF, 0x61, 0xFF]);
    assert_eq!(fb_px(&buf, 20, 18), [0xFF, 0xFF, 0xFF, 0xFF]);
    assert_eq!(fb_px(&buf, 25, 18), [0xEF, 0xAF, 0x61, 0xFF]);
    assert_eq!(fb_px(&buf, 5, 70), [0x23, 0x1F, 0x1B, 0xFF]);
    assert_eq!(fb_px(&buf, 5, 120), [0x2B, 0x25, 0x21, 0xFF]);
    assert_eq!(fb_px(&buf, 30, 130), [0x79, 0xC3, 0x98, 0xFF]);
    assert_eq!(fb_px(&buf, 200, 130), [0x2B, 0x25, 0x21, 0xFF]);
    assert_eq!(fb_px(&buf, 100, 225), [0x75, 0x6C, 0xE0, 0xFF]);
    assert_eq!(fb_px(&buf, 279, 400), [0xBF, 0xB2, 0xAB, 0xFF]);
    assert_eq!(fb_px(&buf, 639, 479), [0x34, 0x2C, 0x28, 0xFF]);
    assert_eq!(fb_px(&buf, 5, 90), [0x34, 0x2C, 0x28, 0xFF]);
}
