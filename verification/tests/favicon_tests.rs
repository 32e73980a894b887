use aris_render::favicon::{
    decode_favicon, draw_favicon, favicon_fetch_url, favicon_hue, favicon_url_from_join, fnv1a32,
    link_display_from_join, link_display_url, url_host, Favicon,
};

fn png_rgba(w: u32, h: u32, px: &[u8]) -> Vec<u8> {
    let mut out = Vec::new();
    {
        let mut enc = png::Encoder::new(&mut out, w, h);
        enc.set_color(png::ColorType::Rgba);
        enc.set_depth(png::BitDepth::Eight);
        let mut wr = enc.write_header().unwrap();
        wr.write_image_data(px).unwrap();
        wr.finish().unwrap();
    }
    out
}

#[test]
fn hosts_of_urls() {
    assert_eq!(url_host("https://example.com/path/x"), "example.com");
    assert_eq!(url_host("http://a.b:8080"), "a.b:8080");
    assert_eq!(url_host("example.com/a"), "example.com");
    assert_eq!(url_host("a://b://c/d"), "b");
    assert_eq!(url_host("https://"), "");
    assert_eq!(url_host(""), "");
}

#[test]
fn fnv1a_known_values() {
    assert_eq!(fnv1a32(b""), 0x811c9dc5);
    assert_eq!(fnv1a32(b"a"), 0xe40c292c);
    assert_eq!(fnv1a32(b"foobar"), 0xbf9cf968);
}

#[test]
fn favicon_hue_hashes_the_host() {
    assert_eq!(favicon_hue("https://example.com/some/page"), Some(0x431ceb26 % 360));
    assert_eq!(favicon_hue("https://example.com/"), Some(278));
    assert_eq!(favicon_hue("http://example.com"), favicon_hue("https://example.com/other"));
    assert_eq!(favicon_hue(""), None);
    assert_eq!(favicon_hue(" \t "), None);
}

#[test]
fn local_input_gets_no_hue() {
    assert_eq!(favicon_hue("file:///tmp/a.html"), None);
    assert_eq!(favicon_hue("/tmp/a.html"), None);
    assert_eq!(favicon_hue("https://"), None);
    assert_eq!(favicon_hue("https://a.com/x"), favicon_hue("https://a.com/y"));
    assert!(favicon_hue("https://a.com/x").is_some());
}

#[test]
fn favicon_url_resolution() {
    assert_eq!(
        favicon_fetch_url("https://example.com/dir/page.html", "/favicon.ico").as_deref(),
        Some("https://example.com/favicon.ico")
    );
    assert_eq!(
        favicon_fetch_url("https://example.com/dir/page.html", "icon.png").as_deref(),
        Some("https://example.com/dir/icon.png")
    );
    assert_eq!(
        favicon_fetch_url("http://example.com/", "https://cdn.example.net/i.ico").as_deref(),
        Some("https://cdn.example.net/i.ico")
    );
    assert_eq!(favicon_fetch_url("https://example.com/", "data:image/png;base64,AAAA"), None);
    assert_eq!(favicon_fetch_url("file:///tmp/a.html", "icon.png"), None);
    assert_eq!(favicon_fetch_url("not a url", "icon.png"), None);
}

#[test]
fn favicon_url_from_joined_parts() {
    let j = |s: &str, sc: &str| Some((s.to_string(), sc.to_string()));
    assert_eq!(favicon_url_from_join(j("https://x/i", "https")).as_deref(), Some("https://x/i"));
    assert_eq!(favicon_url_from_join(j("http://x/i", "http")).as_deref(), Some("http://x/i"));
    assert_eq!(favicon_url_from_join(j("ftp://x/i", "ftp")), None);
    assert_eq!(favicon_url_from_join(None), None);
}

#[test]
fn hovered_link_display() {
    assert_eq!(link_display_url(Some("https://example.com/a/b"), "../c"), "https://example.com/c");
    assert_eq!(link_display_url(Some("https://example.com/a/b"), "#top"), "https://example.com/a/b#top");
    assert_eq!(link_display_url(None, "../c"), "../c");
    assert_eq!(link_display_url(Some("garbage"), "x"), "x");
    assert_eq!(link_display_from_join(None, "h"), "h");
    assert_eq!(
        link_display_from_join(Some(("https://j/".to_string(), "https".to_string())), "h"),
        "https://j/"
    );
}

#[test]
fn favicon_decodes_png_bytes() {
    let png = png_rgba(2, 1, &[255, 0, 0, 255, 0, 0, 255, 128]);
    let f = decode_favicon(&png).unwrap();
    assert_eq!((f.width, f.height), (2, 1));
    assert_eq!(f.rgba, vec![255, 0, 0, 255, 0, 0, 255, 128]);
}

#[test]
fn favicon_rejects_junk() {
    assert!(decode_favicon(b"junk bytes").is_none());
    assert!(decode_favicon(b"").is_none());
}

#[test]
fn favicon_drawn_at_its_size() {
    let fav = Favicon {
        rgba: vec![255, 0, 0, 255, 0, 255, 0, 255, 0, 0, 255, 255, 1, 2, 3, 4],
        width: 2,
        height: 2,
    };
    let mut b = vec![0u32; 16];
    draw_favicon(&mut b, 4, 1, 1, 2, 2, &fav);
    assert_eq!(b[5], 0xff0000);
    assert_eq!(b[6], 0x00ff00);
    assert_eq!(b[9], 0x0000ff);
    assert_eq!(b[10], 0x010203);
    assert_eq!(b.iter().filter(|&&p| p != 0).count(), 4);
}

#[test]
fn favicon_scaled_up_and_clipped() {
    let fav = Favicon { rgba: vec![9, 8, 7, 255], width: 1, height: 1 };
    let mut b = vec![0u32; 9];
    draw_favicon(&mut b, 3, 1, 1, 4, 4, &fav);
    assert_eq!(b, vec![0, 0, 0, 0, 0x090807, 0x090807, 0, 0x090807, 0x090807]);
}

#[test]
fn favicon_with_missing_pixels_draws_what_exists() {
    let fav = Favicon { rgba: vec![9, 8, 7, 255], width: 2, height: 1 };
    let mut b = vec![0u32; 4];
    draw_favicon(&mut b, 4, 0, 0, 2, 1, &fav);
    assert_eq!(b, vec![0x090807, 0, 0, 0]);
}
