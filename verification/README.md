# aris_render

The verified core of the aris browser shell and of the kei console programs.

`src/` is a Verus library. Its functions carry contracts that Verus proves, except
six small `#[verifier::external_body]` wrappers around std and outside-crate calls
(`String::push`, `str::to_lowercase`, `String::from_utf8_lossy`, the `png` decoder,
`url` joining and `image` decoding), whose contracts are trusted, not proved:

- `sha1`, `websocket`: SHA-1, Base64, the WebSocket opening handshake, frame
  headers, payload lengths, unmasking and the JSON-RPC replies of the kei
  console gateway.
- `vtty`, `fbtest`: the console document, the PNG console frame turned into
  BGRX framebuffer bytes, and the framebuffer test screen.
- `chrome`, `input`, `tabs`, `find`, `shell`: the address bar, key commands, the
  tab strip, the find bar, the context menu, and the tab commands that keep the
  address bar on the active tab.
- `raster`, `favicon`: pixel operations on the window buffer, the favicon
  slot (host hash, fetch URL, decoding, scaled drawing).
- `pages`: built-in pages and how a window starts.
- `text`: character-level string helpers shared by the above.

`app/` holds the programs around the library (`kei_tty`, `kei_fbtest`,
`kei_minimal` and the desktop window): sockets, the framebuffer device, the
winit event loop and the floating-point layout. `tests/` exercises the library
on concrete values.

Not part of this build: the original's page engine (blitz, parley, vello), its
`browser` module (URL normalisation, built-in pages, history, sessions, page
loading) and its JavaScript runtime. The window in `app/` therefore shows the
chrome and tabs but no page content or text, and opens only `file:` URLs.
