use aris_render::websocket::{
    extract_key, handshake_for_request, handshake_reply, key_line_sound, request_id, rpc_reply,
    rpc_reply_for_payload, try_extract_key, ws_ext_len, ws_frame_head, ws_frame_header,
    ws_payload_len, ws_unmask, Handshake,
};

const RFC_REQUEST: &str = "GET /chat HTTP/1.1\r\nHost: server.example.com\r\nUpgrade: websocket\r\nConnection: Upgrade\r\nSec-WebSocket-Key: dGhlIHNhbXBsZSBub25jZQ==\r\nOrigin: http://example.com\r\nSec-WebSocket-Version: 13\r\n\r\n";

fn reply(id: &str, body: &str) -> String {
    format!("{{\"jsonrpc\":\"2.0\",\"id\":{},{}", id, body)
}

const PONG: &str = r#""result":{"pong":true}}"#;
const STATUS: &str = r#""result":{"status":"ready","version":"0.1.0","arch":"aarch64","mode":"gateway","display":"aris-vtty"}}"#;
const HEARTBEAT: &str = r#""result":{"ok":true}}"#;
const NOT_FOUND: &str = r#""error":{"code":-32601,"message":"method not found"}}"#;

#[test]
fn key_of_rfc_request() {
    assert_eq!(extract_key(RFC_REQUEST), "dGhlIHNhbXBsZSBub25jZQ==");
}

#[test]
fn key_header_name_is_case_insensitive() {
    assert_eq!(extract_key("GET / HTTP/1.1\nsec-websocket-key:   abc  \n\n"), "abc");
    assert_eq!(extract_key("SEC-WEBSOCKET-KEY: xyz\r\n"), "xyz");
}

#[test]
fn key_is_cut_at_byte_18_of_the_untrimmed_line() {
    assert_eq!(extract_key("  Sec-WebSocket-Key: abc\r\n"), "y: abc");
}

#[test]
fn no_key_line_gives_empty_key() {
    assert_eq!(extract_key("GET / HTTP/1.1\r\nHost: a\r\n\r\n"), "");
    assert_eq!(extract_key(""), "");
}

#[test]
fn first_key_line_wins() {
    assert_eq!(extract_key("Sec-WebSocket-Key: one\nSec-WebSocket-Key: two\n"), "one");
}

#[test]
fn key_line_cut_inside_a_character_is_refused() {
    let req = "                 \u{a0}Sec-WebSocket-Key: x\r\n";
    assert!(!key_line_sound(req));
    assert!(try_extract_key(req).is_none());
    assert!(matches!(handshake_for_request(req), Handshake::Malformed));
    assert!(key_line_sound(RFC_REQUEST));
    assert_eq!(try_extract_key(RFC_REQUEST).as_deref(), Some("dGhlIHNhbXBsZSBub25jZQ=="));
}

#[test]
fn handshake_accepts_rfc_request() {
    match handshake_reply(RFC_REQUEST.as_bytes()) {
        Handshake::Accept(resp) => assert_eq!(
            resp,
            "HTTP/1.1 101 Switching Protocols\r\nUpgrade: websocket\r\nConnection: Upgrade\r\nSec-WebSocket-Accept: s3pPLMBiTxaQ9kYGzzhZRbK+xOo=\r\n\r\n"
        ),
        other => panic!("unexpected {:?}", other),
    }
}

#[test]
fn handshake_without_key_is_rejected() {
    assert!(matches!(handshake_reply(b"GET / HTTP/1.1\r\n\r\n"), Handshake::Reject));
    assert!(matches!(handshake_reply(b"Sec-WebSocket-Key:    \r\n"), Handshake::Reject));
}

#[test]
fn handshake_reads_invalid_utf8_lossily() {
    let mut req = vec![0xffu8, b'\n'];
    req.extend_from_slice(b"Sec-WebSocket-Key: dGhlIHNhbXBsZSBub25jZQ==\r\n\r\n");
    match handshake_reply(&req) {
        Handshake::Accept(resp) => assert!(resp.contains("s3pPLMBiTxaQ9kYGzzhZRbK+xOo=")),
        other => panic!("unexpected {:?}", other),
    }
}

#[test]
fn rpc_replies_by_method() {
    assert_eq!(rpc_reply(r#"{"method":"Kei.Ping"}"#, "7"), reply("7", PONG));
    assert_eq!(rpc_reply(r#"{"method":"Kei.Status"}"#, r#""a""#), reply(r#""a""#, STATUS));
    assert_eq!(rpc_reply(r#"{"method":"Base.Heartbeat"}"#, "null"), reply("null", HEARTBEAT));
    assert_eq!(rpc_reply(r#"{"method":"Other"}"#, "1"), reply("1", NOT_FOUND));
    assert_eq!(rpc_reply("", "null"), reply("null", NOT_FOUND));
}

#[test]
fn rpc_reply_prefers_ping_over_status() {
    assert_eq!(rpc_reply("Kei.Status Kei.Ping", "1"), reply("1", PONG));
    assert_eq!(rpc_reply("Base.Heartbeat Kei.Status", "1"), reply("1", STATUS));
}

#[test]
fn request_ids() {
    assert_eq!(request_id(r#"{"jsonrpc":"2.0","id":42,"method":"Kei.Ping"}"#), "42");
    assert_eq!(request_id(r#"{"id" : "abc-1", "method":"x"}"#), r#""abc-1""#);
    assert_eq!(request_id(r#"{"id":"a\"b","method":"x"}"#), r#""a\"b""#);
    assert_eq!(request_id(r#"{"method":"x","id":null}"#), "null");
    assert_eq!(request_id(r#"{"method":"x","id":7}"#), "7");
    assert_eq!(request_id(r#"{"method":"x"}"#), "null");
    assert_eq!(request_id(r#"{"id":"unterminated"#), "null");
    assert_eq!(request_id(r#"{"id":}"#), "null");
    assert_eq!(request_id(r#"{"idx":1,"id":2}"#), "2");
}

#[test]
fn rpc_reply_for_raw_payload_echoes_the_id() {
    assert_eq!(rpc_reply_for_payload(b"\xff\xfe{\"id\":3,\"method\":\"Base.Heartbeat\"}"), reply("3", HEARTBEAT));
    assert_eq!(rpc_reply_for_payload(br#"{"id":"p","method":"Kei.Ping"}"#), reply(r#""p""#, PONG));
    assert_eq!(rpc_reply_for_payload(b"Kei.\xffPing"), reply("null", NOT_FOUND));
}

#[test]
fn frame_header_short_payload() {
    assert_eq!(ws_frame_header(5), vec![0x81, 5]);
    assert_eq!(ws_frame_header(0), vec![0x81, 0]);
    assert_eq!(ws_frame_header(125), vec![0x81, 125]);
}

#[test]
fn frame_header_16_bit_length() {
    assert_eq!(ws_frame_header(126), vec![0x81, 126, 0, 126]);
    assert_eq!(ws_frame_header(200), vec![0x81, 126, 0, 200]);
    assert_eq!(ws_frame_header(65535), vec![0x81, 126, 0xff, 0xff]);
}

#[test]
fn frame_header_64_bit_length() {
    assert_eq!(ws_frame_header(70000), vec![0x81, 127, 0, 0, 0, 0, 0, 1, 0x11, 0x70]);
    assert_eq!(ws_frame_header(65536), vec![0x81, 127, 0, 0, 0, 0, 0, 1, 0, 0]);
}

#[test]
fn frame_head_fields() {
    let h = ws_frame_head(0x81, 0x85);
    assert_eq!(h.opcode, 1);
    assert!(h.masked);
    assert_eq!(h.len_code, 5);
    let c = ws_frame_head(0x88, 0x00);
    assert_eq!(c.opcode, 8);
    assert!(!c.masked);
    assert_eq!(c.len_code, 0);
    let l = ws_frame_head(0x82, 0xfe);
    assert_eq!(l.opcode, 2);
    assert!(l.masked);
    assert_eq!(l.len_code, 126);
}

#[test]
fn payload_lengths() {
    assert_eq!(ws_payload_len(5, &[]), 5);
    assert_eq!(ws_payload_len(126, &[0x01, 0x00]), 256);
    assert_eq!(ws_payload_len(127, &[0, 0, 0, 0, 0, 1, 0x11, 0x70]), 70000);
}

#[test]
fn unmask_rfc_example() {
    let mut buf = [0x7f, 0x9f, 0x4d, 0x51, 0x58, 0xaa];
    ws_unmask(&mut buf, 5, [0x37, 0xfa, 0x21, 0x3d]);
    assert_eq!(&buf[..5], b"Hello");
    assert_eq!(buf[5], 0xaa);
}

#[test]
fn unmask_twice_restores() {
    let orig = *b"abcdefgh";
    let mut buf = orig;
    ws_unmask(&mut buf, 8, [1, 2, 3, 4]);
    assert_ne!(buf, orig);
    ws_unmask(&mut buf, 8, [1, 2, 3, 4]);
    assert_eq!(buf, orig);
}

#[test]
fn frame_header_reads_back() {
    for len in [0usize, 1, 125, 126, 127, 200, 65535, 65536, 70000, 1 << 20] {
        let h = ws_frame_header(len);
        let head = ws_frame_head(h[0], h[1]);
        assert_eq!(head.opcode, 1);
        assert!(!head.masked);
        assert_eq!(ws_payload_len(head.len_code, &h[2..]), len);
    }
}

#[test]
fn extended_length_sizes() {
    assert_eq!(ws_ext_len(0), 0);
    assert_eq!(ws_ext_len(125), 0);
    assert_eq!(ws_ext_len(126), 2);
    assert_eq!(ws_ext_len(127), 8);
}
