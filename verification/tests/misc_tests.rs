use juno::computer_use::{
    bmp_header_bytes, bmp_row_bytes, encode_bmp, key_batches, screenshot_file_name, KeyStroke, MouseButton,
    VK_RETURN, VK_SHIFT, VK_TAB,
};
use juno::json::{object_insert, JsonNumber, JsonValue};
use juno::mcp::{initialize_request, initialized_notification};
use juno::models::WorkspaceFile;
use juno::ollama::{
    generate_body, generate_reply_text, models_from_tags, ChatStreamChunk, OllamaClient, OllamaMessage,
    OllamaModelDetails, OllamaTagModel, OllamaTagResponse,
};
use juno::text::{push_decimal, push_signed_decimal, trim_end};

#[test]
fn mouse_button_names() {
    assert_eq!(MouseButton::from_str("right"), MouseButton::Right);
    assert_eq!(MouseButton::from_str("RIGHT"), MouseButton::Right);
    assert_eq!(MouseButton::from_str("Middle"), MouseButton::Middle);
    assert_eq!(MouseButton::from_str("left"), MouseButton::Left);
    assert_eq!(MouseButton::from_str("other"), MouseButton::Left);
    assert_eq!(MouseButton::from_str(""), MouseButton::Left);
}

#[test]
fn bitmap_layout() {
    assert_eq!(bmp_row_bytes(1), 4);
    assert_eq!(bmp_row_bytes(4), 12);
    assert_eq!(bmp_row_bytes(5), 16);
    let h = bmp_header_bytes(2, 3);
    assert_eq!(h.len(), 54);
    assert_eq!(&h[0..2], b"BM");
    let size = 8 * 3 + 54;
    assert_eq!(u32::from_le_bytes([h[2], h[3], h[4], h[5]]), size);
    assert_eq!(u32::from_le_bytes([h[10], h[11], h[12], h[13]]), 54);
    assert_eq!(u32::from_le_bytes([h[14], h[15], h[16], h[17]]), 40);
    assert_eq!(u32::from_le_bytes([h[18], h[19], h[20], h[21]]), 2);
    assert_eq!(u32::from_le_bytes([h[22], h[23], h[24], h[25]]), 3);
    assert_eq!(&h[26..30], &[1, 0, 24, 0]);
    assert!(h[30..].iter().all(|b| *b == 0));
    let pixels: Vec<u8> = (0..24u8).collect();
    let file = encode_bmp(2, 3, &pixels);
    assert_eq!(file.len(), 78);
    // The device's buffer starts with the bottom row, as the header's positive
    // height says, so it is written as it stands.
    assert_eq!(&file[..54], &h[..]);
    assert_eq!(&file[54..62], &pixels[0..8]);
    assert_eq!(&file[62..70], &pixels[8..16]);
    assert_eq!(&file[70..78], &pixels[16..24]);
    assert_eq!(screenshot_file_name(1700000000123), "juno_screenshot_1700000000123.bmp");
    assert_eq!(screenshot_file_name(0), "juno_screenshot_0.bmp");
}

#[test]
fn key_strokes() {
    let k = |vk: u16, release: bool| KeyStroke { vk, scan: 0, unicode: false, release };
    assert_eq!(key_batches('a'), vec![vec![k(0x41, false), k(0x41, true)]]);
    assert_eq!(
        key_batches('A'),
        vec![vec![k(VK_SHIFT, false), k(0x41, false), k(0x41, true), k(VK_SHIFT, true)]]
    );
    assert_eq!(key_batches('5'), vec![vec![k(0x35, false), k(0x35, true)]]);
    assert_eq!(key_batches(' '), vec![vec![k(0x20, false), k(0x20, true)]]);
    assert_eq!(key_batches('\n'), vec![vec![k(VK_RETURN, false), k(VK_RETURN, true)]]);
    assert_eq!(key_batches('\t'), vec![vec![k(VK_TAB, false), k(VK_TAB, true)]]);
    let u = |unit: u16, release: bool| KeyStroke { vk: 0, scan: unit, unicode: true, release };
    // Punctuation is sent as text, not as the key whose code it shares.
    assert_eq!(key_batches('.'), vec![vec![u(0x2E, false)], vec![u(0x2E, true)]]);
    assert_eq!(key_batches('!'), vec![vec![u(0x21, false)], vec![u(0x21, true)]]);
    assert_eq!(key_batches('é'), vec![vec![u(0xE9, false)], vec![u(0xE9, true)]]);
    // Beyond U+FFFF a character is its surrogate pair.
    let wide = key_batches('😀');
    assert_eq!(
        wide,
        vec![vec![u(0xD83D, false)], vec![u(0xD83D, true)], vec![u(0xDE00, false)], vec![u(0xDE00, true)]]
    );
}

#[test]
fn json_object_insert_replaces() {
    let mut m: Vec<(String, JsonValue)> = Vec::new();
    object_insert(&mut m, "a".to_string(), JsonValue::Bool(true));
    object_insert(&mut m, "b".to_string(), JsonValue::Null);
    object_insert(&mut m, "a".to_string(), JsonValue::Number(JsonNumber::NegInt(-3)));
    assert_eq!(m.len(), 2);
    let v = JsonValue::Object(m);
    assert_eq!(v.member_i64("a"), Some(-3));
    assert_eq!(v.member_str("a"), None);
    assert_eq!(JsonValue::Number(JsonNumber::PosInt(u64::MAX)).as_i64(), None);
    assert_eq!(JsonValue::Null.get("a").is_none(), true);
}

#[test]
fn ollama_client_addresses() {
    let mut c = OllamaClient::new("http://localhost:11434//");
    assert_eq!(c.base_url(), "http://localhost:11434");
    assert_eq!(c.tags_url(), "http://localhost:11434/api/tags");
    assert_eq!(c.chat_url(), "http://localhost:11434/api/chat");
    c.set_base_url("http://h:1/");
    assert_eq!(c.generate_url(), "http://h:1/api/generate");
    assert_eq!(trim_end("///", '/'), "");
}

#[test]
fn generate_request_and_reply() {
    let body = generate_body("llama3", "hi", Some("be brief"));
    assert_eq!(body.member_str("model"), Some("llama3".to_string()));
    assert_eq!(body.member_str("prompt"), Some("hi".to_string()));
    assert!(matches!(body.get("stream"), Some(JsonValue::Bool(false))));
    assert_eq!(body.member_str("system"), Some("be brief".to_string()));
    assert!(generate_body("m", "p", None).get("system").is_none());
    let reply = JsonValue::Object(vec![("response".to_string(), JsonValue::String("ok".to_string()))]);
    assert_eq!(generate_reply_text(&reply), "ok");
    assert_eq!(generate_reply_text(&JsonValue::Null), "");
}

#[test]
fn chat_chunk_text() {
    let chunk = ChatStreamChunk {
        message: Some(OllamaMessage { role: "assistant".into(), content: "yo".into(), tool_calls: None, images: None }),
        done: true,
        done_reason: "stop".into(),
    };
    assert_eq!(chunk.reply_text(), "yo");
    let empty = ChatStreamChunk { message: None, done: true, done_reason: String::new() };
    assert_eq!(empty.reply_text(), "");
}

#[test]
fn tag_models_become_models() {
    let details = OllamaModelDetails {
        format: "gguf".into(),
        family: "llama".into(),
        families: Some(vec!["llama".into()]),
        parameter_size: "8B".into(),
        quantization_level: "Q4_0".into(),
    };
    let resp = OllamaTagResponse {
        models: vec![OllamaTagModel {
            name: "llama3:latest".into(),
            model: "llama3".into(),
            modified_at: "t".into(),
            size: 42,
            digest: "d".into(),
            details,
        }],
    };
    let models = models_from_tags(&resp);
    assert_eq!(models.len(), 1);
    assert_eq!(models[0].name, "llama3:latest");
    assert_eq!(models[0].size, 42);
    assert_eq!(models[0].parameter_size, "8B");
    assert_eq!(models[0].families, Some(vec!["llama".to_string()]));
    let d = OllamaModelDetails::default();
    assert_eq!(d.format, "");
    assert!(d.families.is_none());
}

#[test]
fn mcp_messages() {
    let r = initialize_request();
    assert_eq!(r.jsonrpc, "2.0");
    assert_eq!(r.id, 1);
    assert_eq!(r.method, "initialize");
    let p = r.params.unwrap();
    assert_eq!(p.member_str("protocolVersion"), Some("2024-11-05".to_string()));
    let info = p.get("clientInfo").unwrap();
    assert_eq!(info.member_str("name"), Some("juno".to_string()));
    assert_eq!(info.member_str("version"), Some("0.1.0".to_string()));
    let n = initialized_notification();
    assert_eq!(n.member_str("method"), Some("initialized".to_string()));
    assert!(matches!(n.get("params"), Some(JsonValue::Object(m)) if m.is_empty()));
}

#[test]
fn numbers_and_entries() {
    let mut s = String::new();
    push_decimal(&mut s, 1234567890);
    assert_eq!(s, "1234567890");
    let mut t = String::new();
    push_signed_decimal(&mut t, i64::MIN);
    assert_eq!(t, "-9223372036854775808");
    let f = WorkspaceFile::from_entry("/a/b.rs".into(), Some("b.rs".into()), 10, false, None);
    assert_eq!(f.name, "b.rs");
    assert_eq!(f.extension, "");
}
