//! Decoding of MCP content blocks and tool replies.

use base64::engine::general_purpose::STANDARD;
use base64::Engine;
use line_hub_core::mcp::{
    block_from_decoded, decode_base64_limited, decode_blocks, interpret_call_result, parse_tool_list, CallToolReply, McpContent,
    McpToolEntry, ToolResult, ToolResultBlock,
};
use line_hub_core::HubError;

fn block(kind: &str, text: Option<&str>, mime: Option<&str>, data: Option<&str>) -> McpContent {
    McpContent {
        kind: Some(kind.to_string()),
        text: text.map(|s| s.to_string()),
        mime_type: mime.map(|s| s.to_string()),
        data: data.map(|s| s.to_string()),
    }
}

#[test]
fn decode_text_block() {
    let blocks = vec![block("text", Some("hello"), None, None)];
    let out = decode_blocks(blocks);
    match &out[0] {
        ToolResultBlock::Text { text } => assert_eq!(text, "hello"),
        _ => panic!("expected text"),
    }
}

#[test]
fn decode_image_block_round_trip() {
    let original = vec![0x89, 0x50, 0x4e, 0x47, 0x0d, 0x0a, 0x1a, 0x0a];
    let encoded = STANDARD.encode(&original);
    let blocks = vec![block("image", None, Some("image/png"), Some(&encoded))];
    let out = decode_blocks(blocks);
    match &out[0] {
        ToolResultBlock::Image { mime_type, data } => {
            assert_eq!(mime_type, "image/png");
            assert_eq!(data, &original);
        }
        _ => panic!("expected image"),
    }
}

#[test]
fn decode_audio_block() {
    let wav = vec![0x52, 0x49, 0x46, 0x46, 0x00, 0x00];
    let encoded = STANDARD.encode(&wav);
    let blocks = vec![block("audio", None, Some("audio/wav"), Some(&encoded))];
    let out = decode_blocks(blocks);
    match &out[0] {
        ToolResultBlock::Audio { mime_type, data } => {
            assert_eq!(mime_type, "audio/wav");
            assert_eq!(data, &wav);
        }
        _ => panic!("expected audio"),
    }
}

#[test]
fn decode_unsupported_block() {
    let blocks = vec![block("resource", None, Some("video/mp4"), None)];
    let out = decode_blocks(blocks);
    match &out[0] {
        ToolResultBlock::Unsupported { mime_type, .. } => {
            assert_eq!(mime_type, "video/mp4");
        }
        _ => panic!("expected unsupported"),
    }
}

#[test]
fn decode_oversize_image_returns_unsupported() {
    let big = "A".repeat(20 * 1024 * 1024); // ~15 MiB raw
    let blocks = vec![block("image", None, Some("image/png"), Some(&big))];
    let out = decode_blocks(blocks);
    assert!(matches!(&out[0], ToolResultBlock::Unsupported { .. }));
}

#[test]
fn decode_defaults_and_notes() {
    let blocks = vec![
        McpContent { kind: None, text: None, mime_type: None, data: None },
        block("image", None, None, Some("!!not base64!!")),
        block("audio", None, None, Some("  UklGRg==  ")),
        block("text", None, None, None),
    ];
    let out = decode_blocks(blocks);
    assert_eq!(out.len(), 4);
    match &out[0] {
        ToolResultBlock::Unsupported { mime_type, note } => {
            assert_eq!(mime_type, "application/octet-stream");
            assert_eq!(note, "unsupported content block type=\"\", mime=application/octet-stream");
        }
        _ => panic!("expected unsupported"),
    }
    match &out[1] {
        ToolResultBlock::Unsupported { mime_type, note } => {
            assert_eq!(mime_type, "image/png");
            assert_eq!(note, "base64 decode failed or exceeded size cap");
        }
        _ => panic!("expected unsupported"),
    }
    match &out[2] {
        ToolResultBlock::Audio { mime_type, data } => {
            assert_eq!(mime_type, "audio/wav");
            assert_eq!(data, &vec![0x52, 0x49, 0x46, 0x46]);
        }
        _ => panic!("expected audio"),
    }
    match &out[3] {
        ToolResultBlock::Text { text } => assert_eq!(text, ""),
        _ => panic!("expected text"),
    }
}

#[test]
fn error_reply_takes_first_block_text() {
    let r = interpret_call_result(CallToolReply::Parsed {
        content: vec![block("text", Some("LINE not running"), None, None)],
        is_error: true,
    });
    match r {
        ToolResult::Failed { message } => assert_eq!(message, "LINE not running"),
        _ => panic!("expected failure"),
    }
    let r = interpret_call_result(CallToolReply::Parsed { content: vec![], is_error: true });
    match r {
        ToolResult::Failed { message } => assert_eq!(message, "MCP tool returned isError=true"),
        _ => panic!("expected failure"),
    }
    let r = interpret_call_result(CallToolReply::Unparsed { raw_json: "{\"x\":1}".to_string() });
    match r {
        ToolResult::Success { blocks } => match &blocks[..] {
            [ToolResultBlock::Text { text }] => assert_eq!(text, "{\"x\":1}"),
            _ => panic!("expected one text block"),
        },
        _ => panic!("expected success"),
    }
}

fn entry(name: Option<&str>, description: Option<&str>, schema: Option<&str>, params: Option<&str>) -> McpToolEntry {
    McpToolEntry {
        name: name.map(|s| s.to_string()),
        description: description.map(|s| s.to_string()),
        input_schema: schema.map(|s| s.to_string()),
        parameters: params.map(|s| s.to_string()),
    }
}

#[test]
fn tool_list_errors_and_last_definition_wins() {
    match parse_tool_list(None) {
        Err(HubError::McpProtocol { code, message }) => {
            assert_eq!(code, -1);
            assert_eq!(message, "tools/list missing 'tools' array");
        }
        _ => panic!("expected protocol error"),
    }
    match parse_tool_list(Some(vec![entry(Some("a"), None, None, None), entry(None, None, None, None)])) {
        Err(HubError::McpProtocol { code, message }) => {
            assert_eq!(code, -2);
            assert_eq!(message, "tool missing name");
        }
        _ => panic!("expected protocol error"),
    }
    let reg = parse_tool_list(Some(vec![
        entry(Some("echo"), Some("first"), None, Some("{\"p\":1}")),
        entry(Some("read"), None, Some("{\"s\":2}"), Some("{\"p\":3}")),
        entry(Some("echo"), Some("second"), None, None),
    ]))
    .ok()
    .expect("registry");
    let mut defs = reg.definitions();
    defs.sort_by(|a, b| a.name.cmp(&b.name));
    assert_eq!(defs.len(), 2);
    assert_eq!(defs[0].name, "echo");
    assert_eq!(defs[0].description, "second");
    assert_eq!(defs[0].parameters, "{\"type\":\"object\"}");
    assert_eq!(defs[1].name, "read");
    assert_eq!(defs[1].description, "");
    assert_eq!(defs[1].parameters, "{\"s\":2}");
    let mut names = reg.names();
    names.sort();
    assert_eq!(names, vec!["echo".to_string(), "read".to_string()]);
}

#[test]
fn block_from_decoded_uses_the_given_payload() {
    let img = block("image", None, None, Some("not base64 at all"));
    match block_from_decoded(&img, Some(vec![7, 8])) {
        ToolResultBlock::Image { mime_type, data } => {
            assert_eq!(mime_type, "image/png");
            assert_eq!(data, vec![7, 8]);
        }
        other => panic!("expected image, got {other:?}"),
    }
    let audio = block("audio", None, Some("audio/x-pcm"), None);
    match block_from_decoded(&audio, None) {
        ToolResultBlock::Unsupported { mime_type, note } => {
            assert_eq!(mime_type, "audio/x-pcm");
            assert_eq!(note, "base64 decode failed or exceeded size cap");
        }
        other => panic!("expected unsupported, got {other:?}"),
    }
    let text = block("text", Some("hi"), None, None);
    match block_from_decoded(&text, Some(vec![1])) {
        ToolResultBlock::Text { text } => assert_eq!(text, "hi"),
        other => panic!("expected text, got {other:?}"),
    }
}

#[test]
fn payload_is_trimmed_of_unicode_white_space() {
    assert_eq!(decode_base64_limited("\u{3000} aGk=\n\t", 16), Some(b"hi".to_vec()));
    assert_eq!(decode_base64_limited("aGk=", 1), None);
    assert_eq!(decode_base64_limited("a*Gk=", 16), None);
}
