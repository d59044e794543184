//! OpenAI-compatible chunks, errors, endpoints and provider settings.

use line_hub_core::config::ProviderEntry;
use line_hub_core::error::HubError;
use line_hub_core::provider::catalog::{
    chat_completions_url, compat_models_for, minimax_config, minimax_max_tokens,
    minimax_models, ollama_config, openai_config, openai_models, tool_choice,
};
use line_hub_core::provider::openai_compat::{
    content_type_error_event, http_error_event, transport_error_event, CompatStreamState,
    WireChoice, WireChunk, WireDelta, WireFunction, WireToolCall, WireUsage,
};
use line_hub_core::provider::{ProviderId, StreamEvent, Usage};
use line_hub_core::sse::{data_payloads, sse_payload};
use line_hub_core::vendor::VendorError;

fn delta(content: Option<&str>, reasoning: Option<&str>) -> WireDelta {
    WireDelta { content: content.map(|s| s.to_string()), reasoning: reasoning.map(|s| s.to_string()), tool_calls: None }
}

#[test]
fn done_marker_and_bad_chunks() {
    let mut st = CompatStreamState::new(true, true);
    let (evs, end) = st.on_message("[DONE]", None);
    assert!(end);
    assert!(matches!(&evs[..], [StreamEvent::Done { stop_reason, usage: None }] if stop_reason == "stop"));
    let (evs, end) = st.on_message("{oops", None);
    assert!(!end && evs.is_empty());
    let e = st.on_stream_closed();
    assert!(matches!(e, StreamEvent::Done { ref stop_reason, .. } if stop_reason == "stream_closed"));
}

#[test]
fn chunk_with_thinking_reasoning_and_finish() {
    let mut st = CompatStreamState::new(true, true);
    let chunk = WireChunk {
        choices: vec![WireChoice {
            delta: delta(Some("<think>\nReasoning here.\n</think>\n\nanswer"), Some("reasoning chunk")),
            finish_reason: Some("stop".to_string()),
        }],
        usage: Some(WireUsage { prompt_tokens: Some(42), completion_tokens: None }),
    };
    let (evs, end) = st.on_message("raw", Some(chunk));
    assert!(end);
    assert_eq!(evs.len(), 3);
    assert!(matches!(&evs[0], StreamEvent::ReasoningDelta { text } if text == "reasoning chunk"));
    assert!(matches!(&evs[1], StreamEvent::Delta { text } if text == "\n\nanswer"));
    match &evs[2] {
        StreamEvent::Done { stop_reason, usage } => {
            assert_eq!(stop_reason, "stop");
            assert_eq!(*usage, Some(Usage { input_tokens: 42, output_tokens: 0, reasoning_tokens: None }));
        }
        _ => panic!("expected done"),
    }
    assert_eq!(st.content_buf, "\n\nanswer");
}

#[test]
fn chunk_tool_call_fragments() {
    let mut st = CompatStreamState::new(false, false);
    let chunk = WireChunk {
        choices: vec![WireChoice {
            delta: WireDelta {
                content: None,
                reasoning: Some("ignored".to_string()),
                tool_calls: Some(vec![
                    WireToolCall {
                        id: Some("call_abc".to_string()),
                        index: Some(1),
                        function: Some(WireFunction { name: Some("get_weather".to_string()), arguments: Some("{\"city\":".to_string()) }),
                    },
                    WireToolCall { id: None, index: None, function: Some(WireFunction { name: None, arguments: Some("\"Taipei\"}".to_string()) }) },
                ]),
            },
            finish_reason: None,
        }],
        usage: None,
    };
    let (evs, end) = st.on_message("raw", Some(chunk));
    assert!(!end);
    assert_eq!(evs.len(), 3);
    assert!(matches!(&evs[0], StreamEvent::ToolCallStart { id, name, index: 1 } if id == "call_abc" && name == "get_weather"));
    assert!(matches!(&evs[1], StreamEvent::ToolCallDelta { index: 1, arguments_delta } if arguments_delta == "{\"city\":"));
    assert!(matches!(&evs[2], StreamEvent::ToolCallDelta { index: 0, arguments_delta } if arguments_delta == "\"Taipei\"}"));
}

#[test]
fn http_and_transport_errors() {
    let body = "x".repeat(600);
    match http_error_event("429 Too Many Requests", 429, &body) {
        StreamEvent::Error { message, retriable } => {
            assert_eq!(message, format!("HTTP 429 Too Many Requests — {}", "x".repeat(500)));
            assert!(retriable);
        }
        _ => panic!("expected error"),
    }
    assert!(matches!(http_error_event("404 Not Found", 404, "nope"), StreamEvent::Error { ref message, retriable: false } if message == "HTTP 404 Not Found — nope"));
    assert!(matches!(http_error_event("503 Service Unavailable", 503, ""), StreamEvent::Error { retriable: true, .. }));
    assert!(matches!(content_type_error_event("<html>"), StreamEvent::Error { ref message, retriable: false } if message == "invalid content-type — <html>"));
    assert!(matches!(transport_error_event("timeout"), StreamEvent::Error { ref message, retriable: true } if message == "SSE error: timeout"));
}

#[test]
fn sse_data_lines() {
    let buf = b"event: x\ndata: {\"a\":1}\n\ndata: [DONE]\ndata: late";
    assert_eq!(data_payloads(buf, 10), vec!["{\"a\":1}".to_string(), "[DONE]".to_string(), "late".to_string()]);
    assert_eq!(data_payloads(buf, 2), vec!["{\"a\":1}".to_string()]);
    assert!(data_payloads(b"", 5).is_empty());
    assert!(data_payloads(&[0xff, 0xfe], 5).is_empty());
}

fn entry(id: ProviderId, key: &str, base: Option<&str>) -> ProviderEntry {
    ProviderEntry { id, api_key: key.to_string(), base_url: base.map(|s| s.to_string()), default_model: None }
}

#[test]
fn provider_settings_and_endpoints() {
    match minimax_config(&entry(ProviderId::MiniMax, "", None)) {
        Err(HubError::Config(m)) => assert_eq!(m, "MiniMax API key not set. Configure via Settings."),
        _ => panic!("expected config error"),
    }
    let c = minimax_config(&entry(ProviderId::MiniMax, "k", None)).ok().expect("config");
    assert_eq!(c.base_url, "https://api.minimax.io");
    assert_eq!(c.default_model, "MiniMax-M3");
    assert!(c.strip_thinking_tags && c.has_reasoning_channel);
    assert!(matches!(openai_config(&entry(ProviderId::OpenAI, "", None)), Err(HubError::Config(ref m)) if m == "OpenAI API key not set"));
    let o = ollama_config(&entry(ProviderId::Ollama, "", Some("http://box:1234/")));
    assert_eq!(o.api_key, "ollama");
    assert_eq!(o.default_model, "qwen2.5:14b");
    assert_eq!(chat_completions_url(&o.base_url), "http://box:1234/v1/chat/completions");
    assert_eq!(chat_completions_url("https://api.openai.com//"), "https://api.openai.com/v1/chat/completions");
    assert_eq!(tool_choice(true), Some("auto"));
    assert_eq!(tool_choice(false), None);
    assert_eq!(minimax_max_tokens(None), Some(2048));
    assert_eq!(minimax_max_tokens(Some(10)), Some(10));
    assert_eq!(minimax_models()[0].id, "MiniMax-M3");
    assert!(openai_models()[1].is_default);
    assert!(compat_models_for(&entry(ProviderId::OpenAI, "", None)).is_none());
    assert_eq!(compat_models_for(&entry(ProviderId::Ollama, "", None)).map(|m| m.len()), Some(3));
}

#[test]
fn error_messages() {
    assert_eq!(HubError::McpProtocol { code: -2, message: "tool missing name".to_string() }.message(), "MCP protocol error: code=-2 message=tool missing name");
    assert_eq!(HubError::Provider { provider: "openai".to_string(), message: "x".to_string() }.message(), "provider error in openai: x");
    assert_eq!(HubError::LineMcpNotFound.message(), "line-desktop-mcp not found. Set HUB_LINE_MCP_PATH or install via bundled resource");
    assert_eq!(VendorError::NpmInstall { status: 1, stderr: "e".to_string() }.message(), "`npm install` for line-desktop-mcp exited with status 1: e");
}

#[test]
fn a_finished_choice_ends_the_chunk_with_one_done() {
    let mut st = CompatStreamState::new(false, false);
    let chunk = WireChunk {
        choices: vec![
            WireChoice { delta: delta(Some("a"), None), finish_reason: None },
            WireChoice { delta: delta(Some("b"), None), finish_reason: Some("length".to_string()) },
            WireChoice { delta: delta(Some("c"), None), finish_reason: Some("stop".to_string()) },
        ],
        usage: None,
    };
    let (evs, end) = st.on_message("raw", Some(chunk));
    assert!(end);
    let terminal = evs.iter().filter(|e| matches!(e, StreamEvent::Done { .. } | StreamEvent::Error { .. })).count();
    assert_eq!(terminal, 1);
    assert!(matches!(evs.last(), Some(StreamEvent::Done { stop_reason, .. }) if stop_reason == "length"));
    assert_eq!(evs.len(), 3);
}

#[test]
fn sse_payloads_without_json_are_refused() {
    assert_eq!(sse_payload("  {\"a\":1}\n").unwrap(), "{\"a\":1}");
    for empty in ["", "  \n", " [DONE] "] {
        match sse_payload(empty) {
            Err(HubError::Config(m)) => assert_eq!(m, "empty SSE payload"),
            other => panic!("expected a configuration error, got {other:?}"),
        }
    }
}
