//! Rules of the shell's command layer.

use line_hub_core::commands::{
    build_system_prompt, candidate_vendor_path, categorize_tool, default_tool_name,
    has_system_message, is_send_guarded_tool, label_for, parse_pid, provider_summary,
    recommended_max_tokens, resolve_chat_target, send_confirm_body, ui_event_to_payload,
    ChatArgs, StreamBuffers, UiAttachment, UiEventPayload,
};
use line_hub_core::config::{HubConfig, ProviderEntry};
use line_hub_core::conversation::UiEvent;
use line_hub_core::history::default_title;
use line_hub_core::keyring::{list_configured_providers, KeyringProbe};
use line_hub_core::mcp::ToolResultBlock;
use line_hub_core::provider::{Message, ProviderId, StreamEvent, ToolDefinition};

fn tool(name: &str) -> ToolDefinition {
    ToolDefinition { name: name.to_string(), description: String::new(), parameters: "{}".to_string() }
}

#[test]
fn provider_ids_parse_and_label() {
    assert_eq!(parse_pid("minimax"), Ok(ProviderId::MiniMax));
    assert_eq!(parse_pid("ollama"), Ok(ProviderId::Ollama));
    assert_eq!(parse_pid("gemini"), Err("unknown provider id: gemini".to_string()));
    assert_eq!(label_for(ProviderId::Ollama), "Ollama / LM Studio");
    assert_eq!(label_for(ProviderId::Anthropic), "Anthropic");
    assert_eq!(ProviderId::OpenAI.as_str(), "openai");
}

#[test]
fn token_budgets_per_provider() {
    assert_eq!(recommended_max_tokens("anthropic"), Some(8192));
    assert_eq!(recommended_max_tokens("minimax"), Some(4096));
    assert_eq!(recommended_max_tokens("openai"), Some(4096));
    assert_eq!(recommended_max_tokens("ollama"), Some(4096));
    assert_eq!(recommended_max_tokens("other"), Some(2048));
}

#[test]
fn tools_are_categorised_and_guarded() {
    assert_eq!(categorize_tool("send_message_auto"), "send (guarded)");
    assert_eq!(categorize_tool("send_file_manual"), "send (guarded)");
    assert_eq!(categorize_tool("stage_line_forward"), "send (guarded)");
    assert_eq!(categorize_tool("get_line_draft"), "draft");
    assert_eq!(categorize_tool("export_line_chat_history"), "export");
    assert_eq!(categorize_tool("verify_line_chat"), "search/verify");
    assert_eq!(categorize_tool("get_line_chatroom_history_long"), "read history");
    assert_eq!(categorize_tool("get_line_local_messages"), "read history (local + media preview)");
    assert_eq!(categorize_tool("translate_line_message"), "compose");
    assert_eq!(categorize_tool("get_line_status"), "navigate / status");
    assert_eq!(categorize_tool("prepare_line_workflow"), "workflow planning");
    assert_eq!(categorize_tool("confirm_line_chat_view"), "visual confirmation (caller must inspect screenshot)");
    assert_eq!(categorize_tool("get_line_poll_state"), "polls (read-only)");
    assert_eq!(categorize_tool("mystery"), "other");
    assert!(is_send_guarded_tool("send_anything"));
    assert!(is_send_guarded_tool("open_line_chat"));
    assert!(is_send_guarded_tool("export_line_chat_history"));
    assert!(!is_send_guarded_tool("get_line_status"));
    assert!(is_send_guarded_tool("stage_line_poll"));
    assert!(is_send_guarded_tool("stage_line_reply"));
    assert!(!is_send_guarded_tool("get_line_poll_state"));
}

#[test]
fn system_prompt_lists_categories_once() {
    let tools = vec![tool("send_message_auto"), tool("get_line_status"), tool("get_line_capabilities"), tool("get_line_draft")];
    let p = build_system_prompt(&tools, Some("Family"), false);
    assert!(p.starts_with("You are Line 小幫手, a LINE Desktop assistant.\n\nAvailable tool categories: send (guarded), navigate / status, draft.\n\nImportant guardrails:\n"));
    assert!(p.ends_with("Respond in the language the user writes in (繁體中文 by default).\n\nActive chatroom: `Family`. Pass this as `chatroom` for send_* tools unless the user names a different target."));
    let local = build_system_prompt(&tools, None, true);
    assert!(local.contains("Available tool categories: navigate / status.\n"));
    assert!(local.ends_with("\n\nNo chatroom is currently active in the UI — when the user asks to send something, ask which chatroom first."));
    let empty = build_system_prompt(&[], None, false);
    assert!(empty.contains("Available tool categories: (no tools loaded yet — call get_line_capabilities).\n"));
}

#[test]
fn confirm_body_truncates_long_messages() {
    let body = send_confirm_body("Mom", "hi", "send_message_auto");
    assert_eq!(body, "Line 小幫手 想要呼叫「send_message_auto」\n\n聊天室：Mom\n\n訊息：\nhi\n\n按「確定」允許送出，按「取消」拒絕。");
    let long: String = std::iter::repeat('字').take(401).collect();
    let body = send_confirm_body("Mom", &long, "send_message_auto");
    let head: String = std::iter::repeat('字').take(400).collect();
    assert!(body.contains(&format!("訊息：\n{head}…\n（已截斷，共 401 字）\n\n按")));
    assert_eq!(default_tool_name(), "send_message_auto");
}

#[test]
fn vendor_marker_path() {
    let p = candidate_vendor_path("com.example".to_string());
    let sep = std::path::MAIN_SEPARATOR;
    assert_eq!(p, format!("vendor{sep}line-desktop-mcp{sep}src{sep}server.js"));
}

#[test]
fn attachments_become_data_urls() {
    let ev = UiEvent::ToolDone {
        id: "c".to_string(),
        name: "get_line_local_messages".to_string(),
        result_preview: "[]".to_string(),
        attachments: vec![
            ToolResultBlock::Image { mime_type: "image/png".to_string(), data: vec![0xff, 0x00, 0x10, 0x41] },
            ToolResultBlock::Text { text: "t".to_string() },
        ],
    };
    match ui_event_to_payload(ev) {
        UiEventPayload::ToolDone { attachments, .. } => {
            match &attachments[0] {
                UiAttachment::Image { src, mime_type, bytes } => {
                    assert_eq!(src, "data:image/png;base64,/wAQQQ==");
                    assert_eq!(mime_type, "image/png");
                    assert_eq!(*bytes, 4);
                }
                _ => panic!("expected image"),
            }
            assert!(matches!(&attachments[1], UiAttachment::Text { text } if text == "t"));
        }
        _ => panic!("expected tool done"),
    }
    let p = UiEventPayload::from_stream_event(&StreamEvent::ToolCallDelta { index: 0, arguments_delta: "{".to_string() });
    assert!(matches!(p, UiEventPayload::ToolStart { ref id, ref name, .. } if id.is_empty() && name.is_empty()));
    assert!(matches!(ui_event_to_payload(UiEvent::Error("e".to_string())), UiEventPayload::Error { ref message } if message == "e"));
}

fn entry(id: ProviderId, key: &str, model: Option<&str>) -> ProviderEntry {
    ProviderEntry { id, api_key: key.to_string(), base_url: None, default_model: model.map(|m| m.to_string()) }
}

#[test]
fn chat_targets_resolve_like_the_shell() {
    let mut cfg = HubConfig::default();
    let args = ChatArgs { session_id: "s".to_string(), user_input: "hi".to_string(), provider_id: None, model: None };
    assert_eq!(resolve_chat_target(&args, &cfg).err(), Some("no provider configured".to_string()));
    cfg.default_provider = Some(ProviderId::MiniMax);
    assert_eq!(resolve_chat_target(&args, &cfg).err(), Some("provider minimax not configured".to_string()));
    cfg.providers.push(entry(ProviderId::MiniMax, "k", None));
    assert_eq!(resolve_chat_target(&args, &cfg).err(), Some("no model selected".to_string()));
    cfg.providers[0].default_model = Some("MiniMax-M3".to_string());
    let t = resolve_chat_target(&args, &cfg).ok().expect("target");
    assert_eq!(t.provider, ProviderId::MiniMax);
    assert_eq!(t.provider_key, "minimax");
    assert_eq!(t.model, "MiniMax-M3");
    let args = ChatArgs { provider_id: Some("gemini".to_string()), ..args };
    assert_eq!(resolve_chat_target(&args, &cfg).err(), Some("unknown provider id: gemini".to_string()));
}

#[test]
fn summaries_and_keyring_presence() {
    let e = entry(ProviderId::OpenAI, "", Some("gpt-5"));
    let s = provider_summary(&e, Some(String::new()), vec![]);
    assert_eq!(s.id, "openai");
    assert_eq!(s.label, "OpenAI");
    assert!(!s.is_configured);
    let s = provider_summary(&e, Some("sk".to_string()), vec![]);
    assert!(s.is_configured);
    assert_eq!(s.default_model.as_deref(), Some("gpt-5"));
    let ids = list_configured_providers(KeyringProbe { openai: false, minimax: true, anthropic: false, ollama: true });
    assert_eq!(ids, vec!["minimax".to_string(), "ollama".to_string()]);
    assert!(list_configured_providers(KeyringProbe { openai: false, minimax: false, anthropic: false, ollama: false }).is_empty());
}

#[test]
fn session_titles_and_system_messages() {
    assert_eq!(default_title(""), "新對話");
    assert_eq!(default_title("abc"), "對話 abc");
    assert_eq!(default_title("0123456789"), "對話 01234567");
    assert_eq!(default_title("一二三四五六七八九"), "對話 一二三四五六七八");
    assert!(!has_system_message(&vec![Message::User { content: "x".to_string() }]));
    assert!(has_system_message(&vec![Message::User { content: "x".to_string() }, Message::System { content: "s".to_string() }]));
}

#[test]
fn wire_names_round_trip() {
    for id in [ProviderId::OpenAI, ProviderId::MiniMax, ProviderId::Anthropic, ProviderId::Ollama] {
        assert_eq!(parse_pid(id.as_str()), Ok(id));
    }
}

#[test]
fn partial_turns_are_saved_every_eighth_delta() {
    let mut b = StreamBuffers::new();
    assert!(!b.record(&UiEvent::Reasoning("why".to_string())));
    for i in 0..7 {
        assert!(!b.record(&UiEvent::Delta(format!("{i}"))), "delta {i}");
    }
    assert!(!b.record(&UiEvent::Done));
    assert!(b.record(&UiEvent::Delta("7".to_string())));
    assert!(!b.record(&UiEvent::Delta("8".to_string())));
    let t = b.partial_turn("s1".to_string(), 42);
    assert_eq!(t.session_id, "s1");
    assert_eq!(t.seq, i64::MAX);
    assert_eq!(t.role, "assistant");
    assert_eq!(t.content, "012345678");
    assert_eq!(t.reasoning.as_deref(), Some("why"));
    assert_eq!(t.ts, 42);
    assert!(StreamBuffers::new().partial_turn("s".to_string(), 0).reasoning.is_none());
}

#[test]
fn every_documented_tool_has_a_category() {
    let documented = [
        "get_line_chatroom_history_short",
        "get_line_chatroom_history_default",
        "get_line_chatroom_history_long",
        "get_line_chat_messages",
        "search_line_chat_messages",
        "verify_line_message",
        "send_message_auto",
        "send_message_manual",
        "get_line_draft",
        "set_line_draft",
        "clear_line_draft",
        "export_line_chat_history",
        "send_file_manual",
        "stage_line_reply",
        "copy_line_message",
        "translate_line_message",
        "stage_line_forward",
        "get_line_capabilities",
        "get_line_workflow",
        "get_line_status",
        "open_line_chat",
        "get_line_ui_state",
        "confirm_line_chat_view",
        "open_line_chat_feature",
    ];
    for name in documented {
        let category = categorize_tool(name);
        assert_ne!(category, "other", "{name}");
        if category == "send (guarded)" {
            assert!(is_send_guarded_tool(name), "{name}");
        }
    }
}
