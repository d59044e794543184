//! The agentic loop driven by hand, event by event.

use line_hub_core::conversation::{
    blocks_summary, is_send_tool, preview_text, NoopGuard, Phase, TurnAction, TurnEvent,
    TurnMachine, UiEvent,
};
use line_hub_core::mcp::{ToolResult, ToolResultBlock};
use line_hub_core::provider::{Message, StreamEvent, ToolDefinition};
use line_hub_core::HubError;

fn step(m: &mut TurnMachine, ev: TurnEvent) -> (TurnAction, Vec<UiEvent>) {
    assert!(m.accepts(&ev), "event not accepted in phase {:?}", m.phase());
    m.step(ev)
}

fn s(x: &str) -> String {
    x.to_string()
}

fn open_turn(m: &mut TurnMachine) {
    match step(m, TurnEvent::ToolsListed(Ok(vec![]))).0 {
        TurnAction::Chat => {}
        _ => panic!("expected Chat"),
    }
}

#[test]
fn declined_send_is_recorded_and_never_called() {
    let (mut m, act) = TurnMachine::start(vec![], s("tell Mom hi"), 8, s("MiniMax"));
    assert!(matches!(act, TurnAction::ListTools));
    open_turn(&mut m);
    let (act, ui) = step(
        &mut m,
        TurnEvent::Stream(StreamEvent::ToolCallStart { id: s("c1"), name: s("send_message_auto"), index: 0 }),
    );
    assert!(matches!(act, TurnAction::NextStreamEvent));
    assert!(matches!(&ui[..], [UiEvent::ToolStart { id, name, args_preview }] if id == "c1" && name == "send_message_auto" && args_preview.is_empty()));
    step(
        &mut m,
        TurnEvent::Stream(StreamEvent::ToolCallDelta {
            index: 0,
            arguments_delta: s("{\"chatName\":\"Mom\",\"message\":\"hi\"}"),
        }),
    );
    let (act, ui) = step(
        &mut m,
        TurnEvent::Stream(StreamEvent::Done { stop_reason: s("tool_calls"), usage: None }),
    );
    assert!(matches!(&ui[..], [UiEvent::ToolArgs { id, args, attachment_count: 0 }] if id == "c1" && args == "{\"chatName\":\"Mom\",\"message\":\"hi\"}"));
    let (chat, message, tool) = match act {
        TurnAction::AskApproval { chat, message, tool } => (chat, message, tool),
        _ => panic!("a send must be approved first"),
    };
    assert_eq!((chat.as_str(), message.as_str(), tool.as_str()), ("Mom", "hi", "send_message_auto"));
    let answer = NoopGuard.approve_send(&chat, &message, &tool);
    let (act, ui) = step(&mut m, TurnEvent::GuardAnswer(answer));
    assert!(matches!(&ui[..], [UiEvent::SendBlocked { chat, message }] if chat == "Mom" && message == "hi"));
    assert!(matches!(act, TurnAction::Chat));
    match &m.history()[..] {
        [Message::User { content }, Message::Assistant { content: None, reasoning: None, tool_calls: Some(tcs) }, Message::Tool { tool_call_id, content: reply }] => {
            assert_eq!(content, "tell Mom hi");
            assert_eq!(tcs.len(), 1);
            assert_eq!(tcs[0].kind, "function");
            assert_eq!(tool_call_id, "c1");
            assert_eq!(reply, "{\"error\":\"User declined to send\",\"operationMayHaveCompleted\":false}");
        }
        other => panic!("unexpected history {other:?}"),
    }
    step(&mut m, TurnEvent::Stream(StreamEvent::Delta { text: s("Not sent.") }));
    let (act, ui) = step(&mut m, TurnEvent::StreamEnded);
    assert!(matches!(&ui[..], [UiEvent::Done]));
    match act {
        TurnAction::Finish(Ok(t)) => assert_eq!(t, "Not sent."),
        _ => panic!("expected the final reply"),
    }
    assert_eq!(m.phase(), Phase::Finished);
}

#[test]
fn approved_send_is_called() {
    let (mut m, _) = TurnMachine::start(vec![], s("send"), 8, s("MiniMax"));
    open_turn(&mut m);
    step(&mut m, TurnEvent::Stream(StreamEvent::ToolCallStart { id: s("c1"), name: s("set_line_draft"), index: 0 }));
    let (act, _) = step(&mut m, TurnEvent::Stream(StreamEvent::Done { stop_reason: s("tool_calls"), usage: None }));
    match act {
        TurnAction::AskApproval { chat, message, .. } => {
            assert_eq!(chat, "<unknown>");
            assert_eq!(message, "");
        }
        _ => panic!("expected approval"),
    }
    let (act, ui) = step(&mut m, TurnEvent::GuardAnswer(Ok(true)));
    assert!(ui.is_empty());
    match act {
        TurnAction::CallTool { name, arguments } => {
            assert_eq!(name, "set_line_draft");
            assert_eq!(arguments, "");
        }
        _ => panic!("expected the call"),
    }
}

#[test]
fn tool_turns_are_bounded() {
    let (mut m, _) = TurnMachine::start(vec![], s("look"), 1, s("MiniMax"));
    open_turn(&mut m);
    step(&mut m, TurnEvent::Stream(StreamEvent::ToolCallStart { id: s("c1"), name: s("get_line_status"), index: 0 }));
    let (act, _) = step(&mut m, TurnEvent::Stream(StreamEvent::Done { stop_reason: s("tool_calls"), usage: None }));
    assert!(matches!(act, TurnAction::CallTool { ref name, .. } if name == "get_line_status"));
    let outcome = Ok(ToolResult::Success { blocks: vec![ToolResultBlock::Text { text: s("r") }] });
    let (act, ui) = step(&mut m, TurnEvent::ToolOutcome(outcome));
    match &ui[..] {
        [UiEvent::ToolDone { id, name, result_preview, attachments }] => {
            assert_eq!(id, "c1");
            assert_eq!(name, "get_line_status");
            assert_eq!(result_preview, "[{\"kind\":\"text\",\"text\":\"r\"}]");
            assert_eq!(attachments.len(), 1);
        }
        other => panic!("unexpected ui {other:?}"),
    }
    match act {
        TurnAction::Finish(Err(HubError::Config(m))) => assert_eq!(m, "max_tool_turns=1 exceeded"),
        _ => panic!("expected the turn limit"),
    }
}

#[test]
fn zero_turns_stop_right_after_listing() {
    let (mut m, _) = TurnMachine::start(vec![], s("x"), 0, s("MiniMax"));
    match step(&mut m, TurnEvent::ToolsListed(Ok(vec![]))).0 {
        TurnAction::Finish(Err(HubError::Config(m))) => assert_eq!(m, "max_tool_turns=0 exceeded"),
        _ => panic!("expected the turn limit"),
    }
}

#[test]
fn tool_calls_materialise_in_index_order() {
    let (mut m, _) = TurnMachine::start(vec![], s("x"), 8, s("MiniMax"));
    open_turn(&mut m);
    step(&mut m, TurnEvent::Stream(StreamEvent::ToolCallStart { id: s("b"), name: s("get_b"), index: 1 }));
    step(&mut m, TurnEvent::Stream(StreamEvent::ToolCallDelta { index: 2, arguments_delta: s("{}") }));
    step(&mut m, TurnEvent::Stream(StreamEvent::ToolCallStart { id: s("a"), name: s("get_a"), index: 0 }));
    step(&mut m, TurnEvent::Stream(StreamEvent::ToolCallDelta { index: 0, arguments_delta: s("{\"k\":") }));
    step(&mut m, TurnEvent::Stream(StreamEvent::ToolCallDelta { index: 0, arguments_delta: s("1}") }));
    let (act, ui) = step(&mut m, TurnEvent::Stream(StreamEvent::Done { stop_reason: s("tool_calls"), usage: None }));
    let ids: Vec<&str> = ui
        .iter()
        .map(|e| match e {
            UiEvent::ToolArgs { id, .. } => id.as_str(),
            _ => panic!("expected tool args"),
        })
        .collect();
    assert_eq!(ids, vec!["a", "b"]);
    match act {
        TurnAction::CallTool { name, arguments } => {
            assert_eq!(name, "get_a");
            assert_eq!(arguments, "{\"k\":1}");
        }
        _ => panic!("expected the first call"),
    }
}

#[test]
fn failed_tool_reports_and_records_error() {
    let (mut m, _) = TurnMachine::start(vec![], s("x"), 8, s("MiniMax"));
    open_turn(&mut m);
    step(&mut m, TurnEvent::Stream(StreamEvent::ToolCallStart { id: s("c"), name: s("get_x"), index: 0 }));
    step(&mut m, TurnEvent::Stream(StreamEvent::Done { stop_reason: s("tool_calls"), usage: None }));
    let (act, ui) = step(&mut m, TurnEvent::ToolOutcome(Ok(ToolResult::Failed { message: s("boom \"x\"") })));
    match &ui[..] {
        [UiEvent::Error(e), UiEvent::ToolDone { result_preview, attachments, .. }] => {
            assert_eq!(e, "get_x failed: boom \"x\"");
            assert_eq!(result_preview, "{\"code\":\"TOOL_EXEC_FAILED\",\"error\":\"boom \\\"x\\\"\"}");
            assert!(attachments.is_empty());
        }
        other => panic!("unexpected ui {other:?}"),
    }
    assert!(matches!(act, TurnAction::Chat));
    let (mut m2, _) = TurnMachine::start(vec![], s("x"), 8, s("MiniMax"));
    open_turn(&mut m2);
    step(&mut m2, TurnEvent::Stream(StreamEvent::ToolCallStart { id: s("c"), name: s("get_x"), index: 0 }));
    step(&mut m2, TurnEvent::Stream(StreamEvent::Done { stop_reason: s("tool_calls"), usage: None }));
    let (_, ui) = step(&mut m2, TurnEvent::ToolOutcome(Err(HubError::McpTransport(s("stdout EOF")))));
    assert!(matches!(&ui[0], UiEvent::Error(e) if e == "get_x failed: MCP transport error: stdout EOF"));
}

#[test]
fn stream_error_ends_the_turn() {
    let (mut m, _) = TurnMachine::start(vec![], s("x"), 8, s("MiniMax"));
    open_turn(&mut m);
    let (act, ui) = step(&mut m, TurnEvent::Stream(StreamEvent::Error { message: s("HTTP 500"), retriable: true }));
    assert!(matches!(&ui[..], [UiEvent::Error(e)] if e == "HTTP 500"));
    match act {
        TurnAction::Finish(Err(HubError::Provider { provider, message })) => {
            assert_eq!(provider, "MiniMax");
            assert_eq!(message, "HTTP 500");
        }
        _ => panic!("expected provider error"),
    }
    assert!(!m.accepts(&TurnEvent::StreamEnded));
    assert_eq!(m.history().len(), 1);
}

#[test]
fn text_reply_with_reasoning_finishes() {
    let (mut m, _) = TurnMachine::start(vec![Message::System { content: s("sys") }], s("hi"), 8, s("MiniMax"));
    open_turn(&mut m);
    step(&mut m, TurnEvent::Stream(StreamEvent::ReasoningDelta { text: s("think") }));
    step(&mut m, TurnEvent::Stream(StreamEvent::Delta { text: s("Hel") }));
    step(&mut m, TurnEvent::Stream(StreamEvent::Delta { text: s("lo") }));
    let (act, ui) = step(&mut m, TurnEvent::Stream(StreamEvent::Done { stop_reason: s("stop"), usage: None }));
    assert!(matches!(&ui[..], [UiEvent::Done]));
    assert!(matches!(act, TurnAction::Finish(Ok(ref t)) if t == "Hello"));
    let h = m.into_history();
    assert_eq!(h.len(), 3);
    assert!(matches!(&h[2], Message::Assistant { content: Some(c), reasoning: Some(r), tool_calls: None } if c == "Hello" && r == "think"));
}

#[test]
fn previews_cut_after_two_hundred_bytes() {
    let long = "a".repeat(300);
    let p = preview_text(&long);
    assert_eq!(p, format!("{}…", "a".repeat(200)));
    let short = "b".repeat(200);
    assert_eq!(preview_text(&short), short);
    let blocks = vec![
        ToolResultBlock::Image { mime_type: s("image/png"), data: vec![1, 2] },
        ToolResultBlock::Unsupported { mime_type: s("video/mp4"), note: s("n\n") },
    ];
    assert_eq!(
        blocks_summary(&blocks),
        "[{\"kind\":\"image\",\"mime_type\":\"image/png\"},{\"kind\":\"unsupported\",\"mime_type\":\"video/mp4\",\"note\":\"n\\n\"}]"
    );
    assert!(is_send_tool("send_file_manual"));
    assert!(!is_send_tool("get_line_draft"));
}

#[test]
fn offered_tools_are_the_listed_ones() {
    let (mut m, _) = TurnMachine::start(vec![], s("x"), 8, s("MiniMax"));
    assert!(m.tools().is_empty());
    let listed = vec![ToolDefinition { name: s("get_line_status"), description: s("d"), parameters: s("{}") }];
    step(&mut m, TurnEvent::ToolsListed(Ok(listed)));
    assert_eq!(m.tools().len(), 1);
    assert_eq!(m.tools()[0].name, "get_line_status");
    step(&mut m, TurnEvent::Stream(StreamEvent::Delta { text: s("ok") }));
    step(&mut m, TurnEvent::StreamEnded);
    assert_eq!(m.tools()[0].name, "get_line_status");
}

#[test]
fn listing_failure_ends_the_turn() {
    let (mut m, _) = TurnMachine::start(vec![], s("x"), 8, s("MiniMax"));
    match step(&mut m, TurnEvent::ToolsListed(Err(HubError::McpTransport(s("down"))))).0 {
        TurnAction::Finish(Err(HubError::McpTransport(e))) => assert_eq!(e, "down"),
        _ => panic!("expected the listing error"),
    }
    assert_eq!(m.phase(), Phase::Finished);
}

#[test]
fn staged_reply_asks_for_approval_first() {
    let (mut m, _) = TurnMachine::start(vec![], s("reply to Amy"), 8, s("MiniMax"));
    open_turn(&mut m);
    step(
        &mut m,
        TurnEvent::Stream(StreamEvent::ToolCallStart { id: s("r1"), name: s("stage_line_reply"), index: 0 }),
    );
    step(
        &mut m,
        TurnEvent::Stream(StreamEvent::ToolCallDelta {
            index: 0,
            arguments_delta: s("{\"chatName\":\"Amy\",\"message\":\"ok\"}"),
        }),
    );
    let (act, _) = step(&mut m, TurnEvent::Stream(StreamEvent::Done { stop_reason: s("tool_calls"), usage: None }));
    match act {
        TurnAction::AskApproval { chat, message, tool } => {
            assert_eq!(chat, "Amy");
            assert_eq!(message, "ok");
            assert_eq!(tool, "stage_line_reply");
        }
        _ => panic!("a staged reply must be approved first"),
    }
    assert!(is_send_tool("stage_line_forward"));
    assert!(is_send_tool("stage_line_poll"));
    assert!(!is_send_tool("get_line_poll_state"));
    assert!(is_send_tool("send_sticker"));
}
