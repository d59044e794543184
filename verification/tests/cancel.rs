//! Cancelling a streaming turn.

use line_hub_core::commands::{cancelled_error, StreamBuffers, UiEventPayload};
use line_hub_core::conversation::UiEvent;
use line_hub_core::provider::Message;

fn delta(t: &str) -> UiEvent {
    UiEvent::Delta(t.to_string())
}

#[test]
fn events_after_cancel_are_dropped() {
    let mut b = StreamBuffers::new();
    assert_eq!(b.on_event(&delta("Hel"), false), (true, false));
    assert_eq!(b.on_event(&UiEvent::Reasoning("think".to_string()), false), (true, false));
    assert_eq!(b.on_event(&delta("lo"), true), (false, false));
    assert_eq!(b.on_event(&UiEvent::Done, true), (false, false));
    match b.cancelled_reply() {
        Message::Assistant { content, reasoning, tool_calls } => {
            assert_eq!(content.as_deref(), Some("Hel"));
            assert_eq!(reasoning.as_deref(), Some("think"));
            assert!(tool_calls.is_none());
        }
        other => panic!("expected an assistant message, got {other:?}"),
    }
}

#[test]
fn gate_still_flushes_every_eighth_delta() {
    let mut b = StreamBuffers::new();
    for _ in 0..7 {
        assert_eq!(b.on_event(&delta("x"), false), (true, false));
    }
    assert_eq!(b.on_event(&delta("x"), false), (true, true));
}

#[test]
fn empty_cancel_keeps_nothing() {
    let b = StreamBuffers::new();
    match b.cancelled_reply() {
        Message::Assistant { content, reasoning, tool_calls } => {
            assert!(content.is_none() && reasoning.is_none() && tool_calls.is_none());
        }
        other => panic!("expected an assistant message, got {other:?}"),
    }
    match cancelled_error() {
        UiEventPayload::Error { message } => assert_eq!(message, "cancelled by user"),
        other => panic!("expected an error payload, got {other:?}"),
    }
}
