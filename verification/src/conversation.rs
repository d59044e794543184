//! The agentic conversation loop: provider, MCP tool, provider again, with a
//! bounded number of model turns and a mandatory approval gate before any
//! tool that sends a LINE message.
//!
//! The loop is a state machine. The caller performs each [`TurnAction`]
//! (list the tools, open a chat stream, read the next stream event, ask the
//! user, call a tool) and hands the outcome back as a [`TurnEvent`];
//! [`TurnMachine::step`] decides what happens next and which [`UiEvent`]s
//! the UI receives.

use crate::error::{hub_error_text, HubError, HubResult};
use crate::json::{json_quoted, json_str_member, json_str_member_of, push_json_quoted};
use crate::mcp::{ToolResult, ToolResultBlock};
use crate::provider::types::{FunctionCall, Message, StreamEvent, ToolCall, ToolDefinition};
use crate::text::{decimal, push_decimal, push_str, starts_with, text_starts_with};
use vstd::prelude::*;
use vstd::string::StringSliceAdditionalSpecFns;
use vstd::utf8::{decode_utf8, encode_utf8, encode_utf8_decode_utf8, is_char_boundary};

verus! {

/// Names of the tools that mutate LINE state on the user's behalf and must
/// pass the send guard first: every `send_*` and `stage_*` tool and the two
/// draft writers.
pub open spec fn is_send_tool_name(name: Seq<char>) -> bool {
    ||| starts_with(name, "send_"@)
    ||| starts_with(name, "stage_"@)
    ||| name == "clear_line_draft"@
    ||| name == "set_line_draft"@
}

/// The tools the original send list and the changelogs name as sending or
/// staging on the user's behalf, by their literal names.
pub open spec fn guarded_by_name(name: Seq<char>) -> bool {
    ||| name == "send_message_auto"@
    ||| name == "send_message_manual"@
    ||| name == "send_file_manual"@
    ||| name == "clear_line_draft"@
    ||| name == "set_line_draft"@
    ||| name == "stage_line_reply"@
    ||| name == "stage_line_forward"@
}

/// Every tool of the original send list, and both staging tools, is a send
/// tool.
pub proof fn lemma_named_tools_are_send_tools(name: Seq<char>)
    ensures
        guarded_by_name(name) ==> is_send_tool_name(name),
{
    reveal_strlit("send_");
    reveal_strlit("stage_");
    reveal_strlit("send_message_auto");
    reveal_strlit("send_message_manual");
    reveal_strlit("send_file_manual");
    reveal_strlit("stage_line_reply");
    reveal_strlit("stage_line_forward");
    if name == "send_message_auto"@ || name == "send_message_manual"@ || name == "send_file_manual"@ {
        assert(name.subrange(0, 5) =~= "send_"@);
    }
    if name == "stage_line_reply"@ || name == "stage_line_forward"@ {
        assert(name.subrange(0, 6) =~= "stage_"@);
    }
}

/// Whether two texts are equal.
pub fn same_text(a: &str, b: &str) -> (r: bool)
    ensures
        r == (a@ == b@),
{
    let x = a.to_owned();
    let y = b.to_owned();
    x == y
}

/// Whether `name` is one of the send tools.
pub fn is_send_tool(name: &str) -> (r: bool)
    ensures
        r == is_send_tool_name(name@),
        guarded_by_name(name@) ==> r,
{
    proof {
        lemma_named_tools_are_send_tools(name@);
    }
    text_starts_with(name, "send_") || text_starts_with(name, "stage_") || same_text(
        name,
        "clear_line_draft",
    ) || same_text(name, "set_line_draft")
}

/// The guard that refuses every send: nothing is ever sent without a
/// guard that asks the user.
pub struct NoopGuard;

impl NoopGuard {
    /// Always refuses.
    pub fn approve_send(&self, chat: &str, message: &str, tool: &str) -> (r: HubResult<bool>)
        ensures
            r matches Ok(false),
    {
        Ok(false)
    }
}

/// Progress signals for the UI.
#[derive(Debug, Clone)]
pub enum UiEvent {
    /// Streamed content delta (thinking already stripped).
    Delta(String),
    /// Streamed reasoning delta.
    Reasoning(String),
    /// A tool call started.
    ToolStart { id: String, name: String, args_preview: String },
    /// A tool call's arguments are complete; `args` is their JSON text.
    ToolArgs { id: String, args: String, attachment_count: usize },
    /// A tool call finished, with its typed content blocks.
    ToolDone {
        id: String,
        name: String,
        result_preview: String,
        attachments: Vec<ToolResultBlock>,
    },
    /// A send was refused by the guard.
    SendBlocked { chat: String, message: String },
    /// The final assistant turn is complete.
    Done,
    Error(String),
}

/// What the driver reports back to the loop.
pub enum TurnEvent {
    /// The outcome of listing the MCP tools.
    ToolsListed(HubResult<Vec<ToolDefinition>>),
    /// Opening the chat stream failed.
    ChatFailed(HubError),
    /// The chat stream produced an event.
    Stream(StreamEvent),
    /// The chat stream ended without a `Done` event.
    StreamEnded,
    /// The send guard's answer.
    GuardAnswer(HubResult<bool>),
    /// The outcome of a tool call.
    ToolOutcome(HubResult<ToolResult>),
}

/// What the driver must do next.
pub enum TurnAction {
    /// List the MCP tools.
    ListTools,
    /// Open a chat stream for the machine's history and tools.
    Chat,
    /// Read the next event of the open chat stream.
    NextStreamEvent,
    /// Ask the user whether `tool` may send `message` to `chat`.
    AskApproval { chat: String, message: String, tool: String },
    /// Call the MCP tool `name`; `arguments` is the JSON text the model gave.
    CallTool { name: String, arguments: String },
    /// The turn is over.
    Finish(HubResult<String>),
}

/// Where the loop stands.
#[derive(Debug, Clone, Copy, PartialEq, Eq, Structural)]
pub enum Phase {
    ListingTools,
    Chatting,
    AwaitingApproval,
    AwaitingTool,
    Finished,
}

/// A tool call being assembled from stream events.
pub struct SlotView {
    pub index: nat,
    pub id: Option<Seq<char>>,
    pub name: Seq<char>,
    pub args: Seq<char>,
}

struct Slot {
    index: usize,
    id: Option<String>,
    name: String,
    args: String,
}

impl View for Slot {
    type V = SlotView;

    closed spec fn view(&self) -> SlotView {
        SlotView {
            index: self.index as nat,
            id: match self.id {
                Some(s) => Some(s@),
                None => None,
            },
            name: self.name@,
            args: self.args@,
        }
    }
}

/// The state of the loop.
pub struct TurnView {
    pub max_turns: nat,
    pub label: Seq<char>,
    pub history: Seq<Message>,
    pub tools: Seq<ToolDefinition>,
    pub phase: Phase,
    pub turns_started: nat,
    pub text: Seq<char>,
    pub reasoning: Seq<char>,
    pub slots: Seq<SlotView>,
    pub finish_reason: Seq<char>,
    pub call_msg: nat,
    pub cursor: nat,
    pub pending_chat: Seq<char>,
    pub pending_message: Seq<char>,
}

/// One agentic turn in progress.
pub struct TurnMachine {
    max_tool_turns: usize,
    provider_label: String,
    history: Vec<Message>,
    tools: Vec<ToolDefinition>,
    phase: Phase,
    turns_started: usize,
    text: String,
    reasoning: String,
    slots: Vec<Slot>,
    finish_reason: String,
    call_msg: usize,
    cursor: usize,
    pending_chat: String,
    pending_message: String,
}

impl View for TurnMachine {
    type V = TurnView;

    closed spec fn view(&self) -> TurnView {
        TurnView {
            max_turns: self.max_tool_turns as nat,
            label: self.provider_label@,
            history: self.history@,
            tools: self.tools@,
            phase: self.phase,
            turns_started: self.turns_started as nat,
            text: self.text@,
            reasoning: self.reasoning@,
            slots: self.slots@.map_values(|s: Slot| s@),
            finish_reason: self.finish_reason@,
            call_msg: self.call_msg as nat,
            cursor: self.cursor as nat,
            pending_chat: self.pending_chat@,
            pending_message: self.pending_message@,
        }
    }
}

// ---------------------------------------------------------------------
// Specification of the loop
// ---------------------------------------------------------------------
/// Slots are kept in strictly increasing index order.
pub open spec fn slots_sorted(slots: Seq<SlotView>) -> bool {
    forall|i: int, j: int| 0 <= i < j < slots.len() ==> slots[i].index < slots[j].index
}

/// Inserts `fresh` at its place by index, or, when a slot with that index
/// exists, replaces it by `f` of it.
pub open spec fn slots_upsert(
    slots: Seq<SlotView>,
    index: nat,
    fresh: SlotView,
    f: spec_fn(SlotView) -> SlotView,
) -> Seq<SlotView>
    decreases slots.len(),
{
    if slots.len() == 0 {
        seq![fresh]
    } else if slots[0].index == index {
        seq![f(slots[0])] + slots.drop_first()
    } else if slots[0].index > index {
        seq![fresh] + slots
    } else {
        seq![slots[0]] + slots_upsert(slots.drop_first(), index, fresh, f)
    }
}

/// The slot a `ToolCallStart` event leaves behind.
pub open spec fn started_slot(index: nat, id: Seq<char>, name: Seq<char>) -> SlotView {
    SlotView { index, id: Some(id), name, args: Seq::empty() }
}

/// The slots after a `ToolCallStart` event.
pub open spec fn slots_after_start(
    slots: Seq<SlotView>,
    index: nat,
    id: Seq<char>,
    name: Seq<char>,
) -> Seq<SlotView> {
    slots_upsert(
        slots,
        index,
        started_slot(index, id, name),
        |s: SlotView| started_slot(index, id, name),
    )
}

/// The slots after a `ToolCallDelta` event.
pub open spec fn slots_after_delta(slots: Seq<SlotView>, index: nat, delta: Seq<char>) -> Seq<
    SlotView,
> {
    slots_upsert(
        slots,
        index,
        SlotView { index, id: None, name: Seq::empty(), args: delta },
        |s: SlotView| SlotView { args: s.args + delta, ..s },
    )
}

/// The slots that became tool calls: those that saw a `ToolCallStart`, in
/// index order.
pub open spec fn materialised(slots: Seq<SlotView>) -> Seq<SlotView>
    decreases slots.len(),
{
    if slots.len() == 0 {
        Seq::empty()
    } else if slots.last().id is Some {
        materialised(slots.drop_last()).push(slots.last())
    } else {
        materialised(slots.drop_last())
    }
}

/// The tool calls of the current model turn.
pub open spec fn turn_calls(v: TurnView) -> Seq<ToolCall> {
    if v.call_msg < v.history.len() {
        match v.history[v.call_msg as int] {
            Message::Assistant { tool_calls: Some(tcs), .. } => tcs@,
            _ => Seq::empty(),
        }
    } else {
        Seq::empty()
    }
}

/// The chat a send targets, read from its arguments.
pub open spec fn chat_of(args: Seq<char>) -> Seq<char> {
    match json_str_member_of(args, "chatName"@) {
        Some(c) => c,
        None => "<unknown>"@,
    }
}

/// The message a send carries, read from its arguments.
pub open spec fn message_of(args: Seq<char>) -> Seq<char> {
    match json_str_member_of(args, "message"@) {
        Some(m) => m,
        None => Seq::empty(),
    }
}

/// What the loop needs to hold between steps.
pub open spec fn turn_wf(v: TurnView) -> bool {
    &&& v.turns_started <= v.max_turns
    &&& slots_sorted(v.slots)
    &&& (v.phase == Phase::AwaitingApproval || v.phase == Phase::AwaitingTool) ==> v.cursor
        < turn_calls(v).len()
    &&& v.phase == Phase::AwaitingApproval ==> {
        let f = turn_calls(v)[v.cursor as int].function;
        &&& is_send_tool_name(f.name@)
        &&& v.pending_chat == chat_of(f.arguments@)
        &&& v.pending_message == message_of(f.arguments@)
    }
}

/// The error text when the loop runs out of model turns.
pub open spec fn exceeded_text(max: nat) -> Seq<char> {
    "max_tool_turns="@ + decimal(max) + " exceeded"@
}

/// The JSON text recorded for a send the user declined.
pub open spec fn declined_json() -> Seq<char> {
    "{\"error\":\"User declined to send\",\"operationMayHaveCompleted\":false}"@
}

/// The JSON text recorded for a failed tool call.
pub open spec fn failed_json(message: Seq<char>) -> Seq<char> {
    "{\"code\":\"TOOL_EXEC_FAILED\",\"error\":"@ + json_quoted(message) + "}"@
}

/// The JSON summary of one content block.
pub open spec fn block_json(b: ToolResultBlock) -> Seq<char> {
    match b {
        ToolResultBlock::Text { text } => "{\"kind\":\"text\",\"text\":"@ + json_quoted(text@)
            + "}"@,
        ToolResultBlock::Image { mime_type, .. } => "{\"kind\":\"image\",\"mime_type\":"@
            + json_quoted(mime_type@) + "}"@,
        ToolResultBlock::Audio { mime_type, .. } => "{\"kind\":\"audio\",\"mime_type\":"@
            + json_quoted(mime_type@) + "}"@,
        ToolResultBlock::Unsupported { mime_type, note } => "{\"kind\":\"unsupported\",\"mime_type\":"@
            + json_quoted(mime_type@) + ",\"note\":"@ + json_quoted(note@) + "}"@,
    }
}

/// The comma-separated summaries of a list of blocks.
pub open spec fn blocks_json_items(bs: Seq<ToolResultBlock>) -> Seq<char>
    decreases bs.len(),
{
    if bs.len() == 0 {
        Seq::empty()
    } else if bs.len() == 1 {
        block_json(bs[0])
    } else {
        blocks_json_items(bs.drop_last()) + ","@ + block_json(bs.last())
    }
}

/// The JSON array summarising a list of blocks.
pub open spec fn blocks_json(bs: Seq<ToolResultBlock>) -> Seq<char> {
    "["@ + blocks_json_items(bs) + "]"@
}

/// The text recorded in the history for a tool call's outcome.
pub open spec fn outcome_text(o: HubResult<ToolResult>) -> Seq<char> {
    match o {
        Ok(ToolResult::Success { blocks }) => blocks_json(blocks@),
        Ok(ToolResult::Failed { message }) => failed_json(message@),
        Err(e) => failed_json(hub_error_text(e)),
    }
}

/// The blocks handed to the UI for a tool call's outcome.
pub open spec fn outcome_blocks(o: HubResult<ToolResult>) -> Seq<ToolResultBlock> {
    match o {
        Ok(ToolResult::Success { blocks }) => blocks@,
        _ => Seq::empty(),
    }
}

/// The error message of a failed tool call, if it failed.
pub open spec fn outcome_error(name: Seq<char>, o: HubResult<ToolResult>) -> Option<Seq<char>> {
    match o {
        Ok(ToolResult::Success { .. }) => None,
        Ok(ToolResult::Failed { message }) => Some(name + " failed: "@ + message@),
        Err(e) => Some(name + " failed: "@ + hub_error_text(e)),
    }
}

/// A text can be cut after its first 200 bytes.
pub open spec fn preview_cuttable(t: Seq<char>) -> bool {
    encode_utf8(t).len() > 200 ==> is_char_boundary(encode_utf8(t), 200)
}

/// The preview of a tool result: its first 200 bytes and an ellipsis when
/// it is longer.
pub open spec fn tool_preview(t: Seq<char>) -> Seq<char> {
    if encode_utf8(t).len() > 200 {
        decode_utf8(encode_utf8(t).subrange(0, 200)) + "…"@
    } else {
        t
    }
}

/// Which events the loop takes in each phase.
pub open spec fn accepts_event(v: TurnView, ev: TurnEvent) -> bool {
    match ev {
        TurnEvent::ToolsListed(_) => v.phase == Phase::ListingTools,
        TurnEvent::ChatFailed(_) | TurnEvent::Stream(_) | TurnEvent::StreamEnded => v.phase
            == Phase::Chatting,
        TurnEvent::GuardAnswer(_) => v.phase == Phase::AwaitingApproval,
        TurnEvent::ToolOutcome(o) => v.phase == Phase::AwaitingTool && preview_cuttable(
            outcome_text(o),
        ),
    }
}

/// `w` is `v` with one more message, a tool reply.
pub open spec fn pushed_tool_reply(
    h: Seq<Message>,
    h2: Seq<Message>,
    id: Seq<char>,
    content: Seq<char>,
) -> bool {
    &&& h2.len() == h.len() + 1
    &&& h2.subrange(0, h.len() as int) == h
    &&& h2.last() matches Message::Tool { tool_call_id, content: c } && tool_call_id@ == id && c@
        == content
}

/// The loop ends with `result`.
pub open spec fn finishes(v: TurnView, w: TurnView, act: TurnAction) -> bool {
    &&& w == TurnView { phase: Phase::Finished, ..v }
    &&& act is Finish
}

/// A new model turn opens, or the loop stops when the turns are used up.
pub open spec fn next_turn_or_stop(v: TurnView, w: TurnView, act: TurnAction) -> bool {
    if v.turns_started < v.max_turns {
        &&& w == TurnView {
            phase: Phase::Chatting,
            turns_started: v.turns_started + 1,
            text: Seq::empty(),
            reasoning: Seq::empty(),
            slots: Seq::empty(),
            finish_reason: "stop"@,
            ..v
        }
        &&& act is Chat
    } else {
        &&& finishes(v, w, act)
        &&& act matches TurnAction::Finish(Err(HubError::Config(m))) && m@ == exceeded_text(
            v.max_turns,
        )
    }
}

/// The next tool call of the turn is dispatched: a send tool goes to the
/// guard first, any other tool is called; with no call left, the next
/// model turn opens.
pub open spec fn dispatches(v: TurnView, w: TurnView, act: TurnAction) -> bool {
    let calls = turn_calls(v);
    if v.cursor >= calls.len() {
        next_turn_or_stop(v, w, act)
    } else {
        let f = calls[v.cursor as int].function;
        if is_send_tool_name(f.name@) {
            &&& w == TurnView {
                phase: Phase::AwaitingApproval,
                pending_chat: chat_of(f.arguments@),
                pending_message: message_of(f.arguments@),
                ..v
            }
            &&& act matches TurnAction::AskApproval { chat, message, tool } && chat@ == chat_of(
                f.arguments@,
            ) && message@ == message_of(f.arguments@) && tool@ == f.name@
        } else {
            &&& w == TurnView { phase: Phase::AwaitingTool, ..v }
            &&& act matches TurnAction::CallTool { name, arguments } && name@ == f.name@
                && arguments@ == f.arguments@
        }
    }
}

/// An optional text that is absent exactly when empty.
pub open spec fn text_or_none(o: Option<String>, t: Seq<char>) -> bool {
    if t.len() == 0 {
        o is None
    } else {
        o matches Some(s) && s@ == t
    }
}

/// The tool calls made from the materialised slots.
pub open spec fn calls_from_slots(tcs: Seq<ToolCall>, m: Seq<SlotView>) -> bool {
    &&& tcs.len() == m.len()
    &&& forall|i: int|
        0 <= i < m.len() ==> {
            &&& #[trigger] tcs[i].id@ == m[i].id->0
            &&& tcs[i].kind@ == "function"@
            &&& tcs[i].function.name@ == m[i].name
            &&& tcs[i].function.arguments@ == m[i].args
        }
}

/// The assistant message recorded at the end of a model turn.
pub open spec fn assistant_reply(msg: Message, text: Seq<char>, reasoning: Seq<char>, m: Seq<SlotView>) -> bool {
    msg matches Message::Assistant { content, reasoning: r, tool_calls } && text_or_none(
        content,
        text,
    ) && text_or_none(r, reasoning) && (if m.len() == 0 {
        tool_calls is None
    } else {
        tool_calls matches Some(tcs) && calls_from_slots(tcs@, m)
    })
}

/// The stream of a model turn is over: the tool calls are materialised in
/// index order, the assistant message is recorded, and the loop either
/// ends with the reply text or runs the tool calls.
pub open spec fn ends_stream(v: TurnView, w: TurnView, act: TurnAction, ui: Seq<UiEvent>) -> bool {
    let m = materialised(v.slots);
    let stops = m.len() == 0 || v.finish_reason != "tool_calls"@;
    let u = TurnView {
        history: w.history,
        slots: Seq::empty(),
        call_msg: v.history.len(),
        cursor: 0,
        ..v
    };
    &&& w.history.len() == v.history.len() + 1
    &&& w.history.subrange(0, v.history.len() as int) == v.history
    &&& assistant_reply(w.history.last(), v.text, v.reasoning, m)
    &&& ui.len() == m.len() + (if stops {
        1int
    } else {
        0int
    })
    &&& forall|i: int|
        0 <= i < m.len() ==> (#[trigger] ui[i] matches UiEvent::ToolArgs {
            id,
            args,
            attachment_count,
        } && id@ == m[i].id->0 && args@ == m[i].args && attachment_count == 0)
    &&& if stops {
        &&& ui.last() is Done
        &&& finishes(u, w, act)
        &&& act matches TurnAction::Finish(Ok(t)) && t@ == v.text
    } else {
        dispatches(u, w, act)
    }
}

/// One stream event.
pub open spec fn on_stream_event(
    v: TurnView,
    se: StreamEvent,
    w: TurnView,
    act: TurnAction,
    ui: Seq<UiEvent>,
) -> bool {
    match se {
        StreamEvent::Delta { text } => {
            &&& w == TurnView { text: v.text + text@, ..v }
            &&& act is NextStreamEvent
            &&& ui.len() == 1
            &&& ui[0] matches UiEvent::Delta(t) && t@ == text@
        },
        StreamEvent::ReasoningDelta { text } => {
            &&& w == TurnView { reasoning: v.reasoning + text@, ..v }
            &&& act is NextStreamEvent
            &&& ui.len() == 1
            &&& ui[0] matches UiEvent::Reasoning(t) && t@ == text@
        },
        StreamEvent::ToolCallStart { id, name, index } => {
            &&& w == TurnView {
                slots: slots_after_start(v.slots, index as nat, id@, name@),
                ..v
            }
            &&& act is NextStreamEvent
            &&& ui.len() == 1
            &&& ui[0] matches UiEvent::ToolStart { id: i, name: n, args_preview: p }
                && i@ == id@ && n@ == name@ && p@.len() == 0
        },
        StreamEvent::ToolCallDelta { index, arguments_delta } => {
            &&& w == TurnView {
                slots: slots_after_delta(v.slots, index as nat, arguments_delta@),
                ..v
            }
            &&& act is NextStreamEvent
            &&& ui.len() == 0
        },
        StreamEvent::Done { stop_reason, .. } => ends_stream(
            TurnView { finish_reason: stop_reason@, ..v },
            w,
            act,
            ui,
        ),
        StreamEvent::Error { message, .. } => {
            &&& finishes(v, w, act)
            &&& ui.len() == 1
            &&& ui[0] matches UiEvent::Error(m) && m@ == message@
            &&& act matches TurnAction::Finish(Err(HubError::Provider { provider, message: m }))
                && provider@ == v.label && m@ == message@
        },
    }
}

/// What one step of the loop does.
pub open spec fn step_spec(
    v: TurnView,
    ev: TurnEvent,
    w: TurnView,
    act: TurnAction,
    ui: Seq<UiEvent>,
) -> bool {
    match ev {
        TurnEvent::ToolsListed(Err(e)) => {
            &&& finishes(v, w, act)
            &&& ui.len() == 0
            &&& act == TurnAction::Finish(Err(e))
        },
        TurnEvent::ToolsListed(Ok(defs)) => {
            &&& next_turn_or_stop(TurnView { tools: defs@, ..v }, w, act)
            &&& ui.len() == 0
        },
        TurnEvent::ChatFailed(e) => {
            &&& finishes(v, w, act)
            &&& ui.len() == 0
            &&& act == TurnAction::Finish(Err(e))
        },
        TurnEvent::Stream(se) => on_stream_event(v, se, w, act, ui),
        TurnEvent::StreamEnded => ends_stream(v, w, act, ui),
        TurnEvent::GuardAnswer(Err(e)) => {
            &&& finishes(v, w, act)
            &&& ui.len() == 0
            &&& act == TurnAction::Finish(Err(e))
        },
        TurnEvent::GuardAnswer(Ok(true)) => {
            let f = turn_calls(v)[v.cursor as int].function;
            &&& w == TurnView { phase: Phase::AwaitingTool, ..v }
            &&& ui.len() == 0
            &&& act matches TurnAction::CallTool { name, arguments } && name@ == f.name@
                && arguments@ == f.arguments@
        },
        TurnEvent::GuardAnswer(Ok(false)) => {
            let tc = turn_calls(v)[v.cursor as int];
            &&& ui.len() == 1
            &&& ui[0] matches UiEvent::SendBlocked { chat, message } && chat@ == v.pending_chat
                && message@ == v.pending_message
            &&& pushed_tool_reply(v.history, w.history, tc.id@, declined_json())
            &&& dispatches(TurnView { history: w.history, cursor: v.cursor + 1, ..v }, w, act)
        },
        TurnEvent::ToolOutcome(o) => {
            let tc = turn_calls(v)[v.cursor as int];
            let errs: int = if outcome_error(tc.function.name@, o) is Some {
                1
            } else {
                0
            };
            &&& ui.len() == errs + 1
            &&& errs == 1 ==> (ui[0] matches UiEvent::Error(m) && m@ == outcome_error(
                tc.function.name@,
                o,
            )->0)
            &&& ui.last() matches UiEvent::ToolDone { id, name, result_preview, attachments }
                && id@ == tc.id@ && name@ == tc.function.name@ && result_preview@ == tool_preview(
                outcome_text(o),
            ) && attachments@ == outcome_blocks(o)
            &&& pushed_tool_reply(v.history, w.history, tc.id@, outcome_text(o))
            &&& dispatches(TurnView { history: w.history, cursor: v.cursor + 1, ..v }, w, act)
        },
    }
}

/// A dispatch calls only tools that are not send tools; send tools go to
/// the guard.
proof fn lemma_dispatch_calls_free_tools(v: TurnView, w: TurnView, act: TurnAction)
    requires
        dispatches(v, w, act),
    ensures
        act matches TurnAction::CallTool { name, .. } ==> !is_send_tool_name(name@),
{
}

/// No step of the loop calls a tool of the original send list, or a staging
/// tool, except the step that receives the user's approval while the loop
/// awaits it.
pub proof fn lemma_named_send_tools_need_approval(
    v: TurnView,
    ev: TurnEvent,
    w: TurnView,
    act: TurnAction,
    ui: Seq<UiEvent>,
)
    requires
        accepts_event(v, ev),
        step_spec(v, ev, w, act, ui),
        act matches TurnAction::CallTool { name, .. } && guarded_by_name(name@),
    ensures
        v.phase == Phase::AwaitingApproval,
        ev matches TurnEvent::GuardAnswer(Ok(true)),
{
    let name = act->name;
    lemma_named_tools_are_send_tools(name@);
    assert forall|v2: TurnView, w2: TurnView, a2: TurnAction| #[trigger] dispatches(v2, w2, a2) implies (
    a2 matches TurnAction::CallTool { name, .. } ==> !is_send_tool_name(name@)) by {
        lemma_dispatch_calls_free_tools(v2, w2, a2);
    }
}

// ---------------------------------------------------------------------
// Lemmas
// ---------------------------------------------------------------------
proof fn lemma_upsert_split(
    slots: Seq<SlotView>,
    p: int,
    index: nat,
    fresh: SlotView,
    f: spec_fn(SlotView) -> SlotView,
)
    requires
        0 <= p <= slots.len(),
        forall|i: int| 0 <= i < p ==> #[trigger] slots[i].index < index,
        p < slots.len() ==> slots[p].index >= index,
    ensures
        p < slots.len() && slots[p].index == index ==> slots_upsert(slots, index, fresh, f)
            == slots.update(p, f(slots[p])),
        !(p < slots.len() && slots[p].index == index) ==> slots_upsert(slots, index, fresh, f)
            == slots.insert(p, fresh),
    decreases p,
{
    if p == 0 {
        if slots.len() > 0 && slots[0].index == index {
            assert(seq![f(slots[0])] + slots.drop_first() =~= slots.update(0, f(slots[0])));
        } else if slots.len() > 0 {
            assert(seq![fresh] + slots =~= slots.insert(0, fresh));
        } else {
            assert(seq![fresh] =~= slots.insert(0, fresh));
        }
    } else {
        let rest = slots.drop_first();
        assert forall|i: int| 0 <= i < p - 1 implies #[trigger] rest[i].index < index by {
            assert(rest[i] == slots[i + 1]);
        }
        lemma_upsert_split(rest, p - 1, index, fresh, f);
        if p < slots.len() && slots[p].index == index {
            assert(seq![slots[0]] + rest.update(p - 1, f(rest[p - 1])) =~= slots.update(
                p,
                f(slots[p]),
            ));
        } else {
            assert(seq![slots[0]] + rest.insert(p - 1, fresh) =~= slots.insert(p, fresh));
        }
    }
}

proof fn lemma_materialised_push(slots: Seq<SlotView>, s: SlotView)
    ensures
        materialised(slots.push(s)) == (if s.id is Some {
            materialised(slots).push(s)
        } else {
            materialised(slots)
        }),
{
    assert(slots.push(s).drop_last() =~= slots);
}

/// The tool calls of a model turn come out in increasing index order, each
/// index once, whatever order their stream events arrived in.
pub proof fn tool_calls_in_index_order(slots: Seq<SlotView>)
    requires
        slots_sorted(slots),
    ensures
        slots_sorted(materialised(slots)),
    decreases slots.len(),
{
    if slots.len() > 0 {
        let rest = slots.drop_last();
        assert(slots_sorted(rest)) by {
            assert forall|i: int, j: int| 0 <= i < j < rest.len() implies rest[i].index < rest[j].index by {
                assert(rest[i] == slots[i] && rest[j] == slots[j]);
            }
        }
        tool_calls_in_index_order(rest);
        lemma_materialised_from(rest);
        if slots.last().id is Some {
            let m = materialised(rest);
            assert forall|i: int, j: int| 0 <= i < j < m.len() + 1 implies #[trigger] m.push(slots.last())[i].index
                < #[trigger] m.push(slots.last())[j].index by {
                if j == m.len() {
                    let k = choose|k: int| 0 <= k < rest.len() && rest[k] == m[i];
                    assert(rest[k] == slots[k]);
                }
            }
        }
    }
}

proof fn lemma_materialised_from(slots: Seq<SlotView>)
    ensures
        forall|i: int| 0 <= i < materialised(slots).len() ==> exists|k: int|
            0 <= k < slots.len() && slots[k] == #[trigger] materialised(slots)[i],
    decreases slots.len(),
{
    if slots.len() > 0 {
        let rest = slots.drop_last();
        lemma_materialised_from(rest);
        let m = materialised(rest);
        assert forall|i: int| 0 <= i < materialised(slots).len() implies exists|k: int|
            0 <= k < slots.len() && slots[k] == #[trigger] materialised(slots)[i] by {
            if i < m.len() {
                let k = choose|k: int| 0 <= k < rest.len() && rest[k] == m[i];
                assert(slots[k] == rest[k]);
            } else {
                assert(slots[slots.len() - 1] == materialised(slots)[i]);
            }
        }
    }
}

// ---------------------------------------------------------------------
// Executable loop
// ---------------------------------------------------------------------
fn declined_reply() -> (r: String)
    ensures
        r@ == declined_json(),
{
    let mut r = String::new();
    push_str(&mut r, "{\"error\":\"User declined to send\",\"operationMayHaveCompleted\":false}");
    proof {
        assert(r@ =~= declined_json());
    }
    r
}

fn failed_reply(message: &str) -> (r: String)
    ensures
        r@ == failed_json(message@),
{
    let mut r = String::new();
    push_str(&mut r, "{\"code\":\"TOOL_EXEC_FAILED\",\"error\":");
    push_json_quoted(&mut r, message);
    push_str(&mut r, "}");
    proof {
        assert(r@ =~= failed_json(message@));
    }
    r
}

fn push_block_json(out: &mut String, b: &ToolResultBlock)
    ensures
        final(out)@ == old(out)@ + block_json(*b),
{
    match b {
        ToolResultBlock::Text { text } => {
            push_str(out, "{\"kind\":\"text\",\"text\":");
            push_json_quoted(out, text.as_str());
            push_str(out, "}");
        },
        ToolResultBlock::Image { mime_type, .. } => {
            push_str(out, "{\"kind\":\"image\",\"mime_type\":");
            push_json_quoted(out, mime_type.as_str());
            push_str(out, "}");
        },
        ToolResultBlock::Audio { mime_type, .. } => {
            push_str(out, "{\"kind\":\"audio\",\"mime_type\":");
            push_json_quoted(out, mime_type.as_str());
            push_str(out, "}");
        },
        ToolResultBlock::Unsupported { mime_type, note } => {
            push_str(out, "{\"kind\":\"unsupported\",\"mime_type\":");
            push_json_quoted(out, mime_type.as_str());
            push_str(out, ",\"note\":");
            push_json_quoted(out, note.as_str());
            push_str(out, "}");
        },
    }
    proof {
        assert(out@ =~= old(out)@ + block_json(*b));
    }
}

/// The JSON array summarising tool result blocks, as the history records it.
pub fn blocks_summary(blocks: &Vec<ToolResultBlock>) -> (r: String)
    ensures
        r@ == blocks_json(blocks@),
{
    let mut r = String::new();
    push_str(&mut r, "[");
    let mut i: usize = 0;
    while i < blocks.len()
        invariant
            i <= blocks.len(),
            r@ == "["@ + blocks_json_items(blocks@.subrange(0, i as int)),
        decreases blocks.len() - i,
    {
        let ghost before = r@;
        if i > 0 {
            push_str(&mut r, ",");
        }
        push_block_json(&mut r, &blocks[i]);
        proof {
            let s = blocks@.subrange(0, i + 1);
            assert(s.drop_last() =~= blocks@.subrange(0, i as int));
            assert(s.last() == blocks@[i as int]);
            if i == 0 {
                assert(blocks@.subrange(0, 0) =~= Seq::<ToolResultBlock>::empty());
                assert(r@ =~= "["@ + blocks_json_items(s));
            } else {
                assert(r@ =~= "["@ + blocks_json_items(s));
            }
        }
        i = i + 1;
    }
    push_str(&mut r, "]");
    proof {
        assert(blocks@.subrange(0, blocks.len() as int) =~= blocks@);
        assert(r@ =~= blocks_json(blocks@));
    }
    r
}

/// The first 200 bytes of a tool result and an ellipsis, or the whole text
/// when it is no longer than that.
pub fn preview_text(s: &String) -> (r: String)
    requires
        preview_cuttable(s@),
    ensures
        r@ == tool_preview(s@),
{
    let t = s.as_str();
    proof {
        assert(t.spec_bytes() == encode_utf8(s@));
    }
    if t.as_bytes().len() > 200 {
        let (head, _tail) = t.split_at(200);
        let mut r = head.to_owned();
        proof {
            encode_utf8_decode_utf8(head@);
        }
        push_str(&mut r, "…");
        r
    } else {
        s.clone()
    }
}

/// Whether a text can be cut after its first 200 bytes.
pub fn cuttable(s: &String) -> (r: bool)
    ensures
        r == preview_cuttable(s@),
{
    let t = s.as_str();
    proof {
        assert(t.spec_bytes() == encode_utf8(s@));
    }
    t.as_bytes().len() <= 200 || t.is_char_boundary(200)
}

fn error_line(name: &String, message: &str) -> (r: String)
    ensures
        r@ == name@ + " failed: "@ + message@,
{
    let mut r = name.clone();
    push_str(&mut r, " failed: ");
    push_str(&mut r, message);
    r
}

/// The text the history records for a tool call's outcome.
pub fn outcome_reply(o: &HubResult<ToolResult>) -> (r: String)
    ensures
        r@ == outcome_text(*o),
{
    match o {
        Ok(ToolResult::Success { blocks }) => blocks_summary(blocks),
        Ok(ToolResult::Failed { message }) => failed_reply(message.as_str()),
        Err(e) => {
            let m = e.message();
            failed_reply(m.as_str())
        },
    }
}

impl TurnMachine {
    /// Starts a turn: the user's input joins the history and the tools are
    /// listed first.
    pub fn start(
        history: Vec<Message>,
        user_input: String,
        max_tool_turns: usize,
        provider_label: String,
    ) -> (r: (TurnMachine, TurnAction))
        ensures
            turn_wf(r.0@),
            r.0@.history == history@.push(Message::User { content: user_input }),
            r.0@.phase == Phase::ListingTools,
            r.0@.turns_started == 0,
            r.0@.max_turns == max_tool_turns,
            r.0@.label == provider_label@,
            r.0@.tools.len() == 0,
            r.1 is ListTools,
    {
        let mut history = history;
        history.push(Message::User { content: user_input });
        let m = TurnMachine {
            max_tool_turns,
            provider_label,
            history,
            tools: Vec::new(),
            phase: Phase::ListingTools,
            turns_started: 0,
            text: String::new(),
            reasoning: String::new(),
            slots: Vec::new(),
            finish_reason: String::new(),
            call_msg: 0,
            cursor: 0,
            pending_chat: String::new(),
            pending_message: String::new(),
        };
        proof {
            assert(m@.slots =~= Seq::<SlotView>::empty());
        }
        (m, TurnAction::ListTools)
    }

    /// The conversation so far.
    pub fn history(&self) -> (r: &Vec<Message>)
        ensures
            r@ == self@.history,
    {
        &self.history
    }

    /// The tools the model may call.
    pub fn tools(&self) -> (r: &Vec<ToolDefinition>)
        ensures
            r@ == self@.tools,
    {
        &self.tools
    }

    /// Where the loop stands.
    pub fn phase(&self) -> (r: Phase)
        ensures
            r == self@.phase,
    {
        self.phase
    }

    /// Hands the conversation back.
    pub fn into_history(self) -> (r: Vec<Message>)
        ensures
            r@ == self@.history,
    {
        self.history
    }

    /// Whether `step` takes this event now.
    pub fn accepts(&self, ev: &TurnEvent) -> (r: bool)
        ensures
            r == accepts_event(self@, *ev),
    {
        match ev {
            TurnEvent::ToolsListed(_) => self.phase == Phase::ListingTools,
            TurnEvent::ChatFailed(_) | TurnEvent::Stream(_) | TurnEvent::StreamEnded => self.phase
                == Phase::Chatting,
            TurnEvent::GuardAnswer(_) => self.phase == Phase::AwaitingApproval,
            TurnEvent::ToolOutcome(o) => {
                if self.phase != Phase::AwaitingTool {
                    false
                } else {
                    let t = outcome_reply(o);
                    cuttable(&t)
                }
            },
        }
    }

    fn finish(&mut self, result: HubResult<String>) -> (act: TurnAction)
        ensures
            finishes(old(self)@, final(self)@, act),
            act == TurnAction::Finish(result),
    {
        self.phase = Phase::Finished;
        TurnAction::Finish(result)
    }

    fn next_turn_or_stop(&mut self) -> (act: TurnAction)
        requires
            turn_wf((TurnView { phase: Phase::Chatting, ..old(self)@ })),
        ensures
            turn_wf(final(self)@),
            next_turn_or_stop(old(self)@, final(self)@, act),
    {
        if self.turns_started >= self.max_tool_turns {
            let mut m = String::new();
            push_str(&mut m, "max_tool_turns=");
            push_decimal(&mut m, self.max_tool_turns as u64);
            push_str(&mut m, " exceeded");
            proof {
                assert(m@ =~= exceeded_text(self.max_tool_turns as nat));
            }
            self.finish(Err(HubError::Config(m)))
        } else {
            self.turns_started = self.turns_started + 1;
            self.text = String::new();
            self.reasoning = String::new();
            self.slots = Vec::new();
            let mut stop = String::new();
            push_str(&mut stop, "stop");
            self.finish_reason = stop;
            self.phase = Phase::Chatting;
            proof {
                assert(self@.slots =~= Seq::<SlotView>::empty());
                assert(self@.finish_reason =~= "stop"@);
                assert(self@ == TurnView {
                    phase: Phase::Chatting,
                    turns_started: old(self)@.turns_started + 1,
                    text: Seq::empty(),
                    reasoning: Seq::empty(),
                    slots: Seq::empty(),
                    finish_reason: "stop"@,
                    ..old(self)@
                });
            }
            TurnAction::Chat
        }
    }

    fn call_count(&self) -> (n: usize)
        ensures
            n == turn_calls(self@).len(),
    {
        if self.call_msg < self.history.len() {
            match &self.history[self.call_msg] {
                Message::Assistant { tool_calls: Some(tcs), .. } => tcs.len(),
                _ => 0,
            }
        } else {
            0
        }
    }

    fn call_at(&self, k: usize) -> (r: (String, String, String))
        requires
            k < turn_calls(self@).len(),
        ensures
            r.0@ == turn_calls(self@)[k as int].id@,
            r.1@ == turn_calls(self@)[k as int].function.name@,
            r.2@ == turn_calls(self@)[k as int].function.arguments@,
    {
        match &self.history[self.call_msg] {
            Message::Assistant { tool_calls: Some(tcs), .. } => {
                let tc = &tcs[k];
                (tc.id.clone(), tc.function.name.clone(), tc.function.arguments.clone())
            },
            _ => {
                proof {
                    assert(false);
                }
                (String::new(), String::new(), String::new())
            },
        }
    }

    fn dispatch(&mut self) -> (act: TurnAction)
        requires
            turn_wf((TurnView { phase: Phase::Chatting, ..old(self)@ })),
        ensures
            turn_wf(final(self)@),
            dispatches(old(self)@, final(self)@, act),
    {
        let n = self.call_count();
        if self.cursor >= n {
            return self.next_turn_or_stop();
        }
        let (_id, name, args) = self.call_at(self.cursor);
        if is_send_tool(name.as_str()) {
            let chat = match json_str_member(args.as_str(), "chatName") {
                Some(c) => c,
                None => "<unknown>".to_owned(),
            };
            let message = match json_str_member(args.as_str(), "message") {
                Some(m) => m,
                None => String::new(),
            };
            self.pending_chat = chat.clone();
            self.pending_message = message.clone();
            self.phase = Phase::AwaitingApproval;
            TurnAction::AskApproval { chat, message, tool: name }
        } else {
            self.phase = Phase::AwaitingTool;
            TurnAction::CallTool { name, arguments: args }
        }
    }

    fn slot_position(&self, index: usize) -> (p: usize)
        requires
            slots_sorted(self@.slots),
        ensures
            p <= self@.slots.len(),
            forall|i: int| 0 <= i < p ==> #[trigger] self@.slots[i].index < index,
            p < self@.slots.len() ==> self@.slots[p as int].index >= index,
    {
        let mut p: usize = 0;
        while p < self.slots.len() && self.slots[p].index < index
            invariant
                p <= self.slots.len(),
                self@.slots.len() == self.slots.len(),
                forall|i: int| 0 <= i < p ==> #[trigger] self@.slots[i].index < index,
            decreases self.slots.len() - p,
        {
            p = p + 1;
        }
        p
    }

    fn on_start(&mut self, index: usize, id: String, name: String)
        requires
            turn_wf(old(self)@),
            old(self)@.phase == Phase::Chatting,
        ensures
            turn_wf(final(self)@),
            final(self)@ == (TurnView {
                slots: slots_after_start(old(self)@.slots, index as nat, id@, name@),
                ..old(self)@
            }),
    {
        let ghost sv = self@.slots;
        let ghost fresh_v = started_slot(index as nat, id@, name@);
        let ghost f = |s: SlotView| started_slot(index as nat, id@, name@);
        let p = self.slot_position(index);
        let fresh = Slot { index, id: Some(id), name, args: String::new() };
        proof {
            assert(fresh@ == fresh_v);
            lemma_upsert_split(sv, p as int, index as nat, fresh_v, f);
        }
        if p < self.slots.len() && self.slots[p].index == index {
            self.slots.set(p, fresh);
            proof {
                assert(self@.slots =~= sv.update(p as int, f(sv[p as int])));
            }
        } else {
            self.slots.insert(p, fresh);
            proof {
                assert(self@.slots =~= sv.insert(p as int, fresh_v));
            }
        }
        proof {
            let nv = self@.slots;
            assert forall|i: int, j: int| 0 <= i < j < nv.len() implies nv[i].index < nv[j].index by {
                if p < sv.len() && sv[p as int].index == index {
                } else {
                    if j < p {
                    } else if j == p {
                        assert(nv[i] == sv[i]);
                    } else if i < p {
                        assert(nv[j] == sv[j - 1]);
                    } else if i == p {
                        assert(nv[j] == sv[j - 1]);
                    } else {
                        assert(nv[i] == sv[i - 1]);
                        assert(nv[j] == sv[j - 1]);
                    }
                }
            }
        }
    }

    fn on_delta(&mut self, index: usize, delta: String)
        requires
            turn_wf(old(self)@),
            old(self)@.phase == Phase::Chatting,
        ensures
            turn_wf(final(self)@),
            final(self)@ == (TurnView {
                slots: slots_after_delta(old(self)@.slots, index as nat, delta@),
                ..old(self)@
            }),
    {
        let ghost sv = self@.slots;
        let ghost fresh_v = SlotView { index: index as nat, id: None, name: Seq::empty(), args: delta@ };
        let ghost f = |s: SlotView| SlotView { args: s.args + delta@, ..s };
        let p = self.slot_position(index);
        proof {
            lemma_upsert_split(sv, p as int, index as nat, fresh_v, f);
        }
        if p < self.slots.len() && self.slots[p].index == index {
            let mut s = self.slots.remove(p);
            push_str(&mut s.args, delta.as_str());
            proof {
                assert(s@ == f(sv[p as int]));
            }
            self.slots.insert(p, s);
            proof {
                assert(self@.slots =~= sv.update(p as int, f(sv[p as int])));
            }
        } else {
            let fresh = Slot { index, id: None, name: String::new(), args: delta };
            proof {
                assert(fresh@ == fresh_v);
            }
            self.slots.insert(p, fresh);
            proof {
                assert(self@.slots =~= sv.insert(p as int, fresh_v));
            }
        }
        proof {
            let nv = self@.slots;
            assert forall|i: int, j: int| 0 <= i < j < nv.len() implies nv[i].index < nv[j].index by {
                if p < sv.len() && sv[p as int].index == index {
                } else {
                    if j < p {
                    } else if j == p {
                        assert(nv[i] == sv[i]);
                    } else if i < p {
                        assert(nv[j] == sv[j - 1]);
                    } else if i == p {
                        assert(nv[j] == sv[j - 1]);
                    } else {
                        assert(nv[i] == sv[i - 1]);
                        assert(nv[j] == sv[j - 1]);
                    }
                }
            }
        }
    }

    #[verifier::spinoff_prover]
    #[verifier::rlimit(30)]
    fn end_stream(&mut self) -> (out: (TurnAction, Vec<UiEvent>))
        requires
            turn_wf(old(self)@),
            old(self)@.phase == Phase::Chatting,
        ensures
            turn_wf(final(self)@),
            ends_stream(old(self)@, final(self)@, out.0, out.1@),
    {
        let ghost v = self@;
        let ghost sv = self@.slots;
        let mut slots: Vec<Slot> = Vec::new();
        std::mem::swap(&mut slots, &mut self.slots);
        proof {
            assert(slots@.map_values(|s: Slot| s@) == sv);
        }
        let mut calls: Vec<ToolCall> = Vec::new();
        let mut ui: Vec<UiEvent> = Vec::new();
        let mut i: usize = 0;
        while i < slots.len()
            invariant
                i <= slots.len(),
                slots@.map_values(|s: Slot| s@) == sv,
                calls_from_slots(calls@, materialised(sv.take(i as int))),
                ui@.len() == calls@.len(),
                forall|k: int|
                    0 <= k < ui@.len() ==> (#[trigger] ui@[k] matches UiEvent::ToolArgs {
                        id,
                        args,
                        attachment_count,
                    } && id@ == materialised(sv.take(i as int))[k].id->0 && args@ == materialised(
                        sv.take(i as int),
                    )[k].args && attachment_count == 0),
            decreases slots.len() - i,
        {
            let ghost m0 = materialised(sv.take(i as int));
            proof {
                assert(sv.take(i + 1) =~= sv.take(i as int).push(sv[i as int]));
                lemma_materialised_push(sv.take(i as int), sv[i as int]);
                assert(sv[i as int] == slots@[i as int]@);
            }
            let ghost calls0 = calls@;
            let ghost ui0 = ui@;
            let s = &slots[i];
            match &s.id {
                Some(id) => {
                    let mut kind = String::new();
                    push_str(&mut kind, "function");
                    calls.push(
                        ToolCall {
                            id: id.clone(),
                            kind,
                            function: FunctionCall {
                                name: s.name.clone(),
                                arguments: s.args.clone(),
                            },
                        },
                    );
                    ui.push(
                        UiEvent::ToolArgs {
                            id: id.clone(),
                            args: s.args.clone(),
                            attachment_count: 0,
                        },
                    );
                    proof {
                        let m1 = materialised(sv.take(i + 1));
                        assert(m1 == m0.push(sv[i as int]));
                        assert forall|k: int| 0 <= k < m1.len() implies {
                            &&& #[trigger] calls@[k].id@ == m1[k].id->0
                            &&& calls@[k].kind@ == "function"@
                            &&& calls@[k].function.name@ == m1[k].name
                            &&& calls@[k].function.arguments@ == m1[k].args
                        } by {
                            if k < m0.len() {
                                assert(calls@[k] == calls0[k]);
                            }
                        }
                        assert(calls_from_slots(calls@, m1));
                        assert forall|k: int| 0 <= k < ui@.len() implies (#[trigger] ui@[k] matches UiEvent::ToolArgs {
                            id,
                            args,
                            attachment_count,
                        } && id@ == m1[k].id->0 && args@ == m1[k].args && attachment_count == 0) by {
                            if k < m0.len() {
                                assert(ui@[k] == ui0[k]);
                            }
                        }
                    }
                },
                None => {
                    proof {
                        assert(materialised(sv.take(i + 1)) == m0);
                    }
                },
            }
            i = i + 1;
        }
        proof {
            assert(sv.take(slots.len() as int) =~= sv);
        }
        let n = calls.len();
        let text = self.text.clone();
        let content = if self.text.as_str().is_empty() {
            None
        } else {
            Some(self.text.clone())
        };
        let reasoning = if self.reasoning.as_str().is_empty() {
            None
        } else {
            Some(self.reasoning.clone())
        };
        let tool_calls = if n == 0 {
            None
        } else {
            Some(calls)
        };
        self.history.push(Message::Assistant { content, reasoning, tool_calls });
        self.call_msg = self.history.len() - 1;
        self.cursor = 0;
        proof {
            assert(self@.history.subrange(0, v.history.len() as int) =~= v.history);
            assert(self@.slots =~= Seq::<SlotView>::empty());
        }
        let stops = n == 0 || !same_text(self.finish_reason.as_str(), "tool_calls");
        if stops {
            ui.push(UiEvent::Done);
            let act = self.finish(Ok(text));
            (act, ui)
        } else {
            let act = self.dispatch();
            (act, ui)
        }
    }

    fn on_guard(&mut self, answer: HubResult<bool>) -> (out: (TurnAction, Vec<UiEvent>))
        requires
            turn_wf(old(self)@),
            old(self)@.phase == Phase::AwaitingApproval,
        ensures
            turn_wf(final(self)@),
            step_spec(old(self)@, TurnEvent::GuardAnswer(answer), final(self)@, out.0, out.1@),
    {
        match answer {
            Err(e) => {
                let act = self.finish(Err(e));
                (act, Vec::new())
            },
            Ok(true) => {
                let (_id, name, args) = self.call_at(self.cursor);
                self.phase = Phase::AwaitingTool;
                (TurnAction::CallTool { name, arguments: args }, Vec::new())
            },
            Ok(false) => {
                let ghost v = self@;
                let (id, _name, _args) = self.call_at(self.cursor);
                let _n = self.call_count();
                let mut ui: Vec<UiEvent> = Vec::new();
                ui.push(
                    UiEvent::SendBlocked {
                        chat: self.pending_chat.clone(),
                        message: self.pending_message.clone(),
                    },
                );
                self.history.push(Message::Tool { tool_call_id: id, content: declined_reply() });
                self.cursor = self.cursor + 1;
                proof {
                    assert(self@.history.subrange(0, v.history.len() as int) =~= v.history);
                    assert(self@ == TurnView {
                        history: self@.history,
                        cursor: v.cursor + 1,
                        ..v
                    });
                }
                let act = self.dispatch();
                (act, ui)
            },
        }
    }

    fn on_outcome(&mut self, o: HubResult<ToolResult>) -> (out: (TurnAction, Vec<UiEvent>))
        requires
            turn_wf(old(self)@),
            old(self)@.phase == Phase::AwaitingTool,
            preview_cuttable(outcome_text(o)),
        ensures
            turn_wf(final(self)@),
            step_spec(old(self)@, TurnEvent::ToolOutcome(o), final(self)@, out.0, out.1@),
    {
        let ghost v = self@;
        let ghost og = o;
        let (id, name, _args) = self.call_at(self.cursor);
        let _n = self.call_count();
        let reply = outcome_reply(&o);
        let preview = preview_text(&reply);
        let mut ui: Vec<UiEvent> = Vec::new();
        match &o {
            Ok(ToolResult::Success { .. }) => {},
            Ok(ToolResult::Failed { message }) => {
                ui.push(UiEvent::Error(error_line(&name, message.as_str())));
            },
            Err(e) => {
                let m = e.message();
                ui.push(UiEvent::Error(error_line(&name, m.as_str())));
            },
        }
        let attachments = match o {
            Ok(ToolResult::Success { blocks }) => blocks,
            _ => Vec::new(),
        };
        proof {
            assert(attachments@ == outcome_blocks(og));
        }
        ui.push(
            UiEvent::ToolDone { id: id.clone(), name, result_preview: preview, attachments },
        );
        self.history.push(Message::Tool { tool_call_id: id, content: reply });
        self.cursor = self.cursor + 1;
        proof {
            assert(self@.history.subrange(0, v.history.len() as int) =~= v.history);
            assert(self@ == TurnView { history: self@.history, cursor: v.cursor + 1, ..v });
        }
        let act = self.dispatch();
        (act, ui)
    }

    /// One step of the loop: takes the outcome of the last action and says
    /// what to do next. A tool that sends is only ever called right after
    /// the user approved it, the tools offered are exactly those the MCP
    /// server listed, the history only grows, and no more than
    /// `max_tool_turns` model turns are opened.
    pub fn step(&mut self, ev: TurnEvent) -> (out: (TurnAction, Vec<UiEvent>))
        requires
            turn_wf(old(self)@),
            accepts_event(old(self)@, ev),
        ensures
            turn_wf(final(self)@),
            step_spec(old(self)@, ev, final(self)@, out.0, out.1@),
            final(self)@.history.len() >= old(self)@.history.len(),
            final(self)@.history.subrange(0, old(self)@.history.len() as int) == old(self)@.history,
            final(self)@.turns_started <= final(self)@.max_turns,
            ev matches TurnEvent::ToolsListed(Ok(defs)) ==> final(self)@.tools == defs@,
            !(ev is ToolsListed) ==> final(self)@.tools == old(self)@.tools,
            out.0 matches TurnAction::CallTool { name, .. } && is_send_tool_name(name@) ==> (
            old(self)@.phase == Phase::AwaitingApproval && ev matches TurnEvent::GuardAnswer(Ok(true))),
    {
        let ghost v = self@;
        let ghost evg = ev;
        let out = match ev {
            TurnEvent::ToolsListed(Err(e)) => {
                let act = self.finish(Err(e));
                (act, Vec::new())
            },
            TurnEvent::ToolsListed(Ok(defs)) => {
                self.tools = defs;
                let act = self.next_turn_or_stop();
                (act, Vec::new())
            },
            TurnEvent::ChatFailed(e) => {
                let act = self.finish(Err(e));
                (act, Vec::new())
            },
            TurnEvent::Stream(se) => self.on_stream(se),
            TurnEvent::StreamEnded => self.end_stream(),
            TurnEvent::GuardAnswer(answer) => self.on_guard(answer),
            TurnEvent::ToolOutcome(o) => self.on_outcome(o),
        };
        proof {
            assert(self@.history.subrange(0, v.history.len() as int) == v.history);
        }
        out
    }

    fn on_stream(&mut self, se: StreamEvent) -> (out: (TurnAction, Vec<UiEvent>))
        requires
            turn_wf(old(self)@),
            old(self)@.phase == Phase::Chatting,
        ensures
            turn_wf(final(self)@),
            on_stream_event(old(self)@, se, final(self)@, out.0, out.1@),
    {
        match se {
            StreamEvent::Delta { text } => {
                push_str(&mut self.text, text.as_str());
                let mut ui: Vec<UiEvent> = Vec::new();
                ui.push(UiEvent::Delta(text));
                (TurnAction::NextStreamEvent, ui)
            },
            StreamEvent::ReasoningDelta { text } => {
                push_str(&mut self.reasoning, text.as_str());
                let mut ui: Vec<UiEvent> = Vec::new();
                ui.push(UiEvent::Reasoning(text));
                (TurnAction::NextStreamEvent, ui)
            },
            StreamEvent::ToolCallStart { id, name, index } => {
                let mut ui: Vec<UiEvent> = Vec::new();
                ui.push(
                    UiEvent::ToolStart {
                        id: id.clone(),
                        name: name.clone(),
                        args_preview: String::new(),
                    },
                );
                self.on_start(index, id, name);
                (TurnAction::NextStreamEvent, ui)
            },
            StreamEvent::ToolCallDelta { index, arguments_delta } => {
                self.on_delta(index, arguments_delta);
                (TurnAction::NextStreamEvent, Vec::new())
            },
            StreamEvent::Done { stop_reason, .. } => {
                self.finish_reason = stop_reason;
                self.end_stream()
            },
            StreamEvent::Error { message, .. } => {
                let mut ui: Vec<UiEvent> = Vec::new();
                ui.push(UiEvent::Error(message.clone()));
                let act = self.finish(
                    Err(HubError::Provider { provider: self.provider_label.clone(), message }),
                );
                (act, ui)
            },
        }
    }
}

} // verus!
