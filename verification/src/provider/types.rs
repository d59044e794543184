//! Provider-agnostic types shared by the conversation loop, the MCP layer
//! and the UI.

use vstd::prelude::*;

verus! {

/// Stable provider identifier used in configuration.
#[derive(Debug, Clone, Copy, PartialEq, Eq, Structural, Hash)]
pub enum ProviderId {
    /// OpenAI / GPT-5 / o1 / GPT-4o via api.openai.com
    OpenAI,
    /// MiniMax M3 / M2.7 via api.minimax.io
    MiniMax,
    /// Anthropic via api.anthropic.com
    Anthropic,
    /// Local Ollama / LM Studio (OpenAI-compatible)
    Ollama,
}

/// The lowercase wire name of a provider.
pub open spec fn provider_wire_name(id: ProviderId) -> Seq<char> {
    match id {
        ProviderId::OpenAI => "openai"@,
        ProviderId::MiniMax => "minimax"@,
        ProviderId::Anthropic => "anthropic"@,
        ProviderId::Ollama => "ollama"@,
    }
}

impl ProviderId {
    /// Lowercase name used in config files and on the IPC boundary.
    pub fn as_str(&self) -> (s: &'static str)
        ensures
            s@ == provider_wire_name(*self),
    {
        match self {
            ProviderId::OpenAI => "openai",
            ProviderId::MiniMax => "minimax",
            ProviderId::Anthropic => "anthropic",
            ProviderId::Ollama => "ollama",
        }
    }
}

/// One chat message, tagged by role.
#[derive(Debug, Clone)]
pub enum Message {
    System { content: String },
    User { content: String },
    Assistant {
        content: Option<String>,
        reasoning: Option<String>,
        tool_calls: Option<Vec<ToolCall>>,
    },
    Tool { tool_call_id: String, content: String },
}

/// A tool call requested by the model.
#[derive(Debug, Clone)]
pub struct ToolCall {
    pub id: String,
    /// Always `"function"` for OpenAI-compatible providers.
    pub kind: String,
    pub function: FunctionCall,
}

/// The function part of a tool call.
#[derive(Debug, Clone)]
pub struct FunctionCall {
    pub name: String,
    /// Arguments as JSON text, as the model produced them.
    pub arguments: String,
}

/// A tool the model may call.
#[derive(Debug, Clone)]
pub struct ToolDefinition {
    pub name: String,
    pub description: String,
    /// JSON Schema of the parameters, as JSON text.
    pub parameters: String,
}

/// One entry of a provider's model catalogue.
#[derive(Debug, Clone)]
pub struct ModelInfo {
    pub id: String,
    pub label: String,
    pub tier: ModelTier,
    pub description: Option<String>,
    pub is_default: bool,
}

/// Coarse capability tier of a model.
#[derive(Debug, Clone, Copy, PartialEq, Eq, Structural)]
pub enum ModelTier {
    /// Flagship / most capable (slowest, most expensive)
    Flagship,
    /// Balanced default (M3, GPT-5-mini, Sonnet, qwen2.5:14b)
    Balanced,
    /// Reasoning-optimised (M2.7, o1, Opus)
    Reasoning,
    /// Fastest (highspeed variants, haiku, Flash)
    Fast,
}

/// Token accounting reported by a provider.
#[derive(Debug, Clone, Copy, PartialEq, Eq, Structural, Default)]
pub struct Usage {
    pub input_tokens: u32,
    pub output_tokens: u32,
    pub reasoning_tokens: Option<u32>,
}

/// One event of a provider's streaming reply.
#[derive(Debug, Clone)]
pub enum StreamEvent {
    /// Visible response text delta, already stripped of thinking tags.
    Delta { text: String },
    /// Reasoning / thinking content delta.
    ReasoningDelta { text: String },
    /// A tool call is starting; `index` is its position within this turn.
    ToolCallStart { id: String, name: String, index: usize },
    /// Incremental arguments for the tool call at `index`.
    ToolCallDelta { index: usize, arguments_delta: String },
    /// Stream completed.
    Done { stop_reason: String, usage: Option<Usage> },
    /// Stream aborted with a non-recoverable error.
    Error { message: String, retriable: bool },
}

/// A stream event with its texts as character sequences.
pub enum EventView {
    Delta { text: Seq<char> },
    ReasoningDelta { text: Seq<char> },
    ToolCallStart { id: Seq<char>, name: Seq<char>, index: nat },
    ToolCallDelta { index: nat, arguments_delta: Seq<char> },
    Done { stop_reason: Seq<char>, usage: Option<Usage> },
    Error { message: Seq<char>, retriable: bool },
}

impl View for StreamEvent {
    type V = EventView;

    open spec fn view(&self) -> EventView {
        match self {
            StreamEvent::Delta { text } => EventView::Delta { text: text@ },
            StreamEvent::ReasoningDelta { text } => EventView::ReasoningDelta { text: text@ },
            StreamEvent::ToolCallStart { id, name, index } => EventView::ToolCallStart {
                id: id@,
                name: name@,
                index: *index as nat,
            },
            StreamEvent::ToolCallDelta { index, arguments_delta } => EventView::ToolCallDelta {
                index: *index as nat,
                arguments_delta: arguments_delta@,
            },
            StreamEvent::Done { stop_reason, usage } => EventView::Done {
                stop_reason: stop_reason@,
                usage: *usage,
            },
            StreamEvent::Error { message, retriable } => EventView::Error {
                message: message@,
                retriable: *retriable,
            },
        }
    }
}

} // verus!
