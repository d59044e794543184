//! Provider identities, shared chat types and the OpenAI-compatible stream logic.

pub mod catalog;
pub mod chunked;
pub mod openai_compat;
pub mod types;

pub use types::{
    FunctionCall, Message, ModelInfo, ModelTier, ProviderId, StreamEvent, ToolCall,
    ToolDefinition, Usage,
};
