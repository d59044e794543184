//! LINE Model Hub core: provider-agnostic chat logic, thinking-tag
//! stripping, the agentic tool loop with its send guard, MCP result
//! decoding and the command-layer rules of the desktop shell.

pub mod commands;
pub mod config;
pub mod conversation;
pub mod error;
pub mod history;
pub mod json;
pub mod keyring;
pub mod mcp;
pub mod provider;
pub mod respawn;
pub mod sse;
pub mod text;
pub mod tz;
pub mod vendor;

pub use error::{HubError, HubResult};
