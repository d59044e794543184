//! The error type shared by every module of the hub core.

use crate::text::{push_signed_decimal, push_str};
use vstd::prelude::*;

verus! {

/// Everything that can go wrong in the hub core. Errors that originate in an
/// outside library (HTTP, SQLite, JSON, I/O) carry that library's message.
#[derive(Debug, Clone)]
pub enum HubError {
    Provider { provider: String, message: String },
    InvalidArguments { tool: String, message: String },
    SendRefused { chat: String },
    McpTransport(String),
    McpProtocol { code: i32, message: String },
    Config(String),
    Keyring(String),
    Http(String),
    Sqlite(String),
    Json(String),
    Io(String),
    LineMcpNotFound,
    LineMcpSpawnFailed(String),
}

/// Result alias used throughout the crate.
pub type HubResult<T> = Result<T, HubError>;

/// The human-readable text of an error.
pub open spec fn hub_error_text(e: HubError) -> Seq<char> {
    match e {
        HubError::Provider { provider, message } => "provider error in "@ + provider@ + ": "@
            + message@,
        HubError::InvalidArguments { tool, message } => "invalid arguments for "@ + tool@ + ": "@
            + message@,
        HubError::SendRefused { chat } => "send refused by user (chat="@ + chat@ + ")"@,
        HubError::McpTransport(m) => "MCP transport error: "@ + m@,
        HubError::McpProtocol { code, message } => "MCP protocol error: code="@ + crate::text::signed_decimal(
            code as int,
        ) + " message="@ + message@,
        HubError::Config(m) => "config error: "@ + m@,
        HubError::Keyring(m) => "keyring error: "@ + m@,
        HubError::Http(m) => "HTTP error: "@ + m@,
        HubError::Sqlite(m) => "SQLite error: "@ + m@,
        HubError::Json(m) => "JSON error: "@ + m@,
        HubError::Io(m) => "I/O error: "@ + m@,
        HubError::LineMcpNotFound => "line-desktop-mcp not found. Set HUB_LINE_MCP_PATH or install via bundled resource"@,
        HubError::LineMcpSpawnFailed(m) => "line-desktop-mcp spawn failed: "@ + m@,
    }
}

fn two_parts(a: &str, x: &String, b: &str, y: &String) -> (r: String)
    ensures
        r@ == a@ + x@ + b@ + y@,
{
    let mut r = String::new();
    push_str(&mut r, a);
    push_str(&mut r, x.as_str());
    push_str(&mut r, b);
    push_str(&mut r, y.as_str());
    proof {
        assert(r@ =~= a@ + x@ + b@ + y@);
    }
    r
}

fn one_part(a: &str, x: &String) -> (r: String)
    ensures
        r@ == a@ + x@,
{
    let mut r = String::new();
    push_str(&mut r, a);
    push_str(&mut r, x.as_str());
    proof {
        assert(r@ =~= a@ + x@);
    }
    r
}

impl HubError {
    /// The error's message, as the hub shows it to the user.
    pub fn message(&self) -> (r: String)
        ensures
            r@ == hub_error_text(*self),
    {
        match self {
            HubError::Provider { provider, message } => two_parts(
                "provider error in ",
                provider,
                ": ",
                message,
            ),
            HubError::InvalidArguments { tool, message } => two_parts(
                "invalid arguments for ",
                tool,
                ": ",
                message,
            ),
            HubError::SendRefused { chat } => {
                let mut r = one_part("send refused by user (chat=", chat);
                push_str(&mut r, ")");
                r
            },
            HubError::McpTransport(m) => one_part("MCP transport error: ", m),
            HubError::McpProtocol { code, message } => {
                let mut r = String::new();
                push_str(&mut r, "MCP protocol error: code=");
                push_signed_decimal(&mut r, *code as i64);
                push_str(&mut r, " message=");
                push_str(&mut r, message.as_str());
                proof {
                    assert(r@ =~= hub_error_text(*self));
                }
                r
            },
            HubError::Config(m) => one_part("config error: ", m),
            HubError::Keyring(m) => one_part("keyring error: ", m),
            HubError::Http(m) => one_part("HTTP error: ", m),
            HubError::Sqlite(m) => one_part("SQLite error: ", m),
            HubError::Json(m) => one_part("JSON error: ", m),
            HubError::Io(m) => one_part("I/O error: ", m),
            HubError::LineMcpNotFound => {
                let mut r = String::new();
                push_str(
                    &mut r,
                    "line-desktop-mcp not found. Set HUB_LINE_MCP_PATH or install via bundled resource",
                );
                proof {
                    assert(r@ =~= hub_error_text(*self));
                }
                r
            },
            HubError::LineMcpSpawnFailed(m) => one_part("line-desktop-mcp spawn failed: ", m),
        }
    }
}

} // verus!
