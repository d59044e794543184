//! Rules of the desktop shell's command layer: provider ids and labels,
//! token budgets, tool categories, the system prompt, the send
//! confirmation text, and the shapes handed to the UI.

use crate::config::{HubConfig, ProviderEntry};
use crate::conversation::{same_text, UiEvent};
use crate::error::HubError;
use crate::mcp::{tree_entry, tree_entry_path, ToolResultBlock};
use crate::provider::types::{EventView, Message, ModelInfo, ProviderId, StreamEvent, ToolDefinition, provider_wire_name};
use crate::text::{push_char, push_decimal, push_str, starts_with, text_starts_with, decimal};
use base64::Engine;
use vstd::prelude::*;

verus! {

// ---------------------------------------------------------------------
// Provider ids
// ---------------------------------------------------------------------
/// The provider a wire name denotes.
pub open spec fn provider_of_name(s: Seq<char>) -> Option<ProviderId> {
    if s == "minimax"@ {
        Some(ProviderId::MiniMax)
    } else if s == "openai"@ {
        Some(ProviderId::OpenAI)
    } else if s == "anthropic"@ {
        Some(ProviderId::Anthropic)
    } else if s == "ollama"@ {
        Some(ProviderId::Ollama)
    } else {
        None
    }
}

/// Parses a provider's wire name.
pub fn parse_pid(s: &str) -> (r: Result<ProviderId, String>)
    ensures
        match provider_of_name(s@) {
            Some(id) => r == Ok::<ProviderId, String>(id),
            None => r matches Err(m) && m@ == "unknown provider id: "@ + s@,
        },
{
    if same_text(s, "minimax") {
        Ok(ProviderId::MiniMax)
    } else if same_text(s, "openai") {
        Ok(ProviderId::OpenAI)
    } else if same_text(s, "anthropic") {
        Ok(ProviderId::Anthropic)
    } else if same_text(s, "ollama") {
        Ok(ProviderId::Ollama)
    } else {
        let mut m = String::new();
        push_str(&mut m, "unknown provider id: ");
        push_str(&mut m, s);
        Err(m)
    }
}

/// Every provider's wire name parses back to that provider.
pub proof fn wire_names_parse_back(id: ProviderId)
    ensures
        provider_of_name(provider_wire_name(id)) == Some(id),
{
    reveal_strlit("minimax");
    reveal_strlit("openai");
    reveal_strlit("anthropic");
    reveal_strlit("ollama");
    assert("openai"@[0] != "minimax"@[0]);
    assert("anthropic"@[0] != "minimax"@[0]);
    assert("anthropic"@[0] != "openai"@[0]);
    assert("ollama"@[0] != "minimax"@[0]);
    assert("ollama"@[1] != "openai"@[1]);
    assert("ollama"@[0] != "anthropic"@[0]);
}

/// Distinct providers have distinct wire names.
pub proof fn wire_names_distinct(a: ProviderId, b: ProviderId)
    ensures
        a != b ==> provider_wire_name(a) != provider_wire_name(b),
{
    wire_names_parse_back(a);
    wire_names_parse_back(b);
}

/// A provider's display label.
pub open spec fn provider_label(id: ProviderId) -> Seq<char> {
    match id {
        ProviderId::MiniMax => "MiniMax"@,
        ProviderId::OpenAI => "OpenAI"@,
        ProviderId::Anthropic => "Anthropic"@,
        ProviderId::Ollama => "Ollama / LM Studio"@,
    }
}

/// The label shown for a provider.
pub fn label_for(id: ProviderId) -> (r: String)
    ensures
        r@ == provider_label(id),
{
    let s = match id {
        ProviderId::MiniMax => "MiniMax",
        ProviderId::OpenAI => "OpenAI",
        ProviderId::Anthropic => "Anthropic",
        ProviderId::Ollama => "Ollama / LM Studio",
    };
    s.to_owned()
}

/// The `max_tokens` budget for a provider's wire name.
pub open spec fn max_tokens_for(provider_id: Seq<char>) -> u32 {
    if provider_id == "anthropic"@ {
        8192
    } else if provider_id == "minimax"@ || provider_id == "openai"@ || provider_id == "ollama"@ {
        4096
    } else {
        2048
    }
}

/// Recommended `max_tokens` per provider: Anthropic needs an explicit,
/// generous budget; MiniMax, OpenAI and Ollama get 4096; anything else 2048.
pub fn recommended_max_tokens(provider_id: &str) -> (r: Option<u32>)
    ensures
        r == Some(max_tokens_for(provider_id@)),
{
    if same_text(provider_id, "anthropic") {
        Some(8192)
    } else if same_text(provider_id, "minimax") || same_text(provider_id, "openai") || same_text(
        provider_id,
        "ollama",
    ) {
        Some(4096)
    } else {
        Some(2048)
    }
}

// ---------------------------------------------------------------------
// Tool categories and the system prompt
// ---------------------------------------------------------------------
/// Tools that mutate LINE state and need the GUI prerequisites.
pub open spec fn send_guarded(name: Seq<char>) -> bool {
    ||| starts_with(name, "send_"@)
    ||| starts_with(name, "stage_"@)
    ||| name == "set_line_draft"@
    ||| name == "clear_line_draft"@
    ||| name == "open_line_chat"@
    ||| name == "open_line_chat_feature"@
    ||| name == "get_line_draft"@
    ||| name == "export_line_chat_history"@
}

/// The tools that the original hides in local-only mode, by their literal
/// names, besides every `send_*` tool.
pub open spec fn hidden_by_name(name: Seq<char>) -> bool {
    ||| name == "stage_line_reply"@
    ||| name == "stage_line_forward"@
    ||| name == "set_line_draft"@
    ||| name == "clear_line_draft"@
    ||| name == "open_line_chat"@
    ||| name == "open_line_chat_feature"@
    ||| name == "get_line_draft"@
    ||| name == "export_line_chat_history"@
}

/// Every `send_*` tool and every tool the original names as mutating LINE
/// state is send-guarded.
pub proof fn lemma_named_tools_are_guarded(name: Seq<char>)
    ensures
        starts_with(name, "send_"@) || hidden_by_name(name) ==> send_guarded(name),
{
    reveal_strlit("stage_");
    reveal_strlit("stage_line_reply");
    reveal_strlit("stage_line_forward");
    if name == "stage_line_reply"@ || name == "stage_line_forward"@ {
        assert(name.subrange(0, 6) =~= "stage_"@);
    }
}

/// In local-only mode a named mutating tool adds nothing to the categories
/// the system prompt lists: the prompt is the same with or without it.
pub proof fn lemma_local_only_prompt_ignores_named_tools(tools: Seq<ToolDefinition>, t: ToolDefinition)
    requires
        starts_with(t.name@, "send_"@) || hidden_by_name(t.name@),
    ensures
        prompt_categories(tools.push(t), true) == prompt_categories(tools, true),
{
    lemma_named_tools_are_guarded(t.name@);
    assert(tools.push(t).drop_last() =~= tools);
}

/// Whether a tool mutates LINE state (and is hidden in local-only mode).
pub fn is_send_guarded_tool(name: &str) -> (r: bool)
    ensures
        r == send_guarded(name@),
        hidden_by_name(name@) ==> r,
{
    proof {
        lemma_named_tools_are_guarded(name@);
    }
    text_starts_with(name, "send_") || text_starts_with(name, "stage_") || same_text(
        name,
        "set_line_draft",
    ) || same_text(name, "clear_line_draft") || same_text(
        name,
        "open_line_chat",
    ) || same_text(name, "open_line_chat_feature") || same_text(name, "get_line_draft")
        || same_text(name, "export_line_chat_history")
}

/// The category label of a tool, by the first rule that matches.
pub open spec fn tool_category(name: Seq<char>) -> Seq<char> {
    if starts_with(name, "send_"@) || name == "stage_line_reply"@ || name == "stage_line_forward"@ {
        "send (guarded)"@
    } else if name == "set_line_draft"@ || name == "get_line_draft"@ || name == "clear_line_draft"@ {
        "draft"@
    } else if starts_with(name, "export_"@) {
        "export"@
    } else if starts_with(name, "search_"@) || starts_with(name, "verify_"@) {
        "search/verify"@
    } else if name == "get_line_chat_messages"@ || name == "get_line_chatroom_history_short"@
        || name == "get_line_chatroom_history_default"@ || name
        == "get_line_chatroom_history_long"@ {
        "read history"@
    } else if name == "get_line_local_messages"@ {
        "read history (local + media preview)"@
    } else if name == "copy_line_message"@ || name == "translate_line_message"@ {
        "compose"@
    } else if name == "open_line_chat"@ || name == "open_line_chat_feature"@ || name
        == "get_line_capabilities"@ || name == "get_line_status"@ {
        "navigate / status"@
    } else if name == "get_line_workflow"@ || name == "prepare_line_workflow"@ {
        "workflow planning"@
    } else if name == "get_line_ui_state"@ || name == "confirm_line_chat_view"@ || name
        == "get_line_reply_source_target"@ || name == "confirm_line_reply_source_target"@ {
        "visual confirmation (caller must inspect screenshot)"@
    } else if name == "get_line_poll_state"@ {
        "polls (read-only)"@
    } else {
        "other"@
    }
}

/// A tool that the system prompt lists as "send (guarded)" is one that
/// local-only mode hides.
pub proof fn lemma_send_category_is_guarded(name: Seq<char>)
    ensures
        tool_category(name) == "send (guarded)"@ ==> send_guarded(name),
{
    reveal_strlit("send (guarded)");
    reveal_strlit("stage_line_reply");
    reveal_strlit("stage_line_forward");
    reveal_strlit("stage_");
    reveal_strlit("draft");
    reveal_strlit("export");
    reveal_strlit("search/verify");
    reveal_strlit("read history");
    reveal_strlit("read history (local + media preview)");
    reveal_strlit("compose");
    reveal_strlit("navigate / status");
    reveal_strlit("workflow planning");
    reveal_strlit("visual confirmation (caller must inspect screenshot)");
    reveal_strlit("polls (read-only)");
    reveal_strlit("other");
    let first = starts_with(name, "send_"@) || name == "stage_line_reply"@ || name
        == "stage_line_forward"@;
    if !first {
        assert(tool_category(name).len() != 14);
    } else if !starts_with(name, "send_"@) {
        assert(name.len() >= 6);
        assert(name.subrange(0, 6) =~= "stage_"@);
        assert(starts_with(name, "stage_"@));
    }
}

/// Maps a tool name to the short category label used in the system prompt.
pub fn categorize_tool(name: &str) -> (r: &'static str)
    ensures
        r@ == tool_category(name@),
{
    if text_starts_with(name, "send_") || same_text(name, "stage_line_reply") || same_text(
        name,
        "stage_line_forward",
    ) {
        "send (guarded)"
    } else if same_text(name, "set_line_draft") || same_text(name, "get_line_draft") || same_text(
        name,
        "clear_line_draft",
    ) {
        "draft"
    } else if text_starts_with(name, "export_") {
        "export"
    } else if text_starts_with(name, "search_") || text_starts_with(name, "verify_") {
        "search/verify"
    } else if same_text(name, "get_line_chat_messages") || same_text(
        name,
        "get_line_chatroom_history_short",
    ) || same_text(name, "get_line_chatroom_history_default") || same_text(
        name,
        "get_line_chatroom_history_long",
    ) {
        "read history"
    } else if same_text(name, "get_line_local_messages") {
        "read history (local + media preview)"
    } else if same_text(name, "copy_line_message") || same_text(name, "translate_line_message") {
        "compose"
    } else if same_text(name, "open_line_chat") || same_text(name, "open_line_chat_feature")
        || same_text(name, "get_line_capabilities") || same_text(name, "get_line_status") {
        "navigate / status"
    } else if same_text(name, "get_line_workflow") || same_text(name, "prepare_line_workflow") {
        "workflow planning"
    } else if same_text(name, "get_line_ui_state") || same_text(name, "confirm_line_chat_view")
        || same_text(name, "get_line_reply_source_target") || same_text(
        name,
        "confirm_line_reply_source_target",
    ) {
        "visual confirmation (caller must inspect screenshot)"
    } else if same_text(name, "get_line_poll_state") {
        "polls (read-only)"
    } else {
        "other"
    }
}

/// The categories of the listed tools, each once, in order of first
/// appearance; in local-only mode the send-guarded tools are left out.
pub open spec fn prompt_categories(tools: Seq<ToolDefinition>, local_only: bool) -> Seq<Seq<char>>
    decreases tools.len(),
{
    if tools.len() == 0 {
        Seq::empty()
    } else {
        let before = prompt_categories(tools.drop_last(), local_only);
        let name = tools.last().name@;
        if local_only && send_guarded(name) {
            before
        } else if before.contains(tool_category(name)) {
            before
        } else {
            before.push(tool_category(name))
        }
    }
}

/// Texts joined with `", "`.
pub open spec fn joined(items: Seq<Seq<char>>) -> Seq<char>
    decreases items.len(),
{
    if items.len() == 0 {
        Seq::empty()
    } else if items.len() == 1 {
        items[0]
    } else {
        joined(items.drop_last()) + ", "@ + items.last()
    }
}

/// The sentence about the active chatroom.
pub open spec fn chat_hint(active_chat: Option<Seq<char>>) -> Seq<char> {
    match active_chat {
        Some(c) => "\n\nActive chatroom: `"@ + c
            + "`. Pass this as `chatroom` for send_* tools unless the user names a different target."@,
        None => "\n\nNo chatroom is currently active in the UI — when the user asks to send something, ask which chatroom first."@,
    }
}

/// The opening of the system prompt, up to the category list.
pub open spec fn prompt_head() -> Seq<char> {
    PROMPT_HEAD@
}

/// The guardrails of the system prompt, after the category list.
pub open spec fn prompt_rules() -> Seq<char> {
    PROMPT_RULES@
}

/// The system prompt for a tool list.
pub open spec fn system_prompt(tools: Seq<ToolDefinition>, active_chat: Option<Seq<char>>, local_only: bool) -> Seq<char> {
    let cats = prompt_categories(tools, local_only);
    let list = if cats.len() == 0 {
        "(no tools loaded yet — call get_line_capabilities)"@
    } else {
        joined(cats)
    };
    prompt_head() + list + prompt_rules() + chat_hint(active_chat)
}

/// The opening of the system prompt.
pub const PROMPT_HEAD: &'static str = "You are Line 小幫手, a LINE Desktop assistant.\n\nAvailable tool categories: ";

/// The guardrails of the system prompt.
pub const PROMPT_RULES: &'static str = ".\n\nImportant guardrails:\n- Any tool whose name starts with `send_`, `stage_`, or overwrites a draft REQUIRES explicit user confirmation before being invoked. The app surfaces a native dialog; never claim a message was sent without seeing a successful tool result.\n- Read tools (`get_*`, `search_*`, `verify_*`, `copy_*`, `translate_*`) are free to call.\n- For chat history, prefer `get_line_local_messages` (the v3.0.0 default — 31-day window, cursor pagination, optional image previews). Avoid the older `get_line_chatroom_history_*` paging tools unless `get_line_local_messages` is unavailable on the current LINE build.\n- For visual workflows that need user eyeball confirmation (`confirm_line_chat_view`, `confirm_line_reply_source_target`, `get_line_ui_state`, `get_line_poll_state`), the user MUST look at the returned screenshot before the corresponding token is issued — never accept a confirmation without that screenshot.\n- Use `get_line_workflow` + `prepare_line_workflow` to plan mentions, replies and polls BEFORE executing; both are pure validators that don't touch LINE.\n- Use `get_line_capabilities` to discover what is currently wired up before relying on a tool.\n- For bulk operations (export, history lookup) prefer a single tool call over several speculative ones.\n- All date / time filters are interpreted in Asia/Taipei (UTC+08:00).\n\nRespond in the language the user writes in (繁體中文 by default).";

fn contains_text(items: &Vec<&'static str>, t: &str) -> (r: bool)
    ensures
        r == items@.map_values(|s: &str| s@).contains(t@),
{
    let ghost v = items@.map_values(|s: &str| s@);
    let mut i: usize = 0;
    while i < items.len()
        invariant
            i <= items.len(),
            v == items@.map_values(|s: &str| s@),
            forall|k: int| 0 <= k < i ==> v[k] != t@,
        decreases items.len() - i,
    {
        if same_text(items[i], t) {
            proof {
                assert(v[i as int] == t@);
            }
            return true;
        }
        i = i + 1;
    }
    false
}

/// Builds the compact system prompt: the available tool categories, the
/// guardrails, and a hint about the active chatroom.
pub fn build_system_prompt(tools: &[ToolDefinition], active_chat: Option<&str>, local_only: bool) -> (r: String)
    ensures
        r@ == system_prompt(
            tools@,
            match active_chat {
                Some(c) => Some(c@),
                None => None,
            },
            local_only,
        ),
{
    let mut cats: Vec<&'static str> = Vec::new();
    let mut i: usize = 0;
    while i < tools.len()
        invariant
            i <= tools.len(),
            cats@.map_values(|s: &str| s@) == prompt_categories(tools@.take(i as int), local_only),
        decreases tools.len() - i,
    {
        let ghost before = cats@.map_values(|s: &str| s@);
        proof {
            assert(tools@.take(i + 1).drop_last() =~= tools@.take(i as int));
            assert(tools@.take(i + 1).last() == tools@[i as int]);
        }
        let t = &tools[i];
        if local_only && is_send_guarded_tool(t.name.as_str()) {
        } else {
            let cat = categorize_tool(t.name.as_str());
            if !contains_text(&cats, cat) {
                cats.push(cat);
                proof {
                    assert(cats@.map_values(|s: &str| s@) =~= before.push(cat@));
                }
            }
        }
        i = i + 1;
    }
    proof {
        assert(tools@.take(tools.len() as int) =~= tools@);
    }
    let ghost cv = cats@.map_values(|s: &str| s@);
    let mut out = String::new();
    push_str(&mut out, PROMPT_HEAD);
    if cats.len() == 0 {
        push_str(&mut out, "(no tools loaded yet — call get_line_capabilities)");
    } else {
        let mut k: usize = 0;
        while k < cats.len()
            invariant
                1 <= cats.len(),
                k <= cats.len(),
                cv == cats@.map_values(|s: &str| s@),
                out@ == prompt_head() + joined(cv.take(k as int)),
            decreases cats.len() - k,
        {
            let ghost before = out@;
            if k > 0 {
                push_str(&mut out, ", ");
            }
            push_str(&mut out, cats[k]);
            proof {
                let s = cv.take(k + 1);
                assert(s.drop_last() =~= cv.take(k as int));
                assert(s.last() == cv[k as int]);
                if k == 0 {
                    assert(cv.take(0) =~= Seq::<Seq<char>>::empty());
                    assert(out@ =~= prompt_head() + joined(s));
                } else {
                    assert(out@ =~= prompt_head() + joined(s));
                }
            }
            k = k + 1;
        }
        proof {
            assert(cv.take(cats.len() as int) =~= cv);
        }
    }
    push_str(&mut out, PROMPT_RULES);
    match active_chat {
        Some(c) => {
            push_str(&mut out, "\n\nActive chatroom: `");
            push_str(&mut out, c);
            push_str(
                &mut out,
                "`. Pass this as `chatroom` for send_* tools unless the user names a different target.",
            );
        },
        None => {
            push_str(
                &mut out,
                "\n\nNo chatroom is currently active in the UI — when the user asks to send something, ask which chatroom first.",
            );
        },
    }
    proof {
        assert(out@ =~= system_prompt(
            tools@,
            match active_chat {
                Some(c) => Some(c@),
                None => None,
            },
            local_only,
        ));
    }
    out
}

/// Whether the history already starts a conversation with a system message.
pub fn has_system_message(history: &Vec<Message>) -> (r: bool)
    ensures
        r == exists|i: int| 0 <= i < history@.len() && (#[trigger] history@[i]) is System,
{
    let mut i: usize = 0;
    while i < history.len()
        invariant
            i <= history.len(),
            forall|k: int| 0 <= k < i ==> !((#[trigger] history@[k]) is System),
        decreases history.len() - i,
    {
        match &history[i] {
            Message::System { .. } => {
                return true;
            },
            _ => {},
        }
        i = i + 1;
    }
    false
}


// ---------------------------------------------------------------------
// Send confirmation
// ---------------------------------------------------------------------
/// The message as the confirmation dialog shows it: up to 400 characters,
/// with a note of the full length when it was cut.
pub open spec fn confirm_message(message: Seq<char>) -> Seq<char> {
    if message.len() > 400 {
        message.take(400) + "…\n（已截斷，共 "@ + decimal(message.len()) + " 字）"@
    } else {
        message
    }
}

/// The body of the native dialog that asks before a send.
pub open spec fn confirm_body(chat: Seq<char>, message: Seq<char>, tool: Seq<char>) -> Seq<char> {
    "Line 小幫手 想要呼叫「"@ + tool + "」\n\n聊天室："@ + chat + "\n\n訊息：\n"@ + confirm_message(message)
        + "\n\n按「確定」允許送出，按「取消」拒絕。"@
}

/// The body of the confirmation dialog shown before `tool` sends
/// `message` to `chat`.
pub fn send_confirm_body(chat: &str, message: &str, tool: &str) -> (r: String)
    ensures
        r@ == confirm_body(chat@, message@, tool@),
{
    let mut r = String::new();
    push_str(&mut r, "Line 小幫手 想要呼叫「");
    push_str(&mut r, tool);
    push_str(&mut r, "」\n\n聊天室：");
    push_str(&mut r, chat);
    push_str(&mut r, "\n\n訊息：\n");
    let chars = crate::text::chars_of(message);
    let count = chars.len();
    if count > 400 {
        let head = crate::provider::openai_compat::first_chars(message, 400);
        push_str(&mut r, head.as_str());
        push_str(&mut r, "…\n（已截斷，共 ");
        push_decimal(&mut r, count as u64);
        push_str(&mut r, " 字）");
    } else {
        push_str(&mut r, message);
    }
    push_str(&mut r, "\n\n按「確定」允許送出，按「取消」拒絕。");
    proof {
        assert(r@ =~= confirm_body(chat@, message@, tool@));
    }
    r
}

/// Arguments of the frontend's send confirmation.
#[derive(Debug, Clone)]
pub struct SendConfirmArgs {
    pub chatroom: String,
    pub text: String,
    pub tool: String,
}

/// The tool named when the frontend does not say which.
pub fn default_tool_name() -> (r: String)
    ensures
        r@ == "send_message_auto"@,
{
    "send_message_auto".to_owned()
}

// ---------------------------------------------------------------------
// Vendor path
// ---------------------------------------------------------------------
/// `std::path::MAIN_SEPARATOR`, which the standard library documents as
/// `/` on Unix-like systems and `\` on Windows.
#[verifier::external_body]
fn main_separator() -> (c: char)
    ensures
        c == '/' || c == '\\',
{
    std::path::MAIN_SEPARATOR
}

/// `vendor/line-desktop-mcp/src/server.js` with the separator `sep`.
pub open spec fn vendor_entry(sep: char) -> Seq<char> {
    "vendor"@ + seq![sep] + "line-desktop-mcp"@ + seq![sep] + "src"@ + seq![sep] + "server.js"@
}

/// The relative path at which the embedded line-desktop-mcp tree keeps its
/// entry script, with the separator `sep`.
pub fn vendor_entry_path(sep: char) -> (r: String)
    ensures
        r@ == vendor_entry(sep),
{
    let mut r = String::new();
    push_str(&mut r, "vendor");
    push_char(&mut r, sep);
    push_str(&mut r, "line-desktop-mcp");
    push_char(&mut r, sep);
    push_str(&mut r, "src");
    push_char(&mut r, sep);
    push_str(&mut r, "server.js");
    proof {
        assert(r@ =~= vendor_entry(sep));
    }
    r
}

/// The relative path at which the embedded line-desktop-mcp tree keeps its
/// entry script, joined with the platform's separator. Used as a marker
/// that sends the shell to the vendor-extraction step.
pub fn candidate_vendor_path(_identifier: String) -> (r: String)
    ensures
        exists|sep: char| (sep == '/' || sep == '\\') && r@ == vendor_entry(sep),
{
    let sep = main_separator();
    vendor_entry_path(sep)
}

/// Picks the line-desktop-mcp entry path, highest priority first: the
/// `HUB_LINE_MCP_PATH` value, the path saved in the settings, the tree
/// named by `LINE_MODEL_HUB_BUNDLED`, and last the embedded vendor tree.
pub fn choose_entry_path(
    env_path: Option<String>,
    configured: Option<String>,
    bundled_dir: Option<String>,
    sep: char,
) -> (r: String)
    ensures
        env_path matches Some(p) ==> r == p,
        env_path is None ==> (configured matches Some(p) ==> r == p),
        (env_path is None && configured is None) ==> (bundled_dir matches Some(d) ==> r@
            == tree_entry(d@, sep)),
        (env_path is None && configured is None && bundled_dir is None) ==> r@ == vendor_entry(
            sep,
        ),
{
    match env_path {
        Some(p) => p,
        None => match configured {
            Some(p) => p,
            None => match bundled_dir {
                Some(d) => tree_entry_path(d.as_str(), sep),
                None => vendor_entry_path(sep),
            },
        },
    }
}

/// What the shell does with a chosen entry path.
#[derive(Debug, Clone, PartialEq, Eq)]
pub enum EntryStep {
    /// The path names a file on disk: start the MCP child with it.
    Use(String),
    /// Nothing is there yet: extract the embedded vendor tree first.
    ExtractVendor,
}

/// Uses the chosen path when it exists on disk, and asks for the vendor
/// extraction otherwise.
pub fn entry_step(path: String, exists: bool) -> (r: EntryStep)
    ensures
        exists <==> r is Use,
        r matches EntryStep::Use(p) ==> p == path,
{
    if exists {
        EntryStep::Use(path)
    } else {
        EntryStep::ExtractVendor
    }
}

/// The error shown when the vendor extraction fails.
pub fn vendor_extract_failed(detail: &str) -> (r: String)
    ensures
        r@ == "vendor extract failed: "@ + detail@,
{
    let mut r = String::new();
    push_str(&mut r, "vendor extract failed: ");
    push_str(&mut r, detail);
    r
}

// ---------------------------------------------------------------------
// Attachments and UI payloads
// ---------------------------------------------------------------------
/// The base64 alphabet of RFC 4648 (`A-Z`, `a-z`, `0-9`, `+`, `/`).
pub open spec fn base64_char(n: int) -> char {
    if n < 26 {
        (('A' as int) + n) as char
    } else if n < 52 {
        (('a' as int) + (n - 26)) as char
    } else if n < 62 {
        (('0' as int) + (n - 52)) as char
    } else if n == 62 {
        '+'
    } else {
        '/'
    }
}

/// Standard base64 with padding: every three bytes become four characters
/// of six bits each; a final one or two bytes are padded with `=`.
pub open spec fn base64_encoded(d: Seq<u8>) -> Seq<char>
    decreases d.len(),
{
    if d.len() == 0 {
        Seq::empty()
    } else if d.len() == 1 {
        seq![base64_char((d[0] as int) / 4), base64_char(((d[0] as int) % 4) * 16), '=', '=']
    } else if d.len() == 2 {
        seq![
            base64_char((d[0] as int) / 4),
            base64_char(((d[0] as int) % 4) * 16 + (d[1] as int) / 16),
            base64_char(((d[1] as int) % 16) * 4),
            '=',
        ]
    } else {
        seq![
            base64_char((d[0] as int) / 4),
            base64_char(((d[0] as int) % 4) * 16 + (d[1] as int) / 16),
            base64_char(((d[1] as int) % 16) * 4 + (d[2] as int) / 64),
            base64_char((d[2] as int) % 64),
        ] + base64_encoded(d.skip(3))
    }
}

/// `base64::engine::general_purpose::STANDARD.encode`: the `STANDARD`
/// engine of the `base64` crate uses the RFC 4648 alphabet with padding.
#[verifier::external_body]
fn base64_encode(data: &[u8]) -> (r: String)
    ensures
        r@ == base64_encoded(data@),
{
    base64::engine::general_purpose::STANDARD.encode(data)
}

/// An attachment as the UI renders it: media bytes travel as a base64
/// data URL.
#[derive(Debug, Clone)]
pub enum UiAttachment {
    Text { text: String },
    Image { src: String, mime_type: String, bytes: usize },
    Audio { src: String, mime_type: String, bytes: usize },
    Unsupported { mime_type: String, note: String },
}

/// The data URL of a media payload.
pub open spec fn data_url(mime: Seq<char>, data: Seq<u8>) -> Seq<char> {
    "data:"@ + mime + ";base64,"@ + base64_encoded(data)
}

/// How a tool result block is shown.
pub open spec fn attachment_of(b: ToolResultBlock, a: UiAttachment) -> bool {
    match b {
        ToolResultBlock::Text { text } => a matches UiAttachment::Text { text: t } && t@ == text@,
        ToolResultBlock::Image { mime_type, data } => a matches UiAttachment::Image {
            src,
            mime_type: m,
            bytes,
        } && src@ == data_url(mime_type@, data@) && m@ == mime_type@ && bytes == data@.len(),
        ToolResultBlock::Audio { mime_type, data } => a matches UiAttachment::Audio {
            src,
            mime_type: m,
            bytes,
        } && src@ == data_url(mime_type@, data@) && m@ == mime_type@ && bytes == data@.len(),
        ToolResultBlock::Unsupported { mime_type, note } => a matches UiAttachment::Unsupported {
            mime_type: m,
            note: n,
        } && m@ == mime_type@ && n@ == note@,
    }
}

/// An attachment keeps the kind of its block: text stays text, an image an
/// image, audio audio, and an unsupported block unsupported.
pub proof fn lemma_attachment_keeps_kind(b: ToolResultBlock, a: UiAttachment)
    requires
        attachment_of(b, a),
    ensures
        b is Text <==> a is Text,
        b is Image <==> a is Image,
        b is Audio <==> a is Audio,
        b is Unsupported <==> a is Unsupported,
{
}

fn media_url(mime: &String, data: &Vec<u8>) -> (r: String)
    ensures
        r@ == data_url(mime@, data@),
{
    let mut r = String::new();
    push_str(&mut r, "data:");
    push_str(&mut r, mime.as_str());
    push_str(&mut r, ";base64,");
    let enc = base64_encode(data.as_slice());
    push_str(&mut r, enc.as_str());
    proof {
        assert(r@ =~= data_url(mime@, data@));
    }
    r
}

impl UiAttachment {
    /// The attachment for a tool result block.
    pub fn from_block(b: &ToolResultBlock) -> (a: UiAttachment)
        ensures
            attachment_of(*b, a),
            (*b is Audio) == (a is Audio),
            (*b is Image) == (a is Image),
    {
        match b {
            ToolResultBlock::Text { text } => UiAttachment::Text { text: text.clone() },
            ToolResultBlock::Image { mime_type, data } => UiAttachment::Image {
                src: media_url(mime_type, data),
                mime_type: mime_type.clone(),
                bytes: data.len(),
            },
            ToolResultBlock::Audio { mime_type, data } => UiAttachment::Audio {
                src: media_url(mime_type, data),
                mime_type: mime_type.clone(),
                bytes: data.len(),
            },
            ToolResultBlock::Unsupported { mime_type, note } => UiAttachment::Unsupported {
                mime_type: mime_type.clone(),
                note: note.clone(),
            },
        }
    }
}

/// A chat progress event as it crosses to the UI.
#[derive(Debug, Clone)]
pub enum UiEventPayload {
    Delta { text: String },
    Reasoning { text: String },
    ToolStart { id: String, name: String, args_preview: String },
    /// `args` is the JSON text of the tool call's arguments.
    ToolArgs { id: String, args: String, attachment_count: usize },
    ToolDone { id: String, name: String, result_preview: String, attachments: Vec<UiAttachment> },
    SendBlocked { chat: String, message: String },
    Done,
    Error { message: String },
}

/// How a raw stream event shows in the UI; argument deltas are not
/// streamed and show as an empty tool start.
pub open spec fn payload_of_stream(e: EventView, p: UiEventPayload) -> bool {
    match e {
        EventView::Delta { text } => p matches UiEventPayload::Delta { text: t } && t@ == text,
        EventView::ReasoningDelta { text } => p matches UiEventPayload::Reasoning { text: t } && t@ == text,
        EventView::ToolCallStart { id, name, .. } => p matches UiEventPayload::ToolStart {
            id: i,
            name: n,
            args_preview: a,
        } && i@ == id && n@ == name && a@.len() == 0,
        EventView::ToolCallDelta { .. } => p matches UiEventPayload::ToolStart {
            id: i,
            name: n,
            args_preview: a,
        } && i@.len() == 0 && n@.len() == 0 && a@.len() == 0,
        EventView::Done { .. } => p is Done,
        EventView::Error { message, .. } => p matches UiEventPayload::Error { message: m } && m@ == message,
    }
}

impl UiEventPayload {
    /// The UI payload of a raw stream event.
    pub fn from_stream_event(e: &StreamEvent) -> (p: UiEventPayload)
        ensures
            payload_of_stream(e@, p),
    {
        match e {
            StreamEvent::Delta { text } => UiEventPayload::Delta { text: text.clone() },
            StreamEvent::ReasoningDelta { text } => UiEventPayload::Reasoning { text: text.clone() },
            StreamEvent::ToolCallStart { id, name, .. } => UiEventPayload::ToolStart {
                id: id.clone(),
                name: name.clone(),
                args_preview: String::new(),
            },
            StreamEvent::ToolCallDelta { .. } => UiEventPayload::ToolStart {
                id: String::new(),
                name: String::new(),
                args_preview: String::new(),
            },
            StreamEvent::Done { .. } => UiEventPayload::Done,
            StreamEvent::Error { message, .. } => UiEventPayload::Error { message: message.clone() },
        }
    }
}

/// How a loop event shows in the UI: field for field, with tool result
/// blocks turned into attachments.
pub open spec fn payload_of_ui(ev: UiEvent, p: UiEventPayload) -> bool {
    match ev {
        UiEvent::Delta(text) => p == UiEventPayload::Delta { text },
        UiEvent::Reasoning(text) => p == UiEventPayload::Reasoning { text },
        UiEvent::ToolStart { id, name, args_preview } => p == UiEventPayload::ToolStart {
            id,
            name,
            args_preview,
        },
        UiEvent::ToolArgs { id, args, attachment_count } => p == UiEventPayload::ToolArgs {
            id,
            args,
            attachment_count,
        },
        UiEvent::ToolDone { id, name, result_preview, attachments } => p matches UiEventPayload::ToolDone {
            id: i,
            name: n,
            result_preview: r,
            attachments: a,
        } && i == id && n == name && r == result_preview && a@.len() == attachments@.len() && (
        forall|k: int| 0 <= k < a@.len() ==> attachment_of(attachments@[k], #[trigger] a@[k])),
        UiEvent::SendBlocked { chat, message } => p == UiEventPayload::SendBlocked { chat, message },
        UiEvent::Done => p is Done,
        UiEvent::Error(message) => p == UiEventPayload::Error { message },
    }
}

/// Maps a loop event to the payload that crosses to the UI.
pub fn ui_event_to_payload(ev: UiEvent) -> (p: UiEventPayload)
    ensures
        payload_of_ui(ev, p),
{
    match ev {
        UiEvent::Delta(text) => UiEventPayload::Delta { text },
        UiEvent::Reasoning(text) => UiEventPayload::Reasoning { text },
        UiEvent::ToolStart { id, name, args_preview } => UiEventPayload::ToolStart {
            id,
            name,
            args_preview,
        },
        UiEvent::ToolArgs { id, args, attachment_count } => UiEventPayload::ToolArgs {
            id,
            args,
            attachment_count,
        },
        UiEvent::ToolDone { id, name, result_preview, attachments } => {
            let mut a: Vec<UiAttachment> = Vec::new();
            let mut k: usize = 0;
            while k < attachments.len()
                invariant
                    k <= attachments.len(),
                    a@.len() == k,
                    forall|j: int| 0 <= j < k ==> attachment_of(attachments@[j], #[trigger] a@[j]),
                decreases attachments.len() - k,
            {
                a.push(UiAttachment::from_block(&attachments[k]));
                k = k + 1;
            }
            UiEventPayload::ToolDone { id, name, result_preview, attachments: a }
        },
        UiEvent::SendBlocked { chat, message } => UiEventPayload::SendBlocked { chat, message },
        UiEvent::Done => UiEventPayload::Done,
        UiEvent::Error(message) => UiEventPayload::Error { message },
    }
}

// ---------------------------------------------------------------------
// Provider summaries and chat targets
// ---------------------------------------------------------------------
/// A provider as the Settings dialog lists it.
#[derive(Debug, Clone)]
pub struct ProviderSummary {
    pub id: String,
    pub label: String,
    pub models: Vec<ModelInfo>,
    pub default_model: Option<String>,
    pub is_configured: bool,
}

/// A provider is configured when the keyring holds a non-empty key for it
/// or its entry carries one.
pub open spec fn configured(entry: ProviderEntry, stored_key: Option<String>) -> bool {
    (stored_key matches Some(k) && k@.len() > 0) || entry.api_key@.len() > 0
}

/// The summary of a configured provider. `stored_key` is what the keyring
/// holds for it, and `models` its catalogue (empty when the provider
/// cannot be built from the entry).
pub fn provider_summary(entry: &ProviderEntry, stored_key: Option<String>, models: Vec<ModelInfo>) -> (r: ProviderSummary)
    ensures
        r.id@ == provider_wire_name(entry.id),
        r.label@ == provider_label(entry.id),
        r.models == models,
        r.default_model == entry.default_model,
        r.is_configured == configured(*entry, stored_key),
{
    let keyring_hit = match &stored_key {
        Some(k) => !k.as_str().is_empty(),
        None => false,
    };
    ProviderSummary {
        is_configured: keyring_hit || !entry.api_key.as_str().is_empty(),
        default_model: match &entry.default_model {
            Some(m) => Some(m.clone()),
            None => None,
        },
        id: entry.id.as_str().to_owned(),
        label: label_for(entry.id),
        models,
    }
}

/// Arguments of a chat request from the UI.
#[derive(Debug, Clone)]
pub struct ChatArgs {
    pub session_id: String,
    pub user_input: String,
    pub provider_id: Option<String>,
    pub model: Option<String>,
}

/// Where a chat goes: the provider, its entry, and the model.
#[derive(Debug, Clone)]
pub struct ChatTarget {
    pub provider: ProviderId,
    /// The provider's wire name as requested.
    pub provider_key: String,
    pub entry: ProviderEntry,
    pub model: String,
}

/// The provider name a chat asks for: the request's, else the configured
/// default's.
pub open spec fn requested_provider(args: ChatArgs, cfg: HubConfig) -> Option<Seq<char>> {
    match args.provider_id {
        Some(p) => Some(p@),
        None => match cfg.default_provider {
            Some(id) => Some(provider_wire_name(id)),
            None => None,
        },
    }
}

/// The first entry for a provider.
pub open spec fn first_entry(entries: Seq<ProviderEntry>, id: ProviderId, i: int) -> bool {
    &&& 0 <= i < entries.len()
    &&& entries[i].id == id
    &&& forall|k: int| 0 <= k < i ==> (#[trigger] entries[k]).id != id
}

fn clone_entry(e: &ProviderEntry) -> (r: ProviderEntry)
    ensures
        r == *e,
{
    ProviderEntry {
        id: e.id,
        api_key: e.api_key.clone(),
        base_url: match &e.base_url {
            Some(u) => Some(u.clone()),
            None => None,
        },
        default_model: match &e.default_model {
            Some(m) => Some(m.clone()),
            None => None,
        },
    }
}

/// Resolves where a chat goes: the requested (or default) provider, its
/// first entry, and the requested (or the entry's default) model.
pub fn resolve_chat_target(args: &ChatArgs, cfg: &HubConfig) -> (r: Result<ChatTarget, String>)
    ensures
        requested_provider(*args, *cfg) is None ==> (r matches Err(m) && m@ == "no provider configured"@),
        requested_provider(*args, *cfg) matches Some(p) ==> {
            match provider_of_name(p) {
                None => r matches Err(m) && m@ == "unknown provider id: "@ + p,
                Some(id) => if !crate::config::has_provider(cfg.providers@, id) {
                    r matches Err(m) && m@ == "provider "@ + p + " not configured"@
                } else {
                    exists|i: int| #[trigger] first_entry(cfg.providers@, id, i) && ({
                        let e = cfg.providers@[i];
                        match args.model {
                            Some(m) => r matches Ok(t) && t.provider == id && t.provider_key@ == p
                                && t.entry == e && t.model@ == m@,
                            None => match e.default_model {
                                Some(m) => r matches Ok(t) && t.provider == id && t.provider_key@
                                    == p && t.entry == e && t.model@ == m@,
                                None => r matches Err(m) && m@ == "no model selected"@,
                            },
                        }
                    })
                }
            }
        },
{
    let pid_str = match &args.provider_id {
        Some(p) => p.clone(),
        None => match cfg.default_provider {
            Some(id) => id.as_str().to_owned(),
            None => {
                return Err("no provider configured".to_owned());
            },
        },
    };
    let pid = match parse_pid(pid_str.as_str()) {
        Ok(id) => id,
        Err(e) => {
            return Err(e);
        },
    };
    let mut i: usize = 0;
    while i < cfg.providers.len()
        invariant
            i <= cfg.providers.len(),
            forall|k: int| 0 <= k < i ==> (#[trigger] cfg.providers@[k]).id != pid,
        ensures
            i <= cfg.providers.len(),
            forall|k: int| 0 <= k < i ==> (#[trigger] cfg.providers@[k]).id != pid,
            i < cfg.providers.len() ==> cfg.providers@[i as int].id == pid,
        decreases cfg.providers.len() - i,
    {
        if cfg.providers[i].id == pid {
            break;
        }
        i = i + 1;
    }
    if i == cfg.providers.len() {
        let mut m = String::new();
        push_str(&mut m, "provider ");
        push_str(&mut m, pid_str.as_str());
        push_str(&mut m, " not configured");
        proof {
            assert(m@ =~= "provider "@ + pid_str@ + " not configured"@);
        }
        return Err(m);
    }
    let entry = clone_entry(&cfg.providers[i]);
    let model = match &args.model {
        Some(m) => m.clone(),
        None => match &entry.default_model {
            Some(m) => m.clone(),
            None => {
                proof {
                    assert(first_entry(cfg.providers@, pid, i as int));
                }
                return Err("no model selected".to_owned());
            },
        },
    };
    proof {
        assert(first_entry(cfg.providers@, pid, i as int));
    }
    Ok(ChatTarget { provider: pid, provider_key: pid_str, entry, model })
}

/// An in-memory chat session of the shell.
#[derive(Debug, Clone)]
pub struct ChatSession {
    pub history: Vec<Message>,
    pub model: String,
    pub provider_id: String,
}

/// One event of a plain chat stream folded into its text: deltas add to
/// the text; `Done` ends with the text; an error ends with a provider
/// error; anything else continues.
pub fn stream_text_step(text: &mut String, ev: &StreamEvent) -> (r: Option<Result<String, HubError>>)
    ensures
        match ev@ {
            EventView::Delta { text: t } => final(text)@ == old(text)@ + t && r is None,
            EventView::Done { .. } => final(text)@ == old(text)@ && (r matches Some(Ok(t)) && t@ == old(text)@),
            EventView::Error { message, .. } => final(text)@ == old(text)@ && (r matches Some(Err(HubError::Provider { provider, message: m }))
                && provider@ == "<stream>"@ && m@ == message),
            _ => final(text)@ == old(text)@ && r is None,
        },
{
    match ev {
        StreamEvent::Delta { text: t } => {
            push_str(text, t.as_str());
            None
        },
        StreamEvent::Done { .. } => Some(Ok(text.clone())),
        StreamEvent::Error { message, .. } => Some(
            Err(HubError::Provider { provider: "<stream>".to_owned(), message: message.clone() }),
        ),
        _ => None,
    }
}

/// Saved partial turns are written after this many streamed deltas.
pub const STREAM_FLUSH_EVERY: usize = 8;

/// The text and reasoning streamed so far in a chat, kept so that a
/// cancelled or interrupted turn can still be saved, and the count of
/// deltas since the last save.
pub struct StreamBuffers {
    text: String,
    reasoning: String,
    dirty: usize,
}

/// What recording `ev` does to the buffers, and whether a partial save is
/// then due: a delta is appended and counted, every eighth one asking for a
/// save; reasoning is appended; anything else leaves them as they were.
pub open spec fn records(before: StreamBuffers, after: StreamBuffers, ev: UiEvent, flush: bool) -> bool {
    match ev {
        UiEvent::Delta(t) => {
            &&& after.text_view() == before.text_view() + t@
            &&& after.reasoning_view() == before.reasoning_view()
            &&& if before.dirty_count() + 1 >= STREAM_FLUSH_EVERY {
                flush && after.dirty_count() == 0
            } else {
                !flush && after.dirty_count() == before.dirty_count() + 1
            }
        },
        UiEvent::Reasoning(t) => {
            &&& after.text_view() == before.text_view()
            &&& after.reasoning_view() == before.reasoning_view() + t@
            &&& after.dirty_count() == before.dirty_count()
            &&& !flush
        },
        _ => {
            &&& after.text_view() == before.text_view()
            &&& after.reasoning_view() == before.reasoning_view()
            &&& after.dirty_count() == before.dirty_count()
            &&& !flush
        },
    }
}

impl StreamBuffers {
    /// The streamed text so far.
    pub closed spec fn text_view(&self) -> Seq<char> {
        self.text@
    }

    /// The streamed reasoning so far.
    pub closed spec fn reasoning_view(&self) -> Seq<char> {
        self.reasoning@
    }

    /// Deltas since the last save.
    pub closed spec fn dirty_count(&self) -> nat {
        self.dirty as nat
    }

    /// Empty buffers.
    pub fn new() -> (r: StreamBuffers)
        ensures
            r.text_view().len() == 0,
            r.reasoning_view().len() == 0,
            r.dirty_count() == 0,
    {
        StreamBuffers { text: String::new(), reasoning: String::new(), dirty: 0 }
    }

    /// Records one UI event: deltas and reasoning are appended; every
    /// eighth delta asks for a partial turn to be saved (`true`).
    pub fn record(&mut self, ev: &UiEvent) -> (flush: bool)
        ensures
            records(*old(self), *final(self), *ev, flush),
    {
        match ev {
            UiEvent::Delta(t) => {
                push_str(&mut self.text, t.as_str());
                if self.dirty >= STREAM_FLUSH_EVERY - 1 {
                    self.dirty = 0;
                    true
                } else {
                    self.dirty = self.dirty + 1;
                    false
                }
            },
            UiEvent::Reasoning(t) => {
                push_str(&mut self.reasoning, t.as_str());
                false
            },
            _ => false,
        }
    }

    /// The partial assistant turn to save: the text so far, the reasoning
    /// when there is any, and the largest sequence number so that it is
    /// replaced by the final turn.
    pub fn partial_turn(&self, session_id: String, ts: i64) -> (t: crate::history::Turn)
        ensures
            t.session_id == session_id,
            t.seq == i64::MAX,
            t.role@ == "assistant"@,
            t.content@ == self.text_view(),
            if self.reasoning_view().len() == 0 {
                t.reasoning is None
            } else {
                t.reasoning matches Some(r) && r@ == self.reasoning_view()
            },
            t.tool_trace is None,
            t.ts == ts,
    {
        crate::history::Turn {
            session_id,
            seq: i64::MAX,
            role: "assistant".to_owned(),
            content: self.text.clone(),
            reasoning: if self.reasoning.as_str().is_empty() {
                None
            } else {
                Some(self.reasoning.clone())
            },
            tool_trace: None,
            ts,
        }
    }

    /// Takes one UI event while a turn streams. After the user cancels,
    /// the event is dropped: not shown, not kept, and the answer is
    /// `(false, false)`. Before that it is shown (`.0` holds) and kept as
    /// `record` keeps it, and `.1` says whether a partial save is due.
    pub fn on_event(&mut self, ev: &UiEvent, cancelled: bool) -> (r: (bool, bool))
        ensures
            cancelled ==> {
                &&& !r.0 && !r.1
                &&& final(self).text_view() == old(self).text_view()
                &&& final(self).reasoning_view() == old(self).reasoning_view()
                &&& final(self).dirty_count() == old(self).dirty_count()
            },
            !cancelled ==> r.0 && records(*old(self), *final(self), *ev, r.1),
    {
        if cancelled {
            (false, false)
        } else {
            let flush = self.record(ev);
            (true, flush)
        }
    }

    /// The assistant message kept in the history when the user cancels:
    /// the text and the reasoning streamed so far, each absent when empty,
    /// and no tool calls.
    pub fn cancelled_reply(&self) -> (m: Message)
        ensures
            m matches Message::Assistant { content, reasoning, tool_calls } && tool_calls is None
                && (if self.text_view().len() == 0 {
                content is None
            } else {
                content matches Some(c) && c@ == self.text_view()
            }) && (if self.reasoning_view().len() == 0 {
                reasoning is None
            } else {
                reasoning matches Some(r) && r@ == self.reasoning_view()
            }),
    {
        Message::Assistant {
            content: if self.text.as_str().is_empty() {
                None
            } else {
                Some(self.text.clone())
            },
            reasoning: if self.reasoning.as_str().is_empty() {
                None
            } else {
                Some(self.reasoning.clone())
            },
            tool_calls: None,
        }
    }
}

/// What the UI is told when the user cancels a streaming turn.
pub fn cancelled_error() -> (p: UiEventPayload)
    ensures
        p matches UiEventPayload::Error { message } && message@ == "cancelled by user"@,
{
    UiEventPayload::Error { message: "cancelled by user".to_owned() }
}

} // verus!
