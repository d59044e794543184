//! MCP tool results and the decoding of the `content` blocks that
//! line-desktop-mcp returns from `tools/call`.

use crate::conversation::same_text;
use crate::error::{HubError, HubResult};
use crate::provider::types::ToolDefinition;
use crate::text::{chars_of, push_char, push_str};
use base64::Engine;
use vstd::prelude::*;

verus! {

/// One piece of a tool call's MCP response.
#[derive(Debug, Clone)]
pub enum ToolResultBlock {
    Text { text: String },
    /// Image preview; `data` holds the raw bytes (not base64).
    Image { mime_type: String, data: Vec<u8> },
    /// Small PCM WAV audio block.
    Audio { mime_type: String, data: Vec<u8> },
    /// Unsupported media, surfaced as informational text.
    Unsupported { mime_type: String, note: String },
}

/// A tool call's outcome: content blocks, or the error text of an
/// `isError` response.
#[derive(Debug, Clone)]
pub enum ToolResult {
    Success { blocks: Vec<ToolResultBlock> },
    Failed { message: String },
}


/// One MCP `Content` block as read off the wire. `kind` is its `type`
/// member; each field holds that member when it is present and a string.
#[derive(Debug, Clone)]
pub struct McpContent {
    pub kind: Option<String>,
    pub text: Option<String>,
    pub mime_type: Option<String>,
    pub data: Option<String>,
}

/// What `base64::engine::general_purpose::STANDARD.decode` returns for a
/// text: the decoded bytes, or `None` where it reports an error.
pub uninterp spec fn base64_standard_decode_of(s: Seq<char>) -> Option<Seq<u8>>;

/// What `format!("{:?}", s)` writes for a `&str`: the text in double
/// quotes with Rust's debug escapes.
pub uninterp spec fn debug_str_of(s: Seq<char>) -> Seq<char>;

/// Whether a character has the Unicode `White_Space` property.
pub open spec fn is_white_space(c: char) -> bool {
    let n = c as u32;
    ||| 0x9 <= n <= 0xd
    ||| n == 0x20
    ||| n == 0x85
    ||| n == 0xa0
    ||| n == 0x1680
    ||| 0x2000 <= n <= 0x200a
    ||| n == 0x2028
    ||| n == 0x2029
    ||| n == 0x202f
    ||| n == 0x205f
    ||| n == 0x3000
}

/// A text without its leading white space.
pub open spec fn trim_start_white(s: Seq<char>) -> Seq<char>
    decreases s.len(),
{
    if s.len() > 0 && is_white_space(s[0]) {
        trim_start_white(s.drop_first())
    } else {
        s
    }
}

/// A text without its trailing white space.
pub open spec fn trim_end_white(s: Seq<char>) -> Seq<char>
    decreases s.len(),
{
    if s.len() > 0 && is_white_space(s.last()) {
        trim_end_white(s.drop_last())
    } else {
        s
    }
}

/// A text without its leading and trailing white space.
pub open spec fn trimmed(s: Seq<char>) -> Seq<char> {
    trim_end_white(trim_start_white(s))
}

/// `str::trim`, which std documents as removing leading and trailing
/// characters with the Unicode `White_Space` property.
#[verifier::external_body]
pub(crate) fn trim_text(s: &str) -> (r: &str)
    ensures
        r@ == trimmed(s@),
{
    s.trim()
}

/// `STANDARD.decode` of the `base64` crate (standard alphabet, padding
/// required): the decoded bytes, or `None` when it returns an error. The
/// contract names the result.
#[verifier::external_body]
fn base64_decode(s: &str) -> (r: Option<Vec<u8>>)
    ensures
        match r {
            Some(b) => base64_standard_decode_of(s@) == Some(b@),
            None => base64_standard_decode_of(s@) is None,
        },
{
    match base64::engine::general_purpose::STANDARD.decode(s) {
        Ok(b) => Some(b),
        Err(_) => None,
    }
}

/// `format!("{:?}", s)` for a `&str`. The contract names the result.
#[verifier::external_body]
fn debug_quote(s: &str) -> (r: String)
    ensures
        r@ == debug_str_of(s@),
{
    format!("{:?}", s)
}

/// The largest preview, in bytes, that a content block may carry.
pub const PREVIEW_CAP: usize = 8388608;

/// A base64 payload decoded after trimming, when it decodes and is no
/// larger than `cap` bytes.
pub open spec fn limited_decode(d: Seq<char>, cap: nat) -> Option<Seq<u8>> {
    match base64_standard_decode_of(trimmed(d)) {
        Some(b) => if b.len() <= cap {
            Some(b)
        } else {
            None
        },
        None => None,
    }
}

/// The text of an optional string, or a default.
pub open spec fn text_or(o: Option<String>, dflt: Seq<char>) -> Seq<char> {
    match o {
        Some(s) => s@,
        None => dflt,
    }
}

/// The decoded bytes that an optional byte vector holds.
pub open spec fn bytes_view(o: Option<Vec<u8>>) -> Option<Seq<u8>> {
    match o {
        Some(v) => Some(v@),
        None => None,
    }
}

/// The block that a content block becomes, given its decoded payload
/// (`None`: absent, undecodable or too large): text stays text; image and
/// audio carry the payload (with a default MIME type of `image/png` or
/// `audio/wav`) and fall back to an `Unsupported` note without one; any
/// other type becomes `Unsupported`.
pub open spec fn block_of(c: McpContent, payload: Option<Seq<u8>>, b: ToolResultBlock) -> bool {
    let kind = text_or(c.kind, Seq::empty());
    if kind == "text"@ {
        b matches ToolResultBlock::Text { text } && text@ == text_or(c.text, Seq::empty())
    } else if kind == "image"@ || kind == "audio"@ {
        let mime = text_or(
            c.mime_type,
            if kind == "image"@ {
                "image/png"@
            } else {
                "audio/wav"@
            },
        );
        match payload {
            Some(bytes) => if kind == "image"@ {
                b matches ToolResultBlock::Image { mime_type, data } && mime_type@ == mime && data@
                    == bytes
            } else {
                b matches ToolResultBlock::Audio { mime_type, data } && mime_type@ == mime && data@
                    == bytes
            },
            None => b matches ToolResultBlock::Unsupported { mime_type, note } && mime_type@ == mime
                && note@ == "base64 decode failed or exceeded size cap"@,
        }
    } else {
        let mime = text_or(c.mime_type, "application/octet-stream"@);
        b matches ToolResultBlock::Unsupported { mime_type, note } && mime_type@ == mime && note@
            == "unsupported content block type="@ + debug_str_of(kind) + ", mime="@ + mime
    }
}

/// How one content block decodes: as [`block_of`] with its `data` member
/// base64-decoded after trimming, within [`PREVIEW_CAP`] bytes.
pub open spec fn decodes_to(c: McpContent, b: ToolResultBlock) -> bool {
    block_of(
        c,
        match c.data {
            Some(d) => limited_decode(d@, PREVIEW_CAP as nat),
            None => None,
        },
        b,
    )
}

/// Decodes a base64 payload after trimming it; `None` when it does not
/// decode or is larger than `max_bytes`.
pub fn decode_base64_limited(s: &str, max_bytes: usize) -> (r: Option<Vec<u8>>)
    ensures
        match r {
            Some(b) => limited_decode(s@, max_bytes as nat) == Some(b@),
            None => limited_decode(s@, max_bytes as nat) is None,
        },
{
    let t = trim_text(s);
    match base64_decode(t) {
        Some(bytes) => {
            if bytes.len() > max_bytes {
                None
            } else {
                Some(bytes)
            }
        },
        None => None,
    }
}

fn text_or_default(o: &Option<String>, dflt: &str) -> (r: String)
    ensures
        r@ == text_or(*o, dflt@),
{
    match o {
        Some(s) => s.clone(),
        None => dflt.to_owned(),
    }
}

/// The block that a content block becomes, given its payload already
/// decoded (`None` when absent, undecodable or too large); the payload is
/// read only for image and audio blocks.
pub fn block_from_decoded(c: &McpContent, decoded: Option<Vec<u8>>) -> (b: ToolResultBlock)
    ensures
        block_of(*c, bytes_view(decoded), b),
{
    let kind = text_or_default(&c.kind, "");
    proof {
        reveal_strlit("");
        assert(""@ =~= Seq::<char>::empty());
    }
    if same_text(kind.as_str(), "text") {
        ToolResultBlock::Text { text: text_or_default(&c.text, "") }
    } else if same_text(kind.as_str(), "image") || same_text(kind.as_str(), "audio") {
        let is_image = same_text(kind.as_str(), "image");
        let mime = if is_image {
            text_or_default(&c.mime_type, "image/png")
        } else {
            text_or_default(&c.mime_type, "audio/wav")
        };
        match decoded {
            Some(bytes) => if is_image {
                ToolResultBlock::Image { mime_type: mime, data: bytes }
            } else {
                ToolResultBlock::Audio { mime_type: mime, data: bytes }
            },
            None => {
                let mut note = String::new();
                push_str(&mut note, "base64 decode failed or exceeded size cap");
                proof {
                    assert(note@ =~= "base64 decode failed or exceeded size cap"@);
                }
                ToolResultBlock::Unsupported { mime_type: mime, note }
            },
        }
    } else {
        let mime = text_or_default(&c.mime_type, "application/octet-stream");
        let mut note = String::new();
        push_str(&mut note, "unsupported content block type=");
        let q = debug_quote(kind.as_str());
        push_str(&mut note, q.as_str());
        push_str(&mut note, ", mime=");
        push_str(&mut note, mime.as_str());
        proof {
            assert(note@ =~= "unsupported content block type="@ + debug_str_of(kind@) + ", mime="@
                + mime@);
        }
        ToolResultBlock::Unsupported { mime_type: mime, note }
    }
}

fn decode_block(c: &McpContent) -> (b: ToolResultBlock)
    ensures
        decodes_to(*c, b),
{
    let decoded = match &c.data {
        Some(d) => decode_base64_limited(d.as_str(), PREVIEW_CAP),
        None => None,
    };
    block_from_decoded(c, decoded)
}

/// Decodes MCP content blocks into typed tool result blocks, one for one.
pub fn decode_blocks(blocks: Vec<McpContent>) -> (out: Vec<ToolResultBlock>)
    ensures
        out@.len() == blocks@.len(),
        forall|i: int| 0 <= i < blocks@.len() ==> decodes_to(blocks@[i], #[trigger] out@[i]),
{
    let mut out: Vec<ToolResultBlock> = Vec::new();
    let mut i: usize = 0;
    while i < blocks.len()
        invariant
            i <= blocks.len(),
            out@.len() == i,
            forall|k: int| 0 <= k < i ==> decodes_to(blocks@[k], #[trigger] out@[k]),
        decreases blocks.len() - i,
    {
        let b = decode_block(&blocks[i]);
        out.push(b);
        i = i + 1;
    }
    out
}

/// The result of a `tools/call` request as read off the wire: either it has
/// the shape of an MCP call result (its `content` blocks and `is_error`
/// flag, both with defaults), or it does not and is kept as JSON text.
#[derive(Debug, Clone)]
pub enum CallToolReply {
    Parsed { content: Vec<McpContent>, is_error: bool },
    Unparsed { raw_json: String },
}

/// How a call reply becomes a tool result: an error reply carries the text
/// of its first block (or a fixed message), a content reply has its blocks
/// decoded, and anything else becomes one text block with its JSON.
pub open spec fn interprets_to(reply: CallToolReply, r: ToolResult) -> bool {
    match reply {
        CallToolReply::Parsed { content, is_error } => if is_error {
            r matches ToolResult::Failed { message } && message@ == (if content@.len() > 0
                && content@[0].text is Some {
                content@[0].text->0@
            } else {
                "MCP tool returned isError=true"@
            })
        } else {
            r matches ToolResult::Success { blocks } && blocks@.len() == content@.len() && (forall|
                i: int,
            |
                0 <= i < content@.len() ==> decodes_to(content@[i], #[trigger] blocks@[i]))
        },
        CallToolReply::Unparsed { raw_json } => r matches ToolResult::Success { blocks }
            && blocks@.len() == 1 && (blocks@[0] matches ToolResultBlock::Text { text } && text@
            == raw_json@),
    }
}

/// An `isError` reply fails with the text of its first content block,
/// whatever blocks follow it.
pub proof fn lemma_error_reply_reports_first_text(content: Vec<McpContent>, t: String, r: ToolResult)
    requires
        content@.len() > 0,
        content@[0].text == Some(t),
        interprets_to(CallToolReply::Parsed { content, is_error: true }, r),
    ensures
        r matches ToolResult::Failed { message } && message@ == t@,
{
}

/// Turns the reply of a `tools/call` request into a tool result.
pub fn interpret_call_result(reply: CallToolReply) -> (r: ToolResult)
    ensures
        interprets_to(reply, r),
        reply matches CallToolReply::Parsed { content, is_error } ==> (is_error ==> (
        content@.len() > 0 ==> (content@[0].text matches Some(t) ==> (r matches ToolResult::Failed {
            message,
        } && message@ == t@)))),
{
    match reply {
        CallToolReply::Parsed { content, is_error } => {
            if is_error {
                let message = if content.len() > 0 {
                    match &content[0].text {
                        Some(t) => t.clone(),
                        None => "MCP tool returned isError=true".to_owned(),
                    }
                } else {
                    "MCP tool returned isError=true".to_owned()
                };
                ToolResult::Failed { message }
            } else {
                ToolResult::Success { blocks: decode_blocks(content) }
            }
        },
        CallToolReply::Unparsed { raw_json } => {
            let mut blocks: Vec<ToolResultBlock> = Vec::new();
            blocks.push(ToolResultBlock::Text { text: raw_json });
            ToolResult::Success { blocks }
        },
    }
}


/// A registered tool definition.
#[derive(Debug, Clone)]
pub struct McpToolDef {
    pub def: ToolDefinition,
}

/// A tool as `tools/list` describes it: its name and description when they
/// are strings, and the JSON text of its `inputSchema` and `parameters`
/// members when present.
#[derive(Debug, Clone)]
pub struct McpToolEntry {
    pub name: Option<String>,
    pub description: Option<String>,
    pub input_schema: Option<String>,
    pub parameters: Option<String>,
}

/// The tools an MCP server offers, one definition per name.
pub struct ToolRegistry {
    defs: Vec<McpToolDef>,
}

/// Description and parameter schema of a tool.
pub type ToolInfo = (Seq<char>, Seq<char>);

/// The tools of a list of definitions by name; a later definition of a
/// name replaces an earlier one.
pub open spec fn defs_map(defs: Seq<McpToolDef>) -> Map<Seq<char>, ToolInfo>
    decreases defs.len(),
{
    if defs.len() == 0 {
        Map::empty()
    } else {
        let d = defs.last().def;
        defs_map(defs.drop_last()).insert(d.name@, (d.description@, d.parameters@))
    }
}

/// The schema of a listed tool: its `inputSchema`, else its `parameters`,
/// else an empty object schema.
pub open spec fn entry_schema(e: McpToolEntry) -> Seq<char> {
    match e.input_schema {
        Some(s) => s@,
        None => match e.parameters {
            Some(p) => p@,
            None => "{\"type\":\"object\"}"@,
        },
    }
}

/// The tools of a `tools/list` reply by name; the last entry with a name
/// wins.
pub open spec fn listed_tools(es: Seq<McpToolEntry>) -> Map<Seq<char>, ToolInfo>
    decreases es.len(),
{
    if es.len() == 0 {
        Map::empty()
    } else {
        let rest = listed_tools(es.drop_first());
        let e = es[0];
        let n = text_or(e.name, Seq::empty());
        if rest.dom().contains(n) {
            rest
        } else {
            rest.insert(n, (text_or(e.description, Seq::empty()), entry_schema(e)))
        }
    }
}

proof fn lemma_defs_map_dom(defs: Seq<McpToolDef>, n: Seq<char>)
    ensures
        defs_map(defs).dom().contains(n) <==> exists|j: int|
            0 <= j < defs.len() && (#[trigger] defs[j]).def.name@ == n,
    decreases defs.len(),
{
    if defs.len() > 0 {
        lemma_defs_map_dom(defs.drop_last(), n);
        if defs_map(defs.drop_last()).dom().contains(n) {
            let j = choose|j: int| 0 <= j < defs.drop_last().len() && (#[trigger] defs.drop_last()[j]).def.name@ == n;
            assert(defs[j] == defs.drop_last()[j]);
        }
        if exists|j: int| 0 <= j < defs.len() && (#[trigger] defs[j]).def.name@ == n {
            let j = choose|j: int| 0 <= j < defs.len() && (#[trigger] defs[j]).def.name@ == n;
            if j < defs.len() - 1 {
                assert(defs.drop_last()[j] == defs[j]);
            }
        }
    }
}

/// No two definitions share a name.
pub open spec fn distinct_names(defs: Seq<McpToolDef>) -> bool {
    forall|i: int, j: int|
        0 <= i < j < defs.len() ==> (#[trigger] defs[i]).def.name@ != (#[trigger] defs[j]).def.name@
}

proof fn lemma_defs_map_value(defs: Seq<McpToolDef>, i: int)
    requires
        distinct_names(defs),
        0 <= i < defs.len(),
    ensures
        defs_map(defs).dom().contains(defs[i].def.name@),
        defs_map(defs)[defs[i].def.name@] == (defs[i].def.description@, defs[i].def.parameters@),
    decreases defs.len(),
{
    if i < defs.len() - 1 {
        let rest = defs.drop_last();
        assert(rest[i] == defs[i]);
        assert forall|a: int, b: int| 0 <= a < b < rest.len() implies (#[trigger] rest[a]).def.name@
            != (#[trigger] rest[b]).def.name@ by {
            assert(rest[a] == defs[a] && rest[b] == defs[b]);
        }
        lemma_defs_map_value(rest, i);
        assert(defs[i].def.name@ != defs[defs.len() - 1].def.name@);
    }
}

impl ToolRegistry {
    #[verifier::type_invariant]
    closed spec fn names_distinct(&self) -> bool {
        distinct_names(self.defs@)
    }

    /// The tools by name.
    pub closed spec fn tools_by_name(&self) -> Map<Seq<char>, ToolInfo> {
        defs_map(self.defs@)
    }

    /// A registry with no tools.
    pub fn new() -> (r: Self)
        ensures
            r.tools_by_name() == Map::<Seq<char>, ToolInfo>::empty(),
    {
        ToolRegistry { defs: Vec::new() }
    }

    /// A copy of the registry.
    pub fn snapshot(&self) -> (r: ToolRegistry)
        ensures
            r.tools_by_name() == self.tools_by_name(),
    {
        proof {
            use_type_invariant(self);
        }
        let mut defs: Vec<McpToolDef> = Vec::new();
        let mut i: usize = 0;
        while i < self.defs.len()
            invariant
                i <= self.defs.len(),
                defs@ == self.defs@.take(i as int),
            decreases self.defs.len() - i,
        {
            let d = &self.defs[i].def;
            defs.push(
                McpToolDef {
                    def: ToolDefinition {
                        name: d.name.clone(),
                        description: d.description.clone(),
                        parameters: d.parameters.clone(),
                    },
                },
            );
            proof {
                assert(defs@ =~= self.defs@.take(i + 1));
            }
            i = i + 1;
        }
        proof {
            assert(defs@ =~= self.defs@);
        }
        ToolRegistry { defs }
    }

    /// All tool definitions, one per name.
    pub fn definitions(&self) -> (r: Vec<ToolDefinition>)
        ensures
            forall|a: int, b: int|
                0 <= a < b < r@.len() ==> (#[trigger] r@[a]).name@ != (#[trigger] r@[b]).name@,
            forall|n: Seq<char>| #[trigger] self.tools_by_name().dom().contains(n) <==> exists|i: int|
                0 <= i < r@.len() && r@[i].name@ == n,
            forall|i: int|
                0 <= i < r@.len() ==> self.tools_by_name()[#[trigger] r@[i].name@] == (
                r@[i].description@,
                r@[i].parameters@,
            ),
    {
        proof {
            use_type_invariant(self);
        }
        let mut r: Vec<ToolDefinition> = Vec::new();
        let mut i: usize = 0;
        while i < self.defs.len()
            invariant
                i <= self.defs.len(),
                distinct_names(self.defs@),
                r@.len() == i,
                forall|k: int| 0 <= k < i ==> {
                    &&& (#[trigger] r@[k]).name@ == self.defs@[k].def.name@
                    &&& r@[k].description@ == self.defs@[k].def.description@
                    &&& r@[k].parameters@ == self.defs@[k].def.parameters@
                },
            decreases self.defs.len() - i,
        {
            let d = &self.defs[i].def;
            r.push(
                ToolDefinition {
                    name: d.name.clone(),
                    description: d.description.clone(),
                    parameters: d.parameters.clone(),
                },
            );
            i = i + 1;
        }
        proof {
            assert forall|n: Seq<char>| #[trigger] self.tools_by_name().dom().contains(n) <==> exists|
                k: int,
            | 0 <= k < r@.len() && r@[k].name@ == n by {
                lemma_defs_map_dom(self.defs@, n);
                if self.tools_by_name().dom().contains(n) {
                    let j = choose|j: int| 0 <= j < self.defs@.len() && (#[trigger] self.defs@[j]).def.name@ == n;
                    assert(r@[j].name@ == n);
                }
                if exists|k: int| 0 <= k < r@.len() && r@[k].name@ == n {
                    let k = choose|k: int| 0 <= k < r@.len() && r@[k].name@ == n;
                    assert(self.defs@[k].def.name@ == n);
                }
            }
            assert forall|k: int| 0 <= k < r@.len() implies self.tools_by_name()[#[trigger] r@[k].name@]
                == (r@[k].description@, r@[k].parameters@) by {
                lemma_defs_map_value(self.defs@, k);
            }
        }
        r
    }

    /// All tool names.
    pub fn names(&self) -> (r: Vec<String>)
        ensures
            forall|n: Seq<char>| #[trigger] self.tools_by_name().dom().contains(n) <==> exists|i: int|
                0 <= i < r@.len() && r@[i]@ == n,
    {
        let defs = self.definitions();
        let mut r: Vec<String> = Vec::new();
        let mut i: usize = 0;
        while i < defs.len()
            invariant
                i <= defs.len(),
                r@.len() == i,
                forall|k: int| 0 <= k < i ==> (#[trigger] r@[k])@ == defs@[k].name@,
            decreases defs.len() - i,
        {
            r.push(defs[i].name.clone());
            i = i + 1;
        }
        proof {
            assert forall|n: Seq<char>| #[trigger] self.tools_by_name().dom().contains(n) <==> exists|
                k: int,
            | 0 <= k < r@.len() && r@[k]@ == n by {
                if exists|k: int| 0 <= k < r@.len() && r@[k]@ == n {
                    let k = choose|k: int| 0 <= k < r@.len() && r@[k]@ == n;
                    assert(defs@[k].name@ == n);
                }
                if exists|k: int| 0 <= k < defs@.len() && defs@[k].name@ == n {
                    let k = choose|k: int| 0 <= k < defs@.len() && defs@[k].name@ == n;
                    assert(r@[k]@ == n);
                }
            }
        }
        r
    }
}

/// Builds the tool registry from a `tools/list` reply: `tools` is its
/// `tools` array, `None` when the reply has none.
pub fn parse_tool_list(tools: Option<Vec<McpToolEntry>>) -> (r: HubResult<ToolRegistry>)
    ensures
        tools is None ==> (r matches Err(HubError::McpProtocol { code, message }) && code == -1
            && message@ == "tools/list missing 'tools' array"@),
        tools is Some && (exists|i: int| 0 <= i < tools->0@.len() && (#[trigger] tools->0@[i]).name is None)
            ==> (r matches Err(HubError::McpProtocol { code, message }) && code == -2 && message@
            == "tool missing name"@),
        tools is Some && (forall|i: int| 0 <= i < tools->0@.len() ==> (#[trigger] tools->0@[i]).name is Some)
            ==> (r matches Ok(reg) && reg.tools_by_name() == listed_tools(tools->0@)),
{
    let es = match tools {
        Some(es) => es,
        None => {
            let mut m = String::new();
            push_str(&mut m, "tools/list missing 'tools' array");
            proof {
                assert(m@ =~= "tools/list missing 'tools' array"@);
            }
            return Err(HubError::McpProtocol { code: -1, message: m });
        },
    };
    proof {
        reveal_strlit("");
        assert(""@ =~= Seq::<char>::empty());
    }
    let mut k: usize = 0;
    while k < es.len()
        invariant
            tools is Some && tools->0@ == es@,
            k <= es.len(),
            forall|i: int| 0 <= i < k ==> (#[trigger] es@[i]).name is Some,
        decreases es.len() - k,
    {
        if es[k].name.is_none() {
            let mut m = String::new();
            push_str(&mut m, "tool missing name");
            proof {
                assert(m@ =~= "tool missing name"@);
            }
            return Err(HubError::McpProtocol { code: -2, message: m });
        }
        k = k + 1;
    }
    let mut defs: Vec<McpToolDef> = Vec::new();
    let mut i: usize = es.len();
    proof {
        assert(es@.skip(es.len() as int) =~= Seq::<McpToolEntry>::empty());
    }
    while i > 0
        invariant
            tools is Some && tools->0@ == es@,
            ""@ == Seq::<char>::empty(),
            i <= es.len(),
            forall|j: int| 0 <= j < es@.len() ==> (#[trigger] es@[j]).name is Some,
            distinct_names(defs@),
            defs_map(defs@) == listed_tools(es@.skip(i as int)),
        decreases i,
    {
        let e = &es[i - 1];
        let name = text_or_default(&e.name, "");
        proof {
            lemma_defs_map_dom(defs@, name@);
            assert(es@.skip(i - 1).drop_first() =~= es@.skip(i as int));
            assert(es@.skip(i - 1)[0] == es@[i - 1]);
        }
        let mut present = false;
        let mut j: usize = 0;
        while j < defs.len()
            invariant
                j <= defs.len(),
                !present ==> forall|k: int| 0 <= k < j ==> (#[trigger] defs@[k]).def.name@ != name@,
                present ==> defs_map(defs@).dom().contains(name@),
            decreases defs.len() - j,
        {
            if same_text(defs[j].def.name.as_str(), name.as_str()) {
                present = true;
                proof {
                    lemma_defs_map_dom(defs@, name@);
                }
            }
            j = j + 1;
        }
        if !present {
            let description = text_or_default(&e.description, "");
            let parameters = match &e.input_schema {
                Some(s) => s.clone(),
                None => match &e.parameters {
                    Some(p) => p.clone(),
                    None => "{\"type\":\"object\"}".to_owned(),
                },
            };
            let ghost before = defs@;
            defs.push(McpToolDef { def: ToolDefinition { name, description, parameters } });
            proof {
                assert(defs@.drop_last() =~= before);
                assert forall|a: int, b: int| 0 <= a < b < defs@.len() implies (#[trigger] defs@[a]).def.name@
                    != (#[trigger] defs@[b]).def.name@ by {
                    if b == defs@.len() - 1 {
                        assert(defs@[a] == before[a]);
                    } else {
                        assert(defs@[a] == before[a] && defs@[b] == before[b]);
                    }
                }
            }
        }
        i = i - 1;
    }
    proof {
        assert(es@.skip(0) =~= es@);
    }
    Ok(ToolRegistry { defs })
}

// ---------------------------------------------------------------------
// Where the line-desktop-mcp entry script is found
// ---------------------------------------------------------------------
/// Whether `c` separates path components where the main separator is
/// `sep`: `/` everywhere, and `sep` itself.
pub open spec fn is_path_separator(c: char, sep: char) -> bool {
    c == '/' || c == sep
}

/// `base` with the relative component `part` adjoined, as `Path::join`
/// does for a relative `part`: a separator goes between them unless `base`
/// is empty or already ends in one.
pub open spec fn path_join(base: Seq<char>, part: Seq<char>, sep: char) -> Seq<char> {
    if base.len() == 0 || is_path_separator(base.last(), sep) {
        base + part
    } else {
        base + seq![sep] + part
    }
}

/// Adjoins the relative component `part` to `base` with the separator
/// `sep`.
pub fn join_path(base: &str, part: &str, sep: char) -> (r: String)
    ensures
        r@ == path_join(base@, part@, sep),
{
    let v = chars_of(base);
    let mut r = String::new();
    push_str(&mut r, base);
    let n = v.len();
    if n > 0 && !(v[n - 1] == '/' || v[n - 1] == sep) {
        push_char(&mut r, sep);
    }
    push_str(&mut r, part);
    proof {
        if n > 0 {
            assert(v@.last() == v@[n - 1]);
        }
        assert(r@ =~= path_join(base@, part@, sep));
    }
    r
}

/// `dir/src/server.js`: the entry script of a line-desktop-mcp tree.
pub open spec fn tree_entry(dir: Seq<char>, sep: char) -> Seq<char> {
    path_join(path_join(dir, "src"@, sep), "server.js"@, sep)
}

/// The entry script of the line-desktop-mcp tree at `dir`.
pub fn tree_entry_path(dir: &str, sep: char) -> (r: String)
    ensures
        r@ == tree_entry(dir@, sep),
{
    let s = join_path(dir, "src", sep);
    join_path(s.as_str(), "server.js", sep)
}

/// The entry script bundled under `resources/line-desktop-mcp` of `dir`.
pub open spec fn bundled_entry(dir: Seq<char>, sep: char) -> Seq<char> {
    tree_entry(path_join(path_join(dir, "resources"@, sep), "line-desktop-mcp"@, sep), sep)
}

/// Where an installer may have put the entry script, relative to the
/// directory of the running binary: beside it, one level up, two levels up.
pub fn exe_resource_candidates(exe_dir: &str, sep: char) -> (r: Vec<String>)
    ensures
        r@.len() == 3,
        r@[0]@ == bundled_entry(exe_dir@, sep),
        r@[1]@ == bundled_entry(path_join(exe_dir@, ".."@, sep), sep),
        r@[2]@ == bundled_entry(path_join(path_join(exe_dir@, ".."@, sep), ".."@, sep), sep),
{
    let up = join_path(exe_dir, "..", sep);
    let up2 = join_path(up.as_str(), "..", sep);
    let mut r: Vec<String> = Vec::new();
    r.push(bundled_entry_path(exe_dir, sep));
    r.push(bundled_entry_path(up.as_str(), sep));
    r.push(bundled_entry_path(up2.as_str(), sep));
    r
}

fn bundled_entry_path(dir: &str, sep: char) -> (r: String)
    ensures
        r@ == bundled_entry(dir@, sep),
{
    let a = join_path(dir, "resources", sep);
    let b = join_path(a.as_str(), "line-desktop-mcp", sep);
    tree_entry_path(b.as_str(), sep)
}

/// Resolves the default entry script: the `HUB_LINE_MCP_PATH` value as
/// given, else the tree named by `LINE_MODEL_HUB_BUNDLED`, else the first
/// bundled resource that exists beside the binary; `LineMcpNotFound` when
/// none of these is at hand.
pub fn resolve_default_entry(
    hub_path_env: Option<String>,
    bundled_env: Option<String>,
    first_existing_resource: Option<String>,
    sep: char,
) -> (r: HubResult<String>)
    ensures
        hub_path_env matches Some(p) ==> r == Ok::<String, HubError>(p),
        hub_path_env is None ==> (bundled_env matches Some(d) ==> (r matches Ok(p) && p@
            == tree_entry(d@, sep))),
        (hub_path_env is None && bundled_env is None) ==> (first_existing_resource matches Some(c)
            ==> r == Ok::<String, HubError>(c)),
        hub_path_env is None && bundled_env is None && first_existing_resource is None ==> r
            == Err::<String, HubError>(HubError::LineMcpNotFound),
{
    match hub_path_env {
        Some(p) => Ok(p),
        None => match bundled_env {
            Some(d) => Ok(tree_entry_path(d.as_str(), sep)),
            None => match first_existing_resource {
                Some(c) => Ok(c),
                None => Err(HubError::LineMcpNotFound),
            },
        },
    }
}

} // verus!
