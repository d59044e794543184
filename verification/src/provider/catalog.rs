//! Per-provider settings and model catalogues: what each provider needs to
//! be usable, its defaults, and how a chat request reaches it.

use crate::config::ProviderEntry;
use crate::error::{HubError, HubResult};
use crate::provider::openai_compat::OpenAICompatConfig;
use crate::provider::types::{ModelInfo, ModelTier, ProviderId};
use crate::text::{chars_of, push_str, string_from_chars};
use vstd::prelude::*;

verus! {

/// The text of an optional string, or a default.
pub open spec fn or_text(o: Option<String>, dflt: Seq<char>) -> Seq<char> {
    match o {
        Some(s) => s@,
        None => dflt,
    }
}

/// A catalogue entry with the given fields.
pub open spec fn model_is(
    m: ModelInfo,
    id: Seq<char>,
    label: Seq<char>,
    tier: ModelTier,
    description: Option<Seq<char>>,
    is_default: bool,
) -> bool {
    &&& m.id@ == id
    &&& m.label@ == label
    &&& m.tier == tier
    &&& match description {
        Some(d) => m.description matches Some(x) && x@ == d,
        None => m.description is None,
    }
    &&& m.is_default == is_default
}

fn model(id: &str, label: &str, tier: ModelTier, description: Option<&str>, is_default: bool) -> (m: ModelInfo)
    ensures
        model_is(
            m,
            id@,
            label@,
            tier,
            match description {
                Some(d) => Some(d@),
                None => None,
            },
            is_default,
        ),
{
    ModelInfo {
        id: id.to_owned(),
        label: label.to_owned(),
        tier,
        description: match description {
            Some(d) => Some(d.to_owned()),
            None => None,
        },
        is_default,
    }
}

/// The MiniMax catalogue: M3 (the default), M2.7 and M2.7 highspeed.
pub open spec fn is_minimax_catalogue(r: Seq<ModelInfo>) -> bool {
    &&& r.len() == 3
    &&& model_is(r[0], "MiniMax-M3"@, "★ MiniMax M3 (default)"@, ModelTier::Balanced, Some("Reasoning + tool use. Best default for LINE automation."@), true)
    &&& model_is(r[1], "MiniMax-M2.7"@, "MiniMax M2.7"@, ModelTier::Reasoning, Some("Deeper reasoning. Slower; content can be sparse."@), false)
    &&& model_is(r[2], "MiniMax-M2.7-highspeed"@, "MiniMax M2.7 highspeed"@, ModelTier::Fast, Some("⚠ Rate limit prone."@), false)
}

/// The OpenAI catalogue: GPT-5, GPT-5 mini (the default), o1 and GPT-4o.
pub open spec fn is_openai_catalogue(r: Seq<ModelInfo>) -> bool {
    &&& r.len() == 4
    &&& model_is(r[0], "gpt-5"@, "GPT-5"@, ModelTier::Flagship, None, false)
    &&& model_is(r[1], "gpt-5-mini"@, "GPT-5 mini"@, ModelTier::Balanced, Some("Default for OpenAI provider."@), true)
    &&& model_is(r[2], "o1"@, "o1 (reasoning)"@, ModelTier::Reasoning, None, false)
    &&& model_is(r[3], "gpt-4o"@, "GPT-4o (legacy)"@, ModelTier::Fast, None, false)
}

/// The Ollama catalogue: Qwen 2.5 14B (the default), Llama 3.3 70B and gpt-oss 20B.
pub open spec fn is_ollama_catalogue(r: Seq<ModelInfo>) -> bool {
    &&& r.len() == 3
    &&& model_is(r[0], "qwen2.5:14b"@, "Qwen 2.5 14B (recommended local)"@, ModelTier::Balanced, Some("Good tool-use + Chinese support."@), true)
    &&& model_is(r[1], "llama3.3:70b"@, "Llama 3.3 70B"@, ModelTier::Flagship, Some("Large, slow, English-first."@), false)
    &&& model_is(r[2], "gpt-oss:20b"@, "gpt-oss 20B"@, ModelTier::Balanced, None, false)
}

/// The MiniMax catalogue.
pub fn minimax_models() -> (r: Vec<ModelInfo>)
    ensures
        is_minimax_catalogue(r@),
{
    let mut r: Vec<ModelInfo> = Vec::new();
    r.push(model("MiniMax-M3", "★ MiniMax M3 (default)", ModelTier::Balanced, Some("Reasoning + tool use. Best default for LINE automation."), true));
    r.push(model("MiniMax-M2.7", "MiniMax M2.7", ModelTier::Reasoning, Some("Deeper reasoning. Slower; content can be sparse."), false));
    r.push(model("MiniMax-M2.7-highspeed", "MiniMax M2.7 highspeed", ModelTier::Fast, Some("⚠ Rate limit prone."), false));
    r
}

/// The OpenAI catalogue.
pub fn openai_models() -> (r: Vec<ModelInfo>)
    ensures
        is_openai_catalogue(r@),
{
    let mut r: Vec<ModelInfo> = Vec::new();
    r.push(model("gpt-5", "GPT-5", ModelTier::Flagship, None, false));
    r.push(model("gpt-5-mini", "GPT-5 mini", ModelTier::Balanced, Some("Default for OpenAI provider."), true));
    r.push(model("o1", "o1 (reasoning)", ModelTier::Reasoning, None, false));
    r.push(model("gpt-4o", "GPT-4o (legacy)", ModelTier::Fast, None, false));
    r
}

/// The Ollama / LM Studio catalogue (static fallback).
pub fn ollama_models() -> (r: Vec<ModelInfo>)
    ensures
        is_ollama_catalogue(r@),
{
    let mut r: Vec<ModelInfo> = Vec::new();
    r.push(model("qwen2.5:14b", "Qwen 2.5 14B (recommended local)", ModelTier::Balanced, Some("Good tool-use + Chinese support."), true));
    r.push(model("llama3.3:70b", "Llama 3.3 70B", ModelTier::Flagship, Some("Large, slow, English-first."), false));
    r.push(model("gpt-oss:20b", "gpt-oss 20B", ModelTier::Balanced, None, false));
    r
}

/// The settings of an OpenAI-compatible provider built from its entry.
pub open spec fn compat_config_is(
    c: OpenAICompatConfig,
    entry: ProviderEntry,
    label: Seq<char>,
    base: Seq<char>,
    api_key: Seq<char>,
    model: Seq<char>,
    strip: bool,
) -> bool {
    &&& c.label@ == label
    &&& c.base_url@ == or_text(entry.base_url, base)
    &&& c.api_key@ == api_key
    &&& c.default_model@ == or_text(entry.default_model, model)
    &&& c.extra_models@.len() == 0
    &&& c.strip_thinking_tags == strip
    &&& c.has_reasoning_channel == strip
}

fn or_default(o: &Option<String>, dflt: &str) -> (r: String)
    ensures
        r@ == or_text(*o, dflt@),
{
    match o {
        Some(s) => s.clone(),
        None => dflt.to_owned(),
    }
}

fn config_error(m: &str) -> (e: HubError)
    ensures
        e matches HubError::Config(t) && t@ == m@,
{
    HubError::Config(m.to_owned())
}

/// MiniMax settings: the key is required; MiniMax strips thinking tags and
/// has a reasoning channel.
pub fn minimax_config(entry: &ProviderEntry) -> (r: HubResult<OpenAICompatConfig>)
    ensures
        entry.api_key@.len() == 0 ==> (r matches Err(HubError::Config(m))
            && m@ == "MiniMax API key not set. Configure via Settings."@),
        entry.api_key@.len() > 0 ==> (r matches Ok(c) && compat_config_is(c, *entry, "minimax"@, "https://api.minimax.io"@, entry.api_key@, "MiniMax-M3"@, true)),
{
    if entry.api_key.as_str().is_empty() {
        return Err(config_error("MiniMax API key not set. Configure via Settings."));
    }
    Ok(OpenAICompatConfig {
        label: "minimax".to_owned(),
        base_url: or_default(&entry.base_url, "https://api.minimax.io"),
        api_key: entry.api_key.clone(),
        default_model: or_default(&entry.default_model, "MiniMax-M3"),
        extra_models: Vec::new(),
        strip_thinking_tags: true,
        has_reasoning_channel: true,
    })
}

/// OpenAI settings: the key is required.
pub fn openai_config(entry: &ProviderEntry) -> (r: HubResult<OpenAICompatConfig>)
    ensures
        entry.api_key@.len() == 0 ==> (r matches Err(HubError::Config(m)) && m@ == "OpenAI API key not set"@),
        entry.api_key@.len() > 0 ==> (r matches Ok(c) && compat_config_is(c, *entry, "openai"@, "https://api.openai.com"@, entry.api_key@, "gpt-5-mini"@, false)),
{
    if entry.api_key.as_str().is_empty() {
        return Err(config_error("OpenAI API key not set"));
    }
    Ok(OpenAICompatConfig {
        label: "openai".to_owned(),
        base_url: or_default(&entry.base_url, "https://api.openai.com"),
        api_key: entry.api_key.clone(),
        default_model: or_default(&entry.default_model, "gpt-5-mini"),
        extra_models: Vec::new(),
        strip_thinking_tags: false,
        has_reasoning_channel: false,
    })
}

/// Ollama / LM Studio settings: no key is needed; an empty key becomes
/// `ollama`.
pub fn ollama_config(entry: &ProviderEntry) -> (r: OpenAICompatConfig)
    ensures
        compat_config_is(
            r,
            *entry,
            "ollama"@,
            "http://localhost:11434"@,
            if entry.api_key@.len() == 0 {
                "ollama"@
            } else {
                entry.api_key@
            },
            "qwen2.5:14b"@,
            false,
        ),
{
    OpenAICompatConfig {
        label: "ollama".to_owned(),
        base_url: or_default(&entry.base_url, "http://localhost:11434"),
        api_key: if entry.api_key.as_str().is_empty() {
            "ollama".to_owned()
        } else {
            entry.api_key.clone()
        },
        default_model: or_default(&entry.default_model, "qwen2.5:14b"),
        extra_models: Vec::new(),
        strip_thinking_tags: false,
        has_reasoning_channel: false,
    }
}

/// `s` without its trailing `/` characters.
pub open spec fn trim_trailing_slashes(s: Seq<char>) -> Seq<char>
    decreases s.len(),
{
    if s.len() > 0 && s.last() == '/' {
        trim_trailing_slashes(s.drop_last())
    } else {
        s
    }
}

/// The chat-completions endpoint under a base URL.
pub fn chat_completions_url(base_url: &str) -> (r: String)
    ensures
        r@ == trim_trailing_slashes(base_url@) + "/v1/chat/completions"@,
{
    let v = chars_of(base_url);
    let mut n: usize = v.len();
    proof {
        assert(v@.take(n as int) =~= v@);
    }
    while n > 0 && v[n - 1] == '/'
        invariant
            n <= v.len(),
            trim_trailing_slashes(v@.take(n as int)) == trim_trailing_slashes(v@),
        decreases n,
    {
        proof {
            assert(v@.take(n as int).drop_last() =~= v@.take(n - 1));
        }
        n = n - 1;
    }
    let mut head: Vec<char> = Vec::new();
    let mut i: usize = 0;
    while i < n
        invariant
            i <= n <= v.len(),
            head@ == v@.take(i as int),
        decreases n - i,
    {
        head.push(v[i]);
        proof {
            assert(head@ =~= v@.take(i + 1));
        }
        i = i + 1;
    }
    proof {
        assert(trim_trailing_slashes(v@.take(n as int)) == v@.take(n as int));
        if n == v.len() {
            assert(v@.take(n as int) =~= v@);
        }
    }
    let mut r = string_from_chars(head.as_slice());
    push_str(&mut r, "/v1/chat/completions");
    r
}

/// `auto` tool choice exactly when tools are offered.
pub fn tool_choice(has_tools: bool) -> (r: Option<&'static str>)
    ensures
        has_tools ==> (r matches Some(s) && s@ == "auto"@),
        !has_tools ==> r is None,
{
    if has_tools {
        Some("auto")
    } else {
        None
    }
}

/// MiniMax's token budget: the request's, else 2048.
pub fn minimax_max_tokens(requested: Option<u32>) -> (r: Option<u32>)
    ensures
        r == (match requested {
            Some(n) => Some(n),
            None => Some(2048u32),
        }),
{
    match requested {
        Some(n) => Some(n),
        None => Some(2048),
    }
}

/// The catalogue a provider shows for an entry, or `None` when the entry
/// is not usable (a key is required and missing). Anthropic's catalogue is
/// not part of this module.
pub fn compat_models_for(entry: &ProviderEntry) -> (r: Option<Vec<ModelInfo>>)
    ensures
        entry.id == ProviderId::Anthropic ==> r is None,
        entry.id == ProviderId::Ollama ==> (r matches Some(ms) && is_ollama_catalogue(ms@)),
        (entry.id == ProviderId::MiniMax || entry.id == ProviderId::OpenAI) ==> (r is Some
            <==> entry.api_key@.len() > 0),
        entry.id == ProviderId::MiniMax && r is Some ==> is_minimax_catalogue(r->0@),
        entry.id == ProviderId::OpenAI && r is Some ==> is_openai_catalogue(r->0@),
{
    match entry.id {
        ProviderId::MiniMax => if entry.api_key.as_str().is_empty() {
            None
        } else {
            Some(minimax_models())
        },
        ProviderId::OpenAI => if entry.api_key.as_str().is_empty() {
            None
        } else {
            Some(openai_models())
        },
        ProviderId::Ollama => Some(ollama_models()),
        ProviderId::Anthropic => None,
    }
}

} // verus!
