//! Hub configuration: the provider entries and the selected defaults.

use crate::provider::types::ProviderId;
use crate::text::push_str;
use vstd::prelude::*;

verus! {

/// One configured provider.
#[derive(Debug, Clone)]
pub struct ProviderEntry {
    pub id: ProviderId,
    /// API key; empty when none is set.
    pub api_key: String,
    pub base_url: Option<String>,
    pub default_model: Option<String>,
}

/// The hub's configuration.
#[derive(Debug, Clone)]
pub struct HubConfig {
    /// Selected provider for the next session.
    pub default_provider: Option<ProviderId>,
    /// Selected model within `default_provider`.
    pub default_model: Option<String>,
    /// Per-provider settings.
    pub providers: Vec<ProviderEntry>,
    /// Path to the line-desktop-mcp entry script, when set in Settings.
    pub line_mcp_path: Option<String>,
    /// Whether only the local (read-only) tools are offered.
    pub local_only: bool,
}

impl Default for HubConfig {
    fn default() -> (r: Self)
        ensures
            r.default_provider is None,
            r.default_model is None,
            r.providers@.len() == 0,
            r.line_mcp_path is None,
            !r.local_only,
    {
        HubConfig {
            default_provider: None,
            default_model: None,
            providers: Vec::new(),
            line_mcp_path: None,
            local_only: false,
        }
    }
}

/// Some entry configures `id`.
pub open spec fn has_provider(entries: Seq<ProviderEntry>, id: ProviderId) -> bool {
    exists|i: int| 0 <= i < entries.len() && (#[trigger] entries[i]).id == id
}

/// The MiniMax entry added to a configuration that has none.
pub open spec fn is_minimax_default_entry(e: ProviderEntry, api_key: String) -> bool {
    &&& e.id == ProviderId::MiniMax
    &&& e.api_key == api_key
    &&& e.base_url is None
    &&& e.default_model matches Some(m) && m@ == "MiniMax-M3"@
}

/// `new` is `old` with MiniMax made available and selected where nothing
/// was: a MiniMax entry is appended when none exists, and an unset
/// default provider or model becomes MiniMax / `MiniMax-M3`.
pub open spec fn with_minimax_defaults(old: HubConfig, api_key: String, new: HubConfig) -> bool {
    &&& if has_provider(old.providers@, ProviderId::MiniMax) {
        new.providers@ == old.providers@
    } else {
        &&& new.providers@.len() == old.providers@.len() + 1
        &&& new.providers@.drop_last() == old.providers@
        &&& is_minimax_default_entry(new.providers@.last(), api_key)
    }
    &&& new.default_provider == (if old.default_provider is None {
        Some(ProviderId::MiniMax)
    } else {
        old.default_provider
    })
    &&& if old.default_model is None {
        new.default_model matches Some(m) && m@ == "MiniMax-M3"@
    } else {
        new.default_model == old.default_model
    }
    &&& new.line_mcp_path == old.line_mcp_path
    &&& new.local_only == old.local_only
}

fn has_minimax(entries: &Vec<ProviderEntry>) -> (r: bool)
    ensures
        r == has_provider(entries@, ProviderId::MiniMax),
{
    let mut i: usize = 0;
    while i < entries.len()
        invariant
            i <= entries.len(),
            forall|k: int| 0 <= k < i ==> (#[trigger] entries@[k]).id != ProviderId::MiniMax,
        decreases entries.len() - i,
    {
        if entries[i].id == ProviderId::MiniMax {
            return true;
        }
        i = i + 1;
    }
    false
}

fn minimax_m3() -> (r: String)
    ensures
        r@ == "MiniMax-M3"@,
{
    let mut r = String::new();
    push_str(&mut r, "MiniMax-M3");
    proof {
        assert(r@ =~= "MiniMax-M3"@);
    }
    r
}

/// Makes MiniMax available and selected when nothing else is: adds a
/// MiniMax entry (with `minimax_api_key`, the `MINIMAX_API_KEY` of the
/// environment, possibly empty) when none exists, and fills an unset
/// default provider and model with MiniMax and `MiniMax-M3`.
pub fn ensure_minimax_default(cfg: &mut HubConfig, minimax_api_key: String) -> (r: &mut HubConfig)
    ensures
        with_minimax_defaults(*old(cfg), minimax_api_key, *r),
        has_provider(r.providers@, ProviderId::MiniMax),
        r.default_provider is Some,
        *final(cfg) == *final(r),
{
    if !has_minimax(&cfg.providers) {
        let ghost before = cfg.providers@;
        cfg.providers.push(
            ProviderEntry {
                id: ProviderId::MiniMax,
                api_key: minimax_api_key,
                base_url: None,
                default_model: Some(minimax_m3()),
            },
        );
        proof {
            assert(cfg.providers@.drop_last() =~= before);
            assert(cfg.providers@[before.len() as int].id == ProviderId::MiniMax);
        }
    }
    if cfg.default_provider.is_none() {
        cfg.default_provider = Some(ProviderId::MiniMax);
    }
    if cfg.default_model.is_none() {
        cfg.default_model = Some(minimax_m3());
    }
    cfg
}

/// Applying the MiniMax defaults twice changes nothing the second time:
/// no second MiniMax entry is added and the selection stays.
pub proof fn ensure_minimax_default_is_idempotent(
    a: HubConfig,
    key1: String,
    b: HubConfig,
    key2: String,
    c: HubConfig,
)
    requires
        with_minimax_defaults(a, key1, b),
        with_minimax_defaults(b, key2, c),
    ensures
        c.providers@ == b.providers@,
        c.default_provider == b.default_provider,
        c.default_model == b.default_model,
        c.line_mcp_path == b.line_mcp_path,
        c.local_only == b.local_only,
{
    if !has_provider(a.providers@, ProviderId::MiniMax) {
        let k = b.providers@.len() - 1;
        assert(b.providers@[k].id == ProviderId::MiniMax);
    }
}

} // verus!
