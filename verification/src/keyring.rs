//! Which providers have an API key in the OS keyring.

use vstd::prelude::*;

verus! {

/// The keyring lookups for the four canonical providers: whether each has
/// a stored key.
#[derive(Debug, Clone, Copy)]
pub struct KeyringProbe {
    pub openai: bool,
    pub minimax: bool,
    pub anthropic: bool,
    pub ollama: bool,
}

/// The canonical providers with a stored key, in the order `openai`,
/// `minimax`, `anthropic`, `ollama`.
pub open spec fn configured_ids(p: KeyringProbe) -> Seq<Seq<char>> {
    (if p.openai {
        seq!["openai"@]
    } else {
        Seq::empty()
    }) + (if p.minimax {
        seq!["minimax"@]
    } else {
        Seq::empty()
    }) + (if p.anthropic {
        seq!["anthropic"@]
    } else {
        Seq::empty()
    }) + (if p.ollama {
        seq!["ollama"@]
    } else {
        Seq::empty()
    })
}

/// The provider ids that have a key stored under the hub's service name.
/// Only the four canonical providers are probed.
pub fn list_configured_providers(probe: KeyringProbe) -> (r: Vec<String>)
    ensures
        r@.map_values(|s: String| s@) == configured_ids(probe),
{
    let mut r: Vec<String> = Vec::new();
    if probe.openai {
        r.push("openai".to_owned());
    }
    if probe.minimax {
        r.push("minimax".to_owned());
    }
    if probe.anthropic {
        r.push("anthropic".to_owned());
    }
    if probe.ollama {
        r.push("ollama".to_owned());
    }
    proof {
        assert(r@.map_values(|s: String| s@) =~= configured_ids(probe));
    }
    r
}

} // verus!
