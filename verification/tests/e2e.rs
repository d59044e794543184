//! End-to-end style checks of the configuration defaults.

use line_hub_core::config::{ensure_minimax_default, HubConfig};
use line_hub_core::provider::ProviderId;

#[test]
fn config_defaults_inject_minimax() {
    let mut cfg = HubConfig::default();
    ensure_minimax_default(&mut cfg, String::new());
    assert!(
        cfg.providers.iter().any(|p| p.id == ProviderId::MiniMax),
        "MiniMax provider missing from defaults"
    );
}
