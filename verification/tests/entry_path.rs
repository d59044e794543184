//! Where the line-desktop-mcp entry script is looked for.

use line_hub_core::commands::{
    candidate_vendor_path, choose_entry_path, entry_step, vendor_entry_path, vendor_extract_failed,
    EntryStep,
};
use line_hub_core::mcp::{exe_resource_candidates, join_path, resolve_default_entry, tree_entry_path};
use line_hub_core::vendor::{vendor_plan, VendorPlan};
use line_hub_core::HubError;
use std::path::{Path, PathBuf, MAIN_SEPARATOR};

fn s(x: &str) -> String {
    x.to_string()
}

#[test]
fn default_entry_path_env_wins_over_bundled() {
    let res = resolve_default_entry(Some(s("/tmp/from-env.js")), Some(s("/opt/bundle")), None, MAIN_SEPARATOR)
        .expect("env path");
    assert_eq!(PathBuf::from(res), PathBuf::from("/tmp/from-env.js"));
}

#[test]
fn default_entry_path_env_dir_resolves_to_server_js() {
    let dir = Path::new("/tmp").join("LINE_HUB_TEST_BUNDLE");
    let res = resolve_default_entry(None, Some(dir.to_string_lossy().into_owned()), None, MAIN_SEPARATOR)
        .expect("bundled dir");
    assert_eq!(PathBuf::from(res), dir.join("src").join("server.js"));
}

#[test]
fn default_entry_path_returns_err_when_nothing_set() {
    let res = resolve_default_entry(None, None, None, MAIN_SEPARATOR);
    assert!(matches!(res, Err(HubError::LineMcpNotFound)), "expected LineMcpNotFound, got {res:?}");
}

#[test]
fn found_resource_is_the_third_tier() {
    assert_eq!(
        resolve_default_entry(None, None, Some(s("/app/resources/x.js")), '/').unwrap(),
        "/app/resources/x.js"
    );
}

#[test]
fn joins_add_one_separator() {
    assert_eq!(join_path("a", "b", '/'), "a/b");
    assert_eq!(join_path("a/", "b", '/'), "a/b");
    assert_eq!(join_path("", "b", '/'), "b");
    assert_eq!(join_path("C:\\x", "b", '\\'), "C:\\x\\b");
    assert_eq!(join_path("C:\\x/", "b", '\\'), "C:\\x/b");
    assert_eq!(join_path("a\\", "b", '/'), "a\\/b");
    assert_eq!(tree_entry_path("/opt/mcp", '/'), "/opt/mcp/src/server.js");
    assert_eq!(
        Path::new(&tree_entry_path("/opt/mcp", MAIN_SEPARATOR)),
        Path::new("/opt/mcp").join("src").join("server.js")
    );
}

#[test]
fn exe_candidates_walk_up_two_levels() {
    assert_eq!(
        exe_resource_candidates("/app/bin", '/'),
        vec![
            s("/app/bin/resources/line-desktop-mcp/src/server.js"),
            s("/app/bin/../resources/line-desktop-mcp/src/server.js"),
            s("/app/bin/../../resources/line-desktop-mcp/src/server.js"),
        ]
    );
}

#[test]
fn entry_path_tiers_in_order() {
    assert_eq!(choose_entry_path(Some(s("/env.js")), Some(s("/cfg.js")), Some(s("/b")), '/'), "/env.js");
    assert_eq!(choose_entry_path(None, Some(s("/cfg.js")), Some(s("/b")), '/'), "/cfg.js");
    assert_eq!(choose_entry_path(None, None, Some(s("/b")), '/'), "/b/src/server.js");
    assert_eq!(choose_entry_path(None, None, None, '\\'), "vendor\\line-desktop-mcp\\src\\server.js");
    assert_eq!(vendor_entry_path('/'), "vendor/line-desktop-mcp/src/server.js");
    let marker = candidate_vendor_path(s("com.example"));
    assert_eq!(Path::new(&marker), Path::new("vendor").join("line-desktop-mcp").join("src").join("server.js"));
}

#[test]
fn missing_entry_asks_for_extraction() {
    assert_eq!(entry_step(s("/env.js"), true), EntryStep::Use(s("/env.js")));
    assert_eq!(entry_step(s("vendor/x"), false), EntryStep::ExtractVendor);
    assert_eq!(vendor_extract_failed("no data dir"), "vendor extract failed: no data dir");
}

#[test]
fn earlier_extraction_is_reused_only_when_complete() {
    assert_eq!(vendor_plan(true, true, true, true), VendorPlan::Reuse);
    assert_eq!(vendor_plan(true, true, true, false), VendorPlan::Extract);
    assert_eq!(vendor_plan(false, true, true, true), VendorPlan::Extract);
}
