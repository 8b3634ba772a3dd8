use dawmcp::installer::{
    copy_decision, default_project_source_path, files_identical, install_bridge_preflight,
    install_bridge_report, install_default_project_preflight, install_line,
    install_startup_hook_preflight, startup_hook_decision, startup_hook_update, bridge_source_path,
    CopyDecision, HookUpdate, InstallOutcome, InstallTarget, DEFAULT_PROJECT_INSTALLED_FILENAME,
};
use dawmcp::startup::{merge_startup_content, startup_block};

const START: &str = "-- reaper-mcp:start";
const END: &str = "-- reaper-mcp:end";

#[test]
fn startup_block_has_markers_and_both_hooks() {
    let block = startup_block();
    assert!(block.starts_with(START));
    assert!(block.ends_with("-- reaper-mcp:end\n"));
    assert!(block.contains("reaper_bridge.lua"));
    assert!(block.contains("Main_openProject"));
    assert!(block.contains(DEFAULT_PROJECT_INSTALLED_FILENAME));
    assert_eq!(
        block,
        "-- reaper-mcp:start\npcall(dofile, reaper.GetResourcePath() .. \"/Scripts/reaper_bridge.lua\")\npcall(reaper.Main_openProject, reaper.GetResourcePath() .. \"/reaper-mcp-default.RPP\")\n-- reaper-mcp:end\n"
    );
}

#[test]
fn merge_into_empty_file_is_the_block() {
    assert_eq!(merge_startup_content(""), startup_block());
}

#[test]
fn merge_preserves_foreign_content() {
    let existing = "-- my own startup logic\nreaper.ShowConsoleMsg('hi')\n";
    let merged = merge_startup_content(existing);
    assert!(merged.starts_with(existing));
    assert!(merged.contains("my own startup logic"));
    assert!(merged.contains("ShowConsoleMsg"));
    assert_eq!(merged, format!("{existing}{}", startup_block()));
}

#[test]
fn merge_adds_newline_before_block_when_missing() {
    let merged = merge_startup_content("print(1)");
    assert_eq!(merged, format!("print(1)\n{}", startup_block()));
}

#[test]
fn merge_is_idempotent() {
    let first = merge_startup_content("-- mine\n");
    let second = merge_startup_content(&first);
    assert_eq!(first, second);
    assert_eq!(second.matches(START).count(), 1);
    assert!(startup_hook_update(&first).is_none());
}

#[test]
fn merge_replaces_existing_block_not_duplicates() {
    let existing = format!("-- before\n{START}\n-- stale content that should be replaced\n{END}\n-- after\n");
    let merged = merge_startup_content(&existing);
    assert_eq!(merged.matches(START).count(), 1);
    assert_eq!(merged.matches(END).count(), 1);
    assert!(merged.contains("-- before"));
    assert!(merged.contains("-- after"));
    assert!(!merged.contains("stale content"));
    assert!(merged.contains("reaper_bridge.lua"));
    let body = startup_block();
    let body = body.trim_end_matches('\n');
    assert_eq!(merged, format!("-- before\n{body}\n-- after\n"));
}

#[test]
fn merge_appends_when_end_marker_comes_first() {
    let existing = format!("{END}\n{START}\n");
    let merged = merge_startup_content(&existing);
    assert_eq!(merged, format!("{existing}{}", startup_block()));
}

#[test]
fn merge_handles_non_ascii_content() {
    let existing = format!("-- héllo ✓\n{START}\nold\n{END}\n-- fin ✓");
    let merged = merge_startup_content(&existing);
    let body = startup_block();
    let body = body.trim_end_matches('\n');
    assert_eq!(merged, format!("-- héllo ✓\n{body}\n-- fin ✓"));
}

#[test]
fn startup_hook_update_reports_new_content() {
    let update = startup_hook_update("x\n").expect("content changes");
    assert_eq!(update, format!("x\n{}", startup_block()));
}

#[test]
fn install_lines_per_target() {
    assert_eq!(install_line(InstallTarget::BridgeScript, &InstallOutcome::UpToDate, "/d"), "up to date: /d");
    assert_eq!(install_line(InstallTarget::BridgeScript, &InstallOutcome::Installed, "/d"), "installed: /d");
    assert_eq!(
        install_line(InstallTarget::DefaultProject, &InstallOutcome::Installed, "/p"),
        "default project installed: /p"
    );
    assert_eq!(
        install_line(InstallTarget::DefaultProject, &InstallOutcome::UpToDate, "/p"),
        "default project up to date: /p"
    );
    assert_eq!(
        install_line(InstallTarget::StartupHook, &InstallOutcome::UpToDate, "/s"),
        "startup hook up to date: /s"
    );
    assert_eq!(
        install_line(InstallTarget::StartupHook, &InstallOutcome::Installed, "/s"),
        "startup hook installed: /s"
    );
    assert_eq!(
        install_line(InstallTarget::StartupHook, &InstallOutcome::Skipped("denied".to_string()), "/s"),
        "skipped (denied): /s"
    );
}

#[test]
fn copy_decision_cases() {
    assert!(matches!(copy_decision(&Err("nope".to_string()), true, true), CopyDecision::Skip(e) if e == "nope"));
    assert!(matches!(copy_decision(&Ok(()), true, true), CopyDecision::UpToDate));
    assert!(matches!(copy_decision(&Ok(()), true, false), CopyDecision::Copy));
    assert!(matches!(copy_decision(&Ok(()), false, true), CopyDecision::Copy));
}

#[test]
fn files_identical_compares_bytes() {
    assert!(files_identical(&Some(vec![1, 2, 3]), &Some(vec![1, 2, 3])));
    assert!(!files_identical(&Some(vec![1, 2, 3]), &Some(vec![1, 2, 4])));
    assert!(!files_identical(&Some(vec![1, 2]), &Some(vec![1, 2, 3])));
    assert!(!files_identical(&None, &Some(vec![])));
    assert!(files_identical(&Some(vec![]), &Some(vec![])));
}

#[test]
fn bundled_source_paths() {
    assert_eq!(bridge_source_path("/r/lua/reaper_bridge.lua".to_string(), true).unwrap(), "/r/lua/reaper_bridge.lua");
    assert_eq!(
        bridge_source_path("/r/x".to_string(), false).unwrap_err(),
        "bundled bridge script not found at /r/x"
    );
    assert_eq!(
        default_project_source_path("/r/y".to_string(), false).unwrap_err(),
        "bundled default project not found at /r/y"
    );
}

#[test]
fn preflights_stop_early() {
    assert_eq!(install_bridge_preflight(&Err("missing".to_string()), true).unwrap(), "missing");
    assert_eq!(
        install_bridge_preflight(&Ok("s".to_string()), false).unwrap(),
        "No REAPER installation found. Set REAPER_RESOURCE_PATH or install REAPER first."
    );
    assert!(install_bridge_preflight(&Ok("s".to_string()), true).is_none());
    assert_eq!(
        install_default_project_preflight(&Err("x".to_string()), true).unwrap(),
        "default project not bundled; skipped (bridge still installs normally)"
    );
    assert_eq!(
        install_default_project_preflight(&Ok("s".to_string()), false).unwrap(),
        "No REAPER installation found; skipped default project."
    );
    assert_eq!(
        install_startup_hook_preflight(false).unwrap(),
        "No REAPER installation found; skipped startup hook."
    );
    assert!(install_startup_hook_preflight(true).is_none());
}

#[test]
fn install_bridge_report_orders_sections() {
    let report = install_bridge_report(
        vec!["installed: a".to_string()],
        vec!["default project installed: b".to_string()],
        vec!["startup hook installed: c".to_string()],
    );
    assert_eq!(report.len(), 4);
    assert_eq!(report[0], "installed: a");
    assert!(report[1].contains("default project"));
    assert!(report[2].contains("startup hook"));
    assert!(report[3].starts_with("The bridge is wired into REAPER's __startup.lua"));
}

#[test]
fn stray_start_marker_pairs_with_the_block_end_on_reinstall() {
    let existing = "x\n-- reaper-mcp:start\nuser code\n";
    let first = merge_startup_content(existing);
    assert_eq!(first, format!("{existing}{}", startup_block()));
    let second = merge_startup_content(&first);
    assert_eq!(second, format!("x\n{}", startup_block()));
    assert_eq!(merge_startup_content(&second), second);
}

#[test]
fn merge_replaces_from_the_first_start_marker() {
    let body = startup_block();
    let body = body.trim_end_matches('\n').to_string();
    let two_starts = format!("{START}\nmid\n{START}\nold\n{END}\ntail\n");
    assert_eq!(merge_startup_content(&two_starts), format!("{body}\ntail\n"));
    let start_end_start = format!("a\n{START}\nold\n{END}\n{START}\n");
    let merged = merge_startup_content(&start_end_start);
    assert_eq!(merged, format!("a\n{body}\n{START}\n"));
    assert_eq!(merge_startup_content(&merged), merged);
}

#[test]
fn merge_keeps_a_stray_end_marker() {
    let existing = format!("{END}\n");
    let merged = merge_startup_content(&existing);
    assert_eq!(merged, format!("{END}\n{}", startup_block()));
    assert_eq!(merge_startup_content(&merged), merged);
}

#[test]
fn startup_hook_decisions() {
    assert!(matches!(startup_hook_decision(&Err("permission denied".to_string())), HookUpdate::Skip(e) if e == "permission denied"));
    assert!(matches!(startup_hook_decision(&Ok(String::new())), HookUpdate::Write(m) if m == startup_block()));
    assert!(matches!(startup_hook_decision(&Ok(startup_block())), HookUpdate::UpToDate));
}
