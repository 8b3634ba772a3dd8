//! Whole exchanges and installs walked through the library's decisions, with
//! the file reads and writes replaced by the values they would give.

use dawmcp::bridge::{
    heartbeat_fresh, heartbeat_missing_message, poll_step, request_payload, response_result,
    BridgeSession, PollStep,
};
use dawmcp::discovery::{default_bridge_dir, BridgeDirChoice, ReaperInstall};
use dawmcp::installer::{
    copy_decision, files_identical, install_bridge_report, install_line, startup_hook_update,
    CopyDecision, InstallOutcome, InstallTarget, DEFAULT_PROJECT_INSTALLED_FILENAME,
};
use serde_json::Value;

const START: &str = "-- reaper-mcp:start";
const END: &str = "-- reaper-mcp:end";

/// The bridge's side of one request: answers `ping` with `{"pong": true}`
/// and every other op with an "unknown op" error.
fn answer(payload: &str) -> String {
    let req: Value = serde_json::from_str(payload).unwrap();
    let id = req["id"].as_str().unwrap().to_string();
    let op = req["op"].as_str().unwrap().to_string();
    let mut resp = serde_json::Map::new();
    resp.insert("id".to_string(), Value::String(id));
    if op == "ping" {
        let mut result = serde_json::Map::new();
        result.insert("pong".to_string(), Value::Bool(true));
        resp.insert("ok".to_string(), Value::Bool(true));
        resp.insert("result".to_string(), Value::Object(result));
    } else {
        resp.insert("ok".to_string(), Value::Bool(false));
        resp.insert("error".to_string(), Value::String(format!("unknown op {op}")));
    }
    Value::Object(resp).to_string()
}

/// One call through the library's decisions: number the request, frame it,
/// let the bridge answer, and read the answer back.
fn exchange(session: &mut BridgeSession, op: &str) -> Result<Value, String> {
    let ids = session.next_request();
    assert_eq!(ids.request_file, format!("req_{}.json", ids.id));
    assert_eq!(ids.response_file, format!("resp_{}.json", ids.id));
    let payload = request_payload(&ids.id, op, "{}");
    assert!(matches!(poll_step(op, &ids.id, None, false), PollStep::Sleep));
    let content = match poll_step(op, &ids.id, Some(Some(answer(&payload))), false) {
        PollStep::Respond(c) => c,
        other => panic!("unexpected {other:?}"),
    };
    let result = response_result(op, &content)?;
    Ok(serde_json::from_str(&result).unwrap())
}

fn pong() -> Value {
    serde_json::from_str(r#"{"pong":true}"#).unwrap()
}

#[test]
fn call_success() {
    let mut session = BridgeSession::new();
    assert_eq!(exchange(&mut session, "ping").unwrap(), pong());
}

#[test]
fn call_unknown_op_raises() {
    let mut session = BridgeSession::new();
    let err = exchange(&mut session, "nonexistent_op").unwrap_err();
    assert!(err.contains("unknown op"));
}

#[test]
fn no_heartbeat_raises() {
    assert!(!heartbeat_fresh(None));
    let err = heartbeat_missing_message("/tmp/no_bridge_here/heartbeat.txt");
    assert!(err.contains("heartbeat"));
}

#[test]
fn is_alive_reflects_heartbeat_freshness() {
    assert!(heartbeat_fresh(Some(20_000_000)));
    assert!(!heartbeat_fresh(None));
    assert!(!heartbeat_fresh(Some(5_000_000_000)));
}

#[test]
fn concurrent_clients_do_not_collide_on_request_ids() {
    let mut client_a = BridgeSession::new();
    let mut client_b = BridgeSession::new();
    assert_ne!(client_a.client_id(), client_b.client_id());
    assert_ne!(client_a.next_request().id, client_b.next_request().id);

    assert_eq!(exchange(&mut client_a, "ping").unwrap(), pong());
    assert_eq!(exchange(&mut client_b, "ping").unwrap(), pong());
}

#[test]
fn run_discovery_bridge_reachable_when_heartbeat_fresh() {
    let bridge_dir = "/tmp/x/bridge".to_string();
    let installs: Vec<ReaperInstall> = Vec::new();
    let choice = default_bridge_dir(Some(bridge_dir.clone()), &installs, "/home/u".to_string());
    assert!(matches!(choice, BridgeDirChoice::Override(d) if d == bridge_dir));
    assert!(heartbeat_fresh(Some(1_000_000)));
}

#[test]
fn run_discovery_bridge_unreachable_without_heartbeat() {
    assert!(!heartbeat_fresh(None));
}

#[test]
fn startup_hook_creates_fresh_file() {
    let content = startup_hook_update("").expect("a fresh file gets the block");
    assert!(content.contains(START));
    assert!(content.contains(END));
    assert!(content.contains("reaper_bridge.lua"));
    assert!(content.contains("Main_openProject"));
    assert!(content.contains(DEFAULT_PROJECT_INSTALLED_FILENAME));
    let line = install_line(InstallTarget::StartupHook, &InstallOutcome::Installed, "/r/Scripts/__startup.lua");
    assert!(line.contains("installed"));
}

#[test]
fn startup_hook_preserves_foreign_content() {
    let content = startup_hook_update("-- my own startup logic\nreaper.ShowConsoleMsg('hi')\n").unwrap();
    assert!(content.contains("my own startup logic"));
    assert!(content.contains("ShowConsoleMsg"));
    assert!(content.contains(START));
}

#[test]
fn startup_hook_is_idempotent() {
    let first = startup_hook_update("").unwrap();
    let second = startup_hook_update(&first);
    assert!(second.is_none());
    assert_eq!(first.matches(START).count(), 1);
    let line = install_line(InstallTarget::StartupHook, &InstallOutcome::UpToDate, "/r/Scripts/__startup.lua");
    assert!(line.contains("up to date"));
}

#[test]
fn startup_hook_replaces_existing_block_not_duplicates() {
    let existing = format!("-- before\n{START}\n-- stale content that should be replaced\n{END}\n-- after\n");
    let content = startup_hook_update(&existing).unwrap();
    assert_eq!(content.matches(START).count(), 1);
    assert_eq!(content.matches(END).count(), 1);
    assert!(content.contains("-- before"));
    assert!(content.contains("-- after"));
    assert!(!content.contains("stale content"));
    assert!(content.contains("reaper_bridge.lua"));
}

#[test]
fn default_project_copies_and_is_idempotent() {
    let project = b"<REAPER_PROJECT 0.1\n>\n".to_vec();
    let dest = "/r/reaper-mcp-default.RPP";

    assert!(matches!(copy_decision(&Ok(()), false, files_identical(&Some(project.clone()), &None)), CopyDecision::Copy));
    let first = install_line(InstallTarget::DefaultProject, &InstallOutcome::Installed, dest);
    assert!(first.contains("installed"));

    let identical = files_identical(&Some(project.clone()), &Some(project));
    assert!(matches!(copy_decision(&Ok(()), true, identical), CopyDecision::UpToDate));
    let second = install_line(InstallTarget::DefaultProject, &InstallOutcome::UpToDate, dest);
    assert!(second.contains("up to date"));
}

#[test]
fn install_bridge_also_installs_startup_hook_and_default_project() {
    let results = install_bridge_report(
        vec![install_line(InstallTarget::BridgeScript, &InstallOutcome::Installed, "/r/Scripts/reaper_bridge.lua")],
        vec![install_line(InstallTarget::DefaultProject, &InstallOutcome::Installed, "/r/reaper-mcp-default.RPP")],
        vec![install_line(InstallTarget::StartupHook, &InstallOutcome::Installed, "/r/Scripts/__startup.lua")],
    );
    assert!(results.iter().any(|r| r.contains("startup hook")));
    assert!(results.iter().any(|r| r.contains("default project")));
}
