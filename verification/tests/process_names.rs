use dawmcp::audacity::{find_running_audacity, is_audacity_process_name};
use dawmcp::discovery::{find_running_reaper, is_reaper_process_name, ProcessEntry};

fn entry(pid: u32, name: &str) -> ProcessEntry {
    ProcessEntry { pid, exe: Some(format!("/bin/{name}")), name: name.to_string() }
}

#[test]
fn is_audacity_process_name_matches_common_forms() {
    assert!(is_audacity_process_name("audacity.exe"));
    assert!(is_audacity_process_name("Audacity"));
    assert!(!is_audacity_process_name("chrome.exe"));
}

#[test]
fn is_reaper_process_name_matches_common_forms() {
    assert!(is_reaper_process_name("reaper.exe"));
    assert!(is_reaper_process_name("REAPER"));
    assert!(!is_reaper_process_name("chrome.exe"));
}

#[test]
fn process_names_reject_near_misses() {
    assert!(!is_reaper_process_name("reaper64.exe"));
    assert!(!is_reaper_process_name("reaper "));
    assert!(!is_reaper_process_name(""));
    assert!(is_reaper_process_name("Reaper.EXE"));
    assert!(!is_audacity_process_name("audacity.app"));
    assert!(is_audacity_process_name("AUDACITY.EXE"));
}

#[test]
fn find_running_reaper_keeps_only_reaper_in_order() {
    let procs = vec![entry(1, "init"), entry(20, "REAPER"), entry(7, "chrome.exe"), entry(3, "reaper.exe")];
    let found = find_running_reaper(procs);
    assert_eq!(found.len(), 2);
    assert_eq!(found[0].pid, 20);
    assert_eq!(found[0].name, "REAPER");
    assert_eq!(found[0].exe.as_deref(), Some("/bin/REAPER"));
    assert_eq!(found[1].pid, 3);
}

#[test]
fn find_running_audacity_keeps_only_audacity() {
    let procs = vec![entry(5, "Audacity"), entry(6, "reaper"), entry(9, "audacity.exe")];
    let found = find_running_audacity(procs);
    let pids: Vec<u32> = found.iter().map(|p| p.pid).collect();
    assert_eq!(pids, vec![5, 9]);
    assert!(find_running_audacity(Vec::new()).is_empty());
}
