use dawmcp::audacity::{candidate_install_paths, find_audacity_installs, AudacityEnv, ProbedPath};
use dawmcp::discovery::{
    candidate_resource_paths, default_bridge_dir, dirs_fallback, dirs_home, find_reaper_installs,
    which_in_path, which_reaper, BridgeDirChoice, CandidatePath, PathProbe, ProbedInstall,
    ReaperEnv, ReaperInstall, TargetOs,
};

fn s(x: &str) -> String {
    x.to_string()
}

fn shape(c: &CandidatePath) -> (String, Vec<String>, String) {
    (c.base.clone(), c.segments.clone(), c.source.clone())
}

fn empty_env() -> ReaperEnv {
    ReaperEnv { appdata: None, program_files: None, program_files_x86: None, home: None, resource_override: None }
}

#[test]
fn reaper_candidates_on_windows() {
    let env = ReaperEnv {
        appdata: Some(s("C:\\AppData")),
        program_files: Some(s("C:\\PF")),
        program_files_x86: None,
        home: Some(s("C:\\Users\\me")),
        resource_override: Some(s("D:\\custom")),
    };
    let c: Vec<_> = candidate_resource_paths(TargetOs::Windows, &env).iter().map(shape).collect();
    assert_eq!(
        c,
        vec![
            (s("D:\\custom"), vec![], s("env")),
            (s("C:\\AppData"), vec![s("REAPER")], s("known_path")),
            (s("C:\\PF"), vec![s("REAPER (x64)")], s("known_path")),
            (s("C:\\PF"), vec![s("REAPER")], s("known_path")),
        ]
    );
}

#[test]
fn reaper_candidates_on_macos_and_linux() {
    let mut env = empty_env();
    env.home = Some(s("/home/me"));
    let mac: Vec<_> = candidate_resource_paths(TargetOs::MacOs, &env).iter().map(shape).collect();
    assert_eq!(
        mac,
        vec![
            (s("/home/me"), vec![s("Library"), s("Application Support"), s("REAPER")], s("known_path")),
            (s("/Applications/REAPER64.app"), vec![], s("known_path")),
        ]
    );
    let linux: Vec<_> = candidate_resource_paths(TargetOs::Other, &env).iter().map(shape).collect();
    assert_eq!(linux, vec![(s("/home/me"), vec![s(".config"), s("REAPER")], s("known_path"))]);
    assert!(candidate_resource_paths(TargetOs::Other, &empty_env()).is_empty());
}

fn probe(path: &str, source: &str, exists: bool) -> ProbedInstall {
    ProbedInstall { path: s(path), scripts_dir: format!("{path}/Scripts"), source: s(source), exists }
}

#[test]
fn find_reaper_installs_respects_env_override() {
    let installs = find_reaper_installs(vec![
        probe("/tmp/x/REAPER", "env", true),
        probe("/home/me/.config/REAPER", "known_path", false),
    ]);
    assert!(installs.iter().any(|i| i.resource_path == "/tmp/x/REAPER"));
    assert_eq!(installs.len(), 1);
    assert_eq!(installs[0].scripts_dir, "/tmp/x/REAPER/Scripts");
    assert_eq!(installs[0].source, "env");
}

#[test]
fn find_reaper_installs_keeps_first_of_duplicates() {
    let installs = find_reaper_installs(vec![
        probe("/a", "env", true),
        probe("/b", "known_path", false),
        probe("/a", "known_path", true),
        probe("/c", "known_path", true),
    ]);
    let got: Vec<(String, String)> = installs.iter().map(|i| (i.resource_path.clone(), i.source.clone())).collect();
    assert_eq!(got, vec![(s("/a"), s("env")), (s("/c"), s("known_path"))]);
}

#[test]
fn audacity_candidates_per_os() {
    let env = AudacityEnv {
        program_files: Some(s("C:\\PF")),
        program_files_x86: Some(s("C:\\PF86")),
        home: Some(s("/home/me")),
        audacity_path: None,
    };
    let win: Vec<_> = candidate_install_paths(TargetOs::Windows, &env).iter().map(shape).collect();
    assert_eq!(
        win,
        vec![
            (s("C:\\PF"), vec![s("Audacity"), s("Audacity.exe")], s("known_path")),
            (s("C:\\PF86"), vec![s("Audacity"), s("Audacity.exe")], s("known_path")),
        ]
    );
    let mac: Vec<_> = candidate_install_paths(TargetOs::MacOs, &env).iter().map(shape).collect();
    assert_eq!(mac, vec![(s("/Applications/Audacity.app"), vec![], s("known_path"))]);
    let mut with_override = env.clone();
    with_override.audacity_path = Some(s("/opt/aud"));
    let linux: Vec<_> = candidate_install_paths(TargetOs::Other, &with_override).iter().map(shape).collect();
    assert_eq!(linux.len(), 5);
    assert_eq!(linux[0], (s("/opt/aud"), vec![], s("env")));
    assert_eq!(linux[1].0, "/usr/bin/audacity");
    assert_eq!(linux[3].0, "/snap/bin/audacity");
    assert_eq!(
        linux[4],
        (s("/home/me"), vec![s(".var/app/org.audacityteam.Audacity/current/active/files/bin/audacity")], s("known_path"))
    );
}

#[test]
fn find_audacity_installs_filters_and_dedups() {
    let installs = find_audacity_installs(vec![
        ProbedPath { path: s("/usr/bin/audacity"), source: s("env"), exists: true },
        ProbedPath { path: s("/usr/local/bin/audacity"), source: s("known_path"), exists: false },
        ProbedPath { path: s("/usr/bin/audacity"), source: s("known_path"), exists: true },
    ]);
    assert_eq!(installs.len(), 1);
    assert_eq!(installs[0].path, "/usr/bin/audacity");
    assert_eq!(installs[0].source, "env");
}

fn pp(c: &str, f: bool) -> PathProbe {
    PathProbe { candidate: s(c), is_file: f }
}

#[test]
fn which_prefers_plain_name_over_exe() {
    let plain = vec![pp("/a/reaper", false), pp("/b/reaper", true)];
    let exe = vec![pp("/a/reaper.exe", true), pp("/b/reaper.exe", true)];
    assert_eq!(which_reaper(&plain, &exe).as_deref(), Some("/b/reaper"));
    let none = vec![pp("/a/reaper", false), pp("/b/reaper", false)];
    assert_eq!(which_reaper(&none, &exe).as_deref(), Some("/a/reaper.exe"));
    assert_eq!(which_reaper(&none, &none), None);
    assert_eq!(which_in_path(&Vec::new()), None);
}

#[test]
fn home_directories() {
    assert_eq!(dirs_home(Some(s("/h")), Some(s("C:\\u"))).as_deref(), Some("/h"));
    assert_eq!(dirs_home(None, Some(s("C:\\u"))).as_deref(), Some("C:\\u"));
    assert_eq!(dirs_home(None, None), None);
    assert_eq!(dirs_fallback(Some(s("C:\\u")), Some(s("/h"))), "C:\\u");
    assert_eq!(dirs_fallback(None, Some(s("/h"))), "/h");
    assert_eq!(dirs_fallback(None, None), ".");
}

#[test]
fn bridge_dir_choice_order() {
    let installs = vec![ReaperInstall { resource_path: s("/r"), scripts_dir: s("/r/Scripts"), source: s("env") }];
    assert!(matches!(default_bridge_dir(Some(s("/o")), &installs, s("/h")), BridgeDirChoice::Override(d) if d == "/o"));
    assert!(matches!(default_bridge_dir(None, &installs, s("/h")), BridgeDirChoice::UnderScripts(d) if d == "/r/Scripts"));
    assert!(matches!(default_bridge_dir(None, &Vec::new(), s("/h")), BridgeDirChoice::UnderHome(d) if d == "/h"));
}
