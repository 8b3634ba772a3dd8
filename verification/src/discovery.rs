//! REAPER install and process discovery. The caller reads the environment,
//! probes the file system and lists processes; this module decides which
//! candidates to look at, which of them count, and in which order.

use vstd::prelude::*;
use crate::text::{ascii_lowercase, is_ascii_text, to_lowercase, unicode_lowercase};

verus! {

/// The operating system the server was built for.
#[derive(Clone, Copy, Debug, PartialEq, Eq, Structural)]
pub enum TargetOs {
    Windows,
    MacOs,
    Other,
}

/// One running process, as the process table reports it.
#[derive(Clone, Debug)]
pub struct ProcessEntry {
    pub pid: u32,
    pub exe: Option<String>,
    pub name: String,
}

/// A running REAPER process.
#[derive(Clone, Debug)]
pub struct ReaperProcess {
    pub pid: u32,
    pub exe: Option<String>,
    pub name: String,
}

/// A REAPER resource directory that exists on this machine.
#[derive(Clone, Debug)]
pub struct ReaperInstall {
    pub resource_path: String,
    pub scripts_dir: String,
    /// How this install was found: "known_path" or "env".
    pub source: String,
}

/// Everything discovery found, for diagnostics.
#[derive(Clone, Debug)]
pub struct DiscoveryReport {
    pub os: String,
    pub running_processes: Vec<ReaperProcess>,
    pub installs: Vec<ReaperInstall>,
    pub bridge_reachable: bool,
    pub bridge_dir: String,
}

/// A place to look for an install: `base` joined with each of `segments`
/// in turn.
#[derive(Clone, Debug)]
pub struct CandidatePath {
    pub base: String,
    pub segments: Vec<String>,
    pub source: String,
}

/// A candidate resource path after the caller looked at the disk.
#[derive(Clone, Debug)]
pub struct ProbedInstall {
    /// The candidate path, as text.
    pub path: String,
    /// The candidate path joined with `Scripts`, as text.
    pub scripts_dir: String,
    pub source: String,
    pub exists: bool,
}

/// A file looked for in one directory of `PATH`.
#[derive(Clone, Debug)]
pub struct PathProbe {
    pub candidate: String,
    pub is_file: bool,
}

/// The environment variables that locate REAPER's resource path.
#[derive(Clone, Debug)]
pub struct ReaperEnv {
    /// `APPDATA`
    pub appdata: Option<String>,
    /// `PROGRAMFILES`
    pub program_files: Option<String>,
    /// `PROGRAMFILES(X86)`
    pub program_files_x86: Option<String>,
    /// The home directory: `HOME`, else `USERPROFILE`.
    pub home: Option<String>,
    /// `REAPER_RESOURCE_PATH`
    pub resource_override: Option<String>,
}

/// Where the bridge directory lies.
#[derive(Clone, Debug)]
pub enum BridgeDirChoice {
    /// `REAPER_MCP_BRIDGE_DIR`, taken as it is.
    Override(String),
    /// `reaper_mcp_bridge` under this Scripts directory.
    UnderScripts(String),
    /// `.reaper_mcp_bridge` under this home directory.
    UnderHome(String),
}

pub open spec fn opt_view(o: Option<String>) -> Option<Seq<char>> {
    match o {
        Some(s) => Some(s@),
        None => None,
    }
}

impl View for CandidatePath {
    type V = (Seq<char>, Seq<Seq<char>>, Seq<char>);

    open spec fn view(&self) -> Self::V {
        (self.base@, self.segments@.map_values(|s: String| s@), self.source@)
    }
}

impl View for ReaperInstall {
    type V = (Seq<char>, Seq<char>, Seq<char>);

    open spec fn view(&self) -> Self::V {
        (self.resource_path@, self.scripts_dir@, self.source@)
    }
}

impl View for ProbedInstall {
    type V = (Seq<char>, Seq<char>, Seq<char>, bool);

    open spec fn view(&self) -> Self::V {
        (self.path@, self.scripts_dir@, self.source@, self.exists)
    }
}

impl View for ReaperProcess {
    type V = (u32, Option<Seq<char>>, Seq<char>);

    open spec fn view(&self) -> Self::V {
        (self.pid, opt_view(self.exe), self.name@)
    }
}

impl View for ProcessEntry {
    type V = (u32, Option<Seq<char>>, Seq<char>);

    open spec fn view(&self) -> Self::V {
        (self.pid, opt_view(self.exe), self.name@)
    }
}

/// A process name counts as REAPER when its lowercase form is `reaper.exe`
/// or `reaper`.
pub open spec fn reaper_name(name: Seq<char>) -> bool {
    unicode_lowercase(name) == "reaper.exe"@ || unicode_lowercase(name) == "reaper"@
}

/// Whether a process name is REAPER's executable, in any letter case: an
/// ASCII name is recognised exactly when its ASCII lowercase form is
/// `reaper.exe` or `reaper`.
pub fn is_reaper_process_name(name: &str) -> (res: bool)
    ensures
        res == reaper_name(name@),
        is_ascii_text(name@) ==> (res <==> (ascii_lowercase(name@) == "reaper.exe"@
            || ascii_lowercase(name@) == "reaper"@)),
{
    let lower = to_lowercase(name);
    proof {
        if is_ascii_text(name@) {
            assert(lower@ =~= ascii_lowercase(name@));
        }
    }
    let a = String::from_str("reaper.exe");
    let b = String::from_str("reaper");
    lower == a || lower == b
}

/// The entries of `procs` that `keep` accepts, in their order.
pub open spec fn filter_processes(
    procs: Seq<(u32, Option<Seq<char>>, Seq<char>)>,
    keep: spec_fn(Seq<char>) -> bool,
) -> Seq<(u32, Option<Seq<char>>, Seq<char>)>
    decreases procs.len(),
{
    if procs.len() == 0 {
        seq![]
    } else {
        let prev = filter_processes(procs.drop_last(), keep);
        if keep(procs.last().2) {
            prev.push(procs.last())
        } else {
            prev
        }
    }
}

/// Filtering keeps exactly the processes whose name `keep` accepts: each
/// one kept is an input process with an accepted name, and each input
/// process with an accepted name is kept.
pub proof fn lemma_filter_keeps_exactly(
    procs: Seq<(u32, Option<Seq<char>>, Seq<char>)>,
    keep: spec_fn(Seq<char>) -> bool,
)
    ensures
        filter_processes(procs, keep).len() <= procs.len(),
        forall|k: int|
            0 <= k < filter_processes(procs, keep).len() ==> keep(
                #[trigger] filter_processes(procs, keep)[k].2,
            ) && exists|m: int| 0 <= m < procs.len() && procs[m] == filter_processes(procs, keep)[k],
        forall|m: int|
            0 <= m < procs.len() && keep(#[trigger] procs[m].2) ==> exists|k: int|
                0 <= k < filter_processes(procs, keep).len() && filter_processes(procs, keep)[k]
                    == procs[m],
    decreases procs.len(),
{
    if procs.len() > 0 {
        let d = procs.drop_last();
        lemma_filter_keeps_exactly(d, keep);
        let prev = filter_processes(d, keep);
        let r = filter_processes(procs, keep);
        assert forall|k: int| 0 <= k < r.len() implies keep(#[trigger] r[k].2) && exists|m: int|
            0 <= m < procs.len() && procs[m] == r[k] by {
            if k < prev.len() {
                assert(r[k] == prev[k]);
                assert(keep(prev[k].2));
                let m = choose|m: int| 0 <= m < d.len() && d[m] == prev[k];
                assert(procs[m] == d[m]);
            } else {
                assert(r[k] == procs.last());
                assert(procs[procs.len() - 1] == r[k]);
            }
        }
        assert forall|m: int| 0 <= m < procs.len() && keep(#[trigger] procs[m].2) implies exists|k: int|
            0 <= k < r.len() && r[k] == procs[m] by {
            if m < d.len() {
                assert(d[m] == procs[m]);
                assert(keep(d[m].2));
                let k = choose|k: int| 0 <= k < prev.len() && prev[k] == d[m];
                assert(r[k] == prev[k]);
            } else {
                assert(r[prev.len() as int] == procs.last());
            }
        }
    }
}

/// The REAPER processes among `procs`, in the order given; a process with
/// an ASCII name is kept exactly when that name's ASCII lowercase form is
/// `reaper.exe` or `reaper`.
pub fn find_running_reaper(procs: Vec<ProcessEntry>) -> (res: Vec<ReaperProcess>)
    ensures
        res@.map_values(|p: ReaperProcess| p@) == filter_processes(
            procs@.map_values(|p: ProcessEntry| p@),
            |n: Seq<char>| reaper_name(n),
        ),
        forall|k: int|
            0 <= k < procs@.len() && is_ascii_text(#[trigger] procs@[k].name@) ==> (reaper_name(
                procs@[k].name@,
            ) <==> (ascii_lowercase(procs@[k].name@) == "reaper.exe"@ || ascii_lowercase(
                procs@[k].name@,
            ) == "reaper"@)),
{
    let ghost all = procs@.map_values(|p: ProcessEntry| p@);
    let ghost keep = |n: Seq<char>| reaper_name(n);
    let mut res: Vec<ReaperProcess> = Vec::new();
    let n = procs.len();
    for i in 0..n
        invariant
            n == procs@.len(),
            all == procs@.map_values(|p: ProcessEntry| p@),
            keep == (|n: Seq<char>| reaper_name(n)),
            res@.map_values(|p: ReaperProcess| p@) == filter_processes(all.take(i as int), keep),
            forall|k: int|
                0 <= k < i && is_ascii_text(#[trigger] procs@[k].name@) ==> (reaper_name(
                    procs@[k].name@,
                ) <==> (ascii_lowercase(procs@[k].name@) == "reaper.exe"@ || ascii_lowercase(
                    procs@[k].name@,
                ) == "reaper"@)),
    {
        let ghost before = res@.map_values(|p: ReaperProcess| p@);
        assert(all.take(i + 1).drop_last() =~= all.take(i as int));
        let p = &procs[i];
        if is_reaper_process_name(p.name.as_str()) {
            let entry = ReaperProcess { pid: p.pid, exe: p.exe.clone(), name: p.name.clone() };
            res.push(entry);
            assert(res@.map_values(|p: ReaperProcess| p@) =~= before.push(all[i as int]));
        } else {
            assert(res@.map_values(|p: ReaperProcess| p@) =~= before);
        }
    }
    assert(all.take(n as int) =~= all);
    res
}

/// A candidate whose path is `base` joined with `segments`.
pub open spec fn cand(base: Seq<char>, segments: Seq<Seq<char>>, source: Seq<char>) -> (
    Seq<char>,
    Seq<Seq<char>>,
    Seq<char>,
) {
    (base, segments, source)
}

/// The two candidates under a program-files directory, when it is set.
pub open spec fn program_dir_candidates(base: Option<Seq<char>>) -> Seq<
    (Seq<char>, Seq<Seq<char>>, Seq<char>),
> {
    match base {
        Some(b) => seq![
            cand(b, seq!["REAPER (x64)"@], "known_path"@),
            cand(b, seq!["REAPER"@], "known_path"@),
        ],
        None => seq![],
    }
}

/// The candidate `dir` joined with `segments`, when `dir` is set.
pub open spec fn optional_candidate(dir: Option<Seq<char>>, segments: Seq<Seq<char>>) -> Seq<
    (Seq<char>, Seq<Seq<char>>, Seq<char>),
> {
    match dir {
        Some(d) => seq![cand(d, segments, "known_path"@)],
        None => seq![],
    }
}

/// The places REAPER's resource path is looked for, in order: the
/// `REAPER_RESOURCE_PATH` override first (source "env"), then the known
/// per-OS locations (source "known_path").
pub open spec fn reaper_candidates(
    os: TargetOs,
    appdata: Option<Seq<char>>,
    program_files: Option<Seq<char>>,
    program_files_x86: Option<Seq<char>>,
    home: Option<Seq<char>>,
    resource_override: Option<Seq<char>>,
) -> Seq<(Seq<char>, Seq<Seq<char>>, Seq<char>)> {
    let by_os = match os {
        TargetOs::Windows => optional_candidate(appdata, seq!["REAPER"@]) + program_dir_candidates(
            program_files,
        ) + program_dir_candidates(program_files_x86),
        TargetOs::MacOs => optional_candidate(
            home,
            seq!["Library"@, "Application Support"@, "REAPER"@],
        ) + seq![cand("/Applications/REAPER64.app"@, seq![], "known_path"@)],
        TargetOs::Other => optional_candidate(home, seq![".config"@, "REAPER"@]),
    };
    match resource_override {
        Some(o) => seq![cand(o, seq![], "env"@)] + by_os,
        None => by_os,
    }
}

/// The override comes first, as given, with source `env`, and every other
/// candidate is a known location with source `known_path`; without the
/// override, every candidate is a known location.
pub proof fn lemma_reaper_override_first(
    os: TargetOs,
    appdata: Option<Seq<char>>,
    program_files: Option<Seq<char>>,
    program_files_x86: Option<Seq<char>>,
    home: Option<Seq<char>>,
    resource_override: Option<Seq<char>>,
)
    ensures
        ({
            let r = reaper_candidates(
                os,
                appdata,
                program_files,
                program_files_x86,
                home,
                resource_override,
            );
            match resource_override {
                Some(o) => r.len() > 0 && r[0] == (o, Seq::<Seq<char>>::empty(), "env"@) && forall|k: int|
                    1 <= k < r.len() ==> #[trigger] r[k].2 == "known_path"@,
                None => forall|k: int| 0 <= k < r.len() ==> #[trigger] r[k].2 == "known_path"@,
            }
        }),
{
    let by_os = reaper_candidates(os, appdata, program_files, program_files_x86, home, None);
    assert forall|k: int| 0 <= k < by_os.len() implies #[trigger] by_os[k].2 == "known_path"@ by {
        match os {
            TargetOs::Windows => {
                let a = optional_candidate(appdata, seq!["REAPER"@]);
                let b = program_dir_candidates(program_files);
                let c = program_dir_candidates(program_files_x86);
                assert(by_os == a + b + c);
                if k < a.len() {
                    assert(by_os[k] == a[k]);
                } else if k < a.len() + b.len() {
                    assert(by_os[k] == b[k - a.len()]);
                } else {
                    assert(by_os[k] == c[k - a.len() - b.len()]);
                }
            },
            TargetOs::MacOs => {
                let a = optional_candidate(home, seq!["Library"@, "Application Support"@, "REAPER"@]);
                if k < a.len() {
                    assert(by_os[k] == a[k]);
                }
            },
            TargetOs::Other => {},
        }
    }
    match resource_override {
        Some(o) => {
            let r = reaper_candidates(os, appdata, program_files, program_files_x86, home, resource_override);
            assert(r == seq![cand(o, seq![], "env"@)] + by_os);
            assert forall|k: int| 1 <= k < r.len() implies #[trigger] r[k].2 == "known_path"@ by {
                assert(r[k] == by_os[k - 1]);
            }
        },
        None => {},
    }
}

fn strings1(a: &str) -> (res: Vec<String>)
    ensures
        res@.map_values(|s: String| s@) == seq![a@],
{
    let mut v = Vec::new();
    v.push(String::from_str(a));
    assert(v@.map_values(|s: String| s@) =~= seq![a@]);
    v
}

fn strings2(a: &str, b: &str) -> (res: Vec<String>)
    ensures
        res@.map_values(|s: String| s@) == seq![a@, b@],
{
    let mut v = Vec::new();
    v.push(String::from_str(a));
    v.push(String::from_str(b));
    assert(v@.map_values(|s: String| s@) =~= seq![a@, b@]);
    v
}

fn strings3(a: &str, b: &str, c: &str) -> (res: Vec<String>)
    ensures
        res@.map_values(|s: String| s@) == seq![a@, b@, c@],
{
    let mut v = Vec::new();
    v.push(String::from_str(a));
    v.push(String::from_str(b));
    v.push(String::from_str(c));
    assert(v@.map_values(|s: String| s@) =~= seq![a@, b@, c@]);
    v
}

fn candidate(base: &str, segments: Vec<String>, source: &str) -> (res: CandidatePath)
    ensures
        res@ == cand(base@, segments@.map_values(|s: String| s@), source@),
{
    CandidatePath { base: String::from_str(base), segments, source: String::from_str(source) }
}

fn push_program_dirs(v: &mut Vec<CandidatePath>, base: &Option<String>)
    ensures
        final(v)@.map_values(|c: CandidatePath| c@) == old(v)@.map_values(|c: CandidatePath| c@)
            + program_dir_candidates(opt_view(*base)),
{
    let ghost before = v@.map_values(|c: CandidatePath| c@);
    if let Some(b) = base {
        v.push(candidate(b.as_str(), strings1("REAPER (x64)"), "known_path"));
        v.push(candidate(b.as_str(), strings1("REAPER"), "known_path"));
    }
    assert(v@.map_values(|c: CandidatePath| c@) =~= before + program_dir_candidates(
        opt_view(*base),
    ));
}

/// The places REAPER's resource path is looked for on `os`, given the
/// environment.
pub fn candidate_resource_paths(os: TargetOs, env: &ReaperEnv) -> (res: Vec<CandidatePath>)
    ensures
        res@.map_values(|c: CandidatePath| c@) == reaper_candidates(
            os,
            opt_view(env.appdata),
            opt_view(env.program_files),
            opt_view(env.program_files_x86),
            opt_view(env.home),
            opt_view(env.resource_override),
        ),
{
    let mut v: Vec<CandidatePath> = Vec::new();
    if let Some(o) = &env.resource_override {
        let c = candidate(o.as_str(), Vec::new(), "env");
        assert(c@.1 =~= seq![]);
        v.push(c);
    }
    let ghost head = v@.map_values(|c: CandidatePath| c@);
    assert(head =~= match opt_view(env.resource_override) {
        Some(o) => seq![cand(o, seq![], "env"@)],
        None => seq![],
    });
    match os {
        TargetOs::Windows => {
            if let Some(a) = &env.appdata {
                v.push(candidate(a.as_str(), strings1("REAPER"), "known_path"));
            }
            assert(v@.map_values(|c: CandidatePath| c@) =~= head + optional_candidate(
                opt_view(env.appdata),
                seq!["REAPER"@],
            ));
            push_program_dirs(&mut v, &env.program_files);
            push_program_dirs(&mut v, &env.program_files_x86);
            assert(v@.map_values(|c: CandidatePath| c@) =~= head + (optional_candidate(
                opt_view(env.appdata),
                seq!["REAPER"@],
            ) + program_dir_candidates(opt_view(env.program_files)) + program_dir_candidates(
                opt_view(env.program_files_x86),
            )));
        },
        TargetOs::MacOs => {
            if let Some(h) = &env.home {
                let segs = strings3("Library", "Application Support", "REAPER");
                v.push(candidate(h.as_str(), segs, "known_path"));
            }
            let ghost mid = v@.map_values(|c: CandidatePath| c@);
            assert(mid =~= head + optional_candidate(
                opt_view(env.home),
                seq!["Library"@, "Application Support"@, "REAPER"@],
            ));
            let tail_candidate = candidate("/Applications/REAPER64.app", Vec::new(), "known_path");
            assert(tail_candidate@.1 =~= seq![]);
            v.push(tail_candidate);
            assert(v@.map_values(|c: CandidatePath| c@) =~= mid.push(tail_candidate@));
        },
        TargetOs::Other => {
            if let Some(h) = &env.home {
                let segs = strings2(".config", "REAPER");
                v.push(candidate(h.as_str(), segs, "known_path"));
            }
            assert(v@.map_values(|c: CandidatePath| c@) =~= head + optional_candidate(
                opt_view(env.home),
                seq![".config"@, "REAPER"@],
            ));
        },
    }
    assert(v@.map_values(|c: CandidatePath| c@) =~= reaper_candidates(
        os,
        opt_view(env.appdata),
        opt_view(env.program_files),
        opt_view(env.program_files_x86),
        opt_view(env.home),
        opt_view(env.resource_override),
    ));
    v
}

/// The installs found among probed candidates, in candidate order: every
/// candidate that exists, except one whose path an earlier kept candidate
/// already has.
pub open spec fn existing_unique(c: Seq<(Seq<char>, Seq<char>, Seq<char>, bool)>) -> Seq<
    (Seq<char>, Seq<char>, Seq<char>),
>
    decreases c.len(),
{
    if c.len() == 0 {
        seq![]
    } else {
        let prev = existing_unique(c.drop_last());
        let last = c.last();
        if last.3 && !(exists|j: int| 0 <= j < prev.len() && #[trigger] prev[j].0 == last.0) {
            prev.push((last.0, last.1, last.2))
        } else {
            prev
        }
    }
}

/// The REAPER installs among the probed candidate resource paths: those that
/// exist, each path once, in candidate order.
pub fn find_reaper_installs(candidates: Vec<ProbedInstall>) -> (res: Vec<ReaperInstall>)
    ensures
        res@.map_values(|r: ReaperInstall| r@) == existing_unique(
            candidates@.map_values(|c: ProbedInstall| c@),
        ),
{
    let ghost all = candidates@.map_values(|c: ProbedInstall| c@);
    let mut res: Vec<ReaperInstall> = Vec::new();
    let n = candidates.len();
    for i in 0..n
        invariant
            n == candidates@.len(),
            all == candidates@.map_values(|c: ProbedInstall| c@),
            res@.map_values(|r: ReaperInstall| r@) == existing_unique(all.take(i as int)),
    {
        let ghost prev = res@.map_values(|r: ReaperInstall| r@);
        assert(all.take(i + 1).drop_last() =~= all.take(i as int));
        assert(all.take(i + 1).last() == all[i as int]);
        let c = &candidates[i];
        if c.exists {
            let mut seen = false;
            let m = res.len();
            for k in 0..m
                invariant
                    m == res@.len(),
                    i < n,
                    n == all.len(),
                    prev == res@.map_values(|r: ReaperInstall| r@),
                    c@ == all[i as int],
                    seen == (exists|j: int| 0 <= j < k && #[trigger] prev[j].0 == c@.0),
            {
                assert(prev[k as int] == res@[k as int]@);
                if res[k].resource_path == c.path {
                    assert(prev[k as int].0 == c@.0);
                    seen = true;
                } else {
                    assert(prev[k as int].0 != c@.0);
                }
            }
            if !seen {
                res.push(
                    ReaperInstall {
                        resource_path: c.path.clone(),
                        scripts_dir: c.scripts_dir.clone(),
                        source: c.source.clone(),
                    },
                );
                assert(res@.map_values(|r: ReaperInstall| r@) =~= prev.push(
                    (all[i as int].0, all[i as int].1, all[i as int].2),
                ));
            }
        }
    }
    assert(all.take(n as int) =~= all);
    res
}

/// Every install found is a candidate that exists.
pub proof fn lemma_installs_exist(c: Seq<(Seq<char>, Seq<char>, Seq<char>, bool)>, k: int)
    requires
        0 <= k < existing_unique(c).len(),
    ensures
        exists|m: int|
            0 <= m < c.len() && c[m].3 && #[trigger] existing_unique(c)[k] == (
                c[m].0,
                c[m].1,
                c[m].2,
            ),
    decreases c.len(),
{
    let prev = existing_unique(c.drop_last());
    if k < prev.len() {
        lemma_installs_exist(c.drop_last(), k);
        let m = choose|m: int|
            0 <= m < c.drop_last().len() && c.drop_last()[m].3 && #[trigger] prev[k] == (
                c.drop_last()[m].0,
                c.drop_last()[m].1,
                c.drop_last()[m].2,
            );
        assert(c[m] == c.drop_last()[m]);
    } else {
        assert(existing_unique(c)[k] == (c[c.len() - 1].0, c[c.len() - 1].1, c[c.len() - 1].2));
    }
}

/// Candidate `m` is where install `k` comes from: it exists, install `k`
/// is its path, Scripts directory and source, and no existing candidate
/// before it has the same path.
pub open spec fn first_source(c: Seq<(Seq<char>, Seq<char>, Seq<char>, bool)>, k: int, m: int) -> bool {
    &&& 0 <= m < c.len()
    &&& c[m].3
    &&& 0 <= k < existing_unique(c).len()
    &&& existing_unique(c)[k] == (c[m].0, c[m].1, c[m].2)
    &&& forall|j: int| 0 <= j < m && c[j].3 ==> #[trigger] c[j].0 != c[m].0
}

proof fn lemma_source_extends(c: Seq<(Seq<char>, Seq<char>, Seq<char>, bool)>, k: int, m: int)
    requires
        c.len() > 0,
        first_source(c.drop_last(), k, m),
    ensures
        first_source(c, k, m),
{
    assert(c[m] == c.drop_last()[m]);
    assert forall|j: int| 0 <= j < m && c[j].3 implies #[trigger] c[j].0 != c[m].0 by {
        assert(c[j] == c.drop_last()[j]);
    }
}

proof fn lemma_last_source(c: Seq<(Seq<char>, Seq<char>, Seq<char>, bool)>)
    requires
        c.len() > 0,
        existing_unique(c).len() > existing_unique(c.drop_last()).len(),
    ensures
        first_source(c, existing_unique(c.drop_last()).len() as int, c.len() - 1),
{
    let prev = existing_unique(c.drop_last());
    let m = c.len() - 1;
    assert forall|j: int| 0 <= j < m && c[j].3 implies #[trigger] c[j].0 != c[m].0 by {
        if c[j].0 == c[m].0 {
            assert(c.drop_last()[j] == c[j]);
            lemma_installs_complete(c.drop_last(), j);
            let t = choose|t: int| 0 <= t < prev.len() && #[trigger] prev[t].0 == c.drop_last()[j].0;
            assert(prev[t].0 == c.last().0);
        }
    }
}

/// Installs come out in candidate order: of two installs, the earlier one
/// comes from the earlier candidate, each from the first existing candidate
/// with its path.
pub proof fn lemma_installs_keep_candidate_order(
    c: Seq<(Seq<char>, Seq<char>, Seq<char>, bool)>,
    k1: int,
    k2: int,
)
    requires
        0 <= k1 < k2 < existing_unique(c).len(),
    ensures
        exists|m1: int, m2: int|
            #![trigger first_source(c, k1, m1), first_source(c, k2, m2)]
            m1 < m2 && first_source(c, k1, m1) && first_source(c, k2, m2),
    decreases c.len(),
{
    let prev = existing_unique(c.drop_last());
    if k2 < prev.len() {
        lemma_installs_keep_candidate_order(c.drop_last(), k1, k2);
        let (m1, m2) = choose|m1: int, m2: int|
            #![trigger first_source(c.drop_last(), k1, m1), first_source(c.drop_last(), k2, m2)]
            m1 < m2 && first_source(c.drop_last(), k1, m1) && first_source(c.drop_last(), k2, m2);
        lemma_source_extends(c, k1, m1);
        lemma_source_extends(c, k2, m2);
    } else {
        lemma_last_source(c);
        let m1 = lemma_install_source(c.drop_last(), k1);
        lemma_source_extends(c, k1, m1);
        assert(first_source(c, k2, c.len() - 1));
    }
}

/// Where install `k` comes from.
proof fn lemma_install_source(c: Seq<(Seq<char>, Seq<char>, Seq<char>, bool)>, k: int) -> (m: int)
    requires
        0 <= k < existing_unique(c).len(),
    ensures
        first_source(c, k, m),
    decreases c.len(),
{
    let prev = existing_unique(c.drop_last());
    if k < prev.len() {
        let m = lemma_install_source(c.drop_last(), k);
        lemma_source_extends(c, k, m);
        m
    } else {
        lemma_last_source(c);
        c.len() - 1
    }
}

/// An existing first candidate (the `REAPER_RESOURCE_PATH` override, when
/// set) is the first install found.
pub proof fn lemma_first_candidate_first(c: Seq<(Seq<char>, Seq<char>, Seq<char>, bool)>)
    requires
        c.len() > 0,
        c[0].3,
    ensures
        existing_unique(c).len() > 0,
        existing_unique(c)[0] == (c[0].0, c[0].1, c[0].2),
    decreases c.len(),
{
    let prev = existing_unique(c.drop_last());
    let last = c.last();
    if c.len() > 1 {
        lemma_first_candidate_first(c.drop_last());
        assert(c.drop_last()[0] == c[0]);
        if last.3 && !(exists|j: int| 0 <= j < prev.len() && #[trigger] prev[j].0 == last.0) {
            assert(existing_unique(c) == prev.push((last.0, last.1, last.2)));
            assert(existing_unique(c)[0] == prev[0]);
        } else {
            assert(existing_unique(c) == prev);
        }
    } else {
        assert(prev.len() == 0);
        assert(last == c[0]);
        assert(existing_unique(c) == prev.push((last.0, last.1, last.2)));
    }
}

/// No two installs found share a resource path.
pub proof fn lemma_installs_unique(c: Seq<(Seq<char>, Seq<char>, Seq<char>, bool)>)
    ensures
        forall|a: int, b: int|
            0 <= a < b < existing_unique(c).len() ==> #[trigger] existing_unique(c)[a].0
                != #[trigger] existing_unique(c)[b].0,
    decreases c.len(),
{
    if c.len() > 0 {
        lemma_installs_unique(c.drop_last());
        let prev = existing_unique(c.drop_last());
        let r = existing_unique(c);
        assert forall|a: int, b: int| 0 <= a < b < r.len() implies #[trigger] r[a].0 != #[trigger] r[b].0 by {
            if b < prev.len() {
                assert(r[a] == prev[a]);
                assert(r[b] == prev[b]);
            } else {
                assert(r[a] == prev[a]);
                assert(r[b].0 == c.last().0);
            }
        }
    }
}

/// Every candidate that exists has its path among the installs found.
pub proof fn lemma_installs_complete(c: Seq<(Seq<char>, Seq<char>, Seq<char>, bool)>, m: int)
    requires
        0 <= m < c.len(),
        c[m].3,
    ensures
        exists|k: int|
            0 <= k < existing_unique(c).len() && #[trigger] existing_unique(c)[k].0 == c[m].0,
    decreases c.len(),
{
    let prev = existing_unique(c.drop_last());
    if m < c.len() - 1 {
        lemma_installs_complete(c.drop_last(), m);
        let k = choose|k: int| 0 <= k < prev.len() && #[trigger] prev[k].0 == c.drop_last()[m].0;
        assert(existing_unique(c)[k] == prev[k]);
    } else {
        if exists|j: int| 0 <= j < prev.len() && #[trigger] prev[j].0 == c.last().0 {
            let j = choose|j: int| 0 <= j < prev.len() && #[trigger] prev[j].0 == c.last().0;
            assert(existing_unique(c)[j] == prev[j]);
        } else {
            assert(existing_unique(c)[prev.len() as int].0 == c[m].0);
        }
    }
}

/// The first probed candidate that is a file, if any.
pub open spec fn first_file(probes: Seq<(Seq<char>, bool)>) -> Option<Seq<char>>
    decreases probes.len(),
{
    if probes.len() == 0 {
        None
    } else if probes[0].1 {
        Some(probes[0].0)
    } else {
        first_file(probes.drop_first())
    }
}

impl View for PathProbe {
    type V = (Seq<char>, bool);

    open spec fn view(&self) -> Self::V {
        (self.candidate@, self.is_file)
    }
}

/// The first candidate, one per `PATH` directory in order, that is a file.
pub fn which_in_path(probes: &Vec<PathProbe>) -> (res: Option<String>)
    ensures
        opt_view(res) == first_file(probes@.map_values(|p: PathProbe| p@)),
        match res {
            Some(p) => exists|k: int|
                0 <= k < probes@.len() && #[trigger] probes@[k].is_file && probes@[k].candidate@
                    == p@ && forall|j: int| 0 <= j < k ==> !probes@[j].is_file,
            None => forall|k: int| 0 <= k < probes@.len() ==> !#[trigger] probes@[k].is_file,
        },
{
    let ghost all = probes@.map_values(|p: PathProbe| p@);
    let n = probes.len();
    let mut i: usize = 0;
    assert(all.subrange(0, n as int) =~= all);
    while i < n
        invariant
            n == probes@.len(),
            all == probes@.map_values(|p: PathProbe| p@),
            i <= n,
            first_file(all) == first_file(all.subrange(i as int, n as int)),
            forall|j: int| 0 <= j < i ==> !probes@[j].is_file,
        decreases n - i,
    {
        assert(all.subrange(i as int, n as int).drop_first() =~= all.subrange(i + 1, n as int));
        if probes[i].is_file {
            let found = probes[i].candidate.clone();
            assert(probes@[i as int].is_file && probes@[i as int].candidate@ == found@);
            return Some(found);
        }
        i = i + 1;
    }
    None
}

/// Where `reaper` is found on `PATH`: the first directory holding a file
/// `reaper`, else the first holding `reaper.exe`.
pub fn which_reaper(reaper: &Vec<PathProbe>, reaper_exe: &Vec<PathProbe>) -> (res: Option<String>)
    ensures
        opt_view(res) == match first_file(reaper@.map_values(|p: PathProbe| p@)) {
            Some(p) => Some(p),
            None => first_file(reaper_exe@.map_values(|p: PathProbe| p@)),
        },
{
    match which_in_path(reaper) {
        Some(p) => Some(p),
        None => which_in_path(reaper_exe),
    }
}

/// The home directory: `HOME`, else `USERPROFILE`.
pub fn dirs_home(home: Option<String>, userprofile: Option<String>) -> (res: Option<String>)
    ensures
        opt_view(res) == match opt_view(home) {
            Some(h) => Some(h),
            None => opt_view(userprofile),
        },
{
    match home {
        Some(h) => Some(h),
        None => userprofile,
    }
}

/// The directory that holds the fallback bridge directory: `USERPROFILE`,
/// else `HOME`, else `.`.
pub fn dirs_fallback(userprofile: Option<String>, home: Option<String>) -> (res: String)
    ensures
        res@ == match (opt_view(userprofile), opt_view(home)) {
            (Some(u), _) => u,
            (None, Some(h)) => h,
            (None, None) => "."@,
        },
{
    match userprofile {
        Some(u) => u,
        None => match home {
            Some(h) => h,
            None => String::from_str("."),
        },
    }
}

/// Where the bridge directory lies: the `REAPER_MCP_BRIDGE_DIR` override,
/// else under the first install's Scripts directory, else under the
/// fallback home directory.
pub fn default_bridge_dir(
    env_override: Option<String>,
    installs: &Vec<ReaperInstall>,
    fallback_home: String,
) -> (res: BridgeDirChoice)
    ensures
        match opt_view(env_override) {
            Some(o) => res matches BridgeDirChoice::Override(d) && d@ == o,
            None => if installs@.len() > 0 {
                res matches BridgeDirChoice::UnderScripts(d) && d@ == installs@[0].scripts_dir@
            } else {
                res matches BridgeDirChoice::UnderHome(d) && d@ == fallback_home@
            },
        },
{
    match env_override {
        Some(o) => BridgeDirChoice::Override(o),
        None => if installs.len() > 0 {
            BridgeDirChoice::UnderScripts(installs[0].scripts_dir.clone())
        } else {
            BridgeDirChoice::UnderHome(fallback_home)
        },
    }
}

} // verus!
