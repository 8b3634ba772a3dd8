//! Audacity install and process discovery, and the command plan of the
//! Audacity backend over `mod-script-pipe`.

use vstd::prelude::*;
use crate::discovery::{
    cand, filter_processes, opt_view, CandidatePath, ProcessEntry, TargetOs,
};
use crate::error::{unsupported, unsupported_suffix, DawError, DawResult};
use crate::ops::{op_name, DawOperation};
use crate::text::{
    ascii_lowercase, chars_of, contains_seq, find_chars_from, first_index, is_ascii_text,
    is_first_occurrence, lemma_first_index_unique, occurs_at, signed_decimal,
    signed_decimal_string, to_lowercase, unicode_lowercase,
};

verus! {

/// A running Audacity process.
#[derive(Clone, Debug)]
pub struct AudacityProcess {
    pub pid: u32,
    pub exe: Option<String>,
    pub name: String,
}

/// An Audacity executable or bundle that exists on this machine.
#[derive(Clone, Debug)]
pub struct AudacityInstall {
    pub path: String,
    /// How this install was found: "known_path" or "env".
    pub source: String,
}

/// Everything Audacity discovery found, for diagnostics.
#[derive(Clone, Debug)]
pub struct AudacityDiscoveryReport {
    pub os: String,
    pub running_processes: Vec<AudacityProcess>,
    pub installs: Vec<AudacityInstall>,
    /// True if Audacity's mod-script-pipe pipes could be opened - i.e.
    /// Audacity is running and the module is enabled.
    pub pipe_reachable: bool,
}

/// A candidate Audacity path after the caller looked at the disk.
#[derive(Clone, Debug)]
pub struct ProbedPath {
    pub path: String,
    pub source: String,
    pub exists: bool,
}

/// The environment variables that locate Audacity.
#[derive(Clone, Debug)]
pub struct AudacityEnv {
    /// `PROGRAMFILES`
    pub program_files: Option<String>,
    /// `PROGRAMFILES(X86)`
    pub program_files_x86: Option<String>,
    /// `HOME`
    pub home: Option<String>,
    /// `AUDACITY_PATH`
    pub audacity_path: Option<String>,
}

impl View for AudacityProcess {
    type V = (u32, Option<Seq<char>>, Seq<char>);

    open spec fn view(&self) -> Self::V {
        (self.pid, opt_view(self.exe), self.name@)
    }
}

impl View for AudacityInstall {
    type V = (Seq<char>, Seq<char>);

    open spec fn view(&self) -> Self::V {
        (self.path@, self.source@)
    }
}

impl View for ProbedPath {
    type V = (Seq<char>, Seq<char>, bool);

    open spec fn view(&self) -> Self::V {
        (self.path@, self.source@, self.exists)
    }
}

/// A process name counts as Audacity when its lowercase form is
/// `audacity.exe` or `audacity`.
pub open spec fn audacity_name(name: Seq<char>) -> bool {
    unicode_lowercase(name) == "audacity.exe"@ || unicode_lowercase(name) == "audacity"@
}

/// Whether a process name is Audacity's executable, in any letter case: an
/// ASCII name is recognised exactly when its ASCII lowercase form is
/// `audacity.exe` or `audacity`.
pub fn is_audacity_process_name(name: &str) -> (res: bool)
    ensures
        res == audacity_name(name@),
        is_ascii_text(name@) ==> (res <==> (ascii_lowercase(name@) == "audacity.exe"@
            || ascii_lowercase(name@) == "audacity"@)),
{
    let lower = to_lowercase(name);
    proof {
        if is_ascii_text(name@) {
            assert(lower@ =~= ascii_lowercase(name@));
        }
    }
    let a = String::from_str("audacity.exe");
    let b = String::from_str("audacity");
    lower == a || lower == b
}

/// The Audacity processes among `procs`, in the order given.
pub fn find_running_audacity(procs: Vec<ProcessEntry>) -> (res: Vec<AudacityProcess>)
    ensures
        res@.map_values(|p: AudacityProcess| p@) == filter_processes(
            procs@.map_values(|p: ProcessEntry| p@),
            |n: Seq<char>| audacity_name(n),
        ),
        forall|k: int|
            0 <= k < procs@.len() && is_ascii_text(#[trigger] procs@[k].name@) ==> (audacity_name(
                procs@[k].name@,
            ) <==> (ascii_lowercase(procs@[k].name@) == "audacity.exe"@ || ascii_lowercase(
                procs@[k].name@,
            ) == "audacity"@)),
{
    let ghost all = procs@.map_values(|p: ProcessEntry| p@);
    let ghost keep = |n: Seq<char>| audacity_name(n);
    let mut res: Vec<AudacityProcess> = Vec::new();
    let n = procs.len();
    for i in 0..n
        invariant
            n == procs@.len(),
            all == procs@.map_values(|p: ProcessEntry| p@),
            keep == (|n: Seq<char>| audacity_name(n)),
            res@.map_values(|p: AudacityProcess| p@) == filter_processes(all.take(i as int), keep),
            forall|k: int|
                0 <= k < i && is_ascii_text(#[trigger] procs@[k].name@) ==> (audacity_name(
                    procs@[k].name@,
                ) <==> (ascii_lowercase(procs@[k].name@) == "audacity.exe"@ || ascii_lowercase(
                    procs@[k].name@,
                ) == "audacity"@)),
    {
        let ghost before = res@.map_values(|p: AudacityProcess| p@);
        assert(all.take(i + 1).drop_last() =~= all.take(i as int));
        let p = &procs[i];
        if is_audacity_process_name(p.name.as_str()) {
            res.push(AudacityProcess { pid: p.pid, exe: p.exe.clone(), name: p.name.clone() });
            assert(res@.map_values(|p: AudacityProcess| p@) =~= before.push(all[i as int]));
        } else {
            assert(res@.map_values(|p: AudacityProcess| p@) =~= before);
        }
    }
    assert(all.take(n as int) =~= all);
    res
}

/// The candidate under a program-files directory, when it is set.
pub open spec fn program_dir_audacity(base: Option<Seq<char>>) -> Seq<
    (Seq<char>, Seq<Seq<char>>, Seq<char>),
> {
    match base {
        Some(b) => seq![cand(b, seq!["Audacity"@, "Audacity.exe"@], "known_path"@)],
        None => seq![],
    }
}

/// The places Audacity is looked for, in order: the `AUDACITY_PATH`
/// override first (source "env"), then the known per-OS locations.
pub open spec fn audacity_candidates(
    os: TargetOs,
    program_files: Option<Seq<char>>,
    program_files_x86: Option<Seq<char>>,
    home: Option<Seq<char>>,
    audacity_path: Option<Seq<char>>,
) -> Seq<(Seq<char>, Seq<Seq<char>>, Seq<char>)> {
    let known = "known_path"@;
    let by_os = match os {
        TargetOs::Windows => program_dir_audacity(program_files) + program_dir_audacity(
            program_files_x86,
        ),
        TargetOs::MacOs => seq![cand("/Applications/Audacity.app"@, seq![], known)],
        TargetOs::Other => seq![
            cand("/usr/bin/audacity"@, seq![], known),
            cand("/usr/local/bin/audacity"@, seq![], known),
            cand("/snap/bin/audacity"@, seq![], known),
        ] + match home {
            Some(h) => seq![
                cand(h, seq![".var/app/org.audacityteam.Audacity/current/active/files/bin/audacity"@], known),
            ],
            None => seq![],
        },
    };
    match audacity_path {
        Some(o) => seq![cand(o, seq![], "env"@)] + by_os,
        None => by_os,
    }
}

/// The override comes first, as given, with source `env`, and every other
/// candidate is a known location with source `known_path`; without the
/// override, every candidate is a known location.
pub proof fn lemma_audacity_override_first(
    os: TargetOs,
    program_files: Option<Seq<char>>,
    program_files_x86: Option<Seq<char>>,
    home: Option<Seq<char>>,
    audacity_path: Option<Seq<char>>,
)
    ensures
        ({
            let r = audacity_candidates(os, program_files, program_files_x86, home, audacity_path);
            match audacity_path {
                Some(o) => r.len() > 0 && r[0] == (o, Seq::<Seq<char>>::empty(), "env"@) && forall|k: int|
                    1 <= k < r.len() ==> #[trigger] r[k].2 == "known_path"@,
                None => forall|k: int| 0 <= k < r.len() ==> #[trigger] r[k].2 == "known_path"@,
            }
        }),
{
    let by_os = audacity_candidates(os, program_files, program_files_x86, home, None);
    assert forall|k: int| 0 <= k < by_os.len() implies #[trigger] by_os[k].2 == "known_path"@ by {
        match os {
            TargetOs::Windows => {
                let a = program_dir_audacity(program_files);
                let b = program_dir_audacity(program_files_x86);
                assert(by_os == a + b);
                if k < a.len() {
                    assert(by_os[k] == a[k]);
                } else {
                    assert(by_os[k] == b[k - a.len()]);
                }
            },
            TargetOs::MacOs => {},
            TargetOs::Other => {
                if k >= 3 {
                    assert(by_os[k] == by_os.subrange(3, by_os.len() as int)[k - 3]);
                }
            },
        }
    }
    match audacity_path {
        Some(o) => {
            let r = audacity_candidates(os, program_files, program_files_x86, home, audacity_path);
            assert(r == seq![cand(o, seq![], "env"@)] + by_os);
            assert forall|k: int| 1 <= k < r.len() implies #[trigger] r[k].2 == "known_path"@ by {
                assert(r[k] == by_os[k - 1]);
            }
        },
        None => {},
    }
}

fn path_candidate(base: &str, segment: Option<&str>, source: &str) -> (res: CandidatePath)
    ensures
        res@ == cand(
            base@,
            match segment {
                Some(s) => seq![s@],
                None => seq![],
            },
            source@,
        ),
{
    let mut segments: Vec<String> = Vec::new();
    if let Some(s) = segment {
        segments.push(String::from_str(s));
    }
    let res = CandidatePath { base: String::from_str(base), segments, source: String::from_str(source) };
    assert(res@.1 =~= match segment {
        Some(s) => seq![s@],
        None => seq![],
    });
    res
}

fn push_program_dir_audacity(v: &mut Vec<CandidatePath>, base: &Option<String>)
    ensures
        final(v)@.map_values(|c: CandidatePath| c@) == old(v)@.map_values(|c: CandidatePath| c@)
            + program_dir_audacity(opt_view(*base)),
{
    let ghost before = v@.map_values(|c: CandidatePath| c@);
    if let Some(b) = base {
        let mut segments: Vec<String> = Vec::new();
        segments.push(String::from_str("Audacity"));
        segments.push(String::from_str("Audacity.exe"));
        let c = CandidatePath {
            base: b.clone(),
            segments,
            source: String::from_str("known_path"),
        };
        assert(c@.1 =~= seq!["Audacity"@, "Audacity.exe"@]);
        v.push(c);
    }
    assert(v@.map_values(|c: CandidatePath| c@) =~= before + program_dir_audacity(opt_view(*base)));
}

/// The places Audacity is looked for on `os`, given the environment.
pub fn candidate_install_paths(os: TargetOs, env: &AudacityEnv) -> (res: Vec<CandidatePath>)
    ensures
        res@.map_values(|c: CandidatePath| c@) == audacity_candidates(
            os,
            opt_view(env.program_files),
            opt_view(env.program_files_x86),
            opt_view(env.home),
            opt_view(env.audacity_path),
        ),
{
    let mut v: Vec<CandidatePath> = Vec::new();
    if let Some(o) = &env.audacity_path {
        v.push(path_candidate(o.as_str(), None, "env"));
    }
    let ghost head = v@.map_values(|c: CandidatePath| c@);
    assert(head =~= match opt_view(env.audacity_path) {
        Some(o) => seq![cand(o, seq![], "env"@)],
        None => seq![],
    });
    match os {
        TargetOs::Windows => {
            push_program_dir_audacity(&mut v, &env.program_files);
            push_program_dir_audacity(&mut v, &env.program_files_x86);
            assert(v@.map_values(|c: CandidatePath| c@) =~= head + (program_dir_audacity(
                opt_view(env.program_files),
            ) + program_dir_audacity(opt_view(env.program_files_x86))));
        },
        TargetOs::MacOs => {
            v.push(path_candidate("/Applications/Audacity.app", None, "known_path"));
        },
        TargetOs::Other => {
            v.push(path_candidate("/usr/bin/audacity", None, "known_path"));
            v.push(path_candidate("/usr/local/bin/audacity", None, "known_path"));
            v.push(path_candidate("/snap/bin/audacity", None, "known_path"));
            if let Some(h) = &env.home {
                v.push(
                    path_candidate(
                        h.as_str(),
                        Some(".var/app/org.audacityteam.Audacity/current/active/files/bin/audacity"),
                        "known_path",
                    ),
                );
            }
        },
    }
    assert(v@.map_values(|c: CandidatePath| c@) =~= audacity_candidates(
        os,
        opt_view(env.program_files),
        opt_view(env.program_files_x86),
        opt_view(env.home),
        opt_view(env.audacity_path),
    ));
    v
}

/// The installs found among probed candidates, in candidate order: every
/// candidate that exists, except one whose path an earlier kept candidate
/// already has.
pub open spec fn existing_unique_paths(c: Seq<(Seq<char>, Seq<char>, bool)>) -> Seq<
    (Seq<char>, Seq<char>),
>
    decreases c.len(),
{
    if c.len() == 0 {
        seq![]
    } else {
        let prev = existing_unique_paths(c.drop_last());
        let last = c.last();
        if last.2 && !(exists|j: int| 0 <= j < prev.len() && #[trigger] prev[j].0 == last.0) {
            prev.push((last.0, last.1))
        } else {
            prev
        }
    }
}

/// The Audacity installs among the probed candidates: those that exist,
/// each path once, in candidate order.
pub fn find_audacity_installs(candidates: Vec<ProbedPath>) -> (res: Vec<AudacityInstall>)
    ensures
        res@.map_values(|r: AudacityInstall| r@) == existing_unique_paths(
            candidates@.map_values(|c: ProbedPath| c@),
        ),
{
    let ghost all = candidates@.map_values(|c: ProbedPath| c@);
    let mut res: Vec<AudacityInstall> = Vec::new();
    let n = candidates.len();
    for i in 0..n
        invariant
            n == candidates@.len(),
            all == candidates@.map_values(|c: ProbedPath| c@),
            res@.map_values(|r: AudacityInstall| r@) == existing_unique_paths(all.take(i as int)),
    {
        let ghost prev = res@.map_values(|r: AudacityInstall| r@);
        assert(all.take(i + 1).drop_last() =~= all.take(i as int));
        assert(all.take(i + 1).last() == all[i as int]);
        let c = &candidates[i];
        if c.exists {
            let mut seen = false;
            let m = res.len();
            for k in 0..m
                invariant
                    m == res@.len(),
                    i < n,
                    n == all.len(),
                    prev == res@.map_values(|r: AudacityInstall| r@),
                    c@ == all[i as int],
                    seen == (exists|j: int| 0 <= j < k && #[trigger] prev[j].0 == c@.0),
            {
                assert(prev[k as int] == res@[k as int]@);
                if res[k].path == c.path {
                    assert(prev[k as int].0 == c@.0);
                    seen = true;
                } else {
                    assert(prev[k as int].0 != c@.0);
                }
            }
            if !seen {
                res.push(AudacityInstall { path: c.path.clone(), source: c.source.clone() });
                assert(res@.map_values(|r: AudacityInstall| r@) =~= prev.push(
                    (all[i as int].0, all[i as int].1),
                ));
            }
        }
    }
    assert(all.take(n as int) =~= all);
    res
}

/// No two Audacity installs found share a path.
pub proof fn lemma_audacity_installs_unique(c: Seq<(Seq<char>, Seq<char>, bool)>)
    ensures
        forall|a: int, b: int|
            0 <= a < b < existing_unique_paths(c).len() ==> #[trigger] existing_unique_paths(c)[a].0
                != #[trigger] existing_unique_paths(c)[b].0,
    decreases c.len(),
{
    if c.len() > 0 {
        lemma_audacity_installs_unique(c.drop_last());
        let prev = existing_unique_paths(c.drop_last());
        let r = existing_unique_paths(c);
        assert forall|a: int, b: int| 0 <= a < b < r.len() implies #[trigger] r[a].0
            != #[trigger] r[b].0 by {
            assert(r[a] == prev[a]);
            if b < prev.len() {
                assert(r[b] == prev[b]);
            }
        }
    }
}

/// Every Audacity install found is a candidate that exists.
pub proof fn lemma_audacity_installs_exist(c: Seq<(Seq<char>, Seq<char>, bool)>, k: int)
    requires
        0 <= k < existing_unique_paths(c).len(),
    ensures
        exists|m: int|
            0 <= m < c.len() && c[m].2 && #[trigger] existing_unique_paths(c)[k] == (c[m].0, c[m].1),
    decreases c.len(),
{
    let prev = existing_unique_paths(c.drop_last());
    if k < prev.len() {
        lemma_audacity_installs_exist(c.drop_last(), k);
        let m = choose|m: int|
            0 <= m < c.drop_last().len() && c.drop_last()[m].2 && #[trigger] prev[k] == (
                c.drop_last()[m].0,
                c.drop_last()[m].1,
            );
        assert(c[m] == c.drop_last()[m]);
    } else {
        assert(existing_unique_paths(c)[k] == (c[c.len() - 1].0, c[c.len() - 1].1));
    }
}

/// Every Audacity candidate that exists has its path among the installs
/// found.
pub proof fn lemma_audacity_installs_complete(c: Seq<(Seq<char>, Seq<char>, bool)>, m: int)
    requires
        0 <= m < c.len(),
        c[m].2,
    ensures
        exists|k: int|
            0 <= k < existing_unique_paths(c).len() && #[trigger] existing_unique_paths(c)[k].0
                == c[m].0,
    decreases c.len(),
{
    let prev = existing_unique_paths(c.drop_last());
    if m < c.len() - 1 {
        lemma_audacity_installs_complete(c.drop_last(), m);
        let k = choose|k: int| 0 <= k < prev.len() && #[trigger] prev[k].0 == c.drop_last()[m].0;
        assert(existing_unique_paths(c)[k] == prev[k]);
    } else {
        if exists|j: int| 0 <= j < prev.len() && #[trigger] prev[j].0 == c.last().0 {
            let j = choose|j: int| 0 <= j < prev.len() && #[trigger] prev[j].0 == c.last().0;
            assert(existing_unique_paths(c)[j] == prev[j]);
        } else {
            assert(existing_unique_paths(c)[prev.len() as int].0 == c[m].0);
        }
    }
}

/// Candidate `m` is where install `k` comes from: it exists, install `k`
/// is its path and source, and no existing candidate
/// before it has the same path.
pub open spec fn audacity_source(c: Seq<(Seq<char>, Seq<char>, bool)>, k: int, m: int) -> bool {
    &&& 0 <= m < c.len()
    &&& c[m].2
    &&& 0 <= k < existing_unique_paths(c).len()
    &&& existing_unique_paths(c)[k] == (c[m].0, c[m].1)
    &&& forall|j: int| 0 <= j < m && c[j].2 ==> #[trigger] c[j].0 != c[m].0
}

proof fn lemma_audacity_source_extends(c: Seq<(Seq<char>, Seq<char>, bool)>, k: int, m: int)
    requires
        c.len() > 0,
        audacity_source(c.drop_last(), k, m),
    ensures
        audacity_source(c, k, m),
{
    assert(c[m] == c.drop_last()[m]);
    assert forall|j: int| 0 <= j < m && c[j].2 implies #[trigger] c[j].0 != c[m].0 by {
        assert(c[j] == c.drop_last()[j]);
    }
}

proof fn lemma_audacity_last_source(c: Seq<(Seq<char>, Seq<char>, bool)>)
    requires
        c.len() > 0,
        existing_unique_paths(c).len() > existing_unique_paths(c.drop_last()).len(),
    ensures
        audacity_source(c, existing_unique_paths(c.drop_last()).len() as int, c.len() - 1),
{
    let prev = existing_unique_paths(c.drop_last());
    let m = c.len() - 1;
    assert forall|j: int| 0 <= j < m && c[j].2 implies #[trigger] c[j].0 != c[m].0 by {
        if c[j].0 == c[m].0 {
            assert(c.drop_last()[j] == c[j]);
            lemma_audacity_installs_complete(c.drop_last(), j);
            let t = choose|t: int| 0 <= t < prev.len() && #[trigger] prev[t].0 == c.drop_last()[j].0;
            assert(prev[t].0 == c.last().0);
        }
    }
}

/// Audacity installs come out in candidate order: of two installs, the earlier one
/// comes from the earlier candidate, each from the first existing candidate
/// with its path.
pub proof fn lemma_audacity_installs_keep_candidate_order(
    c: Seq<(Seq<char>, Seq<char>, bool)>,
    k1: int,
    k2: int,
)
    requires
        0 <= k1 < k2 < existing_unique_paths(c).len(),
    ensures
        exists|m1: int, m2: int|
            #![trigger audacity_source(c, k1, m1), audacity_source(c, k2, m2)]
            m1 < m2 && audacity_source(c, k1, m1) && audacity_source(c, k2, m2),
    decreases c.len(),
{
    let prev = existing_unique_paths(c.drop_last());
    if k2 < prev.len() {
        lemma_audacity_installs_keep_candidate_order(c.drop_last(), k1, k2);
        let (m1, m2) = choose|m1: int, m2: int|
            #![trigger audacity_source(c.drop_last(), k1, m1), audacity_source(c.drop_last(), k2, m2)]
            m1 < m2 && audacity_source(c.drop_last(), k1, m1) && audacity_source(c.drop_last(), k2, m2);
        lemma_audacity_source_extends(c, k1, m1);
        lemma_audacity_source_extends(c, k2, m2);
    } else {
        lemma_audacity_last_source(c);
        let m1 = lemma_audacity_install_source(c.drop_last(), k1);
        lemma_audacity_source_extends(c, k1, m1);
        assert(audacity_source(c, k2, c.len() - 1));
    }
}

/// Where install `k` comes from.
proof fn lemma_audacity_install_source(c: Seq<(Seq<char>, Seq<char>, bool)>, k: int) -> (m: int)
    requires
        0 <= k < existing_unique_paths(c).len(),
    ensures
        audacity_source(c, k, m),
    decreases c.len(),
{
    let prev = existing_unique_paths(c.drop_last());
    if k < prev.len() {
        let m = lemma_audacity_install_source(c.drop_last(), k);
        lemma_audacity_source_extends(c, k, m);
        m
    } else {
        lemma_audacity_last_source(c);
        c.len() - 1
    }
}

/// An existing first candidate (the `AUDACITY_PATH` override, when set) is the first install found.
pub proof fn lemma_audacity_first_candidate_first(c: Seq<(Seq<char>, Seq<char>, bool)>)
    requires
        c.len() > 0,
        c[0].2,
    ensures
        existing_unique_paths(c).len() > 0,
        existing_unique_paths(c)[0] == (c[0].0, c[0].1),
    decreases c.len(),
{
    let prev = existing_unique_paths(c.drop_last());
    let last = c.last();
    if c.len() > 1 {
        lemma_audacity_first_candidate_first(c.drop_last());
        assert(c.drop_last()[0] == c[0]);
        if last.2 && !(exists|j: int| 0 <= j < prev.len() && #[trigger] prev[j].0 == last.0) {
            assert(existing_unique_paths(c) == prev.push((last.0, last.1)));
            assert(existing_unique_paths(c)[0] == prev[0]);
        } else {
            assert(existing_unique_paths(c) == prev);
        }
    } else {
        assert(prev.len() == 0);
        assert(last == c[0]);
        assert(existing_unique_paths(c) == prev.push((last.0, last.1)));
    }
}

/// The `mod-script-pipe` command Audacity's adapter sends for an operation:
/// the transport commands, the track commands (all but colour), `Export2`
/// for rendering, and `Save` and `Undo`; none for seeking, tempo, the
/// transport-state query, track colour and FX.
pub open spec fn audacity_command_name(op: DawOperation) -> Option<Seq<char>> {
    match op {
        DawOperation::TransportPlay => Some("Play"@),
        DawOperation::TransportStop => Some("Stop"@),
        DawOperation::TransportPause => Some("Pause"@),
        DawOperation::TransportRecord => Some("Record2ndChoice"@),
        DawOperation::TrackList => Some("GetInfo"@),
        DawOperation::TrackAdd => Some("NewMonoTrack"@),
        DawOperation::TrackRemove => Some("RemoveTracks"@),
        DawOperation::TrackRename => Some("SetTrackStatus"@),
        DawOperation::TrackSetVolumeDb => Some("SetTrackAudio"@),
        DawOperation::TrackSetPan => Some("SetTrackAudio"@),
        DawOperation::TrackSetMute => Some("SetTrackAudio"@),
        DawOperation::TrackSetSolo => Some("SetTrackAudio"@),
        DawOperation::RenderProject => Some("Export2"@),
        DawOperation::ProjectSave => Some("Save"@),
        DawOperation::ProjectUndo => Some("Undo"@),
        _ => None,
    }
}

/// The command to send for `op`, or the unsupported-operation error naming
/// the operation.
pub fn audacity_command(op: DawOperation) -> (res: DawResult<&'static str>)
    ensures
        match audacity_command_name(op) {
            Some(c) => res matches Ok(r) && r@ == c,
            None => res matches Err(DawError::Unsupported(m)) && m@ == op_name(op)
                + unsupported_suffix(),
        },
{
    match op {
        DawOperation::TransportPlay => Ok("Play"),
        DawOperation::TransportStop => Ok("Stop"),
        DawOperation::TransportPause => Ok("Pause"),
        // Records onto a new track; "Record1stChoice" would need a selected
        // track, which the shared transport has no notion of.
        DawOperation::TransportRecord => Ok("Record2ndChoice"),
        DawOperation::TrackList => Ok("GetInfo"),
        DawOperation::TrackAdd => Ok("NewMonoTrack"),
        DawOperation::TrackRemove => Ok("RemoveTracks"),
        DawOperation::TrackRename => Ok("SetTrackStatus"),
        DawOperation::TrackSetVolumeDb => Ok("SetTrackAudio"),
        DawOperation::TrackSetPan => Ok("SetTrackAudio"),
        DawOperation::TrackSetMute => Ok("SetTrackAudio"),
        DawOperation::TrackSetSolo => Ok("SetTrackAudio"),
        DawOperation::RenderProject => Ok("Export2"),
        DawOperation::ProjectSave => Ok("Save"),
        DawOperation::ProjectUndo => Ok("Undo"),
        _ => Err(unsupported(op.name())),
    }
}

/// A request to Audacity, with its arguments. Gain and pan come as the
/// decimal text of the number.
#[derive(Clone, Debug)]
pub enum AudacityRequest {
    Play,
    Stop,
    Pause,
    Record,
    ListTracks,
    AddTrack,
    RemoveTrack { track: i32 },
    RenameTrack { track: i32, name: String },
    SetGain { track: i32, gain_db: String },
    SetPan { track: i32, pan: String },
    SetMute { track: i32, muted: bool },
    SetSolo { track: i32, soloed: bool },
    Export { path: String },
    Save,
    Undo,
}

/// The command that makes track `track` the only selected one; the track
/// commands act on the selected tracks.
pub open spec fn select_track_text(track: int) -> Seq<char> {
    "SelectTracks: Track="@ + signed_decimal(track) + " TrackCount=1 Mode=Set"@
}

/// A boolean as Audacity's parameters take it.
pub open spec fn flag_text(b: bool) -> Seq<char> {
    if b {
        "1"@
    } else {
        "0"@
    }
}

/// The commands sent, in order, for a request.
pub open spec fn audacity_script_text(r: AudacityRequest) -> Seq<Seq<char>> {
    match r {
        AudacityRequest::Play => seq!["Play"@],
        AudacityRequest::Stop => seq!["Stop"@],
        AudacityRequest::Pause => seq!["Pause"@],
        AudacityRequest::Record => seq!["Record2ndChoice"@],
        AudacityRequest::ListTracks => seq!["GetInfo: Type=Tracks Format=JSON"@],
        AudacityRequest::AddTrack => seq!["NewMonoTrack"@],
        AudacityRequest::RemoveTrack { track } => seq![
            select_track_text(track as int),
            "RemoveTracks"@,
        ],
        AudacityRequest::RenameTrack { track, name } => seq![
            select_track_text(track as int),
            "SetTrackStatus: Name=\""@ + name@ + "\""@,
        ],
        AudacityRequest::SetGain { track, gain_db } => seq![
            select_track_text(track as int),
            "SetTrackAudio: Gain="@ + gain_db@,
        ],
        AudacityRequest::SetPan { track, pan } => seq![
            select_track_text(track as int),
            "SetTrackAudio: Pan="@ + pan@,
        ],
        AudacityRequest::SetMute { track, muted } => seq![
            select_track_text(track as int),
            "SetTrackAudio: Mute="@ + flag_text(muted),
        ],
        AudacityRequest::SetSolo { track, soloed } => seq![
            select_track_text(track as int),
            "SetTrackAudio: Solo="@ + flag_text(soloed),
        ],
        AudacityRequest::Export { path } => seq![
            "Export2: Filename=\""@ + path@ + "\" NumChannels=2"@,
        ],
        AudacityRequest::Save => seq!["Save"@],
        AudacityRequest::Undo => seq!["Undo"@],
    }
}

/// The shared operation a request carries out.
pub open spec fn request_op(r: AudacityRequest) -> DawOperation {
    match r {
        AudacityRequest::Play => DawOperation::TransportPlay,
        AudacityRequest::Stop => DawOperation::TransportStop,
        AudacityRequest::Pause => DawOperation::TransportPause,
        AudacityRequest::Record => DawOperation::TransportRecord,
        AudacityRequest::ListTracks => DawOperation::TrackList,
        AudacityRequest::AddTrack => DawOperation::TrackAdd,
        AudacityRequest::RemoveTrack { .. } => DawOperation::TrackRemove,
        AudacityRequest::RenameTrack { .. } => DawOperation::TrackRename,
        AudacityRequest::SetGain { .. } => DawOperation::TrackSetVolumeDb,
        AudacityRequest::SetPan { .. } => DawOperation::TrackSetPan,
        AudacityRequest::SetMute { .. } => DawOperation::TrackSetMute,
        AudacityRequest::SetSolo { .. } => DawOperation::TrackSetSolo,
        AudacityRequest::Export { .. } => DawOperation::RenderProject,
        AudacityRequest::Save => DawOperation::ProjectSave,
        AudacityRequest::Undo => DawOperation::ProjectUndo,
    }
}

/// `prefix` begins `s`.
pub open spec fn starts_with(s: Seq<char>, prefix: Seq<char>) -> bool {
    s.len() >= prefix.len() && s.subrange(0, prefix.len() as int) == prefix
}

/// The script of a request ends with the command `audacity_command` names
/// for the request's operation, and a request without arguments sends just
/// that command: the plan and the command table agree.
pub proof fn lemma_script_sends_named_command(r: AudacityRequest)
    ensures
        audacity_command_name(request_op(r)) is Some,
        audacity_script_text(r).len() > 0,
        starts_with(audacity_script_text(r).last(), audacity_command_name(request_op(r))->0),
        (r is Play || r is Stop || r is Pause || r is Record || r is AddTrack || r is Save
            || r is Undo) ==> audacity_script_text(r) == seq![
            audacity_command_name(request_op(r))->0,
        ],
{
    reveal_strlit("GetInfo: Type=Tracks Format=JSON");
    reveal_strlit("GetInfo");
    reveal_strlit("SetTrackStatus: Name=\"");
    reveal_strlit("SetTrackStatus");
    reveal_strlit("SetTrackAudio: Gain=");
    reveal_strlit("SetTrackAudio: Pan=");
    reveal_strlit("SetTrackAudio: Mute=");
    reveal_strlit("SetTrackAudio: Solo=");
    reveal_strlit("SetTrackAudio");
    reveal_strlit("Export2: Filename=\"");
    reveal_strlit("Export2");
    let script = audacity_script_text(r);
    let name = audacity_command_name(request_op(r))->0;
    match r {
        AudacityRequest::ListTracks => {
            assert(script.last().subrange(0, name.len() as int) =~= name);
        },
        AudacityRequest::RenameTrack { track, name: n } => {
            assert(script.last().subrange(0, name.len() as int) =~= name);
        },
        AudacityRequest::SetGain { track, gain_db } => {
            assert(script.last().subrange(0, name.len() as int) =~= name);
        },
        AudacityRequest::SetPan { track, pan } => {
            assert(script.last().subrange(0, name.len() as int) =~= name);
        },
        AudacityRequest::SetMute { track, muted } => {
            assert(script.last().subrange(0, name.len() as int) =~= name);
        },
        AudacityRequest::SetSolo { track, soloed } => {
            assert(script.last().subrange(0, name.len() as int) =~= name);
        },
        AudacityRequest::Export { path } => {
            assert(script.last().subrange(0, name.len() as int) =~= name);
        },
        _ => {
            assert(script.last().subrange(0, name.len() as int) =~= name);
        },
    }
}

/// Different operations Audacity backs send different commands, except the
/// four track settings, which all go through `SetTrackAudio`.
pub proof fn lemma_command_names_distinct(a: DawOperation, b: DawOperation)
    requires
        audacity_command_name(a) is Some,
        audacity_command_name(a) == audacity_command_name(b),
        a != b,
    ensures
        a is TrackSetVolumeDb || a is TrackSetPan || a is TrackSetMute || a is TrackSetSolo,
        b is TrackSetVolumeDb || b is TrackSetPan || b is TrackSetMute || b is TrackSetSolo,
{
    reveal_strlit("Play");
    reveal_strlit("Stop");
    reveal_strlit("Pause");
    reveal_strlit("Record2ndChoice");
    reveal_strlit("GetInfo");
    reveal_strlit("NewMonoTrack");
    reveal_strlit("RemoveTracks");
    reveal_strlit("SetTrackStatus");
    reveal_strlit("SetTrackAudio");
    reveal_strlit("Export2");
    reveal_strlit("Save");
    reveal_strlit("Undo");
    let na = audacity_command_name(a)->0;
    assert(na[0] == audacity_command_name(b)->0[0]);
    assert(na[1] == audacity_command_name(b)->0[1]);
    assert(na[3] == audacity_command_name(b)->0[3]);
    assert(na.len() == (audacity_command_name(b)->0).len());
}

fn select_track(track: i32) -> (res: String)
    ensures
        res@ == select_track_text(track as int),
{
    let mut res = String::from_str("SelectTracks: Track=");
    let n = signed_decimal_string(track);
    res.append(n.as_str());
    res.append(" TrackCount=1 Mode=Set");
    res
}

fn joined(a: &str, b: &str) -> (res: String)
    ensures
        res@ == a@ + b@,
{
    let mut res = String::from_str(a);
    res.append(b);
    res
}

fn flag(b: bool) -> (res: &'static str)
    ensures
        res@ == flag_text(b),
{
    if b {
        "1"
    } else {
        "0"
    }
}

fn one(c: String) -> (res: Vec<String>)
    ensures
        res@.map_values(|s: String| s@) == seq![c@],
{
    let mut res: Vec<String> = Vec::new();
    res.push(c);
    assert(res@.map_values(|s: String| s@) =~= seq![c@]);
    res
}

fn on_track(track: i32, c: String) -> (res: Vec<String>)
    ensures
        res@.map_values(|s: String| s@) == seq![select_track_text(track as int), c@],
{
    let mut res: Vec<String> = Vec::new();
    res.push(select_track(track));
    res.push(c);
    assert(res@.map_values(|s: String| s@) =~= seq![select_track_text(track as int), c@]);
    res
}

/// The commands to send, in order, for a request.
pub fn audacity_script(r: &AudacityRequest) -> (res: Vec<String>)
    ensures
        res@.map_values(|s: String| s@) == audacity_script_text(*r),
{
    match r {
        AudacityRequest::Play => one(String::from_str("Play")),
        AudacityRequest::Stop => one(String::from_str("Stop")),
        AudacityRequest::Pause => one(String::from_str("Pause")),
        AudacityRequest::Record => one(String::from_str("Record2ndChoice")),
        AudacityRequest::ListTracks => one(String::from_str("GetInfo: Type=Tracks Format=JSON")),
        AudacityRequest::AddTrack => one(String::from_str("NewMonoTrack")),
        AudacityRequest::RemoveTrack { track } => on_track(*track, String::from_str("RemoveTracks")),
        AudacityRequest::RenameTrack { track, name } => {
            let c = joined("SetTrackStatus: Name=\"", name.as_str());
            let c = joined(c.as_str(), "\"");
            on_track(*track, c)
        },
        AudacityRequest::SetGain { track, gain_db } => on_track(
            *track,
            joined("SetTrackAudio: Gain=", gain_db.as_str()),
        ),
        AudacityRequest::SetPan { track, pan } => on_track(
            *track,
            joined("SetTrackAudio: Pan=", pan.as_str()),
        ),
        AudacityRequest::SetMute { track, muted } => on_track(
            *track,
            joined("SetTrackAudio: Mute=", flag(*muted)),
        ),
        AudacityRequest::SetSolo { track, soloed } => on_track(
            *track,
            joined("SetTrackAudio: Solo=", flag(*soloed)),
        ),
        AudacityRequest::Export { path } => {
            let c = joined("Export2: Filename=\"", path.as_str());
            let c = joined(c.as_str(), "\" NumChannels=2");
            one(c)
        },
        AudacityRequest::Save => one(String::from_str("Save")),
        AudacityRequest::Undo => one(String::from_str("Undo")),
    }
}

/// The line Audacity ends each reply with, after the command's output.
pub open spec fn status_marker() -> Seq<char> {
    "BatchCommand finished:"@
}

/// A reply without its status line: everything before the first
/// `BatchCommand finished:`, or the whole reply when there is none.
pub open spec fn reply_body_text(reply: Seq<char>) -> Seq<char> {
    if contains_seq(reply, status_marker()) {
        reply.subrange(0, first_index(reply, status_marker()))
    } else {
        reply
    }
}

/// The output of a command, such as `GetInfo`'s JSON, without the status
/// line of the reply.
pub fn reply_body(reply: &str) -> (res: String)
    ensures
        res@ == reply_body_text(reply@),
{
    let chars = chars_of(reply);
    let marker = chars_of("BatchCommand finished:");
    match find_chars_from(&chars, &marker, 0) {
        Some(i) => {
            proof {
                assert(is_first_occurrence(reply@, status_marker(), i as int));
                lemma_first_index_unique(reply@, status_marker(), i as int);
            }
            String::from_str(reply.substring_char(0, i))
        },
        None => {
            assert forall|j: int| !occurs_at(reply@, status_marker(), j) by {
                if occurs_at(reply@, status_marker(), j) {
                    assert(0 <= j);
                }
            }
            String::from_str(reply)
        },
    }
}

/// The message `describe` gives when the pipe cannot be opened.
pub open spec fn pipe_unreachable_text() -> Seq<char> {
    "could not open Audacity's mod-script-pipe (\\\\.\\pipe\\ToSrvPipe / FromSrvPipe) - is Audacity running with Edit > Preferences > Modules > mod-script-pipe enabled?"@
}

/// What the Audacity adapter reports about itself, given whether its pipe
/// could be opened.
pub fn audacity_describe(reachable: bool) -> (res: DawResult<String>)
    ensures
        reachable ==> (res matches Ok(m) && m@ == "Audacity mod-script-pipe connected"@),
        !reachable ==> (res matches Err(DawError::NotReachable(m)) && m@
            == pipe_unreachable_text()),
{
    if reachable {
        Ok(String::from_str("Audacity mod-script-pipe connected"))
    } else {
        Err(
            DawError::NotReachable(
                String::from_str(
                    "could not open Audacity's mod-script-pipe (\\\\.\\pipe\\ToSrvPipe / FromSrvPipe) - is Audacity running with Edit > Preferences > Modules > mod-script-pipe enabled?",
                ),
            ),
        )
    }
}

} // verus!
