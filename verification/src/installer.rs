//! Decisions and status lines of the REAPER installer: which files to copy,
//! whether `__startup.lua` needs rewriting, and what to report per install.
//! The file system itself is touched by the caller.

use vstd::prelude::*;
use crate::startup::{merge_startup_content, merged_startup};

verus! {

/// Name of the bridge script, both bundled and installed.
pub const BRIDGE_FILENAME: &'static str = "reaper_bridge.lua";

/// Name of the bundled blank project.
pub const DEFAULT_PROJECT_SOURCE_FILENAME: &'static str = "default.RPP";

/// Name under which the blank project is installed into REAPER's resource path.
pub const DEFAULT_PROJECT_INSTALLED_FILENAME: &'static str = "reaper-mcp-default.RPP";

/// REAPER's native startup script, run at every launch.
pub const STARTUP_FILENAME: &'static str = "__startup.lua";

/// What one install step acts on.
#[derive(Clone, Copy, Debug, PartialEq, Eq, Structural)]
pub enum InstallTarget {
    BridgeScript,
    DefaultProject,
    StartupHook,
}

/// How one install step ended for one destination.
#[derive(Clone, Debug)]
pub enum InstallOutcome {
    /// The destination already held the wanted content.
    UpToDate,
    /// The destination was written.
    Installed,
    /// The step failed with this error text.
    Skipped(String),
}

/// What to do with one destination file once its directory exists or not.
#[derive(Clone, Debug)]
pub enum CopyDecision {
    /// The directory could not be created: report this error.
    Skip(String),
    /// The destination already equals the source.
    UpToDate,
    /// Copy the source over the destination.
    Copy,
}

/// The status line reported for one install step.
pub open spec fn install_line_text(
    target: InstallTarget,
    outcome: InstallOutcome,
    dest: Seq<char>,
) -> Seq<char> {
    match outcome {
        InstallOutcome::Skipped(e) => "skipped ("@ + e@ + "): "@ + dest,
        InstallOutcome::UpToDate => match target {
            InstallTarget::BridgeScript => "up to date: "@ + dest,
            InstallTarget::DefaultProject => "default project up to date: "@ + dest,
            InstallTarget::StartupHook => "startup hook up to date: "@ + dest,
        },
        InstallOutcome::Installed => match target {
            InstallTarget::BridgeScript => "installed: "@ + dest,
            InstallTarget::DefaultProject => "default project installed: "@ + dest,
            InstallTarget::StartupHook => "startup hook installed: "@ + dest,
        },
    }
}

/// The status line reported for one install step on destination `dest`.
pub fn install_line(target: InstallTarget, outcome: &InstallOutcome, dest: &str) -> (res: String)
    ensures
        res@ == install_line_text(target, *outcome, dest@),
        res@.len() >= dest@.len(),
        res@.subrange(res@.len() - dest@.len(), res@.len() as int) == dest@,
{
    let mut res = match outcome {
        InstallOutcome::Skipped(e) => {
            let mut r = String::from_str("skipped (");
            r.append(e.as_str());
            r.append("): ");
            r
        },
        InstallOutcome::UpToDate => match target {
            InstallTarget::BridgeScript => String::from_str("up to date: "),
            InstallTarget::DefaultProject => String::from_str("default project up to date: "),
            InstallTarget::StartupHook => String::from_str("startup hook up to date: "),
        },
        InstallOutcome::Installed => match target {
            InstallTarget::BridgeScript => String::from_str("installed: "),
            InstallTarget::DefaultProject => String::from_str("default project installed: "),
            InstallTarget::StartupHook => String::from_str("startup hook installed: "),
        },
    };
    res.append(dest);
    assert(res@.subrange(res@.len() - dest@.len(), res@.len() as int) =~= dest@);
    res
}

/// Decides the step for one copied file: report a directory error, keep an
/// identical destination, or copy.
pub fn copy_decision(dir_created: &Result<(), String>, dest_exists: bool, identical: bool) -> (res:
    CopyDecision)
    ensures
        match dir_created {
            Err(e) => res matches CopyDecision::Skip(r) && r@ == e@,
            Ok(()) => if dest_exists && identical {
                res is UpToDate
            } else {
                res is Copy
            },
        },
{
    match dir_created {
        Err(e) => CopyDecision::Skip(e.clone()),
        Ok(()) => if dest_exists && identical {
            CopyDecision::UpToDate
        } else {
            CopyDecision::Copy
        },
    }
}

/// Whether two files read as the same bytes; a file that could not be read
/// is never identical to anything.
pub fn files_identical(a: &Option<Vec<u8>>, b: &Option<Vec<u8>>) -> (res: bool)
    ensures
        res == (a is Some && b is Some && a->0@ == b->0@),
{
    match (a, b) {
        (Some(va), Some(vb)) => {
            if va.len() != vb.len() {
                return false;
            }
            let n = va.len();
            let mut i: usize = 0;
            while i < n
                invariant
                    n == va@.len(),
                    n == vb@.len(),
                    a is Some && a->0@ == va@,
                    b is Some && b->0@ == vb@,
                    i <= n,
                    forall|j: int| 0 <= j < i ==> va@[j] == vb@[j],
                decreases n - i,
            {
                if va[i] != vb[i] {
                    assert(va@[i as int] != vb@[i as int]);
                    return false;
                }
                i = i + 1;
            }
            assert(va@ =~= vb@);
            true
        },
        _ => false,
    }
}

/// The bundled bridge script's path, if it exists.
pub fn bridge_source_path(path: String, exists: bool) -> (res: Result<String, String>)
    ensures
        exists ==> (res matches Ok(p) && p@ == path@),
        !exists ==> (res matches Err(e) && e@ == "bundled bridge script not found at "@ + path@),
{
    if exists {
        Ok(path)
    } else {
        let mut e = String::from_str("bundled bridge script not found at ");
        e.append(path.as_str());
        Err(e)
    }
}

/// The bundled default project's path, if it exists.
pub fn default_project_source_path(path: String, exists: bool) -> (res: Result<String, String>)
    ensures
        exists ==> (res matches Ok(p) && p@ == path@),
        !exists ==> (res matches Err(e) && e@ == "bundled default project not found at "@ + path@),
{
    if exists {
        Ok(path)
    } else {
        let mut e = String::from_str("bundled default project not found at ");
        e.append(path.as_str());
        Err(e)
    }
}

/// The line that ends the bridge installation early, if any: the bundled
/// script is missing, or no REAPER install was found.
pub fn install_bridge_preflight(source: &Result<String, String>, any_target: bool) -> (res: Option<
    String,
>)
    ensures
        match source {
            Err(e) => res matches Some(l) && l@ == e@,
            Ok(_) => if any_target {
                res is None
            } else {
                res matches Some(l) && l@
                    == "No REAPER installation found. Set REAPER_RESOURCE_PATH or install REAPER first."@
            },
        },
{
    match source {
        Err(e) => Some(e.clone()),
        Ok(_) => if any_target {
            None
        } else {
            Some(
                String::from_str(
                    "No REAPER installation found. Set REAPER_RESOURCE_PATH or install REAPER first.",
                ),
            )
        },
    }
}

/// The line that ends the default-project installation early, if any.
/// A missing bundled project is a soft skip.
pub fn install_default_project_preflight(source: &Result<String, String>, any_target: bool) -> (res:
    Option<String>)
    ensures
        match source {
            Err(_) => res matches Some(l) && l@
                == "default project not bundled; skipped (bridge still installs normally)"@,
            Ok(_) => if any_target {
                res is None
            } else {
                res matches Some(l) && l@ == "No REAPER installation found; skipped default project."@
            },
        },
{
    match source {
        Err(_) => Some(
            String::from_str("default project not bundled; skipped (bridge still installs normally)"),
        ),
        Ok(_) => if any_target {
            None
        } else {
            Some(String::from_str("No REAPER installation found; skipped default project."))
        },
    }
}

/// The line that ends the startup-hook installation early, if any.
pub fn install_startup_hook_preflight(any_target: bool) -> (res: Option<String>)
    ensures
        any_target ==> res is None,
        !any_target ==> (res matches Some(l) && l@
            == "No REAPER installation found; skipped startup hook."@),
{
    if any_target {
        None
    } else {
        Some(String::from_str("No REAPER installation found; skipped startup hook."))
    }
}

/// The closing line of a full bridge installation.
pub open spec fn install_closing_text() -> Seq<char> {
    "The bridge is wired into REAPER's __startup.lua and will auto-run the next time REAPER launches (fully quit and reopen REAPER if it's already running for this to take effect). No manual Actions-list step or extensions required."@
}

/// Joins the per-step reports of a full bridge installation: the bridge
/// script lines, then the default project's, then the startup hook's, then
/// the closing line.
pub fn install_bridge_report(bridge: Vec<String>, project: Vec<String>, hook: Vec<String>) -> (res:
    Vec<String>)
    ensures
        res@.len() == bridge@.len() + project@.len() + hook@.len() + 1,
        res@.subrange(0, bridge@.len() as int) == bridge@,
        res@.subrange(bridge@.len() as int, (bridge@.len() + project@.len()) as int) == project@,
        res@.subrange((bridge@.len() + project@.len()) as int, res@.len() - 1) == hook@,
        res@.last()@ == install_closing_text(),
{
    let mut res = bridge;
    let mut project = project;
    let mut hook = hook;
    let ghost b = res@;
    let ghost p = project@;
    let ghost h = hook@;
    res.append(&mut project);
    res.append(&mut hook);
    res.push(
        String::from_str(
            "The bridge is wired into REAPER's __startup.lua and will auto-run the next time REAPER launches (fully quit and reopen REAPER if it's already running for this to take effect). No manual Actions-list step or extensions required.",
        ),
    );
    assert(res@.subrange(0, b.len() as int) =~= b);
    assert(res@.subrange(b.len() as int, (b.len() + p.len()) as int) =~= p);
    assert(res@.subrange((b.len() + p.len()) as int, res@.len() - 1) =~= h);
    res
}

/// The new `__startup.lua` content, or `None` when the merged content equals
/// what is there already.
pub fn startup_hook_update(existing: &str) -> (res: Option<String>)
    ensures
        merged_startup(existing@) == existing@ ==> res is None,
        merged_startup(existing@) != existing@ ==> (res matches Some(m) && m@ == merged_startup(
            existing@,
        )),
{
    let merged = merge_startup_content(existing);
    let current = String::from_str(existing);
    if merged == current {
        None
    } else {
        Some(merged)
    }
}

/// The status lines of one install step, one per install acted on, in
/// order: each outcome with the destination it concerns.
pub fn install_lines(target: InstallTarget, outcomes: &Vec<(InstallOutcome, String)>) -> (res: Vec<
    String,
>)
    ensures
        res@.len() == outcomes@.len(),
        forall|k: int|
            0 <= k < outcomes@.len() ==> #[trigger] res@[k]@ == install_line_text(
                target,
                outcomes@[k].0,
                outcomes@[k].1@,
            ),
{
    let mut res: Vec<String> = Vec::new();
    let n = outcomes.len();
    for i in 0..n
        invariant
            n == outcomes@.len(),
            res@.len() == i,
            forall|k: int|
                0 <= k < i ==> #[trigger] res@[k]@ == install_line_text(
                    target,
                    outcomes@[k].0,
                    outcomes@[k].1@,
                ),
    {
        let (outcome, dest) = &outcomes[i];
        let line = install_line(target, outcome, dest.as_str());
        res.push(line);
    }
    res
}

/// What to do with `__startup.lua` once it has been read.
#[derive(Clone, Debug)]
pub enum HookUpdate {
    /// The file already holds the current block.
    UpToDate,
    /// Write this content.
    Write(String),
    /// The file exists but could not be read: leave it alone, for this
    /// reason.
    Skip(String),
}

/// Decides the startup hook from how reading `__startup.lua` went: `Ok`
/// with its content (empty when the file does not exist yet), or `Err`
/// with the reason it exists but could not be read, which is never
/// overwritten.
pub fn startup_hook_decision(existing: &Result<String, String>) -> (res: HookUpdate)
    ensures
        match existing {
            Err(e) => res matches HookUpdate::Skip(m) && m@ == e@,
            Ok(c) => if merged_startup(c@) == c@ {
                res is UpToDate
            } else {
                res matches HookUpdate::Write(m) && m@ == merged_startup(c@)
            },
        },
{
    match existing {
        Err(e) => HookUpdate::Skip(e.clone()),
        Ok(c) => match startup_hook_update(c.as_str()) {
            None => HookUpdate::UpToDate,
            Some(m) => HookUpdate::Write(m),
        },
    }
}

} // verus!
