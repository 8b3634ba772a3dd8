//! What the server binary does, given its command-line arguments.

use vstd::prelude::*;

verus! {

/// The DAW whose adapter the server drives.
#[derive(Clone, Copy, Debug, PartialEq, Eq, Structural)]
pub enum DawChoice {
    /// `--daw=reaper`, the default.
    Reaper,
    /// `--daw=audacity`.
    Audacity,
}

/// The binary's mode of operation.
#[derive(Clone, Copy, Debug, PartialEq, Eq, Structural)]
pub enum CliMode {
    /// `--install-bridge`: install or update the REAPER bridge, then exit.
    InstallBridge,
    /// `--status`: print discovery diagnostics, then exit.
    Status,
    /// Serve MCP over stdio for the chosen DAW, after the automatic install
    /// unless `--no-install` is given.
    Serve { auto_install: bool, daw: DawChoice },
}

/// `flag` is one of the arguments.
pub open spec fn has_flag(args: Seq<Seq<char>>, flag: Seq<char>) -> bool {
    exists|i: int| 0 <= i < args.len() && #[trigger] args[i] == flag
}

fn flag_given(args: &Vec<String>, flag: &str) -> (res: bool)
    ensures
        res == has_flag(args@.map_values(|a: String| a@), flag@),
{
    let ghost all = args@.map_values(|a: String| a@);
    let wanted = String::from_str(flag);
    let n = args.len();
    for i in 0..n
        invariant
            n == args@.len(),
            all == args@.map_values(|a: String| a@),
            wanted@ == flag@,
            forall|j: int| 0 <= j < i ==> all[j] != flag@,
    {
        if args[i] == wanted {
            assert(all[i as int] == flag@);
            return true;
        }
    }
    false
}

/// The mode the arguments (program name excluded) select: installing wins
/// over status, status over serving; serving drives Audacity when
/// `--daw=audacity` is given and REAPER otherwise.
pub fn parse_cli(args: &Vec<String>) -> (res: CliMode)
    ensures
        ({
            let a = args@.map_values(|s: String| s@);
            if has_flag(a, "--install-bridge"@) {
                res == CliMode::InstallBridge
            } else if has_flag(a, "--status"@) {
                res == CliMode::Status
            } else {
                res == CliMode::Serve {
                    auto_install: !has_flag(a, "--no-install"@),
                    daw: if has_flag(a, "--daw=audacity"@) {
                        DawChoice::Audacity
                    } else {
                        DawChoice::Reaper
                    },
                }
            }
        }),
{
    if flag_given(args, "--install-bridge") {
        CliMode::InstallBridge
    } else if flag_given(args, "--status") {
        CliMode::Status
    } else {
        let auto_install = !flag_given(args, "--no-install");
        let daw = if flag_given(args, "--daw=audacity") {
            DawChoice::Audacity
        } else {
            DawChoice::Reaper
        };
        CliMode::Serve { auto_install, daw }
    }
}

} // verus!
