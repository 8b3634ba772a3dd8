//! The error every DAW operation can end with.

use vstd::prelude::*;

verus! {

/// Why a DAW operation failed.
#[derive(Debug)]
pub enum DawError {
    /// The DAW, or its bridge, could not be reached.
    NotReachable(String),
    /// The operation did not complete in time.
    Timeout(core::time::Duration),
    /// This DAW's adapter does not back the operation.
    Unsupported(String),
    /// Any other failure, with its description.
    Other(String),
}

/// The result of a DAW operation.
pub type DawResult<T> = Result<T, DawError>;

/// The text that follows the operation name in an unsupported-operation
/// error of the Audacity adapter.
pub open spec fn unsupported_suffix() -> Seq<char> {
    " - not yet implemented for Audacity, needs verification against Audacity's scripting reference before it can be added (see AGENTS.md next steps)"@
}

/// The error for an operation the Audacity adapter does not back yet.
pub fn unsupported(what: &str) -> (res: DawError)
    ensures
        res matches DawError::Unsupported(m) && m@ == what@ + unsupported_suffix(),
{
    let mut m = String::from_str(what);
    m.append(
        " - not yet implemented for Audacity, needs verification against Audacity's scripting reference before it can be added (see AGENTS.md next steps)",
    );
    DawError::Unsupported(m)
}

/// The error for a failed operation `name`: its name, a colon, and the
/// underlying error's text.
pub fn operation_error(name: &str, err: &str) -> (res: DawError)
    ensures
        res matches DawError::Other(m) && m@ == name@ + ": "@ + err@,
{
    let mut m = String::from_str(name);
    m.append(": ");
    m.append(err);
    DawError::Other(m)
}

/// The error a REAPER-only tool gives while another DAW is served.
pub fn reaper_only(tool: &str) -> (res: DawError)
    ensures
        res matches DawError::Unsupported(m) && m@ == tool@
            + " is REAPER-only; it is not available with --daw=audacity"@,
{
    let mut m = String::from_str(tool);
    m.append(" is REAPER-only; it is not available with --daw=audacity");
    DawError::Unsupported(m)
}

/// `Duration`'s `Debug` text (std): nothing is stated of it, since a
/// `Duration` has no plain view here to name its text by.
#[verifier::external_body]
fn duration_debug(d: &core::time::Duration) -> (res: String) {
    format!("{:?}", d)
}

/// The text the error displays: its variant's prefix, then its payload.
pub open spec fn message_prefix(e: DawError) -> Seq<char> {
    match e {
        DawError::NotReachable(_) => "DAW not reachable: "@,
        DawError::Timeout(_) => "operation timed out after "@,
        DawError::Unsupported(_) => "operation not supported by this DAW: "@,
        DawError::Other(_) => ""@,
    }
}

impl DawError {
    /// The error's message: `DAW not reachable: `, `operation not supported
    /// by this DAW: ` or nothing before the text it carries, and
    /// `operation timed out after ` before the debug form of its duration.
    pub fn to_string(&self) -> (res: String)
        ensures
            res@.len() >= message_prefix(*self).len(),
            res@.subrange(0, message_prefix(*self).len() as int) == message_prefix(*self),
            match self {
                DawError::NotReachable(m) => res@ == message_prefix(*self) + m@,
                DawError::Unsupported(m) => res@ == message_prefix(*self) + m@,
                DawError::Other(m) => res@ == m@,
                DawError::Timeout(_) => true,
            },
    {
        let mut res = match self {
            DawError::NotReachable(_) => String::from_str("DAW not reachable: "),
            DawError::Timeout(_) => String::from_str("operation timed out after "),
            DawError::Unsupported(_) => String::from_str("operation not supported by this DAW: "),
            DawError::Other(_) => String::new(),
        };
        let ghost prefix = res@;
        proof {
            reveal_strlit("");
            assert(prefix == message_prefix(*self));
        }
        match self {
            DawError::NotReachable(m) => res.append(m.as_str()),
            DawError::Timeout(d) => {
                let t = duration_debug(d);
                res.append(t.as_str());
            },
            DawError::Unsupported(m) => res.append(m.as_str()),
            DawError::Other(m) => res.append(m.as_str()),
        }
        assert(res@.subrange(0, prefix.len() as int) =~= prefix);
        res
    }
}

} // verus!
