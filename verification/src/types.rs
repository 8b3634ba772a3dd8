//! Plain data the tools report.

use vstd::prelude::*;

verus! {

/// One FX on a track's chain.
#[derive(Clone, Debug)]
pub struct FxInfo {
    pub index: i32,
    pub name: String,
    pub enabled: bool,
}

} // verus!
