//! How the REAPER backend reads the bridge's results: transport flags,
//! indices, FX lists, and the reachability check before `describe`.

use vstd::prelude::*;
use crate::error::DawError;
use crate::types::FxInfo;

verus! {

/// ReaScript that glues the selected media items: main-section action
/// 41588.
pub const GLUE_SELECTED_SCRIPT: &'static str = "reaper.Main_OnCommand(41588, 0)\nreturn \"ok\"\n";

/// ReaScript that renders the selected items in place: main-section action
/// 41999.
pub const RENDER_IN_PLACE_SCRIPT: &'static str = "reaper.Main_OnCommand(41999, 0)\nreturn \"ok\"\n";

/// Bit `k` of the 64-bit two's-complement pattern of `x`.
pub open spec fn bit_of(x: i64, k: nat) -> bool {
    ((x as u64) as nat / vstd::arithmetic::power2::pow2(k)) % 2 == 1
}

/// The transport flags of REAPER's play state.
#[derive(Clone, Copy, Debug, PartialEq, Eq, Structural)]
pub struct PlayFlags {
    pub playing: bool,
    pub paused: bool,
    pub recording: bool,
}

/// Decodes REAPER's play-state bit field: bit 0 playing, bit 1 paused,
/// bit 2 recording.
pub fn decode_play_state(play_state: i64) -> (res: PlayFlags)
    ensures
        res.playing == bit_of(play_state, 0),
        res.paused == bit_of(play_state, 1),
        res.recording == bit_of(play_state, 2),
{
    let bits = play_state as u64;
    proof {
        vstd::arithmetic::power2::lemma2_to64();
        assert((bits & 1u64 != 0) == (bits % 2 == 1)) by (bit_vector);
        assert((bits & 2u64 != 0) == ((bits / 2) % 2 == 1)) by (bit_vector);
        assert((bits & 4u64 != 0) == ((bits / 4) % 2 == 1)) by (bit_vector);
    }
    PlayFlags {
        playing: bits & 1 != 0,
        paused: bits & 2 != 0,
        recording: bits & 4 != 0,
    }
}

/// An index the bridge reported, `default` when it reported none, cut to
/// 32 bits as a cast does.
pub fn index_or(reported: Option<i64>, default: i32) -> (res: i32)
    ensures
        res == match reported {
            Some(v) => v as i32,
            None => default,
        },
{
    match reported {
        Some(v) => v as i32,
        None => default,
    }
}

/// The fields of one FX entry as the bridge reported them.
#[derive(Clone, Debug)]
pub struct FxEntry {
    pub index: Option<i64>,
    pub name: Option<String>,
    pub enabled: Option<bool>,
}

/// The FX an entry describes, as (index, name, enabled): a missing index
/// reads as 0, a missing name as empty, a missing enabled flag as enabled.
pub open spec fn fx_of_entry(e: FxEntry) -> (i32, Seq<char>, bool) {
    (
        match e.index {
            Some(v) => v as i32,
            None => 0i32,
        },
        match e.name {
            Some(n) => n@,
            None => Seq::<char>::empty(),
        },
        match e.enabled {
            Some(b) => b,
            None => true,
        },
    )
}

/// An FX as (index, name, enabled).
pub open spec fn fx_fields(f: FxInfo) -> (i32, Seq<char>, bool) {
    (f.index, f.name@, f.enabled)
}

fn fx_from_entry(e: &FxEntry) -> (res: FxInfo)
    ensures
        fx_fields(res) == fx_of_entry(*e),
{
    let name = match &e.name {
        Some(n) => n.clone(),
        None => String::new(),
    };
    let enabled = match e.enabled {
        Some(b) => b,
        None => true,
    };
    FxInfo { index: index_or(e.index, 0), name, enabled }
}

/// The FX list an entry list describes, entry by entry.
pub fn fx_list_from(entries: &Vec<FxEntry>) -> (res: Vec<FxInfo>)
    ensures
        res@.len() == entries@.len(),
        forall|k: int| 0 <= k < entries@.len() ==> fx_fields(#[trigger] res@[k]) == fx_of_entry(entries@[k]),
        forall|k: int|
            0 <= k < entries@.len() ==> (match entries@[k].enabled {
                Some(b) => #[trigger] res@[k].enabled == b,
                None => res@[k].enabled,
            }),
        forall|k: int|
            0 <= k < entries@.len() ==> (match entries@[k].name {
                Some(n) => #[trigger] res@[k].name@ == n@,
                None => res@[k].name@.len() == 0,
            }),
        forall|k: int|
            0 <= k < entries@.len() ==> (match entries@[k].index {
                Some(v) => #[trigger] res@[k].index == v as i32,
                None => res@[k].index == 0,
            }),
{
    let mut res: Vec<FxInfo> = Vec::new();
    let n = entries.len();
    for i in 0..n
        invariant
            n == entries@.len(),
            res@.len() == i,
            forall|k: int| 0 <= k < i ==> fx_fields(#[trigger] res@[k]) == fx_of_entry(entries@[k]),
    {
        let f = fx_from_entry(&entries[i]);
        res.push(f);
        assert(fx_fields(res@[i as int]) == fx_of_entry(entries@[i as int]));
    }
    res
}

/// The integer, text and flag fields of one track entry as the bridge
/// reported them (its volume and pan are read by the caller).
#[derive(Clone, Debug)]
pub struct TrackEntry {
    pub index: Option<i64>,
    pub name: Option<String>,
    pub mute: Option<bool>,
    pub solo: Option<bool>,
}

/// A track's index, name and mute and solo states.
#[derive(Clone, Debug)]
pub struct TrackFields {
    pub index: i32,
    pub name: String,
    pub muted: bool,
    pub soloed: bool,
}

/// The track fields an entry describes, as (index, name, muted, soloed): a
/// missing index reads as 0, a missing name as empty, missing flags as off.
pub open spec fn track_of_entry(e: TrackEntry) -> (i32, Seq<char>, bool, bool) {
    (
        match e.index {
            Some(v) => v as i32,
            None => 0i32,
        },
        match e.name {
            Some(n) => n@,
            None => Seq::<char>::empty(),
        },
        e.mute == Some(true),
        e.solo == Some(true),
    )
}

/// Reads the index, name and mute and solo states of a track entry.
pub fn track_fields(e: &TrackEntry) -> (res: TrackFields)
    ensures
        (res.index, res.name@, res.muted, res.soloed) == track_of_entry(*e),
        match e.mute {
            Some(b) => res.muted == b,
            None => !res.muted,
        },
        match e.solo {
            Some(b) => res.soloed == b,
            None => !res.soloed,
        },
        match e.name {
            Some(n) => res.name@ == n@,
            None => res.name@.len() == 0,
        },
        match e.index {
            Some(v) => res.index == v as i32,
            None => res.index == 0,
        },
{
    let name = match &e.name {
        Some(n) => n.clone(),
        None => String::new(),
    };
    let muted = match e.mute {
        Some(b) => b,
        None => false,
    };
    let soloed = match e.solo {
        Some(b) => b,
        None => false,
    };
    TrackFields { index: index_or(e.index, 0), name, muted, soloed }
}

/// What `describe` does before asking the bridge: fail with `NotReachable`
/// when the heartbeat is missing or stale.
pub fn describe_precheck(alive: bool) -> (res: Result<(), DawError>)
    ensures
        alive ==> res is Ok,
        !alive ==> (res matches Err(DawError::NotReachable(m)) && m@
            == "REAPER bridge heartbeat missing or stale"@),
{
    if alive {
        Ok(())
    } else {
        Err(DawError::NotReachable(String::from_str("REAPER bridge heartbeat missing or stale")))
    }
}

/// The path a render wrote to: the one the bridge reports, else the one
/// requested.
pub fn render_output_path(reported: Option<String>, requested: String) -> (res: String)
    ensures
        res@ == match reported {
            Some(r) => r@,
            None => requested@,
        },
{
    match reported {
        Some(r) => r,
        None => requested,
    }
}

/// The options of `compose_and_render` once its defaults are filled in.
#[derive(Clone, Debug)]
pub struct ComposeOptions {
    pub track_name: String,
    pub overwrite: bool,
    pub auto_instrument: bool,
    pub auto_limiter: bool,
}

/// Fills in `compose_and_render`'s defaults: the track is named
/// `Composed`, an existing output is not overwritten, and an instrument and
/// a master limiter are added.
pub fn compose_options(
    track_name: Option<String>,
    overwrite: Option<bool>,
    auto_instrument: Option<bool>,
    auto_limiter: Option<bool>,
) -> (res: ComposeOptions)
    ensures
        res.track_name@ == match track_name {
            Some(n) => n@,
            None => "Composed"@,
        },
        res.overwrite == (overwrite == Some(true)),
        res.auto_instrument == (auto_instrument != Some(false)),
        res.auto_limiter == (auto_limiter != Some(false)),
{
    let track_name = match track_name {
        Some(n) => n,
        None => String::from_str("Composed"),
    };
    let overwrite = match overwrite {
        Some(b) => b,
        None => false,
    };
    let auto_instrument = match auto_instrument {
        Some(b) => b,
        None => true,
    };
    let auto_limiter = match auto_limiter {
        Some(b) => b,
        None => true,
    };
    ComposeOptions { track_name, overwrite, auto_instrument, auto_limiter }
}

} // verus!
