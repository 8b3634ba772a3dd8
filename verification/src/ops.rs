//! The DAW-agnostic operations and their wire names.

use vstd::prelude::*;

verus! {

/// Every operation of the shared tool surface.
#[derive(Clone, Copy, Debug, PartialEq, Eq, Structural)]
pub enum DawOperation {
    TransportPlay,
    TransportStop,
    TransportPause,
    TransportRecord,
    TransportSeek,
    TransportSetTempo,
    TransportGetState,
    TrackList,
    TrackAdd,
    TrackRemove,
    TrackRename,
    TrackSetVolumeDb,
    TrackSetPan,
    TrackSetMute,
    TrackSetSolo,
    TrackSetColor,
    FxList,
    FxAdd,
    FxRemove,
    FxSetEnabled,
    FxGetParam,
    FxSetParam,
    RenderProject,
    ProjectSave,
    ProjectUndo,
}

/// The name of an operation: the MCP tool's name, which is also the op the
/// REAPER bridge dispatches on.
pub open spec fn op_name(op: DawOperation) -> Seq<char> {
    match op {
        DawOperation::TransportPlay => "transport_play"@,
        DawOperation::TransportStop => "transport_stop"@,
        DawOperation::TransportPause => "transport_pause"@,
        DawOperation::TransportRecord => "transport_record"@,
        DawOperation::TransportSeek => "transport_seek"@,
        DawOperation::TransportSetTempo => "transport_set_tempo"@,
        DawOperation::TransportGetState => "transport_get_state"@,
        DawOperation::TrackList => "track_list"@,
        DawOperation::TrackAdd => "track_add"@,
        DawOperation::TrackRemove => "track_remove"@,
        DawOperation::TrackRename => "track_rename"@,
        DawOperation::TrackSetVolumeDb => "track_set_volume_db"@,
        DawOperation::TrackSetPan => "track_set_pan"@,
        DawOperation::TrackSetMute => "track_set_mute"@,
        DawOperation::TrackSetSolo => "track_set_solo"@,
        DawOperation::TrackSetColor => "track_set_color"@,
        DawOperation::FxList => "fx_list"@,
        DawOperation::FxAdd => "fx_add"@,
        DawOperation::FxRemove => "fx_remove"@,
        DawOperation::FxSetEnabled => "fx_set_enabled"@,
        DawOperation::FxGetParam => "fx_get_param"@,
        DawOperation::FxSetParam => "fx_set_param"@,
        DawOperation::RenderProject => "render_project"@,
        DawOperation::ProjectSave => "project_save"@,
        DawOperation::ProjectUndo => "project_undo"@,
    }
}

impl DawOperation {
    /// The operation's name.
    pub fn name(self) -> (res: &'static str)
        ensures
            res@ == op_name(self),
    {
        match self {
            DawOperation::TransportPlay => "transport_play",
            DawOperation::TransportStop => "transport_stop",
            DawOperation::TransportPause => "transport_pause",
            DawOperation::TransportRecord => "transport_record",
            DawOperation::TransportSeek => "transport_seek",
            DawOperation::TransportSetTempo => "transport_set_tempo",
            DawOperation::TransportGetState => "transport_get_state",
            DawOperation::TrackList => "track_list",
            DawOperation::TrackAdd => "track_add",
            DawOperation::TrackRemove => "track_remove",
            DawOperation::TrackRename => "track_rename",
            DawOperation::TrackSetVolumeDb => "track_set_volume_db",
            DawOperation::TrackSetPan => "track_set_pan",
            DawOperation::TrackSetMute => "track_set_mute",
            DawOperation::TrackSetSolo => "track_set_solo",
            DawOperation::TrackSetColor => "track_set_color",
            DawOperation::FxList => "fx_list",
            DawOperation::FxAdd => "fx_add",
            DawOperation::FxRemove => "fx_remove",
            DawOperation::FxSetEnabled => "fx_set_enabled",
            DawOperation::FxGetParam => "fx_get_param",
            DawOperation::FxSetParam => "fx_set_param",
            DawOperation::RenderProject => "render_project",
            DawOperation::ProjectSave => "project_save",
            DawOperation::ProjectUndo => "project_undo",
        }
    }
}

} // verus!
