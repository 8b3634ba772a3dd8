use dawmcp::audacity::{audacity_command, audacity_describe, audacity_script, reply_body, AudacityRequest};
use dawmcp::cli::{parse_cli, CliMode, DawChoice};
use dawmcp::error::{operation_error, reaper_only, unsupported, DawError};
use dawmcp::ops::DawOperation;
use dawmcp::reaper::{
    compose_options, decode_play_state, describe_precheck, fx_list_from, index_or, render_output_path, track_fields, FxEntry,
    PlayFlags, TrackEntry,
};

#[test]
fn audacity_command_plan() {
    assert_eq!(audacity_command(DawOperation::TransportPlay).unwrap(), "Play");
    assert_eq!(audacity_command(DawOperation::TransportStop).unwrap(), "Stop");
    assert_eq!(audacity_command(DawOperation::TransportPause).unwrap(), "Pause");
    assert_eq!(audacity_command(DawOperation::TransportRecord).unwrap(), "Record2ndChoice");
    assert_eq!(audacity_command(DawOperation::TrackAdd).unwrap(), "NewMonoTrack");
    assert_eq!(audacity_command(DawOperation::TrackList).unwrap(), "GetInfo");
    assert_eq!(audacity_command(DawOperation::TrackSetMute).unwrap(), "SetTrackAudio");
    assert_eq!(audacity_command(DawOperation::RenderProject).unwrap(), "Export2");
    assert_eq!(audacity_command(DawOperation::ProjectSave).unwrap(), "Save");
    assert_eq!(audacity_command(DawOperation::ProjectUndo).unwrap(), "Undo");
    match audacity_command(DawOperation::TransportSeek) {
        Err(DawError::Unsupported(m)) => {
            assert!(m.starts_with("transport_seek - not yet implemented for Audacity"));
        }
        other => panic!("unexpected {other:?}"),
    }
    for op in [
        DawOperation::TransportSetTempo,
        DawOperation::TransportGetState,
        DawOperation::TrackSetColor,
        DawOperation::FxAdd,
        DawOperation::FxList,
    ] {
        assert!(matches!(audacity_command(op), Err(DawError::Unsupported(m)) if m.starts_with(op.name())));
    }
}

#[test]
fn audacity_scripts() {
    assert_eq!(audacity_script(&AudacityRequest::Play), vec!["Play"]);
    assert_eq!(audacity_script(&AudacityRequest::ListTracks), vec!["GetInfo: Type=Tracks Format=JSON"]);
    assert_eq!(
        audacity_script(&AudacityRequest::RemoveTrack { track: 2 }),
        vec!["SelectTracks: Track=2 TrackCount=1 Mode=Set", "RemoveTracks"]
    );
    assert_eq!(
        audacity_script(&AudacityRequest::RenameTrack { track: 0, name: "Lead vox".to_string() }),
        vec!["SelectTracks: Track=0 TrackCount=1 Mode=Set", "SetTrackStatus: Name=\"Lead vox\""]
    );
    assert_eq!(
        audacity_script(&AudacityRequest::SetGain { track: 1, gain_db: "-6.5".to_string() }),
        vec!["SelectTracks: Track=1 TrackCount=1 Mode=Set", "SetTrackAudio: Gain=-6.5"]
    );
    assert_eq!(
        audacity_script(&AudacityRequest::SetPan { track: -1, pan: "0.25".to_string() }),
        vec!["SelectTracks: Track=-1 TrackCount=1 Mode=Set", "SetTrackAudio: Pan=0.25"]
    );
    assert_eq!(
        audacity_script(&AudacityRequest::SetMute { track: 3, muted: true })[1],
        "SetTrackAudio: Mute=1"
    );
    assert_eq!(
        audacity_script(&AudacityRequest::SetSolo { track: 3, soloed: false })[1],
        "SetTrackAudio: Solo=0"
    );
    assert_eq!(
        audacity_script(&AudacityRequest::Export { path: "/tmp/mix.wav".to_string() }),
        vec!["Export2: Filename=\"/tmp/mix.wav\" NumChannels=2"]
    );
    assert_eq!(audacity_script(&AudacityRequest::AddTrack), vec!["NewMonoTrack"]);
    assert_eq!(audacity_script(&AudacityRequest::Save), vec!["Save"]);
    assert_eq!(audacity_script(&AudacityRequest::Undo), vec!["Undo"]);
}

#[test]
fn audacity_reply_bodies() {
    assert_eq!(reply_body("[{\"name\":\"a\"}]\nBatchCommand finished: OK\n"), "[{\"name\":\"a\"}]\n");
    assert_eq!(reply_body("no status"), "no status");
}

#[test]
fn error_messages() {
    let e = unsupported("fx_list");
    assert_eq!(
        e.to_string(),
        "operation not supported by this DAW: fx_list - not yet implemented for Audacity, needs verification against Audacity's scripting reference before it can be added (see AGENTS.md next steps)"
    );
    assert_eq!(DawError::NotReachable("x".to_string()).to_string(), "DAW not reachable: x");
    assert_eq!(DawError::Other("y".to_string()).to_string(), "y");
    assert_eq!(
        DawError::Timeout(std::time::Duration::from_secs(5)).to_string(),
        "operation timed out after 5s"
    );
    match reaper_only("midi_add_item") {
        DawError::Unsupported(m) => assert_eq!(m, "midi_add_item is REAPER-only; it is not available with --daw=audacity"),
        other => panic!("unexpected {other:?}"),
    }
}

#[test]
fn unsupported_message_text() {
    match unsupported("track_list") {
        DawError::Unsupported(m) => assert_eq!(
            m,
            "track_list - not yet implemented for Audacity, needs verification against Audacity's scripting reference before it can be added (see AGENTS.md next steps)"
        ),
        other => panic!("unexpected {other:?}"),
    }
    match operation_error("fx_add", "boom") {
        DawError::Other(m) => assert_eq!(m, "fx_add: boom"),
        other => panic!("unexpected {other:?}"),
    }
}

#[test]
fn audacity_describe_reports_pipe_state() {
    assert_eq!(audacity_describe(true).unwrap(), "Audacity mod-script-pipe connected");
    match audacity_describe(false) {
        Err(DawError::NotReachable(m)) => assert!(m.contains(r"\\.\pipe\ToSrvPipe")),
        other => panic!("unexpected {other:?}"),
    }
}

#[test]
fn play_state_bits() {
    assert_eq!(decode_play_state(0), PlayFlags { playing: false, paused: false, recording: false });
    assert_eq!(decode_play_state(1), PlayFlags { playing: true, paused: false, recording: false });
    assert_eq!(decode_play_state(2), PlayFlags { playing: false, paused: true, recording: false });
    assert_eq!(decode_play_state(5), PlayFlags { playing: true, paused: false, recording: true });
    assert_eq!(decode_play_state(-1), PlayFlags { playing: true, paused: true, recording: true });
}

#[test]
fn indices_and_fx_lists() {
    assert_eq!(index_or(Some(3), 0), 3);
    assert_eq!(index_or(None, -1), -1);
    assert_eq!(index_or(Some(4294967297), 0), 1);
    let fx = fx_list_from(&vec![
        FxEntry { index: Some(0), name: Some("ReaEQ".to_string()), enabled: Some(false) },
        FxEntry { index: None, name: None, enabled: None },
    ]);
    assert_eq!(fx.len(), 2);
    assert_eq!((fx[0].index, fx[0].name.as_str(), fx[0].enabled), (0, "ReaEQ", false));
    assert_eq!((fx[1].index, fx[1].name.as_str(), fx[1].enabled), (0, "", true));
}

#[test]
fn track_entries_read_with_defaults() {
    let full = track_fields(&TrackEntry {
        index: Some(2),
        name: Some("Drums".to_string()),
        mute: Some(true),
        solo: Some(false),
    });
    assert_eq!((full.index, full.name.as_str(), full.muted, full.soloed), (2, "Drums", true, false));
    let bare = track_fields(&TrackEntry { index: None, name: None, mute: None, solo: Some(true) });
    assert_eq!((bare.index, bare.name.as_str(), bare.muted, bare.soloed), (0, "", false, true));
}

#[test]
fn describe_and_render_paths() {
    assert!(describe_precheck(true).is_ok());
    assert!(matches!(describe_precheck(false), Err(DawError::NotReachable(m)) if m == "REAPER bridge heartbeat missing or stale"));
    assert_eq!(render_output_path(Some("/a.wav".to_string()), "/b.wav".to_string()), "/a.wav");
    assert_eq!(render_output_path(None, "/b.wav".to_string()), "/b.wav");
}

#[test]
fn cli_modes() {
    let args = |v: &[&str]| v.iter().map(|s| s.to_string()).collect::<Vec<String>>();
    assert_eq!(parse_cli(&args(&[])), CliMode::Serve { auto_install: true, daw: DawChoice::Reaper });
    assert_eq!(
        parse_cli(&args(&["--no-install"])),
        CliMode::Serve { auto_install: false, daw: DawChoice::Reaper }
    );
    assert_eq!(
        parse_cli(&args(&["--daw=audacity"])),
        CliMode::Serve { auto_install: true, daw: DawChoice::Audacity }
    );
    assert_eq!(
        parse_cli(&args(&["--daw=reaper", "--no-install"])),
        CliMode::Serve { auto_install: false, daw: DawChoice::Reaper }
    );
    assert_eq!(parse_cli(&args(&["--status", "--install-bridge"])), CliMode::InstallBridge);
    assert_eq!(parse_cli(&args(&["--status", "--no-install"])), CliMode::Status);
}

#[test]
fn compose_defaults() {
    let d = compose_options(None, None, None, None);
    assert_eq!((d.track_name.as_str(), d.overwrite, d.auto_instrument, d.auto_limiter), ("Composed", false, true, true));
    let g = compose_options(Some("Lead".to_string()), Some(true), Some(false), Some(false));
    assert_eq!((g.track_name.as_str(), g.overwrite, g.auto_instrument, g.auto_limiter), ("Lead", true, false, false));
}
