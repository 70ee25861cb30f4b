use shoop_egui::composite::LoopMode;
use shoop_egui::ids::{PortId, TrackId};
use shoop_egui::latency::{take_warnings, LatencyObservationState, TakeLatencyProvenanceState, WarningLevel};
use shoop_egui::loop_widget::{icon_for_state, LoopIconTint, LoopStateIcon};
use shoop_egui::new_track::{add_track_spec, piano_destinations, PianoTrack, TrackSpecTopology};
use shoop_egui::ports::{
    ApplicationPortOwner, ApplicationPortState, ConnectionPolicy, PortDataType, PortDirection,
    PortRole, TrackPortOwnerKind,
};
use shoop_egui::settings::{
    AddTrackMode, NewTrackConfiguration, ProcessorLatencyAdjustmentState,
    RecordingOffsetAdjustmentState, TrackProcessorTypeId,
};

fn configuration(mode: AddTrackMode) -> NewTrackConfiguration {
    NewTrackConfiguration {
        mode,
        audio_channels: 2,
        midi: true,
        dry_midi: false,
        processor: None,
        recording_adjustment: RecordingOffsetAdjustmentState::ManualOverride,
        recording_frames: 12,
        processor_adjustment: ProcessorLatencyAdjustmentState::Automatic,
        processor_frames: 0,
    }
}

#[test]
fn add_track_accept_emits_validated_spec() {
    let spec = add_track_spec("  Bass  ", &configuration(AddTrackMode::Regular)).unwrap();
    assert_eq!(spec.name, "Bass");
    assert_eq!(spec.topology, TrackSpecTopology::Direct { audio_channels: 2, midi: true });
    assert_eq!(spec.latency.manual_frames, 12);
    assert_eq!(spec.creation_request_id, None);
}

#[test]
fn trigger_track_has_no_audio_or_midi() {
    let spec = add_track_spec("Trigger", &configuration(AddTrackMode::Trigger)).unwrap();
    assert_eq!(spec.topology, TrackSpecTopology::Direct { audio_channels: 0, midi: false });
}

#[test]
fn dry_wet_tracks_need_a_processor() {
    assert_eq!(add_track_spec("Wet", &configuration(AddTrackMode::DryWet)), None);
    let with_processor = NewTrackConfiguration {
        processor: Some(TrackProcessorTypeId("fx".to_owned())),
        dry_midi: true,
        ..configuration(AddTrackMode::DryWet)
    };
    assert_eq!(
        add_track_spec("Wet", &with_processor).unwrap().topology,
        TrackSpecTopology::DryWet {
            dry_audio_channels: 2,
            wet_audio_channels: 2,
            dry_midi: true,
            processor_type: TrackProcessorTypeId("fx".to_owned()),
        }
    );
}

fn port(id: u64, track: TrackId, data_type: PortDataType, direction: PortDirection, role: PortRole) -> ApplicationPortState {
    ApplicationPortState {
        id: PortId::from_raw(id),
        owner: ApplicationPortOwner::Track { track_id: track, kind: TrackPortOwnerKind::Main },
        name: "port".to_owned(),
        data_type,
        direction,
        role,
        connection_policy: ConnectionPolicy::UserManaged,
        capture_latency: LatencyObservationState::unknown(),
        playback_latency: LatencyObservationState::unknown(),
    }
}

#[test]
fn piano_destination_summary_uses_monitored_track_midi_input_roles() {
    let first_id = TrackId::from_raw(1);
    let muted_id = TrackId::from_raw(2);
    let tracks = vec![
        PianoTrack { id: first_id, input_monitoring: true, port_ids: vec![PortId::from_raw(10)] },
        PianoTrack { id: muted_id, input_monitoring: false, port_ids: vec![PortId::from_raw(11)] },
    ];
    let ports = vec![
        port(10, first_id, PortDataType::Midi, PortDirection::Input, PortRole::MidiInput),
        port(11, muted_id, PortDataType::Midi, PortDirection::Output, PortRole::MidiOutput),
    ];
    assert_eq!(piano_destinations(&tracks, &ports), [first_id]);
    let foreign = vec![PianoTrack { id: muted_id, input_monitoring: true, port_ids: vec![PortId::from_raw(10)] }];
    assert!(piano_destinations(&foreign, &ports).is_empty());
}

#[test]
fn state_icons_follow_mode_emptiness_and_composite_kind() {
    assert_eq!(icon_for_state(LoopMode::Playing, true, false, false), (LoopStateIcon::Empty, LoopIconTint::Muted, false));
    assert_eq!(icon_for_state(LoopMode::Playing, false, false, true), (LoopStateIcon::Play, LoopIconTint::Foreground, false));
    assert_eq!(icon_for_state(LoopMode::PlayingDryThroughWet, false, false, false), (LoopStateIcon::Play, LoopIconTint::DryThroughWet, true));
    assert_eq!(icon_for_state(LoopMode::Stopped, false, true, false), (LoopStateIcon::RegularComposite, LoopIconTint::DarkBackground, false));
    assert_eq!(icon_for_state(LoopMode::Stopped, false, false, false), (LoopStateIcon::Stop, LoopIconTint::Muted, false));
    assert_eq!(icon_for_state(LoopMode::Replacing, false, false, false), (LoopStateIcon::Unknown, LoopIconTint::Muted, false));
}

#[test]
fn take_warnings_list_every_problem_in_order() {
    let latency = TakeLatencyProvenanceState {
        changed_during_operation: true,
        incomplete: true,
        finalizing: true,
        deferred_mode: Some(LoopMode::Playing),
        error: Some("insufficient retained margin".to_owned()),
    };
    let warnings = take_warnings(&latency);
    assert_eq!(warnings.len(), 5);
    assert_eq!(warnings[1].level, WarningLevel::Error);
    assert_eq!(warnings[2].text, "Finalizing retained postroll…");
    assert_eq!(warnings[3].text, "Transition to Playing is deferred until compensated media is ready.");
    assert_eq!(warnings[4].text, "insufficient retained margin");
    let quiet = TakeLatencyProvenanceState {
        changed_during_operation: false,
        incomplete: false,
        finalizing: false,
        deferred_mode: None,
        error: None,
    };
    assert!(take_warnings(&quiet).is_empty());
}
