use std::sync::Arc;

use shoop_egui::connection::AppIntent;
use shoop_egui::cue_output::{cue_output_choices, cue_selection_label};
use shoop_egui::details::{
    media_bounds, timeline_edit_intent, LoopDetailsState, TimelineEditTool, WaveformChannelState,
};
use shoop_egui::fx::{
    bus_fx_hover_text, bus_fx_primary_action, drive_type_control, drive_type_label,
    modulation_type_control, modulation_type_label, reverb_type_control, reverb_type_label,
    BuiltInFxControl, BuiltInFxDriveType, BuiltInFxModulationType, BuiltInFxReverbType, BusAction,
    FxLifecycle, TrackFxState,
};
use shoop_egui::ids::{HostPortId, LoopId, PortId, TrackId};
use shoop_egui::latency::{
    certainty_label, component_label, current_observation, mode_index, mode_label,
    normalized_policy, observation_range_text, range_label, selected_total, CueOutputSelection,
    LatencyCertaintyState, LatencyComponentKind, LatencyObservationState, LatencyPanel,
    LatencyPanelContext, LatencyRangeSelectionState, LatencyStatus, LatencyTrackState,
    LatencyValueMode, TrackLatencyPolicyState,
};
use shoop_egui::midi_sequence::{MidiEventState, MidiSequenceChannelState};
use shoop_egui::ports::{
    ApplicationPortOwner, ApplicationPortState, ConfirmedConnectionState, ConnectionPolicy,
    ConnectionViewState, HostPortState, PortDataType, PortDirection, PortRole, TrackPortOwnerKind,
};
use shoop_egui::settings::{
    audio_driver_config, backend_health, parse_audio_driver_kind, processor_adjustment_from_value,
    processor_adjustment_label, processor_adjustment_value, recording_adjustment_from_value,
    recording_adjustment_label, recording_adjustment_value, split_selectors, track_mode_from_value,
    track_mode_value, validate_track_default_latency, AddTrackMode, AudioDriverConfig,
    AudioDriverKind, AudioDriverState, BackendHealth, DriverSettingValues, DummyAudioDriverConfig,
    NewTrackConfiguration, ProcessorLatencyAdjustmentState, RecordingOffsetAdjustmentState,
    TrackDefaultsError, TrackProcessorTypeId,
};

#[test]
fn backend_health_requires_live_callbacks_and_distinguishes_waiting_from_failure() {
    assert_eq!(backend_health(AudioDriverState::Running, true), BackendHealth::Active);
    assert_eq!(backend_health(AudioDriverState::Running, false), BackendHealth::Waiting);
    assert_eq!(backend_health(AudioDriverState::AwaitingGesture, false), BackendHealth::Waiting);
    assert_eq!(backend_health(AudioDriverState::Failed, false), BackendHealth::Failed);
    assert_eq!(backend_health(AudioDriverState::Dummy, true), BackendHealth::Active);
    assert_eq!(backend_health(AudioDriverState::Denied, true), BackendHealth::Failed);
}

#[test]
fn driver_names_parse_and_unknown_names_are_quoted() {
    assert_eq!(parse_audio_driver_kind("cpal".to_owned()), Ok(AudioDriverKind::Cpal));
    assert_eq!(parse_audio_driver_kind("webaudio".to_owned()), Ok(AudioDriverKind::WebAudio));
    assert_eq!(
        parse_audio_driver_kind("alsa \"x\"".to_owned()),
        Err("unknown audio driver \"alsa \\\"x\\\"\"".to_owned())
    );
    for kind in [AudioDriverKind::Dummy, AudioDriverKind::Jack, AudioDriverKind::Cpal, AudioDriverKind::WebAudio] {
        assert_eq!(parse_audio_driver_kind(kind.id().to_owned()), Ok(kind));
    }
}

#[test]
fn selectors_are_trimmed_and_empty_ones_dropped() {
    assert_eq!(split_selectors(" a , b,,c ,  "), vec!["a", "b", "c"]);
    assert_eq!(split_selectors(""), Vec::<String>::new());
    assert_eq!(split_selectors("one"), vec!["one"]);
    assert_eq!(split_selectors("x y ,\tz"), vec!["x y", "z"]);
}

fn driver_values() -> DriverSettingValues {
    DriverSettingValues {
        dummy_sample_rate: 48_000,
        dummy_buffer_size: 256,
        jack_client_name: "ShoopDaLoop".to_owned(),
        cpal_client_name: "ShoopDaLoop".to_owned(),
        cpal_host: "default".to_owned(),
        cpal_output_device: "default".to_owned(),
        cpal_input_device: "default".to_owned(),
        cpal_sample_rate: 48_000,
        cpal_buffer_size: 256,
        cpal_output_channels: "all".to_owned(),
        cpal_input_channels: "all".to_owned(),
        cpal_capture_ring_frames: 8192,
        cpal_midi_inputs: "".to_owned(),
        cpal_midi_outputs: "".to_owned(),
    }
}

#[test]
fn audio_settings_keep_independent_driver_configs_and_validate_mapping() {
    let mut values = driver_values();
    let dummy = audio_driver_config(AudioDriverKind::Dummy, &values).unwrap();
    assert_eq!(dummy, AudioDriverConfig::Dummy(DummyAudioDriverConfig { sample_rate: 48_000, buffer_size: 256 }));
    values.cpal_host = "test-host".to_owned();
    values.cpal_output_device = "speakers".to_owned();
    values.cpal_input_device = "microphone".to_owned();
    values.cpal_sample_rate = 44_100;
    values.cpal_midi_inputs = "keys, pads".to_owned();
    let AudioDriverConfig::Cpal(cpal) = audio_driver_config(AudioDriverKind::Cpal, &values).unwrap() else {
        unreachable!();
    };
    assert_eq!(cpal.host, "test-host");
    assert_eq!(cpal.sample_rate, 44_100);
    assert_eq!(cpal.midi_inputs, vec!["keys", "pads"]);
    assert_eq!(audio_driver_config(AudioDriverKind::Dummy, &values).unwrap(), dummy);
    values.cpal_host = "  ".to_owned();
    assert_eq!(
        audio_driver_config(AudioDriverKind::Cpal, &values),
        Err("CPAL selectors and capture ring must be non-empty".to_owned())
    );
    values.jack_client_name = " ".to_owned();
    assert_eq!(
        audio_driver_config(AudioDriverKind::Jack, &values),
        Err("JACK client name must not be empty".to_owned())
    );
    assert_eq!(audio_driver_config(AudioDriverKind::WebAudio, &values), Ok(AudioDriverConfig::WebAudio));
}

#[test]
fn complete_track_defaults_round_trip_into_a_new_dialog_draft() {
    let config = NewTrackConfiguration {
        mode: AddTrackMode::DryWet,
        audio_channels: 2,
        midi: true,
        dry_midi: true,
        processor: Some(TrackProcessorTypeId("builtin_fx".to_owned())),
        recording_adjustment: RecordingOffsetAdjustmentState::AutomaticPlusTrim,
        recording_frames: -12,
        processor_adjustment: ProcessorLatencyAdjustmentState::ManualOverride,
        processor_frames: 64,
    };
    let values = config.to_setting_values();
    assert_eq!(values.mode, "dry_wet");
    assert_eq!(values.processor, "builtin_fx");
    assert_eq!(NewTrackConfiguration::from_setting_values(&values), Some(config));
    let mut unknown = values.clone();
    unknown.mode = "sideways".to_owned();
    assert_eq!(NewTrackConfiguration::from_setting_values(&unknown), None);
    let regular = NewTrackConfiguration { processor: None, mode: AddTrackMode::Regular, ..NewTrackConfiguration::from_setting_values(&values).unwrap() };
    assert_eq!(NewTrackConfiguration::from_setting_values(&regular.to_setting_values()), Some(regular));
}

#[test]
fn setting_values_and_labels_of_track_choices() {
    for mode in [AddTrackMode::Regular, AddTrackMode::Trigger, AddTrackMode::DryWet] {
        assert_eq!(track_mode_from_value(track_mode_value(mode)), Some(mode));
    }
    for value in [
        RecordingOffsetAdjustmentState::Automatic,
        RecordingOffsetAdjustmentState::ManualOverride,
        RecordingOffsetAdjustmentState::AutomaticPlusTrim,
    ] {
        assert_eq!(recording_adjustment_from_value(recording_adjustment_value(value)), Some(value));
    }
    for value in [
        ProcessorLatencyAdjustmentState::Automatic,
        ProcessorLatencyAdjustmentState::ManualOverride,
        ProcessorLatencyAdjustmentState::AutomaticPlusTrim,
    ] {
        assert_eq!(processor_adjustment_from_value(processor_adjustment_value(value)), Some(value));
    }
    assert_eq!(track_mode_from_value("bogus"), None);
    assert_eq!(processor_adjustment_value(ProcessorLatencyAdjustmentState::ManualOverride), "manual");
    assert_eq!(processor_adjustment_label(ProcessorLatencyAdjustmentState::AutomaticPlusTrim), "Automatic + trim");
    assert_eq!(recording_adjustment_label(RecordingOffsetAdjustmentState::Automatic), "Automatic");
}

#[test]
fn manual_processor_track_defaults_reject_negative_frames_but_trim_accepts_them() {
    assert_eq!(
        validate_track_default_latency(Some("manual"), Some(-1), Some("regular"), Some("")),
        Err(TrackDefaultsError::InvalidValue("tracks.new.default_processor_frames".to_owned()))
    );
    assert_eq!(
        validate_track_default_latency(Some("automatic_plus_trim"), Some(-1), Some("regular"), Some("")),
        Ok(())
    );
    assert_eq!(
        validate_track_default_latency(Some("automatic_plus_trim"), Some(-1), Some("dry_wet"), Some("")),
        Err(TrackDefaultsError::InvalidValue("tracks.new.default_processor".to_owned()))
    );
    assert_eq!(
        validate_track_default_latency(Some("automatic_plus_trim"), Some(-1), Some("dry_wet"), Some("processor")),
        Ok(())
    );
    assert_eq!(
        validate_track_default_latency(None, Some(0), Some("regular"), Some("")),
        Err(TrackDefaultsError::MissingValue("tracks.new.default_processor_adjustment".to_owned()))
    );
    assert_eq!(
        validate_track_default_latency(Some("manual"), Some(0), None, Some("")),
        Err(TrackDefaultsError::MissingValue("tracks.new.default_mode".to_owned()))
    );
}

#[test]
fn selector_controls_emit_only_real_typed_changes() {
    assert_eq!(
        drive_type_control(BuiltInFxDriveType::Saturation, BuiltInFxDriveType::Fuzz),
        Some(BuiltInFxControl::SetDriveType(BuiltInFxDriveType::Fuzz))
    );
    assert_eq!(
        modulation_type_control(BuiltInFxModulationType::Tremolo, BuiltInFxModulationType::Phaser),
        Some(BuiltInFxControl::SetModulationType(BuiltInFxModulationType::Phaser))
    );
    assert_eq!(
        reverb_type_control(BuiltInFxReverbType::Room, BuiltInFxReverbType::Plate),
        Some(BuiltInFxControl::SetReverbType(BuiltInFxReverbType::Plate))
    );
    assert_eq!(reverb_type_control(BuiltInFxReverbType::Room, BuiltInFxReverbType::Room), None);
    assert_eq!(drive_type_control(BuiltInFxDriveType::Fuzz, BuiltInFxDriveType::Fuzz), None);
    assert_eq!(drive_type_label(BuiltInFxDriveType::Overdrive), "Overdrive");
    assert_eq!(modulation_type_label(BuiltInFxModulationType::Flanger), "Flanger");
    assert_eq!(reverb_type_label(BuiltInFxReverbType::Hall), "Hall");
}

fn fx(lifecycle: FxLifecycle) -> TrackFxState {
    TrackFxState {
        processor_type: TrackProcessorTypeId("builtin_fx".to_owned()),
        lifecycle,
        active: true,
        visible: false,
        status_summary: None,
        crash_summary: None,
    }
}

#[test]
fn fx_slot_hover_names_type_lifecycle_and_first_summary() {
    assert_eq!(bus_fx_hover_text(&fx(FxLifecycle::Running)), "builtin_fx: Running");
    let crashed = TrackFxState { crash_summary: Some("segfault".to_owned()), ..fx(FxLifecycle::Crashed) };
    assert_eq!(bus_fx_hover_text(&crashed), "builtin_fx: Crashed — segfault");
    let both = TrackFxState { status_summary: Some("slow".to_owned()), ..crashed.clone() };
    assert_eq!(bus_fx_hover_text(&both), "builtin_fx: Crashed — slow");
}

#[test]
fn fx_button_toggles_visibility_or_recovers_a_failed_effect() {
    assert_eq!(bus_fx_primary_action(&fx(FxLifecycle::Running)), BusAction::FxVisibilityChanged(true));
    let shown = TrackFxState { visible: true, ..fx(FxLifecycle::Degraded) };
    assert_eq!(bus_fx_primary_action(&shown), BusAction::FxVisibilityChanged(false));
    assert_eq!(bus_fx_primary_action(&fx(FxLifecycle::Crashed)), BusAction::FxToggleOrRecover);
    assert_eq!(bus_fx_primary_action(&fx(FxLifecycle::Unavailable)), BusAction::FxToggleOrRecover);
}

fn observation(minimum: u32, maximum: u32, certainty: LatencyCertaintyState, revision: u64) -> LatencyObservationState {
    LatencyObservationState {
        minimum_frames: Some(minimum),
        maximum_frames: Some(maximum),
        certainty,
        sample_rate: 48_000,
        revision,
    }
}

fn runtime() -> (LatencyStatus, ConnectionViewState) {
    let output = PortId::from_raw(2);
    let host = HostPortId::new("system:playback_1");
    let status = LatencyStatus { sample_rate: 48_000, backend_capture_latency: LatencyObservationState::unknown() };
    let owner = ApplicationPortOwner::Track { track_id: TrackId::from_raw(7), kind: TrackPortOwnerKind::Main };
    let connections = ConnectionViewState {
        revision: 1,
        loading: false,
        backend_available: true,
        application_ports: vec![
            ApplicationPortState {
                id: PortId::from_raw(1),
                owner,
                name: "Input".to_owned(),
                data_type: PortDataType::Audio,
                direction: PortDirection::Input,
                role: PortRole::AudioInput,
                connection_policy: ConnectionPolicy::UserManaged,
                capture_latency: observation(8, 12, LatencyCertaintyState::Range, 3),
                playback_latency: LatencyObservationState::unknown(),
            },
            ApplicationPortState {
                id: output,
                owner,
                name: "Output".to_owned(),
                data_type: PortDataType::Audio,
                direction: PortDirection::Output,
                role: PortRole::AudioOutput,
                connection_policy: ConnectionPolicy::UserManaged,
                capture_latency: LatencyObservationState::unknown(),
                playback_latency: observation(5, 5, LatencyCertaintyState::Exact, 4),
            },
        ],
        host_ports: vec![HostPortState {
            id: host.clone(),
            name: "Speakers".to_owned(),
            data_type: PortDataType::Audio,
            direction: PortDirection::Input,
        }],
        confirmed_links: vec![ConfirmedConnectionState { application_port_id: output, host_port_id: host }],
        pending_links: Vec::new(),
        errors: Vec::new(),
    };
    (status, connections)
}

fn latency_track() -> LatencyTrackState {
    LatencyTrackState {
        id: TrackId::from_raw(7),
        port_ids: vec![PortId::from_raw(1), PortId::from_raw(2)],
        fx_latency: None,
        latency_policy: TrackLatencyPolicyState {
            revision: 0,
            cue_followed: false,
            cue_output: None,
            pending: false,
            components: Vec::new(),
        },
    }
}

#[test]
fn policy_normalization_and_totals_cover_modes_ranges_cue_and_no_backend() {
    let (status, connections) = runtime();
    let mut track = latency_track();
    let mut policy = normalized_policy(&track.latency_policy, 16);
    assert_eq!(policy.components.len(), 5);
    let capture = policy.components.iter_mut().find(|c| c.kind == LatencyComponentKind::ExternalCapture).unwrap();
    capture.enabled = true;
    capture.range_selection = LatencyRangeSelectionState::Midpoint;
    let manual = policy.components.iter_mut().find(|c| c.kind == LatencyComponentKind::Manual).unwrap();
    manual.enabled = true;
    manual.value_mode = LatencyValueMode::AutomaticPlusTrim(2);
    track.latency_policy = policy.clone();
    let context = LatencyPanelContext { status: &status, connections: &connections };
    assert_eq!(selected_total(&policy, &track, Some(&context)), None);
    policy.components.iter_mut().find(|c| c.kind == LatencyComponentKind::Manual).unwrap().value_mode =
        LatencyValueMode::Manual(2);
    assert_eq!(selected_total(&policy, &track, Some(&context)), Some(12));
    assert_eq!(
        current_observation(&track, Some(&context), LatencyComponentKind::ExternalCapture).maximum_frames,
        Some(12)
    );
    assert_eq!(
        current_observation(&track, None, LatencyComponentKind::ExternalCapture),
        LatencyObservationState::unknown()
    );
    assert_eq!(normalized_policy(&track.latency_policy, 3).components.len(), 3);
}

#[test]
fn panel_renders_cue_identity_warnings_and_no_backend_state_without_hover() {
    let (status, connections) = runtime();
    let context = LatencyPanelContext { status: &status, connections: &connections };
    let host = CueOutputSelection::HostPort(HostPortId::new("system:playback_1"));
    assert_eq!(cue_selection_label(Some(&host), Some(&context)), "Host: Speakers");
    let missing = CueOutputSelection::ApplicationPort(PortId::from_raw(999));
    assert_eq!(cue_selection_label(Some(&missing), Some(&context)), "Missing application port 999");
    assert_eq!(cue_selection_label(Some(&host), None), "Missing host port system:playback_1");
    assert_eq!(cue_selection_label(None, Some(&context)), "No selected cue output");
    let mut panel = LatencyPanel::new();
    assert!(!panel.shown());
    panel.open();
    assert!(panel.shown());
    panel.set_window_open(false);
    assert!(!panel.shown());
}

#[test]
fn cue_choices_list_track_outputs_and_their_linked_host_ports() {
    let (status, connections) = runtime();
    let context = LatencyPanelContext { status: &status, connections: &connections };
    let choices = cue_output_choices(TrackId::from_raw(7), Some(&context));
    let labels: Vec<&str> = choices.iter().map(|c| c.label.as_str()).collect();
    assert_eq!(labels, ["No selected cue output", "Application: Output", "Host: Speakers"]);
    assert_eq!(choices[1].selection, Some(CueOutputSelection::ApplicationPort(PortId::from_raw(2))));
    assert_eq!(
        choices[2].selection,
        Some(CueOutputSelection::HostPort(HostPortId::new("system:playback_1")))
    );
    assert_eq!(cue_output_choices(TrackId::from_raw(8), Some(&context)).len(), 1);
    assert_eq!(cue_output_choices(TrackId::from_raw(7), None).len(), 1);
}

#[test]
fn snapshot_warning_text_and_frame_units_are_authoritative() {
    assert_eq!(observation_range_text(Some(3), Some(5)), "3..5 frames");
    assert_eq!(observation_range_text(Some(4), Some(4)), "4 frames");
    assert_eq!(observation_range_text(None, Some(4)), "unknown");
    assert_eq!(certainty_label(LatencyCertaintyState::ManualOnly), "manual only");
    assert_eq!(component_label(LatencyComponentKind::Processor), "Processor / FX");
    assert_eq!(mode_label(mode_index(LatencyValueMode::AutomaticPlusTrim(3))), "Auto + trim");
    assert_eq!(mode_label(mode_index(LatencyValueMode::Manual(3))), "Manual");
    assert_eq!(mode_label(9), "Automatic");
    assert_eq!(range_label(LatencyRangeSelectionState::Midpoint), "Midpoint");
}

fn waveform(start_offset: i64, preplay_samples: u64, loop_length: u64, sample_count: u64) -> WaveformChannelState {
    WaveformChannelState { sample_count, start_offset, preplay_samples, loop_length }
}

#[test]
fn timeline_tools_create_bounded_loop_wide_edits() {
    let details = LoopDetailsState {
        loop_id: LoopId::from_raw(9),
        channels: vec![waveform(20, 0, 0, 0)],
        midi_channels: Vec::new(),
    };
    assert_eq!(
        timeline_edit_intent(&details, TimelineEditTool::LoopStart, -5),
        AppIntent::SetLoopTimeline { loop_id: details.loop_id, start_offset: Some(-5), preplay_samples: None, loop_length: None }
    );
    assert_eq!(
        timeline_edit_intent(&details, TimelineEditTool::PreplayStart, 8),
        AppIntent::SetLoopTimeline { loop_id: details.loop_id, start_offset: None, preplay_samples: Some(12), loop_length: None }
    );
    assert_eq!(
        timeline_edit_intent(&details, TimelineEditTool::LoopEnd, 52),
        AppIntent::SetLoopTimeline { loop_id: details.loop_id, start_offset: None, preplay_samples: None, loop_length: Some(32) }
    );
    assert_eq!(
        timeline_edit_intent(&details, TimelineEditTool::LoopEnd, 10),
        AppIntent::SetLoopTimeline { loop_id: details.loop_id, start_offset: None, preplay_samples: None, loop_length: Some(0) }
    );
    let extreme = LoopDetailsState { channels: vec![waveform(i64::MAX, 0, 0, 0)], ..details.clone() };
    assert_eq!(
        timeline_edit_intent(&extreme, TimelineEditTool::PreplayStart, i64::MIN),
        AppIntent::SetLoopTimeline { loop_id: details.loop_id, start_offset: None, preplay_samples: Some(i64::MAX as u64), loop_length: None }
    );
}

fn midi_channel(start_offset: i64, preplay_samples: u64, loop_length: u64, frames: &[u32]) -> MidiSequenceChannelState {
    MidiSequenceChannelState {
        label: "MIDI".to_owned(),
        events: Arc::new(frames.iter().map(|frame| MidiEventState { frame: *frame, data: vec![0x90, 60, 1] }).collect()),
        start_offset,
        loop_length,
        preplay_samples,
        played_sample: None,
    }
}

#[test]
fn mixed_media_uses_one_bounded_frame_view() {
    let empty = LoopDetailsState { loop_id: LoopId::from_raw(1), channels: Vec::new(), midi_channels: Vec::new() };
    assert_eq!(media_bounds(&empty), (0, 1));
    let mixed = LoopDetailsState {
        loop_id: LoopId::from_raw(1),
        channels: vec![waveform(10, 30, 100, 90)],
        midi_channels: vec![midi_channel(0, 0, 50, &[300, 20])],
    };
    assert_eq!(media_bounds(&mixed), (-20, 300));
    let midi_first = LoopDetailsState {
        loop_id: LoopId::from_raw(1),
        channels: Vec::new(),
        midi_channels: vec![midi_channel(7, 0, 4, &[])],
    };
    assert_eq!(timeline_edit_intent(&midi_first, TimelineEditTool::LoopEnd, 10),
        AppIntent::SetLoopTimeline { loop_id: LoopId::from_raw(1), start_offset: None, preplay_samples: None, loop_length: Some(3) });
    assert_eq!(media_bounds(&midi_first), (0, 11));
}
