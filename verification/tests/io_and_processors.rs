use shoop_egui::click_track::{
    check_click_choices, ClickChoiceProblem, ClickSoundDescriptor, ClickSoundSelection, ClickTrackKind,
};
use shoop_egui::connection::{ConnectionDialog, ConnectionFilters, ConnectionScope, TrackFilter};
use shoop_egui::ids::TrackId;
use shoop_egui::io_task::{
    audio_channel_selection_action, channel_mapping_draft, channel_selection_step, io_task_action,
    smallest_unused_channel, ChannelMappingRequest, ChannelSelectionEvent, ChannelSelectionRequest,
    IoTaskAction, IoTaskButton, IoTaskStatus, IoTaskView, TaskId,
};
use shoop_egui::composite::{CompositeKind, LoopMode};
use shoop_egui::ids::LoopId;
use shoop_egui::loop_widget::LoopState;
use shoop_egui::settings::{
    AddTrackMode, NewTrackConfiguration, ProcessorLatencyAdjustmentState, RecordingOffsetAdjustmentState,
    TrackProcessorTypeId,
};
use shoop_egui::track_processor::{
    midi_control, reconcile_new_track_configuration, set_midi_checkbox, TrackProcessorDescriptor,
    TrackProcessorMidiPolicy,
};

fn processor(id: &str, available: bool, midi: TrackProcessorMidiPolicy) -> TrackProcessorDescriptor {
    TrackProcessorDescriptor { id: TrackProcessorTypeId(id.to_owned()), available, midi }
}

fn configuration(mode: AddTrackMode, processor: Option<&str>) -> NewTrackConfiguration {
    NewTrackConfiguration {
        mode,
        audio_channels: 2,
        midi: false,
        dry_midi: false,
        processor: processor.map(|id| TrackProcessorTypeId(id.to_owned())),
        recording_adjustment: RecordingOffsetAdjustmentState::Automatic,
        recording_frames: 0,
        processor_adjustment: ProcessorLatencyAdjustmentState::Automatic,
        processor_frames: 0,
    }
}

fn catalog() -> Vec<TrackProcessorDescriptor> {
    vec![
        processor("future_browser_fx", false, TrackProcessorMidiPolicy::Optional),
        processor("builtin_fx", true, TrackProcessorMidiPolicy::Unsupported),
        processor("oxisynth", true, TrackProcessorMidiPolicy::Required),
        processor("sampler", true, TrackProcessorMidiPolicy::Optional),
    ]
}

#[test]
fn dry_wet_without_processor_takes_the_first_available_one() {
    let mut config = configuration(AddTrackMode::DryWet, None);
    config.dry_midi = true;
    reconcile_new_track_configuration(&mut config, &catalog());
    assert_eq!(config.processor, Some(TrackProcessorTypeId("builtin_fx".to_owned())));
    assert!(!config.dry_midi);
    assert_eq!(config.audio_channels, 2);
}

#[test]
fn dry_wet_with_unavailable_processor_takes_the_first_available_one() {
    let mut config = configuration(AddTrackMode::DryWet, Some("future_browser_fx"));
    reconcile_new_track_configuration(&mut config, &catalog());
    assert_eq!(config.processor, Some(TrackProcessorTypeId("builtin_fx".to_owned())));
    let mut unknown = configuration(AddTrackMode::DryWet, Some("gone"));
    reconcile_new_track_configuration(&mut unknown, &catalog());
    assert_eq!(unknown.processor, Some(TrackProcessorTypeId("builtin_fx".to_owned())));
}

#[test]
fn dry_wet_without_any_available_processor_has_none() {
    let mut config = configuration(AddTrackMode::DryWet, Some("future_browser_fx"));
    config.dry_midi = true;
    let offered = vec![processor("future_browser_fx", false, TrackProcessorMidiPolicy::Optional)];
    reconcile_new_track_configuration(&mut config, &offered);
    assert_eq!(config.processor, None);
    assert!(config.dry_midi);
    assert_eq!(midi_control(&config, &offered), (false, true, false));
}

#[test]
fn processor_midi_policy_forces_or_keeps_dry_midi() {
    let mut required = configuration(AddTrackMode::DryWet, Some("oxisynth"));
    reconcile_new_track_configuration(&mut required, &catalog());
    assert_eq!(required.processor, Some(TrackProcessorTypeId("oxisynth".to_owned())));
    assert!(required.dry_midi);
    assert_eq!(midi_control(&required, &catalog()), (true, true, false));

    let mut optional = configuration(AddTrackMode::DryWet, Some("sampler"));
    reconcile_new_track_configuration(&mut optional, &catalog());
    assert!(!optional.dry_midi);
    assert_eq!(midi_control(&optional, &catalog()), (true, false, true));
    optional.dry_midi = true;
    reconcile_new_track_configuration(&mut optional, &catalog());
    assert!(optional.dry_midi);

    let mut unsupported = configuration(AddTrackMode::DryWet, Some("builtin_fx"));
    unsupported.dry_midi = true;
    reconcile_new_track_configuration(&mut unsupported, &catalog());
    assert!(!unsupported.dry_midi);
    assert_eq!(midi_control(&unsupported, &catalog()), (false, false, false));
}

#[test]
fn other_modes_keep_their_processor_and_midi() {
    let mut regular = configuration(AddTrackMode::Regular, Some("future_browser_fx"));
    regular.midi = true;
    regular.dry_midi = true;
    reconcile_new_track_configuration(&mut regular, &catalog());
    assert_eq!(regular.processor, Some(TrackProcessorTypeId("future_browser_fx".to_owned())));
    assert!(regular.dry_midi);
    assert_eq!(midi_control(&regular, &catalog()), (true, true, true));

    let trigger = configuration(AddTrackMode::Trigger, None);
    assert_eq!(midi_control(&trigger, &catalog()), (false, false, false));
}

#[test]
fn midi_checkbox_writes_the_field_of_the_mode() {
    let mut regular = configuration(AddTrackMode::Regular, None);
    set_midi_checkbox(&mut regular, true);
    assert!(regular.midi && !regular.dry_midi);
    let mut dry_wet = configuration(AddTrackMode::DryWet, Some("sampler"));
    set_midi_checkbox(&mut dry_wet, true);
    assert!(dry_wet.dry_midi && !dry_wet.midi);
    let mut trigger = configuration(AddTrackMode::Trigger, None);
    set_midi_checkbox(&mut trigger, true);
    assert!(!trigger.midi && !trigger.dry_midi);
}

#[test]
fn mapping_draft_resets_when_its_length_differs() {
    let default_mapping = vec![0, 1];
    assert_eq!(channel_mapping_draft(None, &default_mapping, 2), vec![0, 1]);
    assert_eq!(channel_mapping_draft(Some(vec![1, 1]), &default_mapping, 2), vec![1, 1]);
    assert_eq!(channel_mapping_draft(Some(vec![1]), &default_mapping, 2), vec![0, 1]);
}

#[test]
fn selection_keeps_only_existing_channels_and_edits_in_order() {
    let mut draft = vec![3, 1, 0];
    channel_selection_step(&mut draft, 2, ChannelSelectionEvent::Refresh);
    assert_eq!(draft, vec![1, 0]);
    channel_selection_step(&mut draft, 2, ChannelSelectionEvent::MoveDown(0));
    assert_eq!(draft, vec![0, 1]);
    channel_selection_step(&mut draft, 2, ChannelSelectionEvent::MoveUp(1));
    assert_eq!(draft, vec![1, 0]);
    channel_selection_step(&mut draft, 2, ChannelSelectionEvent::MoveUp(0));
    assert_eq!(draft, vec![1, 0]);
    channel_selection_step(&mut draft, 2, ChannelSelectionEvent::MoveDown(1));
    assert_eq!(draft, vec![1, 0]);
    channel_selection_step(&mut draft, 2, ChannelSelectionEvent::Remove(0));
    assert_eq!(draft, vec![0]);
    channel_selection_step(&mut draft, 2, ChannelSelectionEvent::Remove(5));
    assert_eq!(draft, vec![0]);
}

#[test]
fn add_offers_the_smallest_unused_channel() {
    assert_eq!(smallest_unused_channel(&vec![0, 2], 4), Some(1));
    assert_eq!(smallest_unused_channel(&vec![1, 0], 2), None);
    let mut draft = vec![2];
    channel_selection_step(&mut draft, 3, ChannelSelectionEvent::Add);
    assert_eq!(draft, vec![2, 0]);
    channel_selection_step(&mut draft, 3, ChannelSelectionEvent::Add);
    assert_eq!(draft, vec![2, 0, 1]);
    channel_selection_step(&mut draft, 3, ChannelSelectionEvent::Add);
    assert_eq!(draft, vec![2, 0, 1]);
}

#[test]
fn choosing_a_channel_skips_ones_used_elsewhere() {
    let mut draft = vec![0, 1];
    channel_selection_step(&mut draft, 3, ChannelSelectionEvent::Choose { index: 0, channel: 1 });
    assert_eq!(draft, vec![0, 1]);
    channel_selection_step(&mut draft, 3, ChannelSelectionEvent::Choose { index: 0, channel: 2 });
    assert_eq!(draft, vec![2, 1]);
    channel_selection_step(&mut draft, 3, ChannelSelectionEvent::Choose { index: 1, channel: 7 });
    assert_eq!(draft, vec![2, 1]);
}

fn task(status: IoTaskStatus) -> IoTaskView {
    IoTaskView {
        id: TaskId::from_raw(19),
        status,
        audio_channel_mapping: None,
        audio_channel_selection: None,
        sample_rate_warning: false,
    }
}

#[test]
fn ordered_audio_export_selection_emits_the_task_scoped_confirmation() {
    let task_id = TaskId::from_raw(19);
    assert_eq!(
        audio_channel_selection_action(task_id, &vec![1, 0]),
        IoTaskAction::ConfirmAudioChannelSelection { task_id, channels: vec![1, 0] }
    );
    let mut export = task(IoTaskStatus::AwaitingChannelSelection);
    export.audio_channel_selection =
        Some(ChannelSelectionRequest { available_channels: 2, default_selection: vec![1, 0] });
    assert_eq!(
        io_task_action(&export, &vec![1, 0], IoTaskButton::Confirm),
        Some(IoTaskAction::ConfirmAudioChannelSelection { task_id, channels: vec![1, 0] })
    );
    assert_eq!(io_task_action(&export, &vec![], IoTaskButton::Confirm), None);
    assert_eq!(
        io_task_action(&export, &vec![], IoTaskButton::Cancel),
        Some(IoTaskAction::CancelIoTask { task_id })
    );
}

#[test]
fn io_dialog_answers_mapping_resampling_and_running_tasks() {
    let task_id = TaskId::from_raw(19);
    let mut import = task(IoTaskStatus::Running);
    import.audio_channel_mapping =
        Some(ChannelMappingRequest { destination_channels: 2, source_channels: 2, default_mapping: vec![0, 1] });
    assert_eq!(
        io_task_action(&import, &vec![1, 0], IoTaskButton::Confirm),
        Some(IoTaskAction::ConfirmAudioChannelMapping { task_id, source_for_destination: vec![1, 0] })
    );

    let mut resample = task(IoTaskStatus::Running);
    resample.sample_rate_warning = true;
    assert_eq!(
        io_task_action(&resample, &vec![], IoTaskButton::Confirm),
        Some(IoTaskAction::ConfirmSampleRateConversion { task_id, accept: true })
    );
    assert_eq!(
        io_task_action(&resample, &vec![], IoTaskButton::Cancel),
        Some(IoTaskAction::ConfirmSampleRateConversion { task_id, accept: false })
    );

    let running = task(IoTaskStatus::Running);
    assert_eq!(io_task_action(&running, &vec![], IoTaskButton::Cancel), Some(IoTaskAction::CancelIoTask { task_id }));
    assert_eq!(io_task_action(&running, &vec![], IoTaskButton::Confirm), None);
    assert_eq!(io_task_action(&task(IoTaskStatus::Failed), &vec![], IoTaskButton::Cancel), None);

    let mut done = import.clone();
    done.status = IoTaskStatus::Completed;
    assert_eq!(io_task_action(&done, &vec![1, 0], IoTaskButton::Confirm), None);
    done.status = IoTaskStatus::Cancelled;
    assert_eq!(io_task_action(&done, &vec![1, 0], IoTaskButton::Cancel), None);
}

#[test]
fn track_filter_compares_and_lists_tracks_as_a_set() {
    let a = ConnectionFilters {
        audio: true,
        midi: true,
        tracks: TrackFilter::Selected(vec![TrackId::from_raw(2), TrackId::from_raw(1)]),
    };
    let b = ConnectionFilters {
        audio: true,
        midi: true,
        tracks: TrackFilter::Selected(vec![TrackId::from_raw(1), TrackId::from_raw(2), TrackId::from_raw(1)]),
    };
    let c = ConnectionFilters { audio: true, midi: true, tracks: TrackFilter::Selected(vec![TrackId::from_raw(1)]) };
    assert!(a.same_as(&b));
    assert!(!a.same_as(&c));

    let mut dialog = ConnectionDialog::new();
    dialog.open(ConnectionScope::AllTracks);
    dialog.toggle_track_filter(TrackId::from_raw(5));
    dialog.toggle_track_filter(TrackId::from_raw(3));
    dialog.toggle_track_filter(TrackId::from_raw(4));
    assert_eq!(
        dialog.selected_tracks(),
        Some(vec![TrackId::from_raw(3), TrackId::from_raw(4), TrackId::from_raw(5)])
    );
    dialog.toggle_track_filter(TrackId::from_raw(4));
    assert_eq!(dialog.selected_tracks(), Some(vec![TrackId::from_raw(3), TrackId::from_raw(5)]));
    dialog.toggle_track_filter(TrackId::from_raw(3));
    dialog.toggle_track_filter(TrackId::from_raw(5));
    assert_eq!(dialog.selected_tracks(), None);
}

fn target(has_audio: bool, has_midi: bool) -> LoopState {
    LoopState {
        id: LoopId::from_raw(1),
        name: "loop".to_owned(),
        mode: LoopMode::Stopped,
        length_frames: 48_000,
        has_audio,
        has_midi,
        empty: false,
        selected: false,
        targeted: false,
        composite_kind: CompositeKind::NotComposite,
        selected_composite_kind: CompositeKind::NotComposite,
        next_mode: LoopMode::Stopped,
        next_transition_delay: None,
        sync: false,
        play_after_record: false,
        has_recorded_fx_state: false,
    }
}

#[test]
fn click_choices_are_checked_by_kind() {
    let sounds = vec![ClickSoundDescriptor { id: "click".to_owned(), name: "Click".to_owned() }];
    let both = target(true, true);
    let audio = ClickSoundSelection {
        kind: ClickTrackKind::Audio,
        primary_sound_id: "click".to_owned(),
        secondary_sound_id: None,
    };
    assert_eq!(check_click_choices(&audio, 1, &both, &sounds, 4), Ok(()));
    assert_eq!(check_click_choices(&audio, 4, &both, &sounds, 4), Err(ClickChoiceProblem::SecondaryCountTooLarge));
    let missing = ClickSoundSelection { secondary_sound_id: Some("bell".to_owned()), ..audio.clone() };
    assert_eq!(
        check_click_choices(&missing, 1, &both, &sounds, 4),
        Err(ClickChoiceProblem::SecondaryClickUnavailable)
    );
    let no_audio = target(false, false);
    assert_eq!(check_click_choices(&audio, 1, &no_audio, &sounds, 4), Err(ClickChoiceProblem::NoAudioChannels));
    let midi = ClickSoundSelection { kind: ClickTrackKind::Midi, ..audio.clone() };
    assert_eq!(check_click_choices(&midi, 9, &no_audio, &sounds, 4), Err(ClickChoiceProblem::NoMidiChannels));
    assert_eq!(ClickChoiceProblem::NoMidiChannels.message(), "The target loop has no MIDI channels");
}
