use std::sync::Arc;

use shoop_egui::app_model::GlobalControlState;
use shoop_egui::click_track::{
    fill_disabled_reason, find_loop, reconcile_draft, ClickSoundDescriptor, ClickSoundSelection,
    ClickTrackKind,
};
use shoop_egui::composite::{
    event_label, initial_force_length, pack_swimlanes, script_mode_key, script_mode_label, timeline_cycles, CompositeDetails,
    CompositeEventDetails, CompositeKind, CompositeTrackDetails, LoopMode,
};
use shoop_egui::ids::{LoopId, TrackId};
use shoop_egui::loop_widget::{
    action_timing, action_tooltip, can_convert_to_composite, can_generate_click_track,
    generated_loop_name, loop_border, LoopBorder, LoopState,
};
use shoop_egui::midi_sequence::{
    note_spans, MidiEventState, MidiNoteSpan, MidiSequenceChannelState, MidiSequenceWidget,
};
use shoop_egui::optimistic_value::OptimisticValue;

fn event(loop_id: u64, track_id: u64, start_frame: u64, end_frame: u64) -> CompositeEventDetails {
    CompositeEventDetails {
        instance_id: 0,
        loop_id: LoopId::from_raw(loop_id),
        loop_name: format!("Loop {loop_id}"),
        track_id: TrackId::from_raw(track_id),
        start_frame,
        end_frame,
        loop_mode: LoopMode::Stopped,
        mode: None,
        forced_n_cycles: None,
    }
}

fn details(events: Vec<CompositeEventDetails>) -> CompositeDetails {
    CompositeDetails {
        cycle_length_frames: 100,
        timeline_length_frames: events.iter().map(|event| event.end_frame).max().unwrap_or(0),
        tracks: vec![
            CompositeTrackDetails { id: TrackId::from_raw(1), name: "One".to_owned() },
            CompositeTrackDetails { id: TrackId::from_raw(2), name: "Two".to_owned() },
        ],
        events,
    }
}

#[test]
fn overlap_containment_equal_starts_and_touching_edges_pack_deterministically() {
    let state = details(vec![
        event(4, 1, 20, 40),
        event(1, 1, 0, 100),
        event(3, 1, 100, 120),
        event(2, 1, 0, 50),
        event(5, 2, 10, 20),
    ]);
    let first = pack_swimlanes(&state);
    let second = pack_swimlanes(&state);
    assert_eq!(first, second);
    assert_eq!(first[0].lane_count, 3);
    assert_eq!(first[1].lane_count, 1);
    let lanes = first[0]
        .events
        .iter()
        .map(|packed| (state.events[packed.event_index].loop_id.raw(), packed.lane))
        .collect::<Vec<_>>();
    assert_eq!(lanes, [(2, 0), (1, 1), (4, 2), (3, 0)]);
}

#[test]
fn independent_duplicate_spans_get_separate_lanes_and_empty_tracks_keep_one() {
    let state = details(vec![event(1, 1, 0, 10), event(1, 1, 0, 10)]);
    let packed = pack_swimlanes(&state);
    assert_eq!(packed[0].lane_count, 2);
    assert_eq!(packed[1].lane_count, 1);
}

#[test]
fn packed_lanes_never_overlap_and_follow_track_rows() {
    let state = details(vec![
        event(1, 2, 0, 30),
        event(2, 2, 10, 40),
        event(3, 2, 30, 50),
        event(4, 1, 5, 6),
        event(5, 3, 0, 10),
    ]);
    let packed = pack_swimlanes(&state);
    assert_eq!(packed.len(), 2);
    assert_eq!(packed[0].track_id, TrackId::from_raw(1));
    assert_eq!(packed[1].track_id, TrackId::from_raw(2));
    assert_eq!(packed[1].lane_count, 2);
    let lanes = packed[1].events.iter().map(|p| (p.event_index, p.lane)).collect::<Vec<_>>();
    assert_eq!(lanes, [(0, 0), (1, 1), (2, 0)]);
    for a in &packed[1].events {
        for b in &packed[1].events {
            if a.event_index != b.event_index && a.lane == b.lane {
                let (ea, eb) = (&state.events[a.event_index], &state.events[b.event_index]);
                assert!(ea.end_frame <= eb.start_frame || eb.end_frame <= ea.start_frame);
            }
        }
    }
}

#[test]
fn timeline_cycles_round_up_and_never_reach_zero() {
    let mut state = details(vec![event(1, 1, 0, 250)]);
    assert_eq!(timeline_cycles(&state), 3);
    state.timeline_length_frames = 0;
    assert_eq!(timeline_cycles(&state), 1);
    state.cycle_length_frames = 0;
    state.timeline_length_frames = 7;
    assert_eq!(timeline_cycles(&state), 7);
}

#[test]
fn script_modes_map_between_labels_and_keys() {
    assert_eq!(script_mode_key(LoopMode::Playing), "playing");
    assert_eq!(script_mode_label(Some("playing")), "Play");
    assert_eq!(script_mode_label(Some("stopped")), "Stop");
    assert_eq!(script_mode_label(Some("bogus")), "Unknown");
    assert_eq!(script_mode_label(None), "Unknown");
}

fn midi_event(frame: u32, data: &[u8]) -> MidiEventState {
    MidiEventState { frame, data: data.to_vec() }
}

#[test]
fn pairs_notes_by_channel_and_treats_zero_velocity_as_off() {
    let events = vec![
        midi_event(1, &[0x90, 60, 100]),
        midi_event(2, &[0x91, 60, 90]),
        midi_event(3, &[0x90, 60, 0]),
        midi_event(5, &[0x81, 60, 64]),
    ];
    assert_eq!(
        note_spans(&events, 8),
        [
            MidiNoteSpan { start: 1, end: 3, note: 60, channel: 0, velocity: 100 },
            MidiNoteSpan { start: 2, end: 5, note: 60, channel: 1, velocity: 90 },
        ]
    );
}

#[test]
fn overlapping_and_unmatched_messages_are_deterministic() {
    let events = vec![
        midi_event(1, &[0x90, 64, 10]),
        midi_event(2, &[0x90, 64, 20]),
        midi_event(3, &[0x80, 64, 0]),
        midi_event(4, &[0x80, 70, 0]),
        midi_event(5, &[0x90]),
        midi_event(6, &[0x90, 200, 100]),
    ];
    assert_eq!(
        note_spans(&events, 9),
        [
            MidiNoteSpan { start: 1, end: 3, note: 64, channel: 0, velocity: 10 },
            MidiNoteSpan { start: 2, end: 9, note: 64, channel: 0, velocity: 20 },
        ]
    );
}

#[test]
fn a_note_released_at_its_start_still_lasts_one_frame() {
    let events = vec![midi_event(4, &[0x92, 10, 50]), midi_event(4, &[0x82, 10, 0])];
    assert_eq!(note_spans(&events, 4), [MidiNoteSpan { start: 4, end: 5, note: 10, channel: 2, velocity: 50 }]);
}

#[test]
fn midi_widget_parses_again_only_when_the_channel_changes() {
    let events = Arc::new(vec![midi_event(1, &[0x90, 60, 100]), midi_event(3, &[0x80, 60, 0])]);
    let mut channel = MidiSequenceChannelState {
        label: "MIDI".to_owned(),
        events: events.clone(),
        start_offset: 0,
        loop_length: 10,
        preplay_samples: 0,
        played_sample: None,
    };
    let mut widget = MidiSequenceWidget::new();
    assert!(widget.note_spans().is_empty());
    widget.update_notes(&channel);
    assert_eq!(widget.note_spans().len(), 1);
    assert_eq!(widget.note_spans()[0].end, 3);
    channel.events = Arc::new(vec![midi_event(2, &[0x90, 61, 1])]);
    widget.update_notes(&channel);
    assert_eq!(*widget.note_spans(), [MidiNoteSpan { start: 2, end: 10, note: 61, channel: 0, velocity: 1 }]);
}

#[test]
fn pending_value_survives_stale_publication_until_acknowledged() {
    let mut value: OptimisticValue<i32> = OptimisticValue::new();
    value.set(2);
    assert_eq!(value.resolve(1, true), 2);
    assert_eq!(value.resolve(1, false), 2);
    assert_eq!(value.resolve(2, false), 2);
    assert_eq!(value.resolve(3, false), 3);
}

#[test]
fn action_tooltips_describe_active_global_behavior() {
    let mut controls = GlobalControlState::new();
    controls.sync = true;
    controls.play_after_record = true;
    controls.solo = false;
    controls.apply_n_cycles = 0;
    assert_eq!(action_tooltip("Record", &controls, true, true), "Record then play (synced)");
    assert_eq!(action_tooltip("Stop", &controls, false, false), "Stop (synced)");

    controls.sync = false;
    controls.play_after_record = false;
    assert_eq!(action_tooltip("Record", &controls, true, true), "Record (unsynced)");

    controls.solo = true;
    controls.apply_n_cycles = 2;
    assert_eq!(
        action_tooltip("Record", &controls, true, true),
        "Record for 2 cycles and stop others in same track(s) (unsynced)"
    );
    assert_eq!(
        action_tooltip("Play", &controls, false, true),
        "Play and stop others in same track(s) (unsynced)"
    );
    controls.apply_n_cycles = 1;
    assert_eq!(
        action_tooltip("Record", &controls, true, false),
        "Record for 1 cycle (unsynced)"
    );
    assert_eq!(action_timing(true), "synced");
}

fn loop_state() -> LoopState {
    LoopState {
        id: LoopId::from_raw(1),
        name: "(1)".to_owned(),
        mode: LoopMode::Stopped,
        length_frames: 96_000,
        has_audio: true,
        has_midi: true,
        empty: false,
        selected: false,
        targeted: false,
        composite_kind: CompositeKind::NotComposite,
        selected_composite_kind: CompositeKind::NotComposite,
        next_mode: LoopMode::Stopped,
        next_transition_delay: None,
        sync: false,
        play_after_record: false,
        has_recorded_fx_state: false,
    }
}

#[test]
fn composite_reference_border_yields_to_selection_and_targeting() {
    let referenced = LoopState { selected_composite_kind: CompositeKind::Regular, ..loop_state() };
    assert_eq!(loop_border(&referenced), LoopBorder::CompositeReference);
    assert_eq!(loop_border(&LoopState { selected: true, ..referenced.clone() }), LoopBorder::Selected);
    assert_eq!(
        loop_border(&LoopState { targeted: true, selected: true, ..referenced }),
        LoopBorder::Target
    );
    assert_eq!(loop_border(&LoopState { empty: true, ..loop_state() }), LoopBorder::Empty);
    assert_eq!(loop_border(&loop_state()), LoopBorder::Content);
}

#[test]
fn click_tracks_and_conversion_apply_only_to_primitive_loops() {
    let primitive = loop_state();
    assert!(can_generate_click_track(&primitive));
    assert!(can_convert_to_composite(&primitive));
    let composite = LoopState { composite_kind: CompositeKind::Regular, ..loop_state() };
    assert!(!can_generate_click_track(&composite));
    assert!(!can_convert_to_composite(&composite));
    let silent = LoopState { has_audio: false, has_midi: false, ..loop_state() };
    assert!(!can_generate_click_track(&silent));
}

#[test]
fn generated_names_are_digits_in_parentheses() {
    assert!(generated_loop_name("(12)"));
    assert!(!generated_loop_name("()"));
    assert!(!generated_loop_name("(1a)"));
    assert!(!generated_loop_name("Loop (1)"));
}

fn sounds() -> Vec<ClickSoundDescriptor> {
    vec![
        ClickSoundDescriptor { id: "click_high".to_owned(), name: "click_high".to_owned() },
        ClickSoundDescriptor { id: "click_low".to_owned(), name: "click_low".to_owned() },
    ]
}

#[test]
fn defaults_fill_and_capability_reconciliation_are_stable_by_loop_id() {
    let target = loop_state();
    let mut draft = ClickSoundSelection::default();
    reconcile_draft(&mut draft, &target, &sounds());
    assert_eq!(draft.kind, ClickTrackKind::Audio);
    assert_eq!(draft.primary_sound_id, "click_high");
    assert_eq!(fill_disabled_reason(&target, 48_000, 4), None);
    draft.kind = ClickTrackKind::Midi;
    let audio_only = LoopState { has_audio: true, has_midi: false, ..target.clone() };
    reconcile_draft(&mut draft, &audio_only, &sounds());
    assert_eq!(draft.kind, ClickTrackKind::Audio);
}

#[test]
fn missing_sounds_fall_back_and_fill_needs_a_length_and_a_rate() {
    let target = loop_state();
    let mut draft = ClickSoundSelection {
        kind: ClickTrackKind::Audio,
        primary_sound_id: "gone".to_owned(),
        secondary_sound_id: Some("gone too".to_owned()),
    };
    reconcile_draft(&mut draft, &target, &sounds());
    assert_eq!(draft.primary_sound_id, "click_high");
    assert_eq!(draft.secondary_sound_id, None);
    reconcile_draft(&mut draft, &target, &Vec::new());
    assert_eq!(draft.primary_sound_id, "");
    let empty = LoopState { length_frames: 0, ..loop_state() };
    assert!(fill_disabled_reason(&empty, 48_000, 4).is_some());
    assert!(fill_disabled_reason(&target, 0, 4).is_some());
    assert!(fill_disabled_reason(&target, 48_000, 0).is_some());
}

#[test]
fn loops_are_found_by_stable_identity_across_tracks() {
    let tracks = vec![
        vec![loop_state()],
        vec![LoopState { id: LoopId::from_raw(9), ..loop_state() }],
    ];
    assert_eq!(find_loop(&tracks, LoopId::from_raw(9)).map(|l| l.id), Some(LoopId::from_raw(9)));
    assert!(find_loop(&tracks, LoopId::from_raw(3)).is_none());
}

#[test]
fn event_context_menu_forces_and_restores_natural_length() {
    let mut long = event(1, 1, 50, 260);
    assert_eq!(initial_force_length(&long, 100), 3);
    assert_eq!(initial_force_length(&long, 0), 210);
    long.forced_n_cycles = Some(7);
    assert_eq!(initial_force_length(&long, 100), 7);
    let empty = event(2, 1, 80, 80);
    assert_eq!(initial_force_length(&empty, 100), 1);
    let huge = event(3, 1, 0, u64::MAX);
    assert_eq!(initial_force_length(&huge, 1), u32::MAX);
}

#[test]
fn type_toggle_emits_kind_change_and_script_events_show_their_mode() {
    let mut scripted = event(4, 1, 0, 10);
    scripted.mode = Some("recording".to_owned());
    assert_eq!(event_label(CompositeKind::Script, &scripted), "Loop 4 · Record");
    assert_eq!(event_label(CompositeKind::Regular, &scripted), "Loop 4");
    scripted.mode = None;
    assert_eq!(event_label(CompositeKind::Script, &scripted), "Loop 4 · Unknown");
}
