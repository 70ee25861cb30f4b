use std::sync::Arc;

use shoop_egui::click_track::{ClickDialogAction, ClickDialogEvent, ClickTrackDialogState, ClickTrackKind};
use shoop_egui::composite::{CompositeEventId, CompositeKind, LoopMode};
use shoop_egui::composite_selection::CompositeEventSelection;
use shoop_egui::connection::AppIntent;
use shoop_egui::fx::{builtin_fx_editor_shown, ProcessorEditorKind};
use shoop_egui::ids::{LoopId, TrackId};
use shoop_egui::latency::{
    choose_value_mode, commit_policy_edit, value_mode_for_choice, LatencyComponentKind,
    LatencyComponentPolicyState, LatencyPanel, LatencyPanelEvent, LatencyRangeSelectionState, LatencyValueMode,
    TrackLatencyPolicyState,
};
use shoop_egui::loop_widget::{
    loop_background, loop_controls, loop_progress, transition_mark, LoopAudioExportFormat, LoopBackground,
    LoopControlEvent, LoopMidiExportFormat, LoopProgress, LoopState, LoopWidget, LoopWidgetAction,
    SelectionModifiers, TransitionMark,
};
use shoop_egui::script_queue::{EphemeralScriptQueue, PendingEphemeralScript, ScriptConfirmationEvent};

fn a_loop() -> LoopState {
    LoopState {
        id: LoopId::from_raw(1),
        name: "Drums".to_owned(),
        mode: LoopMode::Stopped,
        length_frames: 48_000,
        has_audio: true,
        has_midi: true,
        empty: false,
        selected: false,
        targeted: false,
        composite_kind: CompositeKind::NotComposite,
        selected_composite_kind: CompositeKind::NotComposite,
        next_mode: LoopMode::Stopped,
        next_transition_delay: None,
        sync: false,
        play_after_record: false,
        has_recorded_fx_state: false,
    }
}

#[test]
fn loop_background_follows_recording_then_composite_then_content() {
    let recording = LoopState { mode: LoopMode::RecordingDryIntoWet, composite_kind: CompositeKind::Regular, ..a_loop() };
    assert_eq!(loop_background(&recording), LoopBackground::Recording);
    let script = LoopState { composite_kind: CompositeKind::Script, ..a_loop() };
    assert_eq!(loop_background(&script), LoopBackground::ScriptComposite);
    assert_eq!(loop_background(&a_loop()), LoopBackground::Content);
    assert_eq!(loop_background(&LoopState { empty: true, ..a_loop() }), LoopBackground::Empty);
    assert_eq!(loop_progress(LoopMode::PlayingDryThroughWet), LoopProgress::PlayingDry);
    assert_eq!(loop_progress(LoopMode::Stopped), LoopProgress::Other);
}

#[test]
fn transition_mark_counts_down_or_waits_for_the_cycle_end() {
    let delayed = LoopState { next_mode: LoopMode::Playing, next_transition_delay: Some(2), ..a_loop() };
    assert_eq!(transition_mark(&delayed), Some((TransitionMark::Countdown(3), LoopMode::Playing)));
    let now = LoopState { next_transition_delay: Some(0), ..delayed.clone() };
    assert_eq!(transition_mark(&now), Some((TransitionMark::Hourglass, LoopMode::Playing)));
    let same = LoopState { next_mode: LoopMode::Stopped, ..delayed.clone() };
    assert_eq!(transition_mark(&same), None);
    assert_eq!(transition_mark(&LoopState { next_transition_delay: None, ..delayed }), None);
}

#[test]
fn controls_show_on_touch_hover_or_popups_and_script_loops_have_no_record() {
    let plain = a_loop();
    let hidden = loop_controls(&plain, false, true, false, false, false);
    assert!(!hidden.visible);
    let hovered = loop_controls(&plain, false, true, true, true, false);
    assert!(hovered.visible && hovered.play_popup && !hovered.record_popup && hovered.record_button);
    let touch = loop_controls(&plain, true, true, true, true, true);
    assert!(touch.visible && !touch.hovered && !touch.play_popup);
    let script = LoopState { composite_kind: CompositeKind::Script, ..a_loop() };
    let script_controls = loop_controls(&script, false, true, true, true, true);
    assert!(script_controls.visible && !script_controls.play_popup && !script_controls.record_button);
    assert!(script_controls.stop_in_record_slot);
    let not_allowed = loop_controls(&plain, false, false, true, true, true);
    assert!(!not_allowed.visible);
}

#[test]
fn controls_and_menu_give_loop_actions() {
    let mut widget = LoopWidget::new();
    let state = a_loop();
    let r = widget.step(&state, LoopControlEvent::IconClicked { additive: true });
    assert_eq!(r.actions, vec![LoopWidgetAction::IconClicked(SelectionModifiers { additive: true })]);
    assert_eq!(widget.step(&state, LoopControlEvent::Record).actions, vec![LoopWidgetAction::RecordClicked]);
    let script = LoopState { composite_kind: CompositeKind::Script, ..a_loop() };
    assert!(widget.step(&script, LoopControlEvent::Record).actions.is_empty());
    assert!(widget.step(&script, LoopControlEvent::Grab).actions.is_empty());
    assert_eq!(widget.step(&script, LoopControlEvent::Stop).actions, vec![LoopWidgetAction::StopClicked]);
    assert!(widget.step(&state, LoopControlEvent::NameCommitted("Drums".to_owned())).actions.is_empty());
    assert_eq!(
        widget.step(&state, LoopControlEvent::NameCommitted("Bass".to_owned())).actions,
        vec![LoopWidgetAction::NameChanged("Bass".to_owned())]
    );
    assert_eq!(widget.step(&state, LoopControlEvent::Clone).actions, vec![LoopWidgetAction::Duplicate]);
    let synced = LoopState { sync: true, ..a_loop() };
    assert!(widget.step(&synced, LoopControlEvent::Clone).actions.is_empty());
    assert!(widget.step(&state, LoopControlEvent::GenerateClickTrack).click_track_requested);
    assert!(widget.step(&state, LoopControlEvent::RestoreRecordedFxState).actions.is_empty());
    assert_eq!(
        widget.step(&state, LoopControlEvent::LoadMidi).io_intents,
        vec![AppIntent::RequestLoopMidiImportPicker { loop_id: LoopId::from_raw(1) }]
    );
}

#[test]
fn raw_exports_wait_for_confirmation_of_their_own_loop() {
    let mut widget = LoopWidget::new();
    let state = a_loop();
    let exact = widget.step(&state, LoopControlEvent::SaveAudio(LoopAudioExportFormat::Exact));
    assert_eq!(
        exact.io_intents,
        vec![AppIntent::RequestLoopAudioExport { loop_id: LoopId::from_raw(1), format: LoopAudioExportFormat::Exact }]
    );
    let raw = widget.step(&state, LoopControlEvent::SaveMidi(LoopMidiExportFormat::RawStandard));
    assert!(raw.io_intents.is_empty() && widget.raw_export_waiting());
    assert!(widget.step(&state, LoopControlEvent::Frame).io_intents.is_empty());
    assert!(widget.raw_export_waiting());
    let confirmed = widget.step(&state, LoopControlEvent::ConfirmRawExport);
    assert_eq!(
        confirmed.io_intents,
        vec![AppIntent::RequestLoopMidiExport { loop_id: LoopId::from_raw(1), format: LoopMidiExportFormat::RawStandard }]
    );
    assert!(!widget.raw_export_waiting());

    widget.step(&state, LoopControlEvent::SaveAudio(LoopAudioExportFormat::RawFloatWav));
    widget.step(&state, LoopControlEvent::CancelRawExport);
    assert!(!widget.raw_export_waiting());

    widget.step(&state, LoopControlEvent::SaveAudio(LoopAudioExportFormat::RawExact));
    let other = LoopState { id: LoopId::from_raw(2), ..a_loop() };
    assert!(widget.step(&other, LoopControlEvent::ConfirmRawExport).io_intents.is_empty());
    assert!(!widget.raw_export_waiting());
}

fn policy(revision: u64) -> TrackLatencyPolicyState {
    TrackLatencyPolicyState {
        revision,
        cue_followed: true,
        cue_output: None,
        pending: true,
        components: vec![LatencyComponentPolicyState {
            kind: LatencyComponentKind::Processor,
            enabled: true,
            value_mode: LatencyValueMode::Automatic,
            range_selection: LatencyRangeSelectionState::Midpoint,
        }],
    }
}

#[test]
fn edited_policy_is_committed_one_revision_later() {
    let committed = commit_policy_edit(policy(3), 7);
    assert_eq!(committed.revision, 8);
    assert!(!committed.pending);
    assert_eq!(committed.components, policy(3).components);
    assert_eq!(commit_policy_edit(policy(3), u64::MAX).revision, u64::MAX);
    assert_eq!(value_mode_for_choice(1), LatencyValueMode::Manual(0));
    assert_eq!(value_mode_for_choice(2), LatencyValueMode::AutomaticPlusTrim(0));
    assert_eq!(value_mode_for_choice(7), LatencyValueMode::Automatic);
    let mut component = policy(0).components[0];
    assert!(!choose_value_mode(&mut component, 0));
    assert!(choose_value_mode(&mut component, 2));
    assert_eq!(component.value_mode, LatencyValueMode::AutomaticPlusTrim(0));
}

#[test]
fn latency_panel_sends_policy_and_take_requests_while_open() {
    let track = TrackId::from_raw(4);
    let take = LoopId::from_raw(9);
    let mut panel = LatencyPanel::new();
    assert!(panel.step(track, 1, LatencyPanelEvent::Consolidate { loop_id: take }).is_empty());
    panel.open();
    let mut expected = policy(1);
    expected.revision = 2;
    expected.pending = false;
    assert_eq!(
        panel.step(track, 1, LatencyPanelEvent::PolicyEdited(policy(1))),
        vec![AppIntent::SetTrackLatencyPolicy { track_id: track, policy: expected }]
    );
    assert_eq!(panel.take_edit(take, 12), 12);
    assert_eq!(
        panel.step(track, 1, LatencyPanelEvent::TakeAlignmentEdited { loop_id: take, frames: -5 }),
        vec![AppIntent::SetTakeLatencyPolicy { loop_id: take, capture_alignment_frames: -5 }]
    );
    assert_eq!(panel.take_edit(take, 12), -5);
    panel.forget_missing_takes(&vec![LoopId::from_raw(1)]);
    assert_eq!(panel.take_edit(take, 12), 12);
    assert_eq!(
        panel.step(track, 1, LatencyPanelEvent::Consolidate { loop_id: take }),
        vec![AppIntent::ConsolidateTakeLatency { loop_id: take }]
    );
    assert!(panel.step(track, 1, LatencyPanelEvent::WindowClosed).is_empty());
    assert!(!panel.shown());
}

#[test]
fn click_dialog_drops_a_stale_target_and_closes_on_generate() {
    let mut dialog = ClickTrackDialogState::new();
    let tracks = vec![vec![a_loop()]];
    dialog.open(LoopId::from_raw(1));
    assert_eq!(dialog.resolve_target(&tracks).map(|l| l.id), Some(LoopId::from_raw(1)));
    assert_eq!(dialog.dialog_step(None, ClickTrackKind::Audio, ClickDialogEvent::Preview), ClickDialogAction::Preview(LoopId::from_raw(1)));
    assert_eq!(
        dialog.dialog_step(Some("bad".to_owned()), ClickTrackKind::Audio, ClickDialogEvent::Generate),
        ClickDialogAction::Nothing
    );
    assert_eq!(dialog.validation_message.as_deref(), Some("bad"));
    assert_eq!(dialog.dialog_step(None, ClickTrackKind::Midi, ClickDialogEvent::Preview), ClickDialogAction::Nothing);
    assert_eq!(dialog.dialog_step(None, ClickTrackKind::Midi, ClickDialogEvent::Generate), ClickDialogAction::Generate(LoopId::from_raw(1)));
    assert_eq!(dialog.target, None);

    dialog.open(LoopId::from_raw(5));
    assert!(dialog.resolve_target(&tracks).is_none());
    assert_eq!(dialog.target, None);
    assert_eq!(dialog.validation_message.as_deref(), Some("The target loop is no longer available"));

    dialog.preview_available = false;
    assert!(!dialog.preview_enabled(true, ClickTrackKind::Audio));
    assert_eq!(dialog.preview_disabled_reason(), "Audio preview is unavailable on this system");
    dialog.open(LoopId::from_raw(1));
    assert_eq!(dialog.dialog_step(None, ClickTrackKind::Audio, ClickDialogEvent::Cancel), ClickDialogAction::Nothing);
    assert_eq!(dialog.target, None);
}

#[test]
fn composite_event_menu_requests_lengths_and_script_modes() {
    let mut selection = CompositeEventSelection::new();
    selection.show(LoopId::from_raw(8), &vec![]);
    let event = CompositeEventId { instance_id: 4 };
    assert_eq!(
        selection.force_length_request(event, 0),
        AppIntent::SetCompositeLoopCycles { target_loop_id: LoopId::from_raw(8), event, n_cycles: Some(1) }
    );
    assert_eq!(
        selection.natural_length_request(event, Some(2)),
        Some(AppIntent::SetCompositeLoopCycles { target_loop_id: LoopId::from_raw(8), event, n_cycles: None })
    );
    assert_eq!(selection.natural_length_request(event, None), None);
    assert_eq!(
        selection.event_mode_request(CompositeKind::Script, event, LoopMode::Recording),
        Some(AppIntent::SetCompositeEventMode { target_loop_id: LoopId::from_raw(8), event, mode: LoopMode::Recording })
    );
    assert_eq!(selection.event_mode_request(CompositeKind::Regular, event, LoopMode::Recording), None);
}

fn script(name: &str) -> PendingEphemeralScript {
    PendingEphemeralScript { name: name.to_owned(), source: Arc::from("print(1)"), source_path: None }
}

#[test]
fn run_once_scripts_are_asked_about_in_order() {
    let mut queue = EphemeralScriptQueue::new();
    queue.queue(script("a"));
    queue.queue(script("b"));
    assert_eq!(queue.first().map(|s| s.name.clone()), Some("a".to_owned()));
    assert!(queue.step(ScriptConfirmationEvent::Frame).is_none());
    assert!(queue.step(ScriptConfirmationEvent::Cancel).is_none());
    assert_eq!(queue.step(ScriptConfirmationEvent::Accept).map(|s| s.name), Some("b".to_owned()));
    assert!(queue.first().is_none());
    assert!(queue.step(ScriptConfirmationEvent::Accept).is_none());
}

#[test]
fn builtin_fx_editor_needs_a_visible_builtin_effect() {
    let builtin = Some(ProcessorEditorKind::BuiltInFx);
    assert!(builtin_fx_editor_shown(Some(true), builtin, builtin));
    assert!(!builtin_fx_editor_shown(Some(false), builtin, builtin));
    assert!(!builtin_fx_editor_shown(None, builtin, builtin));
    assert!(!builtin_fx_editor_shown(Some(true), Some(ProcessorEditorKind::Other), builtin));
    assert!(!builtin_fx_editor_shown(Some(true), builtin, None));
}
