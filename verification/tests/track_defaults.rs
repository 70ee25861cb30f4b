use shoop_egui::composite::{CompositeEventDetails, CompositeEventId};
use shoop_egui::composite_selection::{
    box_selection_mode, grabbed_offset, BoxSelectionMode, CompositeEventSelection,
};
use shoop_egui::connection::AppIntent;
use shoop_egui::id_set::IdSet;
use shoop_egui::ids::{LoopId, TrackId};
use shoop_egui::settings::{
    AddTrackMode, NewTrackConfiguration, ProcessorLatencyAdjustmentState,
    RecordingOffsetAdjustmentState, TrackProcessorTypeId,
};
use shoop_egui::track_defaults::{
    SaveTrackDefaults, TrackCreationResult, TrackDefaultSaveResult, TrackDefaultSaves,
    TrackDefaultsDraft,
};

fn configuration() -> NewTrackConfiguration {
    NewTrackConfiguration {
        mode: AddTrackMode::DryWet,
        audio_channels: 3,
        midi: false,
        dry_midi: true,
        processor: Some(TrackProcessorTypeId("processor".to_owned())),
        recording_adjustment: RecordingOffsetAdjustmentState::Automatic,
        recording_frames: -9,
        processor_adjustment: ProcessorLatencyAdjustmentState::AutomaticPlusTrim,
        processor_frames: 128,
    }
}

fn draft(base_revision: u64) -> TrackDefaultsDraft {
    TrackDefaultsDraft { base_revision, defaults: configuration() }
}

#[test]
fn add_track_make_default_saves_all_track_defaults_after_creation_confirmation() {
    let mut saves = TrackDefaultSaves::new();
    let request_id = saves.register_defaults(&Vec::new(), draft(1));
    assert_eq!(request_id, 1);
    assert!(saves.resolve_saves(&Vec::new(), false, false, 1).is_empty());

    let confirmed = vec![TrackCreationResult { request_id, success: true }];
    assert!(saves.resolve_saves(&confirmed, true, false, 1).is_empty());

    let actions = saves.resolve_saves(&Vec::new(), false, false, 2);
    assert_eq!(actions, [SaveTrackDefaults { request_id, draft: draft(2) }]);
    assert_eq!(actions[0].draft.defaults.processor_frames, 128);

    saves.notify_save_result(request_id, TrackDefaultSaveResult::Retry);
    let actions = saves.resolve_saves(&Vec::new(), false, false, 3);
    assert_eq!(actions.len(), 1);
    assert_eq!(actions[0].draft.base_revision, 3);

    saves.notify_save_result(request_id, TrackDefaultSaveResult::Accepted);
    assert!(saves.resolve_saves(&Vec::new(), false, false, 3).is_empty());
    assert_eq!(saves.effective_defaults(3), Some(draft(3)));

    saves.reconcile_accepted(3);
    assert_eq!(saves.effective_defaults(3), Some(draft(3)));
    saves.reconcile_accepted(4);
    assert_eq!(saves.effective_defaults(4), None);
}

#[test]
fn rejected_track_creation_discards_pending_defaults_without_saving() {
    let mut saves = TrackDefaultSaves::new();
    let request_id = saves.register_defaults(&Vec::new(), draft(1));
    let rejected = vec![TrackCreationResult { request_id, success: false }];
    assert!(saves.resolve_saves(&rejected, false, false, 1).is_empty());
    let confirmed = vec![TrackCreationResult { request_id, success: true }];
    assert!(saves.resolve_saves(&confirmed, false, false, 1).is_empty());
    assert_eq!(saves.effective_defaults(1), None);
}

#[test]
fn request_identities_skip_reported_and_remembered_ones() {
    let mut saves = TrackDefaultSaves::new();
    let results = vec![
        TrackCreationResult { request_id: 1, success: true },
        TrackCreationResult { request_id: 3, success: false },
    ];
    assert_eq!(saves.register_defaults(&results, draft(1)), 2);
    assert_eq!(saves.register_defaults(&results, draft(1)), 4);
    assert_eq!(saves.register_defaults(&Vec::new(), draft(1)), 5);
}

#[test]
fn the_latest_confirmed_or_accepted_defaults_are_effective() {
    let mut saves = TrackDefaultSaves::new();
    let first = saves.register_defaults(&Vec::new(), draft(1));
    let second = saves.register_defaults(&Vec::new(), TrackDefaultsDraft {
        base_revision: 1,
        defaults: NewTrackConfiguration { audio_channels: 1, ..configuration() },
    });
    let results = vec![
        TrackCreationResult { request_id: first, success: true },
        TrackCreationResult { request_id: second, success: true },
    ];
    let actions = saves.resolve_saves(&results, false, false, 5);
    assert_eq!(actions.iter().map(|a| a.request_id).collect::<Vec<_>>(), [first, second]);
    saves.notify_save_result(first, TrackDefaultSaveResult::Accepted);
    assert_eq!(saves.effective_defaults(5).map(|d| d.defaults.audio_channels), Some(1));
    saves.notify_save_result(second, TrackDefaultSaveResult::Failed);
    assert_eq!(saves.effective_defaults(5).map(|d| d.defaults.audio_channels), Some(3));
    saves.notify_save_result(first, TrackDefaultSaveResult::Failed);
    assert_eq!(saves.effective_defaults(5), None);
}

#[test]
fn recovery_holds_back_saves_until_settings_are_idle() {
    let mut saves = TrackDefaultSaves::new();
    let id = saves.register_defaults(&Vec::new(), draft(1));
    let results = vec![TrackCreationResult { request_id: id, success: true }];
    assert!(saves.resolve_saves(&results, false, true, 1).is_empty());
    assert_eq!(saves.resolve_saves(&Vec::new(), false, false, 1).len(), 1);
}

#[test]
fn id_sets_list_their_members_in_ascending_order() {
    let mut set = IdSet::from_ids(&vec![5, 1, 9, 1]);
    assert_eq!(set.to_vec(), [1, 5, 9]);
    assert!(set.insert(3));
    assert!(!set.insert(5));
    assert!(set.remove(9));
    assert!(!set.remove(9));
    assert_eq!(set.to_vec(), [1, 3, 5]);
    set.retain_listed(&vec![3, 4, 5]);
    assert_eq!(set.to_vec(), [3, 5]);
    set.remove_all(&vec![3]);
    set.insert_all(&vec![7, 2]);
    assert_eq!(set.to_vec(), [2, 5, 7]);
    assert_eq!(set.len(), 3);
    assert!(set.contains(7) && !set.contains(3));
    set.clear();
    assert!(set.is_empty());
}

fn ids(selection: &CompositeEventSelection) -> Vec<u64> {
    selection.selected_events().iter().map(|e| e.instance_id).collect()
}

#[test]
fn clicks_replace_or_toggle_block_selection_and_selected_blocks_are_highlighted() {
    let mut selection = CompositeEventSelection::new();
    selection.show(LoopId::from_raw(5), &vec![1, 2, 3]);
    selection.click(1, false);
    assert_eq!(ids(&selection), [1]);
    selection.click(2, true);
    assert_eq!(selection.selected_count(), 2);
    selection.click(2, false);
    assert_eq!(ids(&selection), [2]);
    selection.click(2, true);
    assert_eq!(selection.selected_count(), 0);
    selection.focus(3);
    assert!(selection.is_selected(3));
}

#[test]
fn box_selection_replaces_adds_removes_and_requires_full_containment() {
    let mut selection = CompositeEventSelection::new();
    selection.show(LoopId::from_raw(5), &vec![1, 2, 3]);
    selection.apply_box(box_selection_mode(false, false), &vec![1, 2]);
    assert_eq!(ids(&selection), [1, 2]);
    selection.apply_box(box_selection_mode(false, true), &vec![3]);
    assert_eq!(ids(&selection), [1, 2, 3]);
    selection.apply_box(box_selection_mode(true, true), &vec![2]);
    assert_eq!(ids(&selection), [1, 3]);
    selection.apply_box(BoxSelectionMode::Replace, &Vec::new());
    assert_eq!(selection.selected_count(), 0);
}

#[test]
fn delete_key_emits_selected_event_ids_and_clears_the_editor_selection() {
    let loop_id = LoopId::from_raw(5);
    let mut selection = CompositeEventSelection::new();
    selection.show(loop_id, &vec![1, 2, 3]);
    assert_eq!(selection.take_delete_intent(true), None);
    selection.apply_box(BoxSelectionMode::Replace, &vec![3, 1]);
    assert_eq!(selection.take_delete_intent(false), None);
    assert_eq!(
        selection.take_delete_intent(true),
        Some(AppIntent::DeleteCompositeEvents {
            target_loop_id: loop_id,
            events: vec![CompositeEventId { instance_id: 1 }, CompositeEventId { instance_id: 3 }],
        })
    );
    assert_eq!(selection.selected_count(), 0);
}

#[test]
fn selection_follows_the_shown_loop_and_its_events() {
    let mut selection = CompositeEventSelection::new();
    selection.show(LoopId::from_raw(5), &vec![1, 2, 3]);
    selection.apply_box(BoxSelectionMode::Replace, &vec![1, 2]);
    selection.show(LoopId::from_raw(5), &vec![2, 3]);
    assert_eq!(ids(&selection), [2]);
    selection.show(LoopId::from_raw(6), &vec![2, 3]);
    assert_eq!(selection.selected_count(), 0);
}

fn scheduled(instance_id: u64, start_frame: u64) -> CompositeEventDetails {
    CompositeEventDetails {
        instance_id,
        loop_id: LoopId::from_raw(instance_id),
        loop_name: String::new(),
        track_id: TrackId::from_raw(1),
        start_frame,
        end_frame: start_frame + 10,
        loop_mode: shoop_egui::composite::LoopMode::Playing,
        mode: None,
        forced_n_cycles: None,
    }
}

#[test]
fn selected_composite_events_drop_as_a_group_and_ctrl_duplicates() {
    let loop_id = LoopId::from_raw(5);
    let events = vec![scheduled(1, 100), scheduled(2, 300), scheduled(3, 0)];
    let mut selection = CompositeEventSelection::new();
    selection.show(loop_id, &vec![1, 2, 3]);
    selection.apply_box(BoxSelectionMode::Replace, &vec![1, 2]);
    assert_eq!(grabbed_offset(&events, &selection, 300, 100), 2);
    assert_eq!(grabbed_offset(&events, &selection, 300, 0), 200);
    let dragged = selection.selected_events();
    let intent = selection.drop_events(dragged.clone(), 2, 5, true);
    assert_eq!(
        intent,
        AppIntent::RelocateCompositeEvents { target_loop_id: loop_id, events: dragged.clone(), start_iteration: 3, duplicate: true }
    );
    assert_eq!(selection.selected_count(), 2);
    let intent = selection.drop_events(dragged.clone(), 2, 1, false);
    assert_eq!(
        intent,
        AppIntent::RelocateCompositeEvents { target_loop_id: loop_id, events: dragged, start_iteration: 0, duplicate: false }
    );
    assert_eq!(selection.selected_count(), 0);
}
