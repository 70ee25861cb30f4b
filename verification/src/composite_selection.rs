//! The events selected in the timeline of a composite loop, and the edits that act on them.
use vstd::prelude::*;

use crate::composite::{CompositeEventDetails, CompositeEventId, CompositeKind, LoopMode};
use crate::connection::AppIntent;
use crate::id_set::{strictly_ascending, IdSet};
use crate::ids::LoopId;

verus! {

/// How a box drawn around events changes the selection.
#[derive(Clone, Copy, Debug, PartialEq, Eq, Structural)]
pub enum BoxSelectionMode {
    Replace,
    Add,
    Remove,
}

/// Alt removes the boxed events, Ctrl adds them, and otherwise they replace the selection.
pub fn box_selection_mode(alt: bool, ctrl: bool) -> (r: BoxSelectionMode)
    ensures
        r == (if alt {
            BoxSelectionMode::Remove
        } else if ctrl {
            BoxSelectionMode::Add
        } else {
            BoxSelectionMode::Replace
        }),
{
    if alt {
        BoxSelectionMode::Remove
    } else if ctrl {
        BoxSelectionMode::Add
    } else {
        BoxSelectionMode::Replace
    }
}

/// The selection after a click on an event: with Ctrl the event is toggled, otherwise it
/// becomes the only selected event.
pub open spec fn clicked(selected: Set<u64>, event: u64, ctrl: bool) -> Set<u64> {
    if ctrl {
        if selected.contains(event) {
            selected.remove(event)
        } else {
            selected.insert(event)
        }
    } else {
        set![event]
    }
}

/// The selection after an event is grabbed or its menu opened: kept if it holds the event,
/// else just that event.
pub open spec fn focused(selected: Set<u64>, event: u64) -> Set<u64> {
    if selected.contains(event) {
        selected
    } else {
        set![event]
    }
}

/// The selection after a box around `enclosed` is released.
pub open spec fn boxed(selected: Set<u64>, mode: BoxSelectionMode, enclosed: Set<u64>) -> Set<u64> {
    match mode {
        BoxSelectionMode::Replace => enclosed,
        BoxSelectionMode::Add => selected.union(enclosed),
        BoxSelectionMode::Remove => selected.difference(enclosed),
    }
}

pub open spec fn event_ids(ids: Seq<u64>) -> Seq<CompositeEventId> {
    ids.map_values(|id: u64| CompositeEventId { instance_id: id })
}

fn to_event_ids(ids: &Vec<u64>) -> (r: Vec<CompositeEventId>)
    ensures
        r@ == event_ids(ids@),
{
    let mut out: Vec<CompositeEventId> = Vec::new();
    let mut i: usize = 0;
    while i < ids.len()
        invariant
            i <= ids@.len(),
            out@ == event_ids(ids@.take(i as int)),
        decreases ids@.len() - i,
    {
        out.push(CompositeEventId { instance_id: ids[i] });
        i = i + 1;
        assert(out@ =~= event_ids(ids@.take(i as int)));
    }
    assert(ids@.take(i as int) =~= ids@);
    out
}

/// The selected events of the composite loop that the timeline shows.
#[derive(Debug)]
pub struct CompositeEventSelection {
    loop_id: LoopId,
    selected: IdSet,
}

impl CompositeEventSelection {
    pub closed spec fn shown_loop(self) -> LoopId {
        self.loop_id
    }

    /// The instance identities of the selected events.
    pub closed spec fn selected(self) -> Set<u64> {
        self.selected@
    }

    /// Nothing selected, and no loop shown yet.
    pub fn new() -> (r: Self)
        ensures
            r.shown_loop().0 == 0,
            r.selected() == Set::<u64>::empty(),
    {
        CompositeEventSelection { loop_id: LoopId::invalid(), selected: IdSet::new() }
    }

    /// The timeline shows `loop_id` with the events `available`: the selection is dropped when
    /// the loop changes, and events that are gone leave it.
    pub fn show(&mut self, loop_id: LoopId, available: &Vec<u64>)
        ensures
            final(self).shown_loop() == loop_id,
            final(self).selected() == (if old(self).shown_loop() == loop_id {
                old(self).selected()
            } else {
                Set::<u64>::empty()
            }).intersect(available@.to_set()),
    {
        if self.loop_id != loop_id {
            self.loop_id = loop_id;
            self.selected.clear();
        }
        self.selected.retain_listed(available);
    }

    /// Whether the event is selected.
    pub fn is_selected(&self, event: u64) -> (r: bool)
        ensures
            r == self.selected().contains(event),
    {
        self.selected.contains(event)
    }

    /// The number of selected events.
    pub fn selected_count(&self) -> (r: usize)
        ensures
            r == self.selected().len(),
    {
        let ids = self.selected.to_vec();
        proof {
            ids@.unique_seq_to_set();
        }
        ids.len()
    }

    /// A click on an event (see `clicked`).
    pub fn click(&mut self, event: u64, ctrl: bool)
        ensures
            final(self).selected() == clicked(old(self).selected(), event, ctrl),
            final(self).shown_loop() == old(self).shown_loop(),
    {
        if ctrl {
            if !self.selected.remove(event) {
                self.selected.insert(event);
            }
        } else {
            self.selected.clear();
            self.selected.insert(event);
            assert(self.selected@ =~= set![event]);
        }
    }

    /// An event was grabbed or its menu opened (see `focused`).
    pub fn focus(&mut self, event: u64)
        ensures
            final(self).selected() == focused(old(self).selected(), event),
            final(self).shown_loop() == old(self).shown_loop(),
    {
        if !self.selected.contains(event) {
            self.selected.clear();
            self.selected.insert(event);
            assert(self.selected@ =~= set![event]);
        }
    }

    /// A box around the events `enclosed` was released (see `boxed`).
    pub fn apply_box(&mut self, mode: BoxSelectionMode, enclosed: &Vec<u64>)
        ensures
            final(self).selected() == boxed(old(self).selected(), mode, enclosed@.to_set()),
            final(self).shown_loop() == old(self).shown_loop(),
    {
        match mode {
            BoxSelectionMode::Replace => {
                self.selected = IdSet::from_ids(enclosed);
            },
            BoxSelectionMode::Add => {
                self.selected.insert_all(enclosed);
            },
            BoxSelectionMode::Remove => {
                self.selected.remove_all(enclosed);
            },
        }
    }

    /// The selected events in ascending order of identity, as a drag carries them and a
    /// deletion names them.
    pub fn selected_events(&self) -> (r: Vec<CompositeEventId>)
        ensures
            strictly_ascending(r@.map_values(|e: CompositeEventId| e.instance_id)),
            r@.map_values(|e: CompositeEventId| e.instance_id).to_set() == self.selected(),
    {
        let ids = self.selected.to_vec();
        let events = to_event_ids(&ids);
        assert(events@.map_values(|e: CompositeEventId| e.instance_id) =~= ids@);
        events
    }

    /// When deletion is asked for and events are selected: the intent to delete them from the
    /// shown loop; the selection is then empty. Otherwise nothing changes.
    pub fn take_delete_intent(&mut self, requested: bool) -> (r: Option<AppIntent>)
        ensures
            requested && old(self).selected() != Set::<u64>::empty() ==> {
                &&& r matches Some(AppIntent::DeleteCompositeEvents { target_loop_id, events })
                &&& target_loop_id == old(self).shown_loop()
                &&& strictly_ascending(events@.map_values(|e: CompositeEventId| e.instance_id))
                &&& events@.map_values(|e: CompositeEventId| e.instance_id).to_set()
                    == old(self).selected()
                &&& final(self).selected() == Set::<u64>::empty()
            },
            !(requested && old(self).selected() != Set::<u64>::empty()) ==> r is None
                && final(self).selected() == old(self).selected(),
            final(self).shown_loop() == old(self).shown_loop(),
    {
        if requested && !self.selected.is_empty() {
            let events = self.selected_events();
            self.selected.clear();
            Some(AppIntent::DeleteCompositeEvents { target_loop_id: self.loop_id, events })
        } else {
            None
        }
    }

    /// Dragged events were dropped on an iteration of the shown loop: the intent to move them
    /// (or, with Ctrl, copy them) so that the grabbed event lands there. A move clears the
    /// selection.
    pub fn drop_events(
        &mut self,
        events: Vec<CompositeEventId>,
        grabbed_offset: u64,
        hovered_iteration: u64,
        ctrl: bool,
    ) -> (r: AppIntent)
        ensures
            r == (AppIntent::RelocateCompositeEvents {
                target_loop_id: old(self).shown_loop(),
                events,
                start_iteration: if hovered_iteration >= grabbed_offset {
                    (hovered_iteration - grabbed_offset) as u64
                } else {
                    0
                },
                duplicate: ctrl,
            }),
            final(self).selected() == (if ctrl {
                old(self).selected()
            } else {
                Set::<u64>::empty()
            }),
            final(self).shown_loop() == old(self).shown_loop(),
    {
        let start_iteration = hovered_iteration.saturating_sub(grabbed_offset);
        if !ctrl {
            self.selected.clear();
        }
        AppIntent::RelocateCompositeEvents {
            target_loop_id: self.loop_id,
            events,
            start_iteration,
            duplicate: ctrl,
        }
    }

    /// "Force instance length" in the menu of `event`, with `cycles` in the length field: the
    /// event's length is fixed at that many cycles, at least one.
    pub fn force_length_request(&self, event: CompositeEventId, cycles: u32) -> (r: AppIntent)
        ensures
            r == (AppIntent::SetCompositeLoopCycles {
                target_loop_id: self.shown_loop(),
                event,
                n_cycles: Some(if cycles < 1 { 1u32 } else { cycles }),
            }),
    {
        AppIntent::SetCompositeLoopCycles {
            target_loop_id: self.loop_id,
            event,
            n_cycles: Some(if cycles < 1 { 1 } else { cycles }),
        }
    }

    /// "Use natural instance length" in the menu of `event`, which that menu offers only for
    /// an event whose length is forced (`forced_n_cycles`).
    pub fn natural_length_request(&self, event: CompositeEventId, forced_n_cycles: Option<u32>) -> (r: Option<AppIntent>)
        ensures
            r == if forced_n_cycles is Some {
                Some(AppIntent::SetCompositeLoopCycles { target_loop_id: self.shown_loop(), event, n_cycles: None })
            } else {
                None
            },
    {
        if forced_n_cycles.is_some() {
            Some(AppIntent::SetCompositeLoopCycles { target_loop_id: self.loop_id, event, n_cycles: None })
        } else {
            None
        }
    }

    /// A mode chosen in the menu of `event`, which offers modes only in script composites.
    pub fn event_mode_request(&self, kind: CompositeKind, event: CompositeEventId, mode: LoopMode) -> (r: Option<AppIntent>)
        ensures
            r == if kind == CompositeKind::Script {
                Some(AppIntent::SetCompositeEventMode { target_loop_id: self.shown_loop(), event, mode })
            } else {
                None
            },
    {
        if kind == CompositeKind::Script {
            Some(AppIntent::SetCompositeEventMode { target_loop_id: self.loop_id, event, mode })
        } else {
            None
        }
    }
}

/// The earliest start among the events whose instance is selected.
pub open spec fn earliest_selected_start(events: Seq<CompositeEventDetails>, selected: Set<u64>) -> Option<
    u64,
>
    decreases events.len(),
{
    if events.len() == 0 {
        None
    } else {
        let e = events.last();
        let rest = earliest_selected_start(events.drop_last(), selected);
        if selected.contains(e.instance_id) {
            match rest {
                Some(s) => Some(if s <= e.start_frame { s } else { e.start_frame }),
                None => Some(e.start_frame),
            }
        } else {
            rest
        }
    }
}

/// How many cycles the grabbed event starts after the earliest selected event; the drop
/// target is counted from the earliest one.
pub fn grabbed_offset(
    events: &Vec<CompositeEventDetails>,
    selection: &CompositeEventSelection,
    grabbed_start: u64,
    cycle_length_frames: u64,
) -> (r: u64)
    ensures
        ({
            let earliest = match earliest_selected_start(events@, selection.selected()) {
                Some(s) => s,
                None => grabbed_start,
            };
            let cycle = if cycle_length_frames == 0 { 1 } else { cycle_length_frames as int };
            r == (if grabbed_start >= earliest { grabbed_start - earliest } else { 0 }) / cycle
        }),
{
    let mut earliest: Option<u64> = None;
    let mut i: usize = 0;
    while i < events.len()
        invariant
            i <= events@.len(),
            earliest == earliest_selected_start(events@.take(i as int), selection.selected()),
        decreases events@.len() - i,
    {
        proof {
            assert(events@.take(i as int + 1).drop_last() =~= events@.take(i as int));
        }
        let event = &events[i];
        if selection.is_selected(event.instance_id) {
            earliest = match earliest {
                Some(s) => Some(if s <= event.start_frame { s } else { event.start_frame }),
                None => Some(event.start_frame),
            };
        }
        i = i + 1;
    }
    proof {
        assert(events@.take(i as int) =~= events@);
    }
    let from = match earliest {
        Some(s) => s,
        None => grabbed_start,
    };
    let cycle = if cycle_length_frames == 0 { 1 } else { cycle_length_frames };
    grabbed_start.saturating_sub(from) / cycle
}

/// Ctrl-clicking an event twice leaves the selection as it was.
pub proof fn lemma_ctrl_click_twice_restores(selected: Set<u64>, event: u64)
    ensures
        clicked(clicked(selected, event, true), event, true) == selected,
{
    if selected.contains(event) {
        assert(selected.remove(event).insert(event) =~= selected);
    } else {
        assert(selected.insert(event).remove(event) =~= selected);
    }
}

/// A plain click always leaves exactly the clicked event selected.
pub proof fn lemma_plain_click_selects_one(selected: Set<u64>, event: u64)
    ensures
        clicked(selected, event, false).len() == 1,
        clicked(selected, event, false).contains(event),
{
    assert(set![event] =~= Set::<u64>::empty().insert(event));
}

/// Adding a box and then removing the same box deselects exactly the boxed events.
pub proof fn lemma_box_add_then_remove(selected: Set<u64>, enclosed: Set<u64>)
    ensures
        boxed(boxed(selected, BoxSelectionMode::Add, enclosed), BoxSelectionMode::Remove, enclosed)
            == selected.difference(enclosed),
{
    assert(selected.union(enclosed).difference(enclosed) =~= selected.difference(enclosed));
}

} // verus!
