//! Choices of the click track dialog that do not involve timing.

use vstd::prelude::*;

use crate::ids::LoopId;
use crate::loop_widget::LoopState;

verus! {

/// Whether the click track is generated as audio or as MIDI.
#[derive(Clone, Copy, Debug, Default, PartialEq, Eq, Structural)]
pub enum ClickTrackKind {
    #[default]
    Audio,
    Midi,
}

/// A click sound that audio click tracks can use.
#[derive(Clone, Debug, PartialEq, Eq)]
pub struct ClickSoundDescriptor {
    pub id: String,
    pub name: String,
}

/// The kind and sounds chosen for a click track.
#[derive(Clone, Debug, Default, PartialEq, Eq)]
pub struct ClickSoundSelection {
    pub kind: ClickTrackKind,
    pub primary_sound_id: String,
    pub secondary_sound_id: Option<String>,
}

/// Some available sound has identity `id`.
pub open spec fn sound_available(sounds: Seq<ClickSoundDescriptor>, id: Seq<char>) -> bool {
    exists|i: int| 0 <= i < sounds.len() && (#[trigger] sounds[i]).id@ == id
}

fn sound_available_exec(sounds: &Vec<ClickSoundDescriptor>, id: &String) -> (r: bool)
    ensures
        r == sound_available(sounds@, id@),
{
    let mut i: usize = 0;
    while i < sounds.len()
        invariant
            i <= sounds@.len(),
            forall|k: int| 0 <= k < i ==> (#[trigger] sounds@[k]).id@ != id@,
        decreases sounds@.len() - i,
    {
        if sounds[i].id == *id {
            return true;
        }
        i = i + 1;
    }
    false
}

/// Keeps a remembered choice valid for the target loop and the available sounds: the kind
/// switches when the loop lacks it, a missing primary sound becomes the first available one
/// (or none), and a missing secondary sound is cleared.
pub fn reconcile_draft(draft: &mut ClickSoundSelection, target: &LoopState, sounds: &Vec<ClickSoundDescriptor>)
    ensures
        final(draft).kind == if old(draft).kind == ClickTrackKind::Audio && !target.has_audio {
            ClickTrackKind::Midi
        } else if old(draft).kind == ClickTrackKind::Midi && !target.has_midi {
            ClickTrackKind::Audio
        } else {
            old(draft).kind
        },
        final(draft).primary_sound_id@ == if sound_available(sounds@, old(draft).primary_sound_id@) {
            old(draft).primary_sound_id@
        } else if sounds@.len() > 0 {
            sounds@[0].id@
        } else {
            Seq::empty()
        },
        match old(draft).secondary_sound_id {
            Some(s) => if sound_available(sounds@, s@) {
                final(draft).secondary_sound_id == Some(s)
            } else {
                final(draft).secondary_sound_id is None
            },
            None => final(draft).secondary_sound_id is None,
        },
{
    if draft.kind == ClickTrackKind::Audio && !target.has_audio {
        draft.kind = ClickTrackKind::Midi;
    } else if draft.kind == ClickTrackKind::Midi && !target.has_midi {
        draft.kind = ClickTrackKind::Audio;
    }
    if !sound_available_exec(sounds, &draft.primary_sound_id) {
        draft.primary_sound_id = if sounds.len() > 0 { sounds[0].id.clone() } else { String::new() };
    }
    let clear = match &draft.secondary_sound_id {
        Some(selected) => !sound_available_exec(sounds, selected),
        None => false,
    };
    if clear {
        draft.secondary_sound_id = None;
    }
}

/// Why the kind-specific choices of a click track request are refused.
#[derive(Clone, Copy, Debug, PartialEq, Eq, Structural)]
pub enum ClickChoiceProblem {
    NoAudioChannels,
    PrimaryClickUnavailable,
    SecondaryClickUnavailable,
    SecondaryCountTooLarge,
    NoMidiChannels,
}

impl ClickChoiceProblem {
    /// The message that the dialog shows.
    pub fn message(self) -> (r: &'static str)
        ensures
            r@ == spec_problem_message(self),
    {
        match self {
            ClickChoiceProblem::NoAudioChannels => "The target loop has no audio channels",
            ClickChoiceProblem::PrimaryClickUnavailable => "Select an available primary click",
            ClickChoiceProblem::SecondaryClickUnavailable => "Select an available secondary click",
            ClickChoiceProblem::SecondaryCountTooLarge => "Secondary click count is too large",
            ClickChoiceProblem::NoMidiChannels => "The target loop has no MIDI channels",
        }
    }
}

/// The message of each problem.
pub open spec fn spec_problem_message(problem: ClickChoiceProblem) -> Seq<char> {
    match problem {
        ClickChoiceProblem::NoAudioChannels => "The target loop has no audio channels"@,
        ClickChoiceProblem::PrimaryClickUnavailable => "Select an available primary click"@,
        ClickChoiceProblem::SecondaryClickUnavailable => "Select an available secondary click"@,
        ClickChoiceProblem::SecondaryCountTooLarge => "Secondary click count is too large"@,
        ClickChoiceProblem::NoMidiChannels => "The target loop has no MIDI channels"@,
    }
}

/// The first refused kind-specific choice: an audio click track needs audio channels on the
/// target, available primary and secondary sounds, and fewer secondary clicks per primary
/// click than the click limit; a MIDI click track needs MIDI channels on the target.
pub open spec fn spec_click_choice_problem(
    selection: ClickSoundSelection,
    secondary_clicks_per_primary: u32,
    target: LoopState,
    sounds: Seq<ClickSoundDescriptor>,
    max_click_count: u32,
) -> Option<ClickChoiceProblem> {
    match selection.kind {
        ClickTrackKind::Audio => if !target.has_audio {
            Some(ClickChoiceProblem::NoAudioChannels)
        } else if !sound_available(sounds, selection.primary_sound_id@) {
            Some(ClickChoiceProblem::PrimaryClickUnavailable)
        } else if selection.secondary_sound_id matches Some(s) && !sound_available(sounds, s@) {
            Some(ClickChoiceProblem::SecondaryClickUnavailable)
        } else if secondary_clicks_per_primary >= max_click_count {
            Some(ClickChoiceProblem::SecondaryCountTooLarge)
        } else {
            None
        },
        ClickTrackKind::Midi => if !target.has_midi {
            Some(ClickChoiceProblem::NoMidiChannels)
        } else {
            None
        },
    }
}

/// Checks the kind-specific choices of a click track request: see `spec_click_choice_problem`.
pub fn check_click_choices(
    selection: &ClickSoundSelection,
    secondary_clicks_per_primary: u32,
    target: &LoopState,
    sounds: &Vec<ClickSoundDescriptor>,
    max_click_count: u32,
) -> (r: Result<(), ClickChoiceProblem>)
    ensures
        match r {
            Ok(()) => spec_click_choice_problem(*selection, secondary_clicks_per_primary, *target, sounds@, max_click_count) is None,
            Err(p) => spec_click_choice_problem(*selection, secondary_clicks_per_primary, *target, sounds@, max_click_count) == Some(p),
        },
{
    match selection.kind {
        ClickTrackKind::Audio => {
            if !target.has_audio {
                return Err(ClickChoiceProblem::NoAudioChannels);
            }
            if !sound_available_exec(sounds, &selection.primary_sound_id) {
                return Err(ClickChoiceProblem::PrimaryClickUnavailable);
            }
            let secondary_missing = match &selection.secondary_sound_id {
                Some(s) => !sound_available_exec(sounds, s),
                None => false,
            };
            if secondary_missing {
                return Err(ClickChoiceProblem::SecondaryClickUnavailable);
            }
            if secondary_clicks_per_primary >= max_click_count {
                return Err(ClickChoiceProblem::SecondaryCountTooLarge);
            }
            Ok(())
        },
        ClickTrackKind::Midi => {
            if !target.has_midi {
                return Err(ClickChoiceProblem::NoMidiChannels);
            }
            Ok(())
        },
    }
}

/// Why the length of the loop cannot be filled with clicks, if it cannot.
pub fn fill_disabled_reason(target: &LoopState, sample_rate: u32, click_count: u32) -> (r: Option<&'static str>)
    ensures
        match r {
            Some(reason) => if target.length_frames == 0 {
                reason@ == "The current loop has no length"@
            } else if sample_rate == 0 {
                reason@ == "The active sample rate is unavailable"@
            } else {
                click_count == 0 && reason@ == "Choose at least one click"@
            },
            None => target.length_frames != 0 && sample_rate != 0 && click_count != 0,
        },
{
    if target.length_frames == 0 {
        Some("The current loop has no length")
    } else if sample_rate == 0 {
        Some("The active sample rate is unavailable")
    } else if click_count == 0 {
        Some("Choose at least one click")
    } else {
        None
    }
}

/// The loop with identity `id`, searching the tracks' loops in order.
pub fn find_loop(tracks: &Vec<Vec<LoopState>>, id: LoopId) -> (r: Option<&LoopState>)
    ensures
        match r {
            Some(found) => found.id == id && exists|t: int, l: int| 0 <= t < tracks@.len() && 0 <= l < tracks@[t]@.len()
                && tracks@[t]@[l] == *found
                && (forall|t2: int, l2: int| 0 <= t2 < tracks@.len() && 0 <= l2 < tracks@[t2]@.len() && (#[trigger] tracks@[t2]@[l2]).id == id
                    ==> t < t2 || (t == t2 && l <= l2)),
            None => forall|t: int, l: int| 0 <= t < tracks@.len() && 0 <= l < tracks@[t]@.len() ==> (#[trigger] tracks@[t]@[l]).id != id,
        },
{
    let mut t: usize = 0;
    while t < tracks.len()
        invariant
            t <= tracks@.len(),
            forall|t2: int, l2: int| 0 <= t2 < t && 0 <= l2 < tracks@[t2]@.len() ==> (#[trigger] tracks@[t2]@[l2]).id != id,
        decreases tracks@.len() - t,
    {
        let loops = &tracks[t];
        let mut l: usize = 0;
        while l < loops.len()
            invariant
                t < tracks@.len(),
                *loops == tracks@[t as int],
                l <= loops@.len(),
                forall|t2: int, l2: int| 0 <= t2 < t && 0 <= l2 < tracks@[t2]@.len() ==> (#[trigger] tracks@[t2]@[l2]).id != id,
                forall|l2: int| 0 <= l2 < l ==> (#[trigger] loops@[l2]).id != id,
            decreases loops@.len() - l,
        {
            if loops[l].id == id {
                proof {
                    assert forall|t2: int, l2: int| 0 <= t2 < tracks@.len() && 0 <= l2 < tracks@[t2]@.len() && (#[trigger] tracks@[t2]@[l2]).id == id
                        implies t < t2 || (t == t2 && l <= l2) by {
                        if t2 == t {
                            assert(loops@[l2].id == id);
                        }
                    }
                    assert(tracks@[t as int]@[l as int] == loops@[l as int]);
                }
                return Some(&loops[l]);
            }
            l = l + 1;
        }
        t = t + 1;
    }
    None
}

/// Some track holds a loop with identity `id`.
pub open spec fn loop_listed(tracks: Seq<Vec<LoopState>>, id: LoopId) -> bool {
    exists|t: int, l: int| 0 <= t < tracks.len() && 0 <= l < tracks[t]@.len() && (#[trigger] tracks[t]@[l]).id == id
}

/// The message shown when the dialog's loop has gone.
pub open spec fn target_gone_message() -> Seq<char> {
    "The target loop is no longer available"@
}

/// What the user does in the click track dialog.
#[derive(Clone, Copy, Debug, PartialEq, Eq, Structural)]
pub enum ClickDialogEvent {
    /// The dialog is drawn with no click.
    Frame,
    Preview,
    Generate,
    Cancel,
    /// The window's close button.
    Close,
}

/// What the dialog asks the application for the target loop.
#[derive(Clone, Copy, Debug, PartialEq, Eq, Structural)]
pub enum ClickDialogAction {
    Nothing,
    Preview(LoopId),
    Generate(LoopId),
}

/// The click track dialog apart from its drafts: the loop it is open for, the last
/// validation message, and whether audio preview exists on this system.
#[derive(Clone, Debug, PartialEq, Eq)]
pub struct ClickTrackDialogState {
    pub target: Option<LoopId>,
    pub validation_message: Option<String>,
    pub preview_available: bool,
}

/// Preview needs valid settings of an audio click track and an audio path for previewing.
pub open spec fn spec_preview_enabled(valid: bool, kind: ClickTrackKind, preview_available: bool) -> bool {
    valid && kind == ClickTrackKind::Audio && preview_available
}

/// Why the preview button is off, when it is.
pub open spec fn spec_preview_disabled_reason(preview_available: bool) -> Seq<char> {
    if preview_available {
        "Preview requires valid audio click settings"@
    } else {
        "Audio preview is unavailable on this system"@
    }
}

impl ClickTrackDialogState {
    /// A closed dialog; preview is assumed available.
    pub fn new() -> (r: Self)
        ensures
            r.target is None,
            r.validation_message is None,
            r.preview_available,
    {
        ClickTrackDialogState { target: None, validation_message: None, preview_available: true }
    }

    /// Opens the dialog for `target`, with no message.
    pub fn open(&mut self, target: LoopId)
        ensures
            final(self).target == Some(target),
            final(self).validation_message is None,
            final(self).preview_available == old(self).preview_available,
    {
        self.target = Some(target);
        self.validation_message = None;
    }

    /// The dialog's loop among `tracks`. A loop that is gone closes the dialog with a message;
    /// the drafts are kept.
    pub fn resolve_target<'a>(&mut self, tracks: &'a Vec<Vec<LoopState>>) -> (r: Option<&'a LoopState>)
        ensures
            match old(self).target {
                None => r is None && *final(self) == *old(self),
                Some(id) => if loop_listed(tracks@, id) {
                    r matches Some(found) && found.id == id && *final(self) == *old(self)
                } else {
                    &&& r is None
                    &&& final(self).target is None
                    &&& final(self).validation_message matches Some(m) && m@ == target_gone_message()
                    &&& final(self).preview_available == old(self).preview_available
                },
            },
    {
        match self.target {
            None => None,
            Some(id) => {
                let found = find_loop(tracks, id);
                match found {
                    Some(target) => {
                        proof {
                            let t = choose|t: int, l: int| 0 <= t < tracks@.len() && 0 <= l < tracks@[t]@.len() && tracks@[t]@[l] == *target
                                && (forall|t2: int, l2: int| 0 <= t2 < tracks@.len() && 0 <= l2 < tracks@[t2]@.len() && (#[trigger] tracks@[t2]@[l2]).id == id
                                    ==> t < t2 || (t == t2 && l <= l2));
                            assert(tracks@[t.0]@[t.1].id == id);
                        }
                        Some(target)
                    },
                    None => {
                        self.target = None;
                        self.validation_message = Some("The target loop is no longer available".to_string());
                        proof {
                            reveal_strlit("The target loop is no longer available");
                        }
                        None
                    },
                }
            },
        }
    }

    /// Whether the preview button works: see `spec_preview_enabled`.
    pub fn preview_enabled(&self, valid: bool, kind: ClickTrackKind) -> (r: bool)
        ensures
            r == spec_preview_enabled(valid, kind, self.preview_available),
    {
        valid && kind == ClickTrackKind::Audio && self.preview_available
    }

    /// The hover text of a disabled preview button.
    pub fn preview_disabled_reason(&self) -> (r: &'static str)
        ensures
            r@ == spec_preview_disabled_reason(self.preview_available),
    {
        if self.preview_available {
            "Preview requires valid audio click settings"
        } else {
            "Audio preview is unavailable on this system"
        }
    }

    /// One drawing of the dialog with its draft's validation result (`validation`, the
    /// message of a refused draft) and draft kind. A closed dialog does nothing. An open one
    /// remembers the message; preview works as `spec_preview_enabled` says; generate works
    /// for a valid draft and closes the dialog; cancel and the close button close it.
    pub fn dialog_step(&mut self, validation: Option<String>, kind: ClickTrackKind, event: ClickDialogEvent) -> (r: ClickDialogAction)
        ensures
            match old(self).target {
                None => r == ClickDialogAction::Nothing && *final(self) == *old(self),
                Some(target) => {
                    &&& final(self).validation_message == validation
                    &&& final(self).preview_available == old(self).preview_available
                    &&& r == match event {
                        ClickDialogEvent::Preview => if spec_preview_enabled(validation is None, kind, old(self).preview_available) {
                            ClickDialogAction::Preview(target)
                        } else {
                            ClickDialogAction::Nothing
                        },
                        ClickDialogEvent::Generate => if validation is None {
                            ClickDialogAction::Generate(target)
                        } else {
                            ClickDialogAction::Nothing
                        },
                        _ => ClickDialogAction::Nothing,
                    }
                    &&& final(self).target == match event {
                        ClickDialogEvent::Generate => if validation is None { None } else { Some(target) },
                        ClickDialogEvent::Cancel | ClickDialogEvent::Close => None,
                        _ => Some(target),
                    }
                },
            },
    {
        let target = match self.target {
            Some(id) => id,
            None => {
                return ClickDialogAction::Nothing;
            },
        };
        let valid = validation.is_none();
        self.validation_message = validation;
        match event {
            ClickDialogEvent::Preview => if self.preview_enabled(valid, kind) {
                ClickDialogAction::Preview(target)
            } else {
                ClickDialogAction::Nothing
            },
            ClickDialogEvent::Generate => if valid {
                self.target = None;
                ClickDialogAction::Generate(target)
            } else {
                ClickDialogAction::Nothing
            },
            ClickDialogEvent::Cancel | ClickDialogEvent::Close => {
                self.target = None;
                ClickDialogAction::Nothing
            },
            ClickDialogEvent::Frame => ClickDialogAction::Nothing,
        }
    }
}

} // verus!
